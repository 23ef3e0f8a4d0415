use varied::upload::{
    UploadedFile, VideoUpload, AudioUpload, ImageUpload, MediaFlags, VideoBranch, AudioBranch, ImageBranch,
    UploadError, work_dir, work_paths, upload_paths, video_files, audio_files, image_files, collection_details,
    audio_collection_details, video_branch, image_branch, plan_video_upload, plan_audio_upload, plan_image_upload,
};
use varied::collection::CollectionValues;

fn s(x: &str) -> String {
    x.to_string()
}

fn file(name: Option<&str>) -> UploadedFile {
    UploadedFile { file_name: name.map(s), content_type: Some(s("application/octet-stream")) }
}

#[test]
fn paths_of_made_and_stored_files() {
    assert_eq!(work_dir("/proc", "bucket", "ID"), "/proc/bucket/ID");
    let files = video_files("ID");
    assert_eq!(files, vec![s("ID_320.webm"), s("ID_720.webm"), s("ID_1280.webm")]);
    assert_eq!(work_paths("/proc", "b", "ID", &files)[2], "/proc/b/ID/ID_1280.webm");
    assert_eq!(upload_paths("ID", &files), vec![s("ID/ID_320.webm"), s("ID/ID_720.webm"), s("ID/ID_1280.webm")]);
    assert_eq!(audio_files("A"), vec![s("A_High.flac")]);
    assert_eq!(image_files("I"), vec![s("I_High.webp")]);
}

fn text_of(v: &CollectionValues) -> String {
    v.to_string()
}

#[test]
fn details_for_collections() {
    let d = collection_details("P", "Video", &Some(s("C")), true);
    let view: Vec<(String, String)> = d.iter().map(|(k, v)| (k.clone(), text_of(v))).collect();
    assert_eq!(view, vec![(s("Ids"), s("P")), (s("Type"), s("Video")), (s("Collection_Id"), s("C")), (s("AddToAlbum"), s("true"))]);
    assert_eq!(collection_details("P", "Image", &None, false).len(), 2);
    let a = audio_collection_details(&None, true);
    assert_eq!(a.len(), 1);
    assert_eq!(a[0].0, "AddToAlbum");
}

#[test]
fn video_courses() {
    assert_eq!(video_branch(true, false, true), VideoBranch::Collection);
    assert_eq!(video_branch(false, true, true), VideoBranch::Album);
    assert_eq!(video_branch(false, true, false), VideoBranch::Transcode);
    assert_eq!(video_branch(false, false, false), VideoBranch::Transcode);
    assert_eq!(video_branch(true, true, false), VideoBranch::Failure);
}

#[test]
fn image_courses_never_refuse() {
    for album in [false, true] {
        for coll in [false, true] {
            for poster in [false, true] {
                for avatar in [false, true] {
                    let b = image_branch(album, coll, poster, avatar);
                    assert!(b != ImageBranch::PosterInCollection && b != ImageBranch::Failure);
                }
            }
        }
    }
    assert_eq!(image_branch(true, true, true, true), ImageBranch::Album);
    assert_eq!(image_branch(false, true, true, false), ImageBranch::Collection);
    assert_eq!(image_branch(false, false, true, true), ImageBranch::Poster);
    assert_eq!(image_branch(false, false, false, true), ImageBranch::Avatar);
    assert_eq!(image_branch(false, false, false, false), ImageBranch::Plain);
}

#[test]
fn video_plan() {
    let up = VideoUpload {
        video: file(Some("clip.mp4")),
        poster: None,
        addtocollection: false,
        addtoalbum: true,
        title: None,
        Description: None,
        CollectionId: Some(s("C9")),
    };
    let p = plan_video_upload(&up, "PID", "/w", "vids").ok().unwrap();
    assert_eq!(p.title, "clip.mp4");
    assert_eq!(p.branch, VideoBranch::Album);
    assert_eq!(p.flags, MediaFlags { Poster: false, Album: true, Avatar: false });
    assert_eq!(p.work_dir, "/w/vids/PID");
    assert_eq!(p.work_paths[0], "/w/vids/PID/PID_320.webm");
    assert_eq!(p.upload_paths[1], "PID/PID_720.webm");
    assert_eq!(p.details.len(), 4);
    let titled = VideoUpload { title: Some(s("My clip")), ..up };
    assert_eq!(plan_video_upload(&titled, "PID", "/w", "vids").ok().unwrap().title, "");
    let nameless = VideoUpload { video: file(None), ..titled };
    assert_eq!(plan_video_upload(&nameless, "PID", "/w", "vids").err(), Some(UploadError::MissingFileName));
}

#[test]
fn audio_plan() {
    let up = AudioUpload {
        audio: file(Some("song.wav")),
        poster: None,
        addtocollection: true,
        addtoalbum: false,
        title: Some(s("ignored")),
        Description: None,
        CollectionId: Some(s("C1")),
    };
    let p = plan_audio_upload(&up, "AID", "/w", "snd").ok().unwrap();
    assert_eq!(p.title, "song.wav");
    assert!(!p.store_first);
    assert_eq!(p.branch, AudioBranch::Collection);
    assert_eq!(p.work_paths, vec![s("/w/snd/AID/AID_High.flac")]);
    assert_eq!(p.upload_paths, vec![s("AID/AID_High.flac")]);
    let plain = AudioUpload { addtocollection: false, CollectionId: None, ..up };
    let q = plan_audio_upload(&plain, "AID", "/w", "snd").ok().unwrap();
    assert!(q.store_first);
    assert_eq!(q.branch, AudioBranch::Transcode);
    let nameless = AudioUpload { audio: file(None), ..plain };
    assert_eq!(plan_audio_upload(&nameless, "AID", "/w", "snd").err(), Some(UploadError::MissingFileName));
}

#[test]
fn image_plan() {
    let up = ImageUpload {
        image: file(Some("pic.png")),
        title: None,
        addtocollection: true,
        addtoalbum: false,
        Description: Some(s("a picture")),
        CollectionId: None,
    };
    let p = plan_image_upload(&up, false, false, "IID", "/w", "img").ok().unwrap();
    assert_eq!(p.branch, ImageBranch::Collection);
    assert_eq!(p.stored_paths, vec![s("IID_High.webp")]);
    assert_eq!(p.flags, MediaFlags { Poster: false, Album: true, Avatar: false });
    assert!(p.adds_to_collection);
    assert_eq!(p.description, Some(s("a picture")));
    let avatar = ImageUpload { addtocollection: false, ..up };
    let a = plan_image_upload(&avatar, false, true, "IID", "/w", "img").ok().unwrap();
    assert_eq!(a.branch, ImageBranch::Avatar);
    assert_eq!(a.description, None);
    assert_eq!(a.stored_paths, vec![s("IID/IID_High.webp")]);
    assert!(!a.adds_to_collection);
    let plain = ImageUpload { image: file(Some("x.jpg")), title: None, addtocollection: false, addtoalbum: false, Description: None, CollectionId: None };
    let q = plan_image_upload(&plain, false, false, "Q", "/w", "img").ok().unwrap();
    assert_eq!(q.branch, ImageBranch::Plain);
    assert_eq!(q.description, Some(s("")));
    assert_eq!(q.title, "x.jpg");
    let nameless = ImageUpload { image: file(None), ..plain };
    assert_eq!(plan_image_upload(&nameless, false, false, "Q", "/w", "img").err(), Some(UploadError::MissingFileName));
}
