//! Uploads of video, audio and images: where a medium's files are made and
//! stored, what a medium is marked as, and which course an upload takes.

use vstd::prelude::*;
use crate::collection::{CollectionValues, collection_values_items, unique_keys};

verus! {

/// A file that came with a request: the name and content type it was sent with.
pub struct UploadedFile {
    pub file_name: Option<String>,
    pub content_type: Option<String>,
}

/// A video upload, with an optional poster image.
pub struct VideoUpload {
    pub video: UploadedFile,
    pub poster: Option<UploadedFile>,
    pub addtocollection: bool,
    pub addtoalbum: bool,
    pub title: Option<String>,
    pub Description: Option<String>,
    pub CollectionId: Option<String>,
}

/// An audio upload, with an optional poster image.
pub struct AudioUpload {
    pub audio: UploadedFile,
    pub poster: Option<UploadedFile>,
    pub addtocollection: bool,
    pub addtoalbum: bool,
    pub title: Option<String>,
    pub Description: Option<String>,
    pub CollectionId: Option<String>,
}

/// An image upload.
pub struct ImageUpload {
    pub image: UploadedFile,
    pub title: Option<String>,
    pub addtocollection: bool,
    pub addtoalbum: bool,
    pub Description: Option<String>,
    pub CollectionId: Option<String>,
}

/// What a medium is marked as in its properties.
#[derive(Debug, Clone, Copy, PartialEq, Eq, Structural)]
pub struct MediaFlags {
    pub Poster: bool,
    pub Album: bool,
    pub Avatar: bool,
}

// ---------------------------------------------------------------- paths

/// The local directory where the files of medium `id` are made.
pub open spec fn work_dir_of(process: Seq<char>, bucket: Seq<char>, id: Seq<char>) -> Seq<char> {
    process + "/"@ + bucket + "/"@ + id
}

/// The local path of a file of medium `id`.
pub open spec fn work_path_of(process: Seq<char>, bucket: Seq<char>, id: Seq<char>, file: Seq<char>) -> Seq<char> {
    work_dir_of(process, bucket, id) + "/"@ + file
}

/// The object store path of a file of medium `id`.
pub open spec fn upload_path_of(id: Seq<char>, file: Seq<char>) -> Seq<char> {
    id + "/"@ + file
}

fn concat3(a: &str, b: &str, c: &str) -> (res: String)
    ensures
        res@ == a@ + b@ + c@,
{
    let mut s = a.to_string();
    s.append(b);
    s.append(c);
    s
}

/// The local directory where the files of medium `id` are made.
pub fn work_dir(process: &str, bucket: &str, id: &str) -> (res: String)
    ensures
        res@ == work_dir_of(process@, bucket@, id@),
{
    proof {
        reveal_strlit("/");
    }
    let a = concat3(process, "/", bucket);
    let b = concat3(a.as_str(), "/", id);
    assert(b@ =~= work_dir_of(process@, bucket@, id@));
    b
}

/// The local paths of the files of medium `id`.
pub fn work_paths(process: &str, bucket: &str, id: &str, files: &Vec<String>) -> (res: Vec<String>)
    ensures
        res@.len() == files@.len(),
        forall|i: int| 0 <= i < files@.len() ==> (#[trigger] res@[i])@ == work_path_of(process@, bucket@, id@, files@[i]@),
{
    proof {
        reveal_strlit("/");
    }
    let dir = work_dir(process, bucket, id);
    let mut res: Vec<String> = Vec::new();
    let mut k: usize = 0;
    while k < files.len()
        invariant
            k <= files@.len(),
            res@.len() == k,
            dir@ == work_dir_of(process@, bucket@, id@),
            forall|i: int| 0 <= i < k ==> (#[trigger] res@[i])@ == work_path_of(process@, bucket@, id@, files@[i]@),
        decreases files@.len() - k,
    {
        let p = concat3(dir.as_str(), "/", files[k].as_str());
        res.push(p);
        k = k + 1;
    }
    res
}

/// The object store paths of the files of medium `id`.
pub fn upload_paths(id: &str, files: &Vec<String>) -> (res: Vec<String>)
    ensures
        res@.len() == files@.len(),
        forall|i: int| 0 <= i < files@.len() ==> (#[trigger] res@[i])@ == upload_path_of(id@, files@[i]@),
{
    proof {
        reveal_strlit("/");
    }
    let mut res: Vec<String> = Vec::new();
    let mut k: usize = 0;
    while k < files.len()
        invariant
            k <= files@.len(),
            res@.len() == k,
            forall|i: int| 0 <= i < k ==> (#[trigger] res@[i])@ == upload_path_of(id@, files@[i]@),
        decreases files@.len() - k,
    {
        let p = concat3(id, "/", files[k].as_str());
        res.push(p);
        k = k + 1;
    }
    res
}

/// The names of the files made of a video: three sizes in WebM.
pub fn video_files(id: &str) -> (res: Vec<String>)
    ensures
        res@.len() == 3,
        res@[0]@ == id@ + "_320.webm"@,
        res@[1]@ == id@ + "_720.webm"@,
        res@[2]@ == id@ + "_1280.webm"@,
{
    let mut res: Vec<String> = Vec::new();
    let mut a = id.to_string();
    a.append("_320.webm");
    res.push(a);
    let mut b = id.to_string();
    b.append("_720.webm");
    res.push(b);
    let mut c = id.to_string();
    c.append("_1280.webm");
    res.push(c);
    res
}

/// The name of the file made of an audio upload: FLAC.
pub fn audio_files(id: &str) -> (res: Vec<String>)
    ensures
        res@.len() == 1,
        res@[0]@ == id@ + "_High.flac"@,
{
    let mut res: Vec<String> = Vec::new();
    let mut a = id.to_string();
    a.append("_High.flac");
    res.push(a);
    res
}

/// The name of the file made of an image upload: WebP.
pub fn image_files(id: &str) -> (res: Vec<String>)
    ensures
        res@.len() == 1,
        res@[0]@ == id@ + "_High.webp"@,
{
    let mut res: Vec<String> = Vec::new();
    let mut a = id.to_string();
    a.append("_High.webp");
    res.push(a);
    res
}

// ---------------------------------------------------------------- collection details

/// The details handed to the collection of an uploaded medium: its public
/// identifier, its kind, the collection (when one is named) and whether it
/// goes to an album.
pub open spec fn details_for(id: Seq<char>, kind: Seq<char>, collection_id: Option<Seq<char>>, addtoalbum: bool) -> Seq<(Seq<char>, Seq<Seq<char>>)> {
    let base = seq![("Ids"@, seq![id]), ("Type"@, seq![kind])];
    let with_id = match collection_id {
        Some(c) => base.push(("Collection_Id"@, seq![c])),
        None => base,
    };
    if addtoalbum { with_id.push(("AddToAlbum"@, seq!["true"@])) } else { with_id }
}

/// The views of collection detail entries.
pub open spec fn details_view(d: Seq<(String, CollectionValues)>) -> Seq<(Seq<char>, Seq<Seq<char>>)> {
    d.map_values(|e: (String, CollectionValues)| (e.0@, collection_values_items(e.1)))
}

/// The details handed to the collection of an uploaded medium.
pub fn collection_details(id: &str, kind: &str, collection_id: &Option<String>, addtoalbum: bool) -> (res: Vec<(String, CollectionValues)>)
    ensures
        details_view(res@) == details_for(id@, kind@, match collection_id { Some(c) => Some(c@), None => None }, addtoalbum),
        forall|i: int| 0 <= i < res@.len() ==> (#[trigger] res@[i]).1 is String,
        unique_keys(res@),
{
    proof {
        reveal_strlit("true");
        reveal_strlit("Ids");
        reveal_strlit("Type");
        reveal_strlit("Collection_Id");
        reveal_strlit("AddToAlbum");
    }
    let mut res: Vec<(String, CollectionValues)> = Vec::new();
    res.push(("Ids".to_string(), CollectionValues::String(id.to_string())));
    res.push(("Type".to_string(), CollectionValues::String(kind.to_string())));
    let ghost cid = match collection_id { Some(c) => Some(c@), None => None };
    if let Some(c) = collection_id {
        res.push(("Collection_Id".to_string(), CollectionValues::String(c.clone())));
    }
    if addtoalbum {
        res.push(("AddToAlbum".to_string(), CollectionValues::String("true".to_string())));
    }
    assert(details_view(res@) =~= details_for(id@, kind@, cid, addtoalbum));
    proof {
        assert("Ids"@[0] == 'I' && "Type"@[0] == 'T' && "Collection_Id"@[0] == 'C' && "AddToAlbum"@[0] == 'A');
        assert forall|i: int, j: int| 0 <= i < res@.len() && 0 <= j < res@.len() && i != j implies (#[trigger] res@[i]).0@ != (#[trigger] res@[j]).0@ by {
            assert(res@[i].0@ == details_view(res@)[i].0 && res@[j].0@ == details_view(res@)[j].0);
        }
    }
    res
}

// ---------------------------------------------------------------- courses

/// The course of a video upload.
#[derive(Debug, Clone, Copy, PartialEq, Eq, Structural)]
pub enum VideoBranch {
    /// Stored and added to the named collection; no conversion.
    Collection,
    /// Stored and added to the named album; no conversion.
    Album,
    /// Stored, then converted and published.
    Transcode,
    /// Refused.
    Failure,
}

/// The course of a video upload.
pub open spec fn video_branch_of(addtocollection: bool, addtoalbum: bool, has_collection: bool) -> VideoBranch {
    if addtocollection && has_collection {
        VideoBranch::Collection
    } else if addtoalbum && has_collection && !addtocollection {
        VideoBranch::Album
    } else if !addtocollection {
        VideoBranch::Transcode
    } else {
        VideoBranch::Failure
    }
}

/// The course of a video upload.
pub fn video_branch(addtocollection: bool, addtoalbum: bool, has_collection: bool) -> (res: VideoBranch)
    ensures
        res == video_branch_of(addtocollection, addtoalbum, has_collection),
{
    if addtocollection && has_collection {
        VideoBranch::Collection
    } else if addtoalbum && has_collection && !addtocollection {
        VideoBranch::Album
    } else if !addtocollection {
        VideoBranch::Transcode
    } else {
        VideoBranch::Failure
    }
}

/// The marks of a stored video: in an album only on the album course.
pub open spec fn video_flags_of(b: VideoBranch) -> MediaFlags {
    MediaFlags { Poster: false, Album: b == VideoBranch::Album, Avatar: false }
}

/// The title of a stored video: the file name when no title is given, and
/// the empty title when one is.
pub open spec fn video_title_of(title: Option<String>, file_name: Seq<char>) -> Seq<char> {
    if title is None { file_name } else { Seq::<char>::empty() }
}

/// The course of a video upload by its switches: it joins the named
/// collection exactly when it is for a collection and one is named; it joins
/// the named album exactly when it is for an album, not for a collection, and
/// one is named; it is converted exactly when it is for no collection and not
/// for a named album; it is refused exactly when it is for a collection and
/// none is named. Only the album course marks the video as an album entry,
/// and no video is marked as a poster or an avatar.
pub proof fn lemma_video_courses(addtocollection: bool, addtoalbum: bool, has_collection: bool)
    ensures
        (video_branch_of(addtocollection, addtoalbum, has_collection) == VideoBranch::Collection) == (addtocollection && has_collection),
        (video_branch_of(addtocollection, addtoalbum, has_collection) == VideoBranch::Album) == (!addtocollection && addtoalbum && has_collection),
        (video_branch_of(addtocollection, addtoalbum, has_collection) == VideoBranch::Transcode) == (!addtocollection && !(addtoalbum && has_collection)),
        (video_branch_of(addtocollection, addtoalbum, has_collection) == VideoBranch::Failure) == (addtocollection && !has_collection),
        video_flags_of(video_branch_of(addtocollection, addtoalbum, has_collection)).Album == (!addtocollection && addtoalbum && has_collection),
        !video_flags_of(video_branch_of(addtocollection, addtoalbum, has_collection)).Poster,
        !video_flags_of(video_branch_of(addtocollection, addtoalbum, has_collection)).Avatar,
{
}

/// Everything a video upload's handling needs to know before any file is made.
pub struct VideoPlan {
    pub public_id: String,
    pub title: String,
    pub files: Vec<String>,
    pub work_dir: String,
    pub work_paths: Vec<String>,
    pub upload_paths: Vec<String>,
    pub branch: VideoBranch,
    pub flags: MediaFlags,
    pub details: Vec<(String, CollectionValues)>,
}

/// Why an upload cannot be handled.
#[derive(Debug, Clone, Copy, PartialEq, Eq, Structural)]
pub enum UploadError {
    /// The uploaded file came without a name.
    MissingFileName,
}

/// The plan of a video upload with public identifier `public_id`, made in
/// `process`/`bucket`.
pub fn plan_video_upload(upload: &VideoUpload, public_id: &str, process: &str, bucket: &str) -> (res: Result<VideoPlan, UploadError>)
    ensures
        upload.video.file_name is None ==> res == Err::<VideoPlan, UploadError>(UploadError::MissingFileName),
        upload.video.file_name is Some ==> (res matches Ok(p) && {
            let b = video_branch_of(upload.addtocollection, upload.addtoalbum, upload.CollectionId is Some);
            &&& p.public_id@ == public_id@
            &&& p.title@ == video_title_of(upload.title, upload.video.file_name->Some_0@)
            &&& p.files@.len() == 3
            &&& p.files@[0]@ == public_id@ + "_320.webm"@
            &&& p.files@[1]@ == public_id@ + "_720.webm"@
            &&& p.files@[2]@ == public_id@ + "_1280.webm"@
            &&& p.work_dir@ == work_dir_of(process@, bucket@, public_id@)
            &&& p.work_paths@.len() == 3
            &&& forall|i: int| 0 <= i < 3 ==> (#[trigger] p.work_paths@[i])@ == work_path_of(process@, bucket@, public_id@, p.files@[i]@)
            &&& p.upload_paths@.len() == 3
            &&& forall|i: int| 0 <= i < 3 ==> (#[trigger] p.upload_paths@[i])@ == upload_path_of(public_id@, p.files@[i]@)
            &&& p.branch == b
            &&& p.flags == video_flags_of(b)
            &&& p.flags.Album == (upload.addtoalbum && upload.CollectionId is Some && !upload.addtocollection)
            &&& !p.flags.Poster && !p.flags.Avatar
            &&& (p.branch == VideoBranch::Collection) == (upload.addtocollection && upload.CollectionId is Some)
            &&& details_view(p.details@) == details_for(public_id@, "Video"@, match upload.CollectionId { Some(c) => Some(c@), None => None }, upload.addtoalbum)
            &&& forall|i: int| 0 <= i < p.details@.len() ==> (#[trigger] p.details@[i]).1 is String
        }),
{
    let name = match &upload.video.file_name {
        Some(n) => n,
        None => {
            return Err(UploadError::MissingFileName);
        },
    };
    let title = if upload.title.is_none() { name.clone() } else { String::new() };
    let files = video_files(public_id);
    let dir = work_dir(process, bucket, public_id);
    let wp = work_paths(process, bucket, public_id, &files);
    let up = upload_paths(public_id, &files);
    let branch = video_branch(upload.addtocollection, upload.addtoalbum, upload.CollectionId.is_some());
    let flags = MediaFlags { Poster: false, Album: branch == VideoBranch::Album, Avatar: false };
    let details = collection_details(public_id, "Video", &upload.CollectionId, upload.addtoalbum);
    Ok(VideoPlan {
        public_id: public_id.to_string(),
        title,
        files,
        work_dir: dir,
        work_paths: wp,
        upload_paths: up,
        branch,
        flags,
        details,
    })
}

/// The details that an audio upload hands to its collection: the collection
/// (when one is named) and whether it goes to an album.
pub open spec fn audio_details_for(collection_id: Option<Seq<char>>, addtoalbum: bool) -> Seq<(Seq<char>, Seq<Seq<char>>)> {
    let with_id = match collection_id {
        Some(c) => seq![("Collection_Id"@, seq![c])],
        None => Seq::empty(),
    };
    if addtoalbum { with_id.push(("AddToAlbum"@, seq!["true"@])) } else { with_id }
}

/// The details that an audio upload hands to its collection.
pub fn audio_collection_details(collection_id: &Option<String>, addtoalbum: bool) -> (res: Vec<(String, CollectionValues)>)
    ensures
        details_view(res@) == audio_details_for(match collection_id { Some(c) => Some(c@), None => None }, addtoalbum),
        forall|i: int| 0 <= i < res@.len() ==> (#[trigger] res@[i]).1 is String,
        unique_keys(res@),
{
    proof {
        reveal_strlit("true");
        reveal_strlit("Collection_Id");
        reveal_strlit("AddToAlbum");
    }
    let mut res: Vec<(String, CollectionValues)> = Vec::new();
    let ghost cid = match collection_id { Some(c) => Some(c@), None => None };
    if let Some(c) = collection_id {
        res.push(("Collection_Id".to_string(), CollectionValues::String(c.clone())));
    }
    if addtoalbum {
        res.push(("AddToAlbum".to_string(), CollectionValues::String("true".to_string())));
    }
    assert(details_view(res@) =~= audio_details_for(cid, addtoalbum));
    proof {
        assert("Collection_Id"@[0] == 'C' && "AddToAlbum"@[0] == 'A');
        assert forall|i: int, j: int| 0 <= i < res@.len() && 0 <= j < res@.len() && i != j implies (#[trigger] res@[i]).0@ != (#[trigger] res@[j]).0@ by {
            assert(res@[i].0@ == details_view(res@)[i].0 && res@[j].0@ == details_view(res@)[j].0);
        }
    }
    res
}

/// What follows the first steps of an audio upload.
#[derive(Debug, Clone, Copy, PartialEq, Eq, Structural)]
pub enum AudioBranch {
    /// Stored and added to the named collection; no conversion.
    Collection,
    /// Stored (once more) and added to the named album; no conversion.
    Album,
    /// Converted and published.
    Transcode,
}

/// What follows the first steps of an audio upload.
pub open spec fn audio_branch_of(addtocollection: bool, addtoalbum: bool, has_collection: bool) -> AudioBranch {
    if addtocollection && has_collection {
        AudioBranch::Collection
    } else if addtoalbum && has_collection && !addtocollection {
        AudioBranch::Album
    } else {
        AudioBranch::Transcode
    }
}

/// The course of an audio upload by its switches: it joins the named
/// collection exactly when it is for a collection and one is named; it joins
/// the named album exactly when it is for an album, not for a collection, and
/// one is named; in every other case it is converted and published.
pub proof fn lemma_audio_courses(addtocollection: bool, addtoalbum: bool, has_collection: bool)
    ensures
        (audio_branch_of(addtocollection, addtoalbum, has_collection) == AudioBranch::Collection) == (addtocollection && has_collection),
        (audio_branch_of(addtocollection, addtoalbum, has_collection) == AudioBranch::Album) == (!addtocollection && addtoalbum && has_collection),
        (audio_branch_of(addtocollection, addtoalbum, has_collection) == AudioBranch::Transcode) == !(has_collection && (addtocollection || addtoalbum)),
{
}

/// Everything an audio upload's handling needs to know before any file is made.
pub struct AudioPlan {
    pub public_id: String,
    pub title: String,
    pub files: Vec<String>,
    pub work_dir: String,
    pub work_paths: Vec<String>,
    pub upload_paths: Vec<String>,
    /// Whether the medium is stored before anything else: when it is not for a collection.
    pub store_first: bool,
    pub branch: AudioBranch,
    pub details: Vec<(String, CollectionValues)>,
}

/// The plan of an audio upload with public identifier `public_id`, made in
/// `process`/`bucket`: its title is the file name.
pub fn plan_audio_upload(upload: &AudioUpload, public_id: &str, process: &str, bucket: &str) -> (res: Result<AudioPlan, UploadError>)
    ensures
        upload.audio.file_name is None ==> res == Err::<AudioPlan, UploadError>(UploadError::MissingFileName),
        upload.audio.file_name is Some ==> (res matches Ok(p) && {
            &&& p.public_id@ == public_id@
            &&& p.title@ == upload.audio.file_name->Some_0@
            &&& p.files@.len() == 1
            &&& p.files@[0]@ == public_id@ + "_High.flac"@
            &&& p.work_dir@ == work_dir_of(process@, bucket@, public_id@)
            &&& p.work_paths@.len() == 1
            &&& p.work_paths@[0]@ == work_path_of(process@, bucket@, public_id@, p.files@[0]@)
            &&& p.upload_paths@.len() == 1
            &&& p.upload_paths@[0]@ == upload_path_of(public_id@, p.files@[0]@)
            &&& p.store_first == !upload.addtocollection
            &&& p.branch == audio_branch_of(upload.addtocollection, upload.addtoalbum, upload.CollectionId is Some)
            &&& (p.branch == AudioBranch::Album) == (upload.addtoalbum && upload.CollectionId is Some && !upload.addtocollection)
            &&& (p.branch == AudioBranch::Collection) == (upload.addtocollection && upload.CollectionId is Some)
            &&& details_view(p.details@) == audio_details_for(match upload.CollectionId { Some(c) => Some(c@), None => None }, upload.addtoalbum)
            &&& forall|i: int| 0 <= i < p.details@.len() ==> (#[trigger] p.details@[i]).1 is String
        }),
{
    let name = match &upload.audio.file_name {
        Some(n) => n,
        None => {
            return Err(UploadError::MissingFileName);
        },
    };
    let files = audio_files(public_id);
    let dir = work_dir(process, bucket, public_id);
    let wp = work_paths(process, bucket, public_id, &files);
    let up = upload_paths(public_id, &files);
    let has_collection = upload.CollectionId.is_some();
    let branch = if upload.addtocollection && has_collection {
        AudioBranch::Collection
    } else if upload.addtoalbum && has_collection && !upload.addtocollection {
        AudioBranch::Album
    } else {
        AudioBranch::Transcode
    };
    let details = audio_collection_details(&upload.CollectionId, upload.addtoalbum);
    Ok(AudioPlan {
        public_id: public_id.to_string(),
        title: name.clone(),
        files,
        work_dir: dir,
        work_paths: wp,
        upload_paths: up,
        store_first: !upload.addtocollection,
        branch,
        details,
    })
}

/// The course of an image upload.
#[derive(Debug, Clone, Copy, PartialEq, Eq, Structural)]
pub enum ImageBranch {
    /// Stored as an album entry and added to its collection.
    Album,
    /// Stored as a collection entry and added to its collection.
    Collection,
    /// Stored as a poster (of a video or audio upload).
    Poster,
    /// Stored as an account's avatar.
    Avatar,
    /// Stored as an image of its own.
    Plain,
    /// Refused: a poster cannot go to a collection.
    PosterInCollection,
    /// Refused.
    Failure,
}

/// The course of an image upload, by its switches, taken in this order.
pub open spec fn image_branch_of(addtoalbum: bool, addtocollection: bool, poster: bool, avatar: bool) -> ImageBranch {
    if addtoalbum {
        ImageBranch::Album
    } else if addtocollection && !addtoalbum {
        ImageBranch::Collection
    } else if poster {
        ImageBranch::Poster
    } else if avatar {
        ImageBranch::Avatar
    } else if addtocollection && poster {
        ImageBranch::PosterInCollection
    } else if !addtocollection && !poster {
        ImageBranch::Plain
    } else {
        ImageBranch::Failure
    }
}

/// Every image upload is stored on one of its five courses: the two refusals
/// can never be reached.
pub proof fn lemma_image_upload_always_stored(addtoalbum: bool, addtocollection: bool, poster: bool, avatar: bool)
    ensures
        image_branch_of(addtoalbum, addtocollection, poster, avatar) != ImageBranch::PosterInCollection,
        image_branch_of(addtoalbum, addtocollection, poster, avatar) != ImageBranch::Failure,
{
}

/// The course of an image upload.
pub fn image_branch(addtoalbum: bool, addtocollection: bool, poster: bool, avatar: bool) -> (res: ImageBranch)
    ensures
        res == image_branch_of(addtoalbum, addtocollection, poster, avatar),
{
    if addtoalbum {
        ImageBranch::Album
    } else if addtocollection && !addtoalbum {
        ImageBranch::Collection
    } else if poster {
        ImageBranch::Poster
    } else if avatar {
        ImageBranch::Avatar
    } else if addtocollection && poster {
        ImageBranch::PosterInCollection
    } else if !addtocollection && !poster {
        ImageBranch::Plain
    } else {
        ImageBranch::Failure
    }
}

/// The marks of a stored image on its course.
pub open spec fn image_flags_of(b: ImageBranch) -> MediaFlags {
    MediaFlags {
        Poster: b == ImageBranch::Poster,
        Album: b == ImageBranch::Album || b == ImageBranch::Collection,
        Avatar: b == ImageBranch::Avatar,
    }
}

/// The course and marks of an image upload by its switches: the album
/// switch wins and makes an album entry; else the collection switch makes a
/// collection entry; else the poster switch a poster; else the avatar switch
/// an avatar; else a plain image. An image is marked as an album entry
/// exactly when either the album or the collection switch is set, as a poster
/// exactly on the poster course, and as an avatar exactly on the avatar course.
pub proof fn lemma_image_courses(addtoalbum: bool, addtocollection: bool, poster: bool, avatar: bool)
    ensures
        (image_branch_of(addtoalbum, addtocollection, poster, avatar) == ImageBranch::Album) == addtoalbum,
        (image_branch_of(addtoalbum, addtocollection, poster, avatar) == ImageBranch::Collection) == (!addtoalbum && addtocollection),
        (image_branch_of(addtoalbum, addtocollection, poster, avatar) == ImageBranch::Poster) == (!addtoalbum && !addtocollection && poster),
        (image_branch_of(addtoalbum, addtocollection, poster, avatar) == ImageBranch::Avatar) == (!addtoalbum && !addtocollection && !poster && avatar),
        (image_branch_of(addtoalbum, addtocollection, poster, avatar) == ImageBranch::Plain) == (!addtoalbum && !addtocollection && !poster && !avatar),
        image_flags_of(image_branch_of(addtoalbum, addtocollection, poster, avatar)).Album == (addtoalbum || addtocollection),
        image_flags_of(image_branch_of(addtoalbum, addtocollection, poster, avatar)).Poster == (!addtoalbum && !addtocollection && poster),
        image_flags_of(image_branch_of(addtoalbum, addtocollection, poster, avatar)).Avatar == (!addtoalbum && !addtocollection && !poster && avatar),
{
}

/// Whether an image on this course is added to a collection.
pub open spec fn image_adds_to_collection(b: ImageBranch) -> bool {
    b == ImageBranch::Album || b == ImageBranch::Collection || b == ImageBranch::Poster
}

/// Everything an image upload's handling needs to know before any file is made.
pub struct ImagePlan {
    pub public_id: String,
    pub title: String,
    pub description: Option<String>,
    pub files: Vec<String>,
    pub work_dir: String,
    pub work_paths: Vec<String>,
    pub upload_paths: Vec<String>,
    /// The paths kept with the stored image.
    pub stored_paths: Vec<String>,
    pub branch: ImageBranch,
    pub flags: MediaFlags,
    pub adds_to_collection: bool,
    pub details: Vec<(String, CollectionValues)>,
}

/// The plan of an image upload with public identifier `public_id`, made in
/// `process`/`bucket`, as a poster or an avatar when those switches are on:
/// its title is the file name; its description is the one given (or empty),
/// except that an avatar has none; a collection entry keeps only its file
/// name, other images their object store paths.
pub fn plan_image_upload(upload: &ImageUpload, poster: bool, avatar: bool, public_id: &str, process: &str, bucket: &str) -> (res: Result<ImagePlan, UploadError>)
    ensures
        upload.image.file_name is None ==> res == Err::<ImagePlan, UploadError>(UploadError::MissingFileName),
        upload.image.file_name is Some ==> (res matches Ok(p) && {
            let b = image_branch_of(upload.addtoalbum, upload.addtocollection, poster, avatar);
            &&& p.public_id@ == public_id@
            &&& p.title@ == upload.image.file_name->Some_0@
            &&& (b == ImageBranch::Avatar ==> p.description is None)
            &&& (b != ImageBranch::Avatar ==> p.description is Some && p.description->Some_0@ == (if upload.Description is Some { upload.Description->Some_0@ } else { Seq::<char>::empty() }))
            &&& p.files@.len() == 1
            &&& p.files@[0]@ == public_id@ + "_High.webp"@
            &&& p.work_dir@ == work_dir_of(process@, bucket@, public_id@)
            &&& p.work_paths@.len() == 1
            &&& p.work_paths@[0]@ == work_path_of(process@, bucket@, public_id@, p.files@[0]@)
            &&& p.upload_paths@.len() == 1
            &&& p.upload_paths@[0]@ == upload_path_of(public_id@, p.files@[0]@)
            &&& p.stored_paths@.len() == 1
            &&& p.stored_paths@[0]@ == (if b == ImageBranch::Collection { p.files@[0]@ } else { p.upload_paths@[0]@ })
            &&& p.branch == b
            &&& p.flags == image_flags_of(b)
            &&& p.flags.Album == (upload.addtoalbum || upload.addtocollection)
            &&& p.flags.Poster == (!upload.addtoalbum && !upload.addtocollection && poster)
            &&& p.flags.Avatar == (!upload.addtoalbum && !upload.addtocollection && !poster && avatar)
            &&& (p.branch == ImageBranch::Album) == upload.addtoalbum
            &&& p.adds_to_collection == image_adds_to_collection(b)
            &&& details_view(p.details@) == details_for(public_id@, "Image"@, match upload.CollectionId { Some(c) => Some(c@), None => None }, upload.addtoalbum)
            &&& forall|i: int| 0 <= i < p.details@.len() ==> (#[trigger] p.details@[i]).1 is String
        }),
{
    let name = match &upload.image.file_name {
        Some(n) => n,
        None => {
            return Err(UploadError::MissingFileName);
        },
    };
    let branch = image_branch(upload.addtoalbum, upload.addtocollection, poster, avatar);
    let description = if branch == ImageBranch::Avatar {
        None
    } else {
        match &upload.Description {
            Some(d) => Some(d.clone()),
            None => Some(String::new()),
        }
    };
    let files = image_files(public_id);
    let dir = work_dir(process, bucket, public_id);
    let wp = work_paths(process, bucket, public_id, &files);
    let up = upload_paths(public_id, &files);
    let mut stored: Vec<String> = Vec::new();
    if branch == ImageBranch::Collection {
        stored.push(files[0].clone());
    } else {
        stored.push(up[0].clone());
    }
    let flags = MediaFlags {
        Poster: branch == ImageBranch::Poster,
        Album: branch == ImageBranch::Album || branch == ImageBranch::Collection,
        Avatar: branch == ImageBranch::Avatar,
    };
    let adds = branch == ImageBranch::Album || branch == ImageBranch::Collection || branch == ImageBranch::Poster;
    let details = collection_details(public_id, "Image", &upload.CollectionId, upload.addtoalbum);
    Ok(ImagePlan {
        public_id: public_id.to_string(),
        title: name.clone(),
        description,
        files,
        work_dir: dir,
        work_paths: wp,
        upload_paths: up,
        stored_paths: stored,
        branch,
        flags,
        adds_to_collection: adds,
        details,
    })
}

} // verus!
