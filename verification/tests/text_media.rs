use varied::text::{word_count, text_media_type, text_details, update_text_reply, Text};
use varied::media::{
    MediaType, MediaState, media_file_path, extension_of, content_type_for, media_file_headers,
    media_has_files, media_file_url, poster_file_url, media_file_urls, poster_file_urls, has_media_id,
    apply_update_details, Media, UpdateDetails,
};

fn std_word_count(text: &str) -> [i64; 3] {
    let mut l = 0i64;
    let mut w = 0i64;
    let mut c = 0i64;
    for line in text.lines() {
        l += 1;
        w += line.split_whitespace().count() as i64;
        c += line.len() as i64 + 1;
    }
    [l, w, c]
}

#[test]
fn word_count_of_known_texts() {
    assert_eq!(word_count("".to_string()), [0, 0, 0]);
    assert_eq!(word_count("hello world".to_string()), [1, 2, 12]);
    assert_eq!(word_count("one\ntwo three\n".to_string()), [2, 3, 14]);
    assert_eq!(word_count("a\r\nb".to_string()), [2, 2, 4]);
    assert_eq!(word_count("\n\n".to_string()), [2, 0, 2]);
    assert_eq!(word_count("é ü".to_string()), [1, 2, 6]);
}

#[test]
fn word_count_agrees_with_lines_and_split_whitespace() {
    for t in ["x\r", "a\r\n\r\nb \t c\u{3000}d", "  lead and trail  \n", "\u{a0}nbsp\u{a0}", "tab\tsep\x0bvt", "end\r\n"] {
        assert_eq!(word_count(t.to_string()), std_word_count(t), "text {:?}", t);
    }
}

#[test]
fn final_line_ending_changes_no_count() {
    for t in ["abc", "a b\nc d", "x\n\ny"] {
        assert_eq!(word_count(t.to_string()), word_count(format!("{}\n", t)));
    }
}

#[test]
fn notes_and_articles() {
    assert_eq!(text_media_type(0), "Note");
    assert_eq!(text_media_type(500), "Note");
    assert_eq!(text_media_type(501), "Article");
    let short = text_details(&Text { title: "T".to_string(), body: "hi there".to_string() });
    assert_eq!((short.lines, short.words, short.charcters), (1, 2, 9));
    assert_eq!(short.mediatype, "Note");
    let long = text_details(&Text { title: "T".to_string(), body: "word ".repeat(120) });
    assert_eq!(long.charcters, 601);
    assert_eq!(long.mediatype, "Article");
}

#[test]
fn update_text_replies_with_id() {
    assert_eq!(update_text_reply("abc12"), "abc12 Has Been updated");
}

#[test]
fn media_kinds_and_states_by_name() {
    assert_eq!(MediaType::Note.to_string(), "Note");
    assert_eq!(MediaType::Text.to_string(), "Text");
    assert_eq!(MediaType::Audio.to_string(), "Audio");
    assert_eq!(MediaType::Video.to_string(), "Video");
    assert_eq!(MediaState::Uploading.to_string(), "Uploading");
    assert_eq!(MediaState::Streaming.to_string(), "Streaming");
    assert_eq!(MediaState::Published.to_string(), "Published");
}

#[test]
fn extensions_follow_path_extension() {
    for name in ["a.webm", "a.tar.gz", "noext", ".hidden", "a.", "", ".", "..", "..x", "x.y.", ".a.b"] {
        let expected = std::path::Path::new(name).extension().map(|e| e.to_str().unwrap().to_string());
        assert_eq!(extension_of(name), expected, "name {:?}", name);
    }
}

#[test]
fn content_types_by_extension() {
    assert_eq!(content_type_for("webm"), "video/webm");
    assert_eq!(content_type_for("webp"), "image/webp");
    assert_eq!(content_type_for("flac"), "audio/flac");
    assert_eq!(content_type_for("mp4"), "");
}

#[test]
fn headers_of_stored_files() {
    assert_eq!(media_file_path("abc", "abc_320.webm"), "abc/abc_320.webm");
    assert_eq!(
        media_file_headers("abc", "abc_320.webm"),
        Some(("video/webm".to_string(), "filename=abc_320.webm".to_string()))
    );
    assert_eq!(
        media_file_headers("abc", "cover.webp"),
        Some(("image/webp".to_string(), "filename=cover.webp".to_string()))
    );
    assert_eq!(media_file_headers("abc", "noext"), None);
    assert_eq!(
        media_file_headers("a/b", "c.flac"),
        None
    );
    assert_eq!(
        media_file_headers("a/b.flac", "c"),
        Some(("audio/flac".to_string(), "filename=b.flac".to_string()))
    );
}

#[test]
fn addresses_of_files_and_posters() {
    assert!(media_has_files("Video"));
    assert!(!media_has_files("Note"));
    assert!(!media_has_files("Text"));
    assert_eq!(media_file_url("Cache/abc/abc_320.webm"), "http://localhost:8000/api/media/file/abc/abc_320.webm");
    assert_eq!(poster_file_url("\"S3/Cache/p/p_High.webp\""), "http://localhost:8000/api/media/file/p/p_High.webp");
    let urls = media_file_urls(&vec!["a/1".to_string(), "Cache/b/2".to_string()]);
    assert_eq!(urls, vec!["http://localhost:8000/api/media/file/a/1", "http://localhost:8000/api/media/file/b/2"]);
    let posters = poster_file_urls(&vec!["S3/q".to_string()]);
    assert_eq!(posters, vec!["http://localhost:8000/api/media/file/q"]);
}

#[test]
fn media_id_required() {
    assert!(!has_media_id(""));
    assert!(has_media_id("x"));
}

fn sample_media() -> Media {
    Media {
        publicid: "p1".to_string(),
        title: "old".to_string(),
        mediatype: "Video".to_string(),
        uploaded_at: chrono::NaiveDate::from_ymd_opt(2024, 1, 2).unwrap().and_hms_opt(3, 4, 5).unwrap(),
        username: "u".to_string(),
        description: Some("d".to_string()),
        chapters: None,
        storagepathorurl: None,
        properties: None,
        state: "Published".to_string(),
    }
}

#[test]
fn update_details_replaces_given_fields() {
    let mut m = sample_media();
    apply_update_details(&mut m, UpdateDetails {
        PublicId: "p1".to_string(),
        title: Some("new".to_string()),
        description: None,
        chapters: Some(serde_json::Value::Bool(true)),
    });
    assert_eq!(m.title, "new");
    assert_eq!(m.description, Some("d".to_string()));
    assert_eq!(m.chapters, Some(serde_json::Value::Bool(true)));
    assert_eq!(m.publicid, "p1");
}

#[test]
fn joined_texts_count_as_the_sum_of_their_parts() {
    let a = "one two\r\nthree";
    let b = "four\n\nfive six\n";
    let joined = format!("{}\n{}", a, b);
    let whole = word_count(joined);
    let (ca, cb) = (word_count(a.to_string()), word_count(b.to_string()));
    for k in 0..3 {
        assert_eq!(whole[k], ca[k] + cb[k]);
    }
    assert_eq!(whole, [5, 6, 29]);
}
