//! Media records: their kinds and states, the headers a stored file is served
//! with, the addresses of a medium's files, and changes to a medium's details.

use vstd::prelude::*;
use crate::strings::{replaced, replace_all, split_on, split_text, text_eq, string_views};
use serde_json::Value;
use chrono::NaiveDateTime;

verus! {

/// A change to the details of a medium.
pub struct UpdateDetails {
    pub PublicId: String,
    pub title: Option<String>,
    pub description: Option<String>,
    pub chapters: Option<Value>,
}

/// A request to view a medium.
pub struct ViewDetails {
    pub PublicId: String,
}

/// A medium as it is stored.
pub struct Media {
    pub publicid: String,
    pub title: String,
    pub mediatype: String,
    pub uploaded_at: NaiveDateTime,
    pub username: String,
    pub description: Option<String>,
    pub chapters: Option<Value>,
    pub storagepathorurl: Option<Vec<String>>,
    pub properties: Option<Value>,
    pub state: String,
}

/// The kinds of media.
#[derive(Debug, Clone, Copy, PartialEq, Eq, Structural)]
pub enum MediaType {
    Note,
    Text,
    Audio,
    Video,
}

/// The name of a kind of media.
pub open spec fn media_type_name(t: MediaType) -> Seq<char> {
    match t {
        MediaType::Note => "Note"@,
        MediaType::Text => "Text"@,
        MediaType::Audio => "Audio"@,
        MediaType::Video => "Video"@,
    }
}

impl MediaType {
    /// The name of the kind, as it is stored.
    pub fn to_string(&self) -> (res: String)
        ensures
            res@ == media_type_name(*self),
    {
        match self {
            MediaType::Note => "Note".to_string(),
            MediaType::Text => "Text".to_string(),
            MediaType::Audio => "Audio".to_string(),
            MediaType::Video => "Video".to_string(),
        }
    }
}

/// The states of a medium: its files are being uploaded or streamed, or it
/// is published.
#[derive(Debug, Clone, Copy, PartialEq, Eq, Structural)]
pub enum MediaState {
    Uploading,
    Streaming,
    Published,
}

/// The name of a state.
pub open spec fn media_state_name(s: MediaState) -> Seq<char> {
    match s {
        MediaState::Uploading => "Uploading"@,
        MediaState::Streaming => "Streaming"@,
        MediaState::Published => "Published"@,
    }
}

impl MediaState {
    /// The name of the state, as it is stored.
    pub fn to_string(&self) -> (res: String)
        ensures
            res@ == media_state_name(*self),
    {
        match self {
            MediaState::Uploading => "Uploading".to_string(),
            MediaState::Streaming => "Streaming".to_string(),
            MediaState::Published => "Published".to_string(),
        }
    }
}

// ---------------------------------------------------------------- stored files

/// The last index at which `c` occurs in `s`, if it occurs.
pub open spec fn last_index_of(s: Seq<char>, c: char) -> Option<int>
    decreases s.len(),
{
    if s.len() == 0 {
        None
    } else if s.last() == c {
        Some(s.len() - 1)
    } else {
        last_index_of(s.drop_last(), c)
    }
}

/// The extension of a file name, as `Path::extension` gives it: the text after
/// the last `.`; none when there is no `.`, when the only `.` is the first
/// character, or when the name is empty, `.` or `..`.
pub open spec fn file_extension(name: Seq<char>) -> Option<Seq<char>> {
    if name.len() == 0 || name == "."@ || name == ".."@ {
        None
    } else {
        match last_index_of(name, '.') {
            None => None,
            Some(i) => if i == 0 { None } else { Some(name.skip(i + 1)) },
        }
    }
}

/// The content type a stored file is served with, by its extension.
pub open spec fn content_type_of(ext: Seq<char>) -> Seq<char> {
    if ext == "webm"@ {
        "video/webm"@
    } else if ext == "webp"@ {
        "image/webp"@
    } else if ext == "flac"@ {
        "audio/flac"@
    } else {
        ""@
    }
}

/// The path of a stored file in the object store.
pub open spec fn media_file_path_of(folder: Seq<char>, file: Seq<char>) -> Seq<char> {
    folder + "/"@ + file
}

/// The name that a stored file is served under: the second piece of its path.
pub open spec fn served_name(folder: Seq<char>, file: Seq<char>) -> Seq<char> {
    split_on(media_file_path_of(folder, file), '/')[1]
}

/// The path of the stored file `file` in `folder`.
pub fn media_file_path(folder: &str, file: &str) -> (res: String)
    ensures
        res@ == media_file_path_of(folder@, file@),
{
    proof {
        reveal_strlit("/");
    }
    let mut p = folder.to_string();
    p.append("/");
    p.append(file);
    p
}

/// Where the last occurrence is, it holds the character, and none comes after.
pub proof fn lemma_last_index_of(s: Seq<char>, c: char)
    ensures
        last_index_of(s, c) matches Some(i) ==> 0 <= i < s.len() && s[i] == c && forall|j: int| i < j < s.len() ==> s[j] != c,
        last_index_of(s, c) is None ==> !s.contains(c),
    decreases s.len(),
{
    if s.len() > 0 {
        lemma_last_index_of(s.drop_last(), c);
        if s.last() != c {
            if let Some(i) = last_index_of(s.drop_last(), c) {
                assert(s[i] == s.drop_last()[i]);
                assert forall|j: int| i < j < s.len() implies s[j] != c by {
                    if j < s.len() - 1 {
                        assert(s.drop_last()[j] == s[j]);
                    }
                }
            }
        }
        if last_index_of(s, c) is None {
            assert forall|j: int| 0 <= j < s.len() implies s[j] != c by {
                if j < s.len() - 1 {
                    assert(s.drop_last()[j] == s[j]);
                }
            }
        }
    }
}

fn last_dot(s: &Vec<char>) -> (res: Option<usize>)
    ensures
        res matches Some(i) ==> last_index_of(s@, '.') == Some(i as int) && i < s@.len(),
        res is None ==> last_index_of(s@, '.') is None,
{
    proof {
        lemma_last_index_of(s@, '.');
    }
    let mut k: usize = s.len();
    assert(s@.take(k as int) =~= s@);
    while k > 0
        invariant
            k <= s@.len(),
            last_index_of(s@, '.') == last_index_of(s@.take(k as int), '.'),
        decreases k,
    {
        assert(s@.take(k as int).drop_last() =~= s@.take(k - 1));
        if s[k - 1] == '.' {
            return Some(k - 1);
        }
        k = k - 1;
    }
    None
}

/// The extension of a file name, as `Path::extension` gives it.
pub fn extension_of(name: &str) -> (res: Option<String>)
    ensures
        res is Some <==> file_extension(name@) is Some,
        res is Some ==> res->Some_0@ == file_extension(name@)->Some_0,
{
    proof {
        reveal_strlit(".");
        reveal_strlit("..");
    }
    let v = crate::strings::chars_of(name);
    if v.len() == 0 || text_eq(name, ".") || text_eq(name, "..") {
        return None;
    }
    assert(v@.take(v@.len() as int) =~= v@);
    match last_dot(&v) {
        None => None,
        Some(i) => {
            if i == 0 {
                None
            } else {
                let mut ext = String::new();
                let mut k: usize = i + 1;
                while k < v.len()
                    invariant
                        i < k <= v@.len(),
                        ext@ == v@.subrange(i + 1, k as int),
                    decreases v@.len() - k,
                {
                    ext.push(v[k]);
                    k = k + 1;
                    assert(ext@ =~= v@.subrange(i + 1, k as int));
                }
                assert(v@.skip(i + 1) =~= v@.subrange(i + 1, v@.len() as int));
                Some(ext)
            }
        },
    }
}

/// The content type that a file with extension `ext` is served with.
pub fn content_type_for(ext: &str) -> (res: String)
    ensures
        res@ == content_type_of(ext@),
{
    proof {
        reveal_strlit("webm");
        reveal_strlit("webp");
        reveal_strlit("flac");
        reveal_strlit("video/webm");
        reveal_strlit("image/webp");
        reveal_strlit("audio/flac");
        reveal_strlit("");
    }
    if text_eq(ext, "webm") {
        "video/webm".to_string()
    } else if text_eq(ext, "webp") {
        "image/webp".to_string()
    } else if text_eq(ext, "flac") {
        "audio/flac".to_string()
    } else {
        "".to_string()
    }
}

/// The headers a stored file is served with: its content type and its
/// content disposition `filename=<name>`; none when the name has no extension.
pub fn media_file_headers(folder: &str, file: &str) -> (res: Option<(String, String)>)
    ensures
        res is Some <==> file_extension(served_name(folder@, file@)) is Some,
        res matches Some((ct, cd)) ==> {
            &&& ct@ == content_type_of(file_extension(served_name(folder@, file@))->Some_0)
            &&& cd@ == "filename="@ + served_name(folder@, file@)
        },
{
    proof {
        reveal_strlit("filename=");
        reveal_strlit("/");
    }
    let path = media_file_path(folder, file);
    let parts = split_text(path.as_str(), '/');
    proof {
        let p = media_file_path_of(folder@, file@);
        assert(p[folder@.len() as int] == '/');
        crate::strings::lemma_split_two(p, '/', folder@.len() as int);
    }
    assert(string_views(parts@)[1] == parts@[1]@);
    let name = parts[1].as_str();
    match extension_of(name) {
        None => None,
        Some(ext) => {
            let ct = content_type_for(ext.as_str());
            let mut cd = "filename=".to_string();
            cd.append(name);
            Some((ct, cd))
        },
    }
}

// ---------------------------------------------------------------- addresses

/// Where the files of a medium are served from.
pub open spec fn media_file_prefix() -> Seq<char> {
    "http://localhost:8000/api/media/file/"@
}

/// Media of these kinds have files: all but notes and texts.
pub open spec fn has_files(mediatype: Seq<char>) -> bool {
    mediatype != "Note"@ && mediatype != "Text"@
}

/// Whether a medium of the given kind has files to list.
pub fn media_has_files(mediatype: &str) -> (res: bool)
    ensures
        res == has_files(mediatype@),
{
    proof {
        reveal_strlit("Note");
        reveal_strlit("Text");
    }
    !text_eq(mediatype, "Note") && !text_eq(mediatype, "Text")
}

/// The address of a stored medium file: its path without `Cache/`.
pub fn media_file_url(path: &str) -> (res: String)
    ensures
        res@ == media_file_prefix() + replaced(path@, "Cache/"@, ""@),
{
    proof {
        reveal_strlit("Cache/");
        reveal_strlit("");
        reveal_strlit("http://localhost:8000/api/media/file/");
    }
    let mut res = "http://localhost:8000/api/media/file/".to_string();
    let p = replace_all(path, "Cache/", "");
    res.append(p.as_str());
    res
}

/// The address of a stored poster: its path without quotes, `Cache/` and `S3/`.
pub fn poster_file_url(path: &str) -> (res: String)
    ensures
        res@ == media_file_prefix() + replaced(replaced(replaced(path@, "\""@, ""@), "Cache/"@, ""@), "S3/"@, ""@),
{
    proof {
        reveal_strlit("\"");
        reveal_strlit("Cache/");
        reveal_strlit("S3/");
        reveal_strlit("");
        reveal_strlit("http://localhost:8000/api/media/file/");
    }
    let mut res = "http://localhost:8000/api/media/file/".to_string();
    let a = replace_all(path, "\"", "");
    let b = replace_all(a.as_str(), "Cache/", "");
    let c = replace_all(b.as_str(), "S3/", "");
    res.append(c.as_str());
    res
}

/// The addresses of a medium's stored files.
pub fn media_file_urls(paths: &Vec<String>) -> (res: Vec<String>)
    ensures
        res@.len() == paths@.len(),
        forall|i: int| 0 <= i < paths@.len() ==> (#[trigger] res@[i])@ == media_file_prefix() + replaced(paths@[i]@, "Cache/"@, ""@),
{
    let mut res: Vec<String> = Vec::new();
    let mut k: usize = 0;
    while k < paths.len()
        invariant
            k <= paths@.len(),
            res@.len() == k,
            forall|i: int| 0 <= i < k ==> (#[trigger] res@[i])@ == media_file_prefix() + replaced(paths@[i]@, "Cache/"@, ""@),
        decreases paths@.len() - k,
    {
        res.push(media_file_url(paths[k].as_str()));
        k = k + 1;
    }
    res
}

/// The addresses of a medium's stored posters.
pub fn poster_file_urls(paths: &Vec<String>) -> (res: Vec<String>)
    ensures
        res@.len() == paths@.len(),
        forall|i: int| 0 <= i < paths@.len() ==> (#[trigger] res@[i])@ == media_file_prefix() + replaced(replaced(replaced(paths@[i]@, "\""@, ""@), "Cache/"@, ""@), "S3/"@, ""@),
{
    let mut res: Vec<String> = Vec::new();
    let mut k: usize = 0;
    while k < paths.len()
        invariant
            k <= paths@.len(),
            res@.len() == k,
            forall|i: int| 0 <= i < k ==> (#[trigger] res@[i])@ == media_file_prefix() + replaced(replaced(replaced(paths@[i]@, "\""@, ""@), "Cache/"@, ""@), "S3/"@, ""@),
        decreases paths@.len() - k,
    {
        res.push(poster_file_url(paths[k].as_str()));
        k = k + 1;
    }
    res
}

// ---------------------------------------------------------------- details

/// The reply to a view or update request without a medium identifier.
pub open spec fn missing_id_reply() -> Seq<char> {
    "A Media ID is required"@
}

/// Whether a request names a medium.
pub fn has_media_id(public_id: &str) -> (res: bool)
    ensures
        res == (public_id@.len() > 0),
{
    crate::strings::chars_of(public_id).len() > 0
}

/// A medium's details after a change: each field that the change gives
/// replaces the stored one; the others stay.
pub fn apply_update_details(media: &mut Media, data: UpdateDetails)
    ensures
        final(media).publicid == old(media).publicid,
        final(media).mediatype == old(media).mediatype,
        final(media).uploaded_at == old(media).uploaded_at,
        final(media).username == old(media).username,
        final(media).storagepathorurl == old(media).storagepathorurl,
        final(media).properties == old(media).properties,
        final(media).state == old(media).state,
        final(media).title == (if data.title is Some { data.title->Some_0 } else { old(media).title }),
        final(media).description == (if data.description is Some { data.description } else { old(media).description }),
        final(media).chapters == (if data.chapters is Some { data.chapters } else { old(media).chapters }),
{
    if let Some(t) = data.title {
        media.title = t;
    }
    if data.description.is_some() {
        media.description = data.description;
    }
    if data.chapters.is_some() {
        media.chapters = data.chapters;
    }
}

} // verus!
