//! The feed: media of the accounts a user follows.

use vstd::prelude::*;
use serde_json::Value;
use chrono::NaiveDateTime;

verus! {

/// One medium in a feed.
pub struct Feed {
    pub publicid: String,
    pub title: String,
    pub mediatype: String,
    pub uploaded_at: NaiveDateTime,
    pub username: String,
    pub description: Option<String>,
    pub chapters: Option<Value>,
    pub properties: Value,
}

/// The start of the feed query, up to the follower's name.
pub open spec fn feed_query_head() -> Seq<char> {
    "SELECT DISTINCT on (publicid) v_media.publicid, v_media.title, v_media.mediatype, v_media.uploaded_at, v_media.username, v_media.description, v_media.properties FROM v_media INNER JOIN v_follow ON v_media.username = v_follow.following WHERE v_follow.follower = '"@
}

/// The rest of the feed query: only media that are no album entry, avatar or poster.
pub open spec fn feed_query_tail() -> Seq<char> {
    "' AND v_media.properties ->> 'Album' = 'false' AND v_media.properties  ->> 'Avatar' = 'false' AND v_media.properties ->> 'Poster' = 'false';"@
}

/// The query for the feed of `username`: each medium, once, of the accounts
/// the user follows.
pub fn feed_query(username: &str) -> (res: String)
    ensures
        res@ == feed_query_head() + username@ + feed_query_tail(),
{
    let mut q = "SELECT DISTINCT on (publicid) v_media.publicid, v_media.title, v_media.mediatype, v_media.uploaded_at, v_media.username, v_media.description, v_media.properties FROM v_media INNER JOIN v_follow ON v_media.username = v_follow.following WHERE v_follow.follower = '".to_string();
    q.append(username);
    q.append("' AND v_media.properties ->> 'Album' = 'false' AND v_media.properties  ->> 'Avatar' = 'false' AND v_media.properties ->> 'Poster' = 'false';");
    q
}

} // verus!
