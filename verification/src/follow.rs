//! Following accounts: the record of one account following another, and
//! the answer to whether it does.

use vstd::prelude::*;
use crate::strings::{replaced, replace_all};
use crate::settings::{make_sqid, random_nums, id_alphabet, sqids_id, SqidsError};
use serde_json::Value;

verus! {

/// A request to follow (or stop following) an account.
pub struct Follow {
    pub follow: String,
    pub properties: Option<Value>,
}

/// Whom an account follows.
pub struct Following {
    pub follower: String,
    pub following: Option<String>,
    pub properties: Option<Vec<Value>>,
}

/// A follow as it is stored.
pub struct FollowRecord {
    pub id: String,
    pub follower: String,
    pub following: String,
}

/// The record of `username` following the account that `data` names: both
/// names without quotes, under a fresh public identifier made by `make_sqid`
/// of five random digit codes; it fails exactly when Sqids refuses those.
pub fn follow_record(username: &str, data: &Follow) -> (res: Result<FollowRecord, SqidsError>)
    ensures
        exists|nums: Seq<u64>| {
            &&& nums.len() == 5
            &&& forall|i: int| 0 <= i < 5 ==> 48 <= #[trigger] nums[i] <= 57
            &&& (res is Ok <==> #[trigger] sqids_id(id_alphabet(), 5, nums) is Some)
            &&& (res matches Ok(r) ==> sqids_id(id_alphabet(), 5, nums) == Some(r.id@))
        },
        res matches Ok(r) ==> {
            &&& r.follower@ == replaced(username@, "\""@, ""@)
            &&& r.following@ == replaced(data.follow@, "\""@, ""@)
            &&& r.id@.len() >= 5
            &&& forall|i: int| 0 <= i < r.id@.len() ==> id_alphabet().contains(#[trigger] r.id@[i])
        },
        res matches Err(e) ==> e == SqidsError::BlocklistMaxAttempts,
{
    proof {
        reveal_strlit("\"");
        reveal_strlit("");
    }
    let following = replace_all(data.follow.as_str(), "\"", "");
    let follower = replace_all(username, "\"", "");
    let nums = random_nums(5);
    let made = make_sqid(nums);
    let id = match made {
        Ok(id) => id,
        Err(e) => {
            return Err(e);
        },
    };
    Ok(FollowRecord { id, follower, following })
}

/// The answer to whether an account is followed.
pub fn following_reply(found: bool) -> (res: String)
    ensures
        res@ == (if found { "true"@ } else { "false"@ }),
{
    if found {
        "true".to_string()
    } else {
        "false".to_string()
    }
}

} // verus!
