//! Keys of the accounts' authorization tokens.

use vstd::prelude::*;

verus! {

/// The private key of an account's tokens, as it is stored.
pub struct BiscuitKey {
    pub Key: Vec<u8>,
    pub Username: String,
}

/// `biscuit_auth::KeyPair::new()`, then the bytes of its private key. The key
/// is chance; the contract claims only its documented length.
#[verifier::external_body]
fn new_private_key() -> (res: Vec<u8>)
    ensures
        res@.len() == 32,
{
    biscuit_auth::KeyPair::new().private().to_bytes().to_vec()
}

/// A fresh token key for `username`: the 32 bytes of a new private key.
pub fn create_key(username: String) -> (res: BiscuitKey)
    ensures
        res.Username == username,
        res.Key@.len() == 32,
{
    BiscuitKey { Key: new_private_key(), Username: username }
}

} // verus!
