//! Accounts: creating one (its stored password hash and display name),
//! logging in, changing an account's details, and an account's public card.

use vstd::prelude::*;
use crate::strings::{replaced, replace_all, text_eq};
use crate::settings::{url_serialization, parse_url, uuid_v4_text, new_record_id};
use serde_json::Value;
use crate::upload::UploadedFile;
use argon2::{PasswordHasher, PasswordVerifier};

verus! {

/// A new account as it is submitted.
pub struct Account {
    pub username: String,
    pub password: String,
    pub email: String,
    pub display_name: String,
    pub profile_metadata: Option<Value>,
    pub description: Option<String>,
}

/// An account as its owner sees it.
pub struct ViewAccount {
    pub username: String,
    pub email: String,
    pub display_name: String,
    pub avatar: String,
    pub profile_metadata: Option<Value>,
    pub description: Option<String>,
}

/// An account as anyone sees it.
pub struct CardAccount {
    pub username: String,
    pub display_name: String,
    pub avatar: String,
    pub profile_metadata: Option<Value>,
    pub description: Option<String>,
}

/// A request for an account's card.
pub struct AccountCard {
    pub username: String,
}

/// A change to an account: each given field is to replace the stored one.
pub struct AccountUpdate {
    pub password: Option<String>,
    pub email: Option<String>,
    pub display_name: Option<String>,
    pub profile_metadata: Option<Value>,
    pub description: Option<String>,
}

/// A new avatar image.
pub struct AvatarUpload {
    pub image: UploadedFile,
}

/// Login credentials.
pub struct User {
    pub Username: String,
    pub Password: String,
}

// ---------------------------------------------------------------- password hashes

/// Whether the Argon2 password hash in PHC form `phc` is one of `password`.
pub uninterp spec fn argon2_verifies(password: Seq<u8>, phc: Seq<char>) -> bool;

/// `argon2::Argon2::default().hash_password` with a fresh random salt
/// (`SaltString::generate(&mut OsRng)`), in PHC form. The salt is chance, so
/// the contract says only what holds of every outcome: a hash that comes is
/// one that verifies the password. With the default parameters and a
/// generated 16-byte salt, the only error the source can return is for a
/// password longer than `argon2::MAX_PWD_LEN` (`0xFFFFFFFF`) bytes, so a
/// hash comes for every shorter one. The hash text itself is left unsaid: it
/// rests on the salt. (`OsRng` panics where the system gives no randomness;
/// that rests on the machine, not on the argument.)
#[verifier::external_body]
fn argon2_hash(password: &[u8]) -> (res: Option<String>)
    ensures
        res is Some ==> argon2_verifies(password@, res->Some_0@),
        password@.len() <= 0xFFFF_FFFF ==> res is Some,
{
    let salt = argon2::password_hash::SaltString::generate(&mut argon2::password_hash::rand_core::OsRng);
    match argon2::Argon2::default().hash_password(password, &salt) {
        Ok(h) => Some(h.to_string()),
        Err(_) => None,
    }
}

/// `argon2::PasswordHash::new` of `phc`, then
/// `Argon2::default().verify_password`: the contract names the result; a
/// text that is no PHC hash verifies nothing.
#[verifier::external_body]
fn argon2_verify(password: &[u8], phc: &str) -> (res: bool)
    ensures
        res == argon2_verifies(password@, phc@),
{
    match argon2::PasswordHash::new(phc) {
        Ok(parsed) => argon2::Argon2::default().verify_password(password, &parsed).is_ok(),
        Err(_) => false,
    }
}

/// The UTF-8 bytes of a text.
pub open spec fn utf8(s: Seq<char>) -> Seq<u8> {
    vstd::utf8::encode_utf8(s)
}

/// A fresh Argon2 hash of a password, in PHC form: it comes for every
/// password of at most `0xFFFFFFFF` UTF-8 bytes and verifies it; nothing when
/// hashing fails.
pub fn hash_password(password: &str) -> (res: Option<String>)
    ensures
        res is Some ==> argon2_verifies(utf8(password@), res->Some_0@),
        utf8(password@).len() <= 0xFFFF_FFFF ==> res is Some,
{
    argon2_hash(password.as_bytes())
}

/// Whether `phc` is an Argon2 hash of `password`.
pub fn verify_password(password: &str, phc: &str) -> (res: bool)
    ensures
        res == argon2_verifies(utf8(password@), phc@),
{
    argon2_verify(password.as_bytes(), phc)
}

// ---------------------------------------------------------------- new accounts

/// The display name of a new account: the one given, or the user name when
/// none is given.
pub open spec fn display_name_for(display: Seq<char>, username: Seq<char>) -> Seq<char> {
    if display.len() == 0 { username } else { display }
}

/// The display name of a new account.
pub fn account_display_name(display: &str, username: &str) -> (res: String)
    ensures
        res@ == display_name_for(display@, username@),
{
    if crate::strings::chars_of(display).len() == 0 {
        username.to_string()
    } else {
        display.to_string()
    }
}

/// An account as it is first stored.
pub struct NewAccount {
    pub id: String,
    pub username: String,
    pub password: String,
    pub email: String,
    pub display_name: String,
    pub profile_metadata: Option<Value>,
    pub description: Option<String>,
}

/// Why an account was not created.
#[derive(Debug, PartialEq, Eq, Structural, Clone, Copy)]
pub enum CreateAccountError {
    /// The password could not be hashed.
    HashFailed,
    /// The fresh hash did not verify the password.
    PasswordsDoNotMatch,
}

/// A new account under a fresh random identifier, stored as
/// `account_record` says.
pub fn create_account(data: Account) -> (res: Result<NewAccount, CreateAccountError>)
    ensures
        res matches Ok(acc) ==> {
            &&& uuid_v4_text(acc.id@)
            &&& acc.username == data.username
            &&& argon2_verifies(utf8(data.password@), acc.password@)
            &&& acc.email == data.email
            &&& acc.display_name@ == display_name_for(data.display_name@, data.username@)
            &&& acc.profile_metadata == data.profile_metadata
            &&& acc.description == data.description
        },
        res matches Err(e) ==> e == CreateAccountError::HashFailed && utf8(data.password@).len() > 0xFFFF_FFFF,
        utf8(data.password@).len() <= 0xFFFF_FFFF ==> res is Ok,
{
    let id = new_record_id();
    account_record(data, id)
}

/// The stored form of a new account with identifier `id`: the password is
/// kept as a fresh Argon2 hash that verifies it, and the display name is the
/// user name when none is given. It is made for every password of at most
/// `0xFFFFFFFF` UTF-8 bytes; only a longer one can fail to hash.
pub fn account_record(data: Account, id: String) -> (res: Result<NewAccount, CreateAccountError>)
    ensures
        res matches Ok(acc) ==> {
            &&& acc.id == id
            &&& acc.username == data.username
            &&& argon2_verifies(utf8(data.password@), acc.password@)
            &&& acc.email == data.email
            &&& acc.display_name@ == display_name_for(data.display_name@, data.username@)
            &&& acc.profile_metadata == data.profile_metadata
            &&& acc.description == data.description
        },
        res matches Err(e) ==> e == CreateAccountError::HashFailed && utf8(data.password@).len() > 0xFFFF_FFFF,
        utf8(data.password@).len() <= 0xFFFF_FFFF ==> res is Ok,
{
    let hash = match hash_password(data.password.as_str()) {
        Some(h) => h,
        None => {
            return Err(CreateAccountError::HashFailed);
        },
    };
    let display_name = account_display_name(data.display_name.as_str(), data.username.as_str());
    if verify_password(data.password.as_str(), hash.as_str()) {
        Ok(NewAccount {
            id,
            username: data.username,
            password: hash,
            email: data.email,
            display_name,
            profile_metadata: data.profile_metadata,
            description: data.description,
        })
    } else {
        Err(CreateAccountError::PasswordsDoNotMatch)
    }
}

// ---------------------------------------------------------------- login

/// How a login ends.
#[derive(Debug, PartialEq, Eq, Structural, Clone, Copy)]
pub enum LoginOutcome {
    /// The user is logged in.
    Authorized,
    /// The user is turned away.
    Unauthorized,
    /// The password could not be hashed.
    HashFailed,
}

/// The login decision for the account stored under the user name: the user
/// is admitted when the stored name is the one given and a fresh hash of the
/// given password verifies it, which it does for every password of at most
/// `0xFFFFFFFF` UTF-8 bytes. The stored password hash is not consulted.
pub fn login(data: &User, stored_username: &str) -> (res: LoginOutcome)
    ensures
        data.Username@ != stored_username@ ==> res == LoginOutcome::Unauthorized,
        data.Username@ == stored_username@ ==> (res == LoginOutcome::Authorized
            || (res == LoginOutcome::HashFailed && utf8(data.Password@).len() > 0xFFFF_FFFF)),
        data.Username@ == stored_username@ && utf8(data.Password@).len() <= 0xFFFF_FFFF ==> res == LoginOutcome::Authorized,
{
    if !text_eq(data.Username.as_str(), stored_username) {
        return LoginOutcome::Unauthorized;
    }
    match hash_password(data.Password.as_str()) {
        None => LoginOutcome::HashFailed,
        Some(h) => {
            if verify_password(data.Password.as_str(), h.as_str()) {
                LoginOutcome::Authorized
            } else {
                LoginOutcome::Unauthorized
            }
        },
    }
}

// ---------------------------------------------------------------- account changes

/// The stored fields of an account that a change can touch.
pub struct StoredAccount {
    pub password: String,
    pub email: String,
    pub display_name: String,
    pub description: Option<String>,
}

/// What a change request comes to: a reply and nothing stored, or the
/// changed account to store (replied to with `Success`).
pub enum AccountUpdateOutcome {
    Reply(String),
    Store(StoredAccount),
}

/// Why a change request failed.
#[derive(Debug, PartialEq, Eq, Structural, Clone, Copy)]
pub enum AccountUpdateError {
    /// A new password could not be hashed.
    HashFailed,
    /// A new description was given for an account that has none.
    NoStoredDescription,
}

/// The reply when a new value equals the stored one.
pub open spec fn same_value_reply(field: int) -> Seq<char> {
    if field == 0 {
        "New Password Equals Current Password"@
    } else if field == 1 {
        "New Email Equals Current Email"@
    } else if field == 2 {
        "New Display Name Equals Current Display Name"@
    } else {
        "New Description Equals Current Description"@
    }
}

/// What a change request comes to, given the fresh hash `new_hash` of the
/// new password (when a new password is given; without it the change fails).
/// The fields are taken in order: password, e-mail, display name,
/// description. A new value that equals the stored one ends the request with
/// a reply and nothing stored; a password whose fresh hash does not verify it
/// is left unchanged. A new description needs a stored one.
pub open spec fn account_update_result(current: StoredAccount, data: AccountUpdate, new_hash: Option<String>, res: Result<AccountUpdateOutcome, AccountUpdateError>) -> bool {
    let pw = data.password;
    let same_pw = pw is Some && new_hash->Some_0@ == current.password@;
    let new_pw = if pw is Some && !same_pw && argon2_verifies(utf8(pw->Some_0@), new_hash->Some_0@) {
        new_hash->Some_0@
    } else {
        current.password@
    };
    let same_email = data.email is Some && data.email->Some_0@ == current.email@;
    let same_display = data.display_name is Some && data.display_name->Some_0@ == current.display_name@;
    let no_desc = data.description is Some && current.description is None;
    let same_desc = data.description is Some && current.description is Some
        && data.description->Some_0@ == current.description->Some_0@;
    if pw is Some && new_hash is None {
        res == Err::<AccountUpdateOutcome, AccountUpdateError>(AccountUpdateError::HashFailed)
    } else if same_pw {
        res matches Ok(AccountUpdateOutcome::Reply(m)) && m@ == same_value_reply(0)
    } else if same_email {
        res matches Ok(AccountUpdateOutcome::Reply(m)) && m@ == same_value_reply(1)
    } else if same_display {
        res matches Ok(AccountUpdateOutcome::Reply(m)) && m@ == same_value_reply(2)
    } else if no_desc {
        res == Err::<AccountUpdateOutcome, AccountUpdateError>(AccountUpdateError::NoStoredDescription)
    } else if same_desc {
        res matches Ok(AccountUpdateOutcome::Reply(m)) && m@ == same_value_reply(3)
    } else {
        res matches Ok(AccountUpdateOutcome::Store(acc)) && {
            &&& acc.password@ == new_pw
            &&& acc.email@ == (if data.email is Some { data.email->Some_0@ } else { current.email@ })
            &&& acc.display_name@ == (if data.display_name is Some { data.display_name->Some_0@ } else { current.display_name@ })
            &&& acc.description == (if data.description is Some { data.description } else { current.description })
        }
    }
}

/// A stored change keeps what it was given: each field that the change
/// names takes the given value (the password its fresh hash, when that
/// verifies it), and each field it does not name keeps the stored value.
pub proof fn lemma_account_update_stores_given_values(current: StoredAccount, data: AccountUpdate, new_hash: Option<String>, res: Result<AccountUpdateOutcome, AccountUpdateError>)
    requires
        account_update_result(current, data, new_hash, res),
    ensures
        res matches Ok(AccountUpdateOutcome::Store(acc)) ==> {
            &&& (data.display_name matches Some(d) ==> acc.display_name@ == d@)
            &&& (data.display_name is None ==> acc.display_name@ == current.display_name@)
            &&& (data.email matches Some(e) ==> acc.email@ == e@)
            &&& (data.email is None ==> acc.email@ == current.email@)
            &&& (data.description is Some ==> acc.description == data.description)
            &&& (data.description is None ==> acc.description == current.description)
            &&& (data.password is None ==> acc.password@ == current.password@)
            &&& (data.password matches Some(pw) && argon2_verifies(utf8(pw@), new_hash->Some_0@) ==> acc.password@ == new_hash->Some_0@)
        },
{
}

/// A change of the display name alone, to a name other than the stored one,
/// is stored with that name and nothing else changed.
pub proof fn lemma_account_update_display_name(current: StoredAccount, data: AccountUpdate, res: Result<AccountUpdateOutcome, AccountUpdateError>)
    requires
        data.password is None,
        data.email is None,
        data.description is None,
        data.display_name is Some,
        data.display_name->Some_0@ != current.display_name@,
        account_update_result(current, data, None, res),
    ensures
        res matches Ok(AccountUpdateOutcome::Store(acc)) && {
            &&& acc.display_name@ == data.display_name->Some_0@
            &&& acc.email@ == current.email@
            &&& acc.password@ == current.password@
            &&& acc.description == current.description
        },
{
}

/// A change that gives a value equal to the stored one is answered and not
/// stored: an equal e-mail, display name or description (with no new
/// password) ends in a reply.
pub proof fn lemma_account_update_equal_value_replies(current: StoredAccount, data: AccountUpdate, res: Result<AccountUpdateOutcome, AccountUpdateError>)
    requires
        data.password is None,
        (data.email matches Some(e) && e@ == current.email@)
            || (data.display_name matches Some(d) && d@ == current.display_name@)
            || (data.description matches Some(d) && current.description matches Some(c) && d@ == c@),
        account_update_result(current, data, None, res),
    ensures
        res matches Ok(AccountUpdateOutcome::Reply(_)),
{
}

/// The account after a change, given the fresh hash `new_hash` of the new
/// password, as `account_update_result` says.
pub fn apply_account_update(current: StoredAccount, data: AccountUpdate, new_hash: Option<String>) -> (res: Result<AccountUpdateOutcome, AccountUpdateError>)
    ensures
        account_update_result(current, data, new_hash, res),
{
    proof {
        reveal_strlit("New Password Equals Current Password");
        reveal_strlit("New Email Equals Current Email");
        reveal_strlit("New Display Name Equals Current Display Name");
        reveal_strlit("New Description Equals Current Description");
    }
    let StoredAccount { password, email, display_name, description } = current;
    let mut password = password;
    let mut email = email;
    let mut display_name = display_name;
    let mut description = description;
    if let Some(p) = data.password {
        let h = match new_hash {
            Some(h) => h,
            None => {
                return Err(AccountUpdateError::HashFailed);
            },
        };
        if text_eq(h.as_str(), password.as_str()) {
            return Ok(AccountUpdateOutcome::Reply("New Password Equals Current Password".to_string()));
        } else if verify_password(p.as_str(), h.as_str()) {
            password = h;
        }
    }
    if let Some(e) = data.email {
        if text_eq(e.as_str(), email.as_str()) {
            return Ok(AccountUpdateOutcome::Reply("New Email Equals Current Email".to_string()));
        } else {
            email = e;
        }
    }
    if let Some(d) = data.display_name {
        if text_eq(d.as_str(), display_name.as_str()) {
            return Ok(AccountUpdateOutcome::Reply("New Display Name Equals Current Display Name".to_string()));
        } else {
            display_name = d;
        }
    }
    if let Some(d) = data.description {
        let stored = match description {
            Some(s) => s,
            None => {
                return Err(AccountUpdateError::NoStoredDescription);
            },
        };
        if text_eq(d.as_str(), stored.as_str()) {
            return Ok(AccountUpdateOutcome::Reply("New Description Equals Current Description".to_string()));
        } else {
            description = Some(d);
        }
    }
    Ok(AccountUpdateOutcome::Store(StoredAccount { password, email, display_name, description }))
}

/// A change request carried out: a new password is hashed afresh, then the
/// change is applied as `account_update_result` says for that hash. The hash
/// rests on a random salt, so of it the contract says only that it verifies
/// the new password; it comes for every password of at most `0xFFFFFFFF`
/// UTF-8 bytes, and without it the request fails with `HashFailed`.
pub fn update_account(current: StoredAccount, data: AccountUpdate) -> (res: Result<AccountUpdateOutcome, AccountUpdateError>)
    ensures
        data.password is None ==> account_update_result(current, data, None, res),
        data.password is Some ==> ({
            ||| res == Err::<AccountUpdateOutcome, AccountUpdateError>(AccountUpdateError::HashFailed)
                && utf8(data.password->Some_0@).len() > 0xFFFF_FFFF
            ||| exists|h: String|
                argon2_verifies(utf8(data.password->Some_0@), h@)
                && #[trigger] account_update_result(current, data, Some(h), res)
        }),
        data.password is Some ==> (res matches Ok(AccountUpdateOutcome::Store(acc)) ==> argon2_verifies(utf8(data.password->Some_0@), acc.password@)),
        data.password is None ==> (res matches Ok(AccountUpdateOutcome::Store(acc)) ==> acc.password@ == current.password@),
        data.password is Some ==> (res matches Ok(AccountUpdateOutcome::Reply(m)) ==> (m@ == same_value_reply(0) ==> argon2_verifies(utf8(data.password->Some_0@), current.password@))),
{
    proof {
        reveal_strlit("New Password Equals Current Password");
        reveal_strlit("New Email Equals Current Email");
        reveal_strlit("New Display Name Equals Current Display Name");
        reveal_strlit("New Description Equals Current Description");
    }
    let new_hash = match &data.password {
        Some(p) => match hash_password(p.as_str()) {
            Some(h) => Some(h),
            None => {
                return Err(AccountUpdateError::HashFailed);
            },
        },
        None => None,
    };
    let ghost hash = new_hash;
    assert(same_value_reply(0).len() == 36);
    assert(same_value_reply(1).len() == 30);
    assert(same_value_reply(2).len() == 44);
    assert(same_value_reply(3).len() == 42);
    let ghost cur = current;
    let ghost dat = data;
    let res = apply_account_update(current, data, new_hash);
    proof {
        if dat.password is Some {
            let h = hash->Some_0;
            assert(argon2_verifies(utf8(dat.password->Some_0@), h@));
            assert(account_update_result(cur, dat, Some(h), res));
        }
    }
    res
}

// ---------------------------------------------------------------- cards

/// Where an account's avatar is served: the address built from the service
/// address and the stored avatar path (without quotes), as a URL.
pub open spec fn avatar_address(main_url: Seq<char>, avatar: Seq<char>) -> Seq<char> {
    "http://"@ + main_url + "/api/media/file/"@ + replaced(avatar, "\""@, ""@)
}

/// The avatar URL of an account's card; nothing when the address is no URL.
pub fn card_avatar_url(main_url: &str, avatar: &str) -> (res: Option<String>)
    ensures
        res is Some <==> url_serialization(avatar_address(main_url@, avatar@)) is Some,
        res is Some ==> res->Some_0@ == url_serialization(avatar_address(main_url@, avatar@))->Some_0,
{
    proof {
        reveal_strlit("http://");
        reveal_strlit("/api/media/file/");
        reveal_strlit("\"");
        reveal_strlit("");
    }
    let mut address = "http://".to_string();
    address.append(main_url);
    address.append("/api/media/file/");
    let cleaned = replace_all(avatar, "\"", "");
    address.append(cleaned.as_str());
    parse_url(address.as_str())
}

} // verus!
