use varied::account::{
    hash_password, verify_password, account_display_name, create_account, account_record, login, apply_account_update,
    update_account, card_avatar_url, Account, User, StoredAccount, AccountUpdate, AccountUpdateOutcome,
    AccountUpdateError, LoginOutcome,
};

fn s(x: &str) -> String {
    x.to_string()
}

#[test]
fn hashes_verify_their_password() {
    let h = hash_password("secret").unwrap();
    assert!(h.starts_with("$argon2id$"));
    assert!(verify_password("secret", &h));
    assert!(!verify_password("other", &h));
    assert!(!verify_password("secret", "not a hash"));
    assert_ne!(hash_password("secret").unwrap(), h);
}

#[test]
fn display_name_defaults_to_username() {
    assert_eq!(account_display_name("", "alice"), "alice");
    assert_eq!(account_display_name("Alice A.", "alice"), "Alice A.");
}

#[test]
fn new_accounts_store_a_verifying_hash() {
    let data = Account {
        username: s("alice"),
        password: s("pw"),
        email: s("a@x.org"),
        display_name: s(""),
        profile_metadata: None,
        description: Some(s("hi")),
    };
    let acc = account_record(data, s("id-1")).ok().unwrap();
    assert_eq!(acc.id, "id-1");
    assert_eq!(acc.username, "alice");
    assert_eq!(acc.display_name, "alice");
    assert_eq!(acc.email, "a@x.org");
    assert_eq!(acc.description, Some(s("hi")));
    assert!(verify_password("pw", &acc.password));
}

#[test]
fn created_accounts_get_a_random_uuid() {
    let data = Account {
        username: s("bob"),
        password: s("pw2"),
        email: s("b@x.org"),
        display_name: s("Bobby"),
        profile_metadata: None,
        description: None,
    };
    let acc = create_account(data).ok().unwrap();
    assert_eq!(acc.id.len(), 36);
    let chars: Vec<char> = acc.id.chars().collect();
    assert_eq!((chars[8], chars[13], chars[14], chars[18], chars[23]), ('-', '-', '4', '-', '-'));
    assert_eq!(acc.display_name, "Bobby");
    assert!(verify_password("pw2", &acc.password));
}

#[test]
fn login_checks_the_name() {
    let u = User { Username: s("alice"), Password: s("anything") };
    assert_eq!(login(&u, "alice"), LoginOutcome::Authorized);
    assert_eq!(login(&u, "bob"), LoginOutcome::Unauthorized);
}

fn stored() -> StoredAccount {
    StoredAccount { password: s("$argon2id$old"), email: s("a@x.org"), display_name: s("Al"), description: Some(s("d")) }
}

fn change() -> AccountUpdate {
    AccountUpdate { password: None, email: None, display_name: None, profile_metadata: None, description: None }
}

fn reply(r: Result<AccountUpdateOutcome, AccountUpdateError>) -> Option<String> {
    match r {
        Ok(AccountUpdateOutcome::Reply(m)) => Some(m),
        _ => None,
    }
}

#[test]
fn account_changes_are_applied() {
    let mut c = change();
    c.email = Some(s("b@x.org"));
    c.description = Some(s("new"));
    match apply_account_update(stored(), c, None) {
        Ok(AccountUpdateOutcome::Store(a)) => {
            assert_eq!(a.email, "b@x.org");
            assert_eq!(a.display_name, "Al");
            assert_eq!(a.description, Some(s("new")));
            assert_eq!(a.password, "$argon2id$old");
        },
        _ => panic!("expected a stored account"),
    }
}

#[test]
fn unchanged_values_are_refused() {
    let mut c = change();
    c.email = Some(s("a@x.org"));
    assert_eq!(reply(apply_account_update(stored(), c, None)), Some(s("New Email Equals Current Email")));
    let mut c = change();
    c.display_name = Some(s("Al"));
    assert_eq!(reply(apply_account_update(stored(), c, None)), Some(s("New Display Name Equals Current Display Name")));
    let mut c = change();
    c.description = Some(s("d"));
    assert_eq!(reply(apply_account_update(stored(), c, None)), Some(s("New Description Equals Current Description")));
    let mut c = change();
    c.password = Some(s("pw"));
    assert_eq!(reply(apply_account_update(stored(), c, Some(s("$argon2id$old")))), Some(s("New Password Equals Current Password")));
}

#[test]
fn description_change_needs_a_stored_one() {
    let mut st = stored();
    st.description = None;
    let mut c = change();
    c.description = Some(s("new"));
    assert!(matches!(apply_account_update(st, c, None), Err(AccountUpdateError::NoStoredDescription)));
}

#[test]
fn new_password_is_hashed() {
    let mut c = change();
    c.password = Some(s("new pw"));
    match update_account(stored(), c) {
        Ok(AccountUpdateOutcome::Store(a)) => assert!(verify_password("new pw", &a.password)),
        _ => panic!("expected a stored account"),
    }
}

#[test]
fn avatar_urls_of_cards() {
    assert_eq!(
        card_avatar_url("localhost:8000", "\"abc/abc_High.webp\""),
        Some(s("http://localhost:8000/api/media/file/abc/abc_High.webp"))
    );
    assert_eq!(card_avatar_url("bad host:x", "a"), None);
}

#[test]
fn a_matching_name_with_any_ordinary_password_is_admitted() {
    for pw in ["", "x", "a much longer pass phrase with spaces"] {
        let u = User { Username: s("carol"), Password: s(pw) };
        assert_eq!(login(&u, "carol"), LoginOutcome::Authorized);
    }
}
