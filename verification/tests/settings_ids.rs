use base64::Engine;
use varied::settings::{
    encode_base64_id, make_sqid, random_nums, random_alpha, session_id_from_cookie, clean_username,
    object_store, get_object_config, get_core_config, Object, Core, SqidsError, CoreConfigError,
};

#[test]
fn base64_ids_are_url_safe_without_padding() {
    assert_eq!(encode_base64_id("hello".to_string()), "aGVsbG8");
    assert_eq!(encode_base64_id(">>>???".to_string()), "Pj4-Pz8_");
    assert_eq!(encode_base64_id("".to_string()), "");
    assert_eq!(encode_base64_id("a".to_string()), "YQ");
    assert_eq!(encode_base64_id("ab".to_string()), "YWI");
    assert_eq!(encode_base64_id("abc".to_string()), "YWJj");
    assert_eq!(encode_base64_id("é".to_string()), "w6k");
    assert_eq!(
        encode_base64_id("550e8400-e29b-41d4-a716-446655440000".to_string()),
        "NTUwZTg0MDAtZTI5Yi00MWQ0LWE3MTYtNDQ2NjU1NDQwMDAw"
    );
}

#[test]
fn base64_length_law_on_values() {
    for n in 0..10usize {
        let s: String = "x".repeat(n);
        let e = encode_base64_id(s);
        let expected = 4 * (n / 3) + [0, 2, 3][n % 3];
        assert_eq!(e.len(), expected);
        assert!(e.chars().all(|c| c.is_ascii_alphanumeric() || c == '-' || c == '_'));
    }
}

#[test]
fn sqids_of_known_numbers() {
    assert_eq!(make_sqid(vec![49, 50, 51, 52, 53]), Ok("7f1Me9edUt".to_string()));
    assert_eq!(make_sqid(vec![1, 2, 3]), Ok("5RBoWX".to_string()));
    assert_eq!(make_sqid(vec![0]), Ok("tzecX".to_string()));
    assert_eq!(make_sqid(vec![]), Ok(String::new()));
}

#[test]
fn sqids_are_long_enough_and_from_the_alphabet() {
    let id = make_sqid(random_nums(12)).unwrap();
    assert!(id.len() >= 5);
    assert!(id.chars().all(|c| c.is_ascii_alphanumeric()));
    let err: Result<String, SqidsError> = Err(SqidsError::BlocklistMaxAttempts);
    assert_ne!(make_sqid(vec![7]), err);
}

#[test]
fn random_nums_are_digit_codes() {
    let v = random_nums(20);
    assert_eq!(v.len(), 20);
    assert!(v.iter().all(|&x| (48..=57).contains(&x)));
    assert!(random_nums(0).is_empty());
}

#[test]
fn random_alpha_is_letters() {
    let s = random_alpha(30);
    assert_eq!(s.chars().count(), 30);
    assert!(s.chars().all(|c| c.is_ascii_alphabetic()));
}

#[test]
fn session_cookie_and_usernames() {
    assert_eq!(session_id_from_cookie("id=abc123"), "abc123");
    assert_eq!(session_id_from_cookie("id=x; id=y"), "x; y");
    assert_eq!(clean_username("\"alice\""), "alice");
    assert_eq!(clean_username("'bo\"b'"), "bob");
}

#[test]
fn cleaned_usernames_hold_no_quotes() {
    for raw in ["\"'\"", "a'b\"c", "''''", "plain"] {
        let c = clean_username(raw);
        assert!(!c.contains('\'') && !c.contains('"'));
    }
}

fn object(name: &str) -> Object {
    Object { name: name.to_string(), endpoint: "http://store/".to_string(), process: "/tmp/work".to_string() }
}

#[test]
fn object_store_accepts_only_s3() {
    assert_eq!(object_store(&object("S3")), Ok(("http://store/".to_string(), "/tmp/work".to_string())));
    assert_eq!(object_store(&object("http")), Err("Invaild Object Settings".to_string()));
}

#[test]
fn object_config_by_name() {
    let c = get_object_config(&object("S3"));
    assert_eq!(c, vec![
        ("Name".to_string(), "S3".to_string()),
        ("Endpoint".to_string(), "http://store/".to_string()),
        ("Process".to_string(), "/tmp/work".to_string()),
    ]);
}

fn core_section(size: &str, front: &str, main: &str) -> Core {
    Core { file_size_limit: size.to_string(), front_end_url: front.to_string(), main_url: main.to_string() }
}

#[test]
fn core_config_reads_limit_and_urls() {
    let c = get_core_config(&core_section("1048576", "http://localhost:3000", "http://0.0.0.0:8000")).ok().unwrap();
    assert_eq!(c.file_size_limit, 1048576);
    assert_eq!(c.front_end_url, "http://localhost:3000/");
    assert_eq!(c.main_url, "http://0.0.0.0:8000/");
}

#[test]
fn core_config_errors_in_order() {
    assert_eq!(get_core_config(&core_section("ten", "bad", "bad")).err(), Some(CoreConfigError::FileSizeLimit));
    assert_eq!(get_core_config(&core_section("10", "not a url", "bad")).err(), Some(CoreConfigError::FrontEndUrl));
    assert_eq!(get_core_config(&core_section("10", "http://a.b", "not a url")).err(), Some(CoreConfigError::MainUrl));
}

#[test]
fn record_ids_are_v4_uuids() {
    let a = varied::settings::new_record_id();
    let b = varied::settings::new_record_id();
    assert_ne!(a, b);
    let parsed = uuid::Uuid::parse_str(&a).unwrap();
    assert_eq!(parsed.get_version_num(), 4);
    assert_eq!(parsed.to_string(), a);
}

#[test]
fn token_keys_are_32_bytes() {
    let k = varied::auth::create_key("alice".to_string());
    assert_eq!(k.Username, "alice");
    assert_eq!(k.Key.len(), 32);
    assert!(biscuit_auth::PrivateKey::from_bytes(&k.Key).is_ok());
}

#[test]
fn base64_ids_decode_to_the_identifier() {
    let engine = base64::engine::general_purpose::URL_SAFE_NO_PAD;
    for id in ["", "a", "ab", "abc", "550e8400-e29b-41d4-a716-446655440000", "héllo wörld"] {
        let e = encode_base64_id(id.to_string());
        assert_eq!(engine.decode(e.as_bytes()).unwrap(), id.as_bytes().to_vec());
    }
    assert_ne!(encode_base64_id("ab".to_string()), encode_base64_id("ac".to_string()));
}

#[test]
fn object_config_keys_are_distinct() {
    let c = get_object_config(&object("S3"));
    assert!(varied::collection::keys_unique(&c));
}
