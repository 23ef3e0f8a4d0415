use varied::task::{progress_step, frame_count, task_query, ProgressAction};
use varied::follow::{follow_record, following_reply, Follow};
use varied::feed::feed_query;

#[test]
fn progress_accumulates() {
    let mut total = String::new();
    match progress_step(&mut total, 10, 40) {
        ProgressAction::Create(t) => assert_eq!(t, "25%"),
        _ => panic!("first report creates the task"),
    }
    match progress_step(&mut total, 40, 40) {
        ProgressAction::Update(t) => assert_eq!(t, "25%100%"),
        _ => panic!("later reports update the task"),
    }
    assert_eq!(total, "25%100%");
    let mut t2 = String::new();
    progress_step(&mut t2, 1, 3);
    assert_eq!(t2, "33%");
}

#[test]
fn frame_counts_from_reports() {
    assert_eq!(frame_count("1234\n"), Some(1234));
    assert_eq!(frame_count("1234"), None);
    assert_eq!(frame_count("N/A\n"), None);
    assert_eq!(frame_count("\n"), None);
    assert_eq!(frame_count("4294967296\n"), None);
}

#[test]
fn queries_name_the_user() {
    assert_eq!(task_query("bob"), "SELECT * FROM v_task WHERE username = 'bob'");
    let q = feed_query("bob");
    assert!(q.starts_with("SELECT DISTINCT on (publicid) v_media.publicid"));
    assert!(q.contains("WHERE v_follow.follower = 'bob' AND v_media.properties ->> 'Album' = 'false'"));
    assert!(q.ends_with("->> 'Poster' = 'false';"));
}

#[test]
fn follow_records_and_replies() {
    let r = follow_record("\"alice\"", &Follow { follow: "\"bob\"".to_string(), properties: None }).ok().unwrap();
    assert_eq!(r.follower, "alice");
    assert_eq!(r.following, "bob");
    assert!(r.id.len() >= 5 && r.id.chars().all(|c| c.is_ascii_alphanumeric()));
    assert_eq!(following_reply(true), "true");
    assert_eq!(following_reply(false), "false");
}

#[test]
fn frame_count_reads_back_decimal_reports() {
    for n in [0u32, 7, 25_000, u32::MAX] {
        assert_eq!(frame_count(&format!("{}\n", n)), Some(n));
    }
}
