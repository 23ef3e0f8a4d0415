use varied::collection::{
    CollectionValues, find_key, count_media_types, empty_counts, merged_ids, read_collection_details,
    create_collection, details_from_params, CollectionCounts, PropertyCount, CollectionError,
    collection_request_complete,
};

fn s(x: &str) -> String {
    x.to_string()
}

#[test]
fn collection_values_as_text() {
    assert_eq!(CollectionValues::String(s("abc")).to_string(), "abc");
    assert_eq!(CollectionValues::Vec(vec![s("a"), s("bc"), s("d")]).to_string(), "abcd");
    assert_eq!(CollectionValues::Vec(vec![]).to_string(), "");
    assert_eq!(CollectionValues::String(s("x")).items(), vec![s("x")]);
    assert_eq!(CollectionValues::Vec(vec![s("a"), s("b")]).items(), vec![s("a"), s("b")]);
}

#[test]
fn find_key_finds_first_entry() {
    let e = vec![(s("a"), 1), (s("b"), 2), (s("a"), 3)];
    assert_eq!(find_key(&e, "a"), Some(0));
    assert_eq!(find_key(&e, "b"), Some(1));
    assert_eq!(find_key(&e, "c"), None);
}

fn counts(a: u64) -> CollectionCounts {
    let mut c = empty_counts();
    c.Audio = PropertyCount::Number(a);
    c
}

fn is_counted(p: &PropertyCount, n: u64) -> bool {
    matches!(p, PropertyCount::Counted(m) if *m == n)
}

fn is_number(p: &PropertyCount, n: u64) -> bool {
    matches!(p, PropertyCount::Number(m) if *m == n)
}

#[test]
fn counting_raises_each_kind_once() {
    let c = count_media_types(counts(4), &vec![s("Audio"), s("Video"), s("Podcast")]).unwrap();
    assert!(is_counted(&c.Audio, 5));
    assert!(is_counted(&c.Video, 1));
    assert!(is_number(&c.Image, 0));
    assert!(is_number(&c.Text, 0));
    assert!(is_number(&c.Note, 0));
}

#[test]
fn uncounted_kinds_change_nothing() {
    let c = count_media_types(counts(7), &vec![s("Podcast"), s("audio")]).unwrap();
    assert!(is_number(&c.Audio, 7));
    assert!(is_number(&c.Video, 0));
}

#[test]
fn counting_a_kind_twice_fails() {
    assert!(count_media_types(counts(0), &vec![s("Image"), s("Text"), s("Image")]).is_none());
}

#[test]
fn counting_needs_a_number_below_the_largest() {
    assert!(count_media_types(counts(u64::MAX), &vec![s("Audio")]).is_none());
    let mut c = empty_counts();
    c.Note = PropertyCount::Other(serde_json::Value::String(s("3")));
    assert!(count_media_types(c, &vec![s("Note")]).is_none());
}

#[test]
fn merged_ids_put_new_ones_first() {
    assert_eq!(merged_ids(vec![s("n1"), s("n2")], "a,b"), vec![s("n1"), s("n2"), s("a"), s("b")]);
    assert_eq!(merged_ids(vec![], "\"x\""), vec![s("\"x\"")]);
    assert_eq!(merged_ids(vec![s("n")], ""), vec![s("n"), s("")]);
}

#[test]
fn reading_collection_details() {
    let d = vec![
        (s("Type"), CollectionValues::Vec(vec![s("Audio"), s("Video")])),
        (s("Id"), CollectionValues::String(s("m1"))),
        (s("Collection_Id"), CollectionValues::String(s("c1"))),
    ];
    assert!(collection_request_complete(&d));
    let a = read_collection_details(&d);
    assert_eq!(a.ids, vec![s("m1")]);
    assert_eq!(a.collection_id, "c1");
    assert_eq!(a.types, vec![s("Audio"), s("Video")]);
}

#[test]
fn incomplete_collection_requests_are_recognised() {
    let no_id = vec![
        (s("Ids"), CollectionValues::String(s("m1"))),
        (s("Collection_Id"), CollectionValues::String(s("c"))),
        (s("Type"), CollectionValues::String(s("Note"))),
    ];
    assert!(!collection_request_complete(&no_id));
    let no_cid = vec![(s("Id"), CollectionValues::String(s("m1"))), (s("Type"), CollectionValues::String(s("Note")))];
    assert!(!collection_request_complete(&no_cid));
    let no_type = vec![(s("Id"), CollectionValues::String(s("m1"))), (s("Collection_Id"), CollectionValues::String(s("c")))];
    assert!(!collection_request_complete(&no_type));
    let several = vec![
        (s("Id"), CollectionValues::String(s("m1"))),
        (s("Collection_Id"), CollectionValues::Vec(vec![s("c1"), s("c2")])),
        (s("Type"), CollectionValues::String(s("Note"))),
    ];
    assert!(!collection_request_complete(&several));
}

fn params(ty: &str) -> Vec<(String, String)> {
    vec![(s("Title"), s("Trip")), (s("Description"), s("Photos")), (s("CollectionType"), s(ty)), (s("State"), s("Public"))]
}

#[test]
fn creating_lists_and_albums() {
    let c = create_collection(&params("Album"), "bob", s("PUB12")).ok().unwrap().unwrap();
    assert_eq!(c.public_id, "PUB12");
    assert_eq!(c.title, "Trip");
    assert_eq!(c.description, Some(s("Photos")));
    assert_eq!(c.collection_type, "Album");
    assert_eq!(c.state, "Public");
    assert_eq!(c.username, "bob");
    assert!(is_number(&c.counts.Video, 0));
    assert!(create_collection(&params("List"), "bob", s("P")).ok().unwrap().is_some());
    assert!(create_collection(&params("Folder"), "bob", s("P")).ok().unwrap().is_none());
}

#[test]
fn creating_collection_needs_every_field() {
    let mut p = params("List");
    p.remove(3);
    assert_eq!(create_collection(&p, "bob", s("P")).err(), Some(CollectionError::MissingState));
    p.remove(2);
    assert_eq!(create_collection(&p, "bob", s("P")).err(), Some(CollectionError::MissingCollectionType));
    p.remove(1);
    assert_eq!(create_collection(&p, "bob", s("P")).err(), Some(CollectionError::MissingDescription));
    p.remove(0);
    assert_eq!(create_collection(&p, "bob", s("P")).err(), Some(CollectionError::MissingTitle));
}

#[test]
fn details_from_params_one_text_each() {
    let d = details_from_params(&vec![(s("Id"), s("a,b"))]);
    assert_eq!(d.len(), 1);
    assert_eq!(d[0].0, "Id");
    assert!(matches!(&d[0].1, CollectionValues::String(v) if v == "a,b"));
}

#[test]
fn key_uniqueness_is_checked() {
    assert!(varied::collection::keys_unique(&params("List")));
    assert!(varied::collection::keys_unique::<String>(&vec![]));
    let twice = vec![(s("Title"), s("a")), (s("State"), s("b")), (s("Title"), s("c"))];
    assert!(!varied::collection::keys_unique(&twice));
}
