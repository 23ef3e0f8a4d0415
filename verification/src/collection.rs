//! Collections of media (lists and albums): the values a request carries,
//! the per-kind counts a collection keeps, and the identifiers it holds.

use vstd::prelude::*;
use crate::strings::{joined, split_on, split_text, string_views, text_eq};
use serde_json::Value;

verus! {

/// A value of a collection request: several texts or one.
#[derive(Debug, Clone)]
pub enum CollectionValues {
    Vec(Vec<String>),
    String(String),
}

/// The text of a request value: one text as it is, several run together.
pub open spec fn collection_values_text(v: CollectionValues) -> Seq<char> {
    match v {
        CollectionValues::Vec(items) => joined(string_views(items@), Seq::<char>::empty()),
        CollectionValues::String(s) => s@,
    }
}

/// The texts of a request value: several as they are, one as a list of one.
pub open spec fn collection_values_items(v: CollectionValues) -> Seq<Seq<char>> {
    match v {
        CollectionValues::Vec(items) => string_views(items@),
        CollectionValues::String(s) => seq![s@],
    }
}

impl CollectionValues {
    /// The text of the value, as its `Display` writes it.
    pub fn to_string(&self) -> (res: String)
        ensures
            res@ == collection_values_text(*self),
    {
        proof {
            reveal_strlit("");
            assert(""@ =~= Seq::<char>::empty());
        }
        match self {
            CollectionValues::String(s) => s.clone(),
            CollectionValues::Vec(items) => crate::strings::join_with(items, ""),
        }
    }

    /// The texts of the value.
    pub fn items(&self) -> (res: Vec<String>)
        ensures
            string_views(res@) == collection_values_items(*self),
    {
        match self {
            CollectionValues::String(s) => {
                let mut v: Vec<String> = Vec::new();
                v.push(s.clone());
                assert(string_views(v@) =~= seq![s@]);
                v
            },
            CollectionValues::Vec(items) => crate::strings::copy_strings(items),
        }
    }
}

// ---------------------------------------------------------------- request entries

/// The first position whose key is `key`, if any.
pub open spec fn first_key(keys: Seq<Seq<char>>, key: Seq<char>) -> Option<int>
    decreases keys.len(),
{
    if keys.len() == 0 {
        None
    } else if keys[0] == key {
        Some(0)
    } else {
        match first_key(keys.drop_first(), key) {
            Some(i) => Some(i + 1),
            None => None,
        }
    }
}

/// The keys of request entries.
pub open spec fn entry_keys<V>(entries: Seq<(String, V)>) -> Seq<Seq<char>> {
    entries.map_values(|e: (String, V)| e.0@)
}

/// Whether no two entries have the same key: what a map of entries keeps.
pub open spec fn unique_keys<V>(entries: Seq<(String, V)>) -> bool {
    forall|i: int, j: int| 0 <= i < entries.len() && 0 <= j < entries.len() && i != j ==> (#[trigger] entries[i]).0@ != (#[trigger] entries[j]).0@
}

/// With distinct keys, the first position of a key is the only one.
pub proof fn lemma_first_key_unique(keys: Seq<Seq<char>>, key: Seq<char>, i: int)
    requires
        0 <= i < keys.len(),
        keys[i] == key,
        forall|a: int, b: int| 0 <= a < keys.len() && 0 <= b < keys.len() && a != b ==> #[trigger] keys[a] != #[trigger] keys[b],
    ensures
        first_key(keys, key) == Some(i),
    decreases keys.len(),
{
    if i > 0 {
        let rest = keys.drop_first();
        assert(rest[i - 1] == keys[i]);
        assert forall|a: int, b: int| 0 <= a < rest.len() && 0 <= b < rest.len() && a != b implies #[trigger] rest[a] != #[trigger] rest[b] by {
            assert(rest[a] == keys[a + 1] && rest[b] == keys[b + 1]);
        }
        lemma_first_key_unique(rest, key, i - 1);
        assert(keys[0] != keys[i]);
    }
}

/// Whether the entries have distinct keys.
pub fn keys_unique<V>(entries: &Vec<(String, V)>) -> (res: bool)
    ensures
        res == unique_keys(entries@),
{
    let n = entries.len();
    let mut i: usize = 0;
    while i < n
        invariant
            n == entries@.len(),
            i <= n,
            forall|a: int, b: int| 0 <= a < i && 0 <= b < n && a != b ==> (#[trigger] entries@[a]).0@ != (#[trigger] entries@[b]).0@,
        decreases n - i,
    {
        let mut j: usize = 0;
        while j < n
            invariant
                n == entries@.len(),
                i < n,
                j <= n,
                forall|a: int, b: int| 0 <= a < i && 0 <= b < n && a != b ==> (#[trigger] entries@[a]).0@ != (#[trigger] entries@[b]).0@,
                forall|b: int| 0 <= b < j && b != i ==> entries@[i as int].0@ != (#[trigger] entries@[b]).0@,
            decreases n - j,
        {
            if j != i && text_eq(entries[i].0.as_str(), entries[j].0.as_str()) {
                assert(entries@[i as int].0@ == entries@[j as int].0@);
                return false;
            }
            j = j + 1;
        }
        i = i + 1;
    }
    true
}

/// The position of the entry named `key`, as a map lookup finds it.
pub fn find_key<V>(entries: &Vec<(String, V)>, key: &str) -> (res: Option<usize>)
    ensures
        res matches Some(i) ==> first_key(entry_keys(entries@), key@) == Some(i as int) && i < entries@.len(),
        res is None ==> first_key(entry_keys(entries@), key@) is None,
{
    let mut k: usize = 0;
    assert(entry_keys(entries@).skip(0) =~= entry_keys(entries@));
    while k < entries.len()
        invariant
            k <= entries@.len(),
            first_key(entry_keys(entries@), key@) == match first_key(entry_keys(entries@).skip(k as int), key@) {
                Some(i) => Some(i + k),
                None => None,
            },
        decreases entries@.len() - k,
    {
        let ghost rest = entry_keys(entries@).skip(k as int);
        assert(rest[0] == entries@[k as int].0@);
        assert(rest.drop_first() =~= entry_keys(entries@).skip(k + 1));
        if text_eq(entries[k].0.as_str(), key) {
            return Some(k);
        }
        k = k + 1;
    }
    assert(entry_keys(entries@).skip(k as int).len() == 0);
    None
}

// ---------------------------------------------------------------- counts

/// One per-kind count of a collection, as its properties hold it: a number;
/// a number written as decimal text (what a count becomes once it is raised);
/// or any other value.
#[derive(Debug)]
pub enum PropertyCount {
    Number(u64),
    Counted(u64),
    Other(Value),
}

/// The per-kind counts of a collection.
pub struct CollectionCounts {
    pub Audio: PropertyCount,
    pub Image: PropertyCount,
    pub Video: PropertyCount,
    pub Text: PropertyCount,
    pub Note: PropertyCount,
}

/// A count raised by one: only a number can be raised, and only below the
/// largest `u64`; the raised count is written as text.
pub open spec fn raised(p: PropertyCount) -> Option<PropertyCount> {
    match p {
        PropertyCount::Number(n) => if n < u64::MAX { Some(PropertyCount::Counted((n + 1) as u64)) } else { None },
        _ => None,
    }
}

/// The counts after one medium of kind `t`: the count of a known kind is
/// raised; other kinds change nothing.
pub open spec fn count_step(c: CollectionCounts, t: Seq<char>) -> Option<CollectionCounts> {
    if t == "Audio"@ {
        match raised(c.Audio) { Some(p) => Some(CollectionCounts { Audio: p, ..c }), None => None }
    } else if t == "Image"@ {
        match raised(c.Image) { Some(p) => Some(CollectionCounts { Image: p, ..c }), None => None }
    } else if t == "Video"@ {
        match raised(c.Video) { Some(p) => Some(CollectionCounts { Video: p, ..c }), None => None }
    } else if t == "Text"@ {
        match raised(c.Text) { Some(p) => Some(CollectionCounts { Text: p, ..c }), None => None }
    } else if t == "Note"@ {
        match raised(c.Note) { Some(p) => Some(CollectionCounts { Note: p, ..c }), None => None }
    } else {
        Some(c)
    }
}

/// The counts after the media kinds `types`, in order; nothing when a count
/// that must be raised is not a number below the largest `u64`.
pub open spec fn counts_after(c: CollectionCounts, types: Seq<Seq<char>>) -> Option<CollectionCounts>
    decreases types.len(),
{
    if types.len() == 0 {
        Some(c)
    } else {
        match counts_after(c, types.drop_last()) {
            Some(c1) => count_step(c1, types.last()),
            None => None,
        }
    }
}

fn raise(p: PropertyCount) -> (res: Option<PropertyCount>)
    ensures
        res == raised(p),
{
    match p {
        PropertyCount::Number(n) => if n < u64::MAX { Some(PropertyCount::Counted(n + 1)) } else { None },
        _ => None,
    }
}

fn step(c: CollectionCounts, t: &str) -> (res: Option<CollectionCounts>)
    ensures
        res == count_step(c, t@),
{
    proof {
        reveal_strlit("Audio");
        reveal_strlit("Image");
        reveal_strlit("Video");
        reveal_strlit("Text");
        reveal_strlit("Note");
    }
    let CollectionCounts { Audio, Image, Video, Text, Note } = c;
    if text_eq(t, "Audio") {
        match raise(Audio) { Some(p) => Some(CollectionCounts { Audio: p, Image, Video, Text, Note }), None => None }
    } else if text_eq(t, "Image") {
        match raise(Image) { Some(p) => Some(CollectionCounts { Audio, Image: p, Video, Text, Note }), None => None }
    } else if text_eq(t, "Video") {
        match raise(Video) { Some(p) => Some(CollectionCounts { Audio, Image, Video: p, Text, Note }), None => None }
    } else if text_eq(t, "Text") {
        match raise(Text) { Some(p) => Some(CollectionCounts { Audio, Image, Video, Text: p, Note }), None => None }
    } else if text_eq(t, "Note") {
        match raise(Note) { Some(p) => Some(CollectionCounts { Audio, Image, Video, Text, Note: p }), None => None }
    } else {
        Some(CollectionCounts { Audio, Image, Video, Text, Note })
    }
}

/// The counts of a collection after media of the kinds `types` are added to
/// it; nothing when a count that must be raised cannot be.
pub fn count_media_types(counts: CollectionCounts, types: &Vec<String>) -> (res: Option<CollectionCounts>)
    ensures
        res == counts_after(counts, string_views(types@)),
{
    let ghost start = counts;
    let mut cur = counts;
    let mut k: usize = 0;
    assert(string_views(types@).take(0) =~= Seq::<Seq<char>>::empty());
    while k < types.len()
        invariant
            k <= types@.len(),
            start == counts,
            counts_after(start, string_views(types@).take(k as int)) == Some(cur),
        decreases types@.len() - k,
    {
        let ghost views = string_views(types@);
        assert(views.take(k + 1).drop_last() =~= views.take(k as int));
        assert(views.take(k + 1).last() == types@[k as int]@);
        match step(cur, types[k].as_str()) {
            Some(next) => {
                cur = next;
            },
            None => {
                proof {
                    assert(counts_after(start, views.take(k + 1)) == count_step(cur, views.take(k + 1).last()));
                    lemma_counts_after_none(start, views, k + 1);
                }
                return None;
            },
        }
        k = k + 1;
    }
    assert(string_views(types@).take(k as int) =~= string_views(types@));
    Some(cur)
}

/// Once the counts cannot be raised, no further kinds help.
pub proof fn lemma_counts_after_none(c: CollectionCounts, types: Seq<Seq<char>>, k: int)
    requires
        0 <= k <= types.len(),
        counts_after(c, types.take(k)) is None,
    ensures
        counts_after(c, types) is None,
    decreases types.len() - k,
{
    if k < types.len() {
        assert(types.take(k + 1).drop_last() =~= types.take(k));
        lemma_counts_after_none(c, types, k + 1);
    } else {
        assert(types.take(k) =~= types);
    }
}

/// The counts of a new collection: no media of any kind.
pub fn empty_counts() -> (res: CollectionCounts)
    ensures
        res.Audio == PropertyCount::Number(0),
        res.Image == PropertyCount::Number(0),
        res.Video == PropertyCount::Number(0),
        res.Text == PropertyCount::Number(0),
        res.Note == PropertyCount::Number(0),
{
    CollectionCounts {
        Audio: PropertyCount::Number(0),
        Image: PropertyCount::Number(0),
        Video: PropertyCount::Number(0),
        Text: PropertyCount::Number(0),
        Note: PropertyCount::Number(0),
    }
}

/// Whether `t` is a kind of media that a collection counts.
pub open spec fn counted_kind(t: Seq<char>) -> bool {
    t == "Audio"@ || t == "Image"@ || t == "Video"@ || t == "Text"@ || t == "Note"@
}

/// The count of kind `t` (of a counted kind).
pub open spec fn count_of(c: CollectionCounts, t: Seq<char>) -> PropertyCount {
    if t == "Audio"@ { c.Audio }
    else if t == "Image"@ { c.Image }
    else if t == "Video"@ { c.Video }
    else if t == "Text"@ { c.Text }
    else { c.Note }
}

proof fn lemma_kind_names_differ()
    ensures
        "Audio"@ != "Image"@, "Audio"@ != "Video"@, "Audio"@ != "Text"@, "Audio"@ != "Note"@,
        "Image"@ != "Video"@, "Image"@ != "Text"@, "Image"@ != "Note"@,
        "Video"@ != "Text"@, "Video"@ != "Note"@, "Text"@ != "Note"@,
{
    reveal_strlit("Audio");
    reveal_strlit("Image");
    reveal_strlit("Video");
    reveal_strlit("Text");
    reveal_strlit("Note");
    assert("Audio"@[0] != "Image"@[0]);
    assert("Audio"@[0] != "Video"@[0]);
    assert("Audio"@[0] != "Text"@[0]);
    assert("Audio"@[0] != "Note"@[0]);
    assert("Image"@[0] != "Video"@[0]);
    assert("Image"@[0] != "Text"@[0]);
    assert("Image"@[0] != "Note"@[0]);
    assert("Video"@[0] != "Text"@[0]);
    assert("Video"@[0] != "Note"@[0]);
    assert("Text"@[0] != "Note"@[0]);
}

/// Media of kinds that a collection does not count leave its counts as they are.
pub proof fn lemma_uncounted_kinds_change_nothing(c: CollectionCounts, types: Seq<Seq<char>>)
    requires
        forall|i: int| 0 <= i < types.len() ==> !counted_kind(#[trigger] types[i]),
    ensures
        counts_after(c, types) == Some(c),
    decreases types.len(),
{
    if types.len() > 0 {
        lemma_uncounted_kinds_change_nothing(c, types.drop_last());
        assert(!counted_kind(types[types.len() - 1]));
    }
}

/// After a count has been raised, the kind is counted as text; a step of
/// another kind leaves it so.
proof fn lemma_raised_kind_stays_text(c: CollectionCounts, types: Seq<Seq<char>>, t: Seq<char>)
    requires
        counted_kind(t),
        types.contains(t),
        counts_after(c, types) is Some,
    ensures
        !(count_of(counts_after(c, types)->Some_0, t) is Number),
    decreases types.len(),
{
    lemma_kind_names_differ();
    let last = types.last();
    let c1 = counts_after(c, types.drop_last());
    if last != t {
        let k: int = choose|k: int| 0 <= k < types.len() && types[k] == t;
        assert(types.drop_last()[k] == t);
        lemma_raised_kind_stays_text(c, types.drop_last(), t);
    }
}

/// A single step changes only the count of its own kind: that count is
/// raised; every other count stays.
proof fn lemma_count_step_fields(c: CollectionCounts, t: Seq<char>)
    requires
        counted_kind(t) ==> raised(count_of(c, t)) is Some,
    ensures
        count_step(c, t) is Some,
        forall|k: Seq<char>| counted_kind(k) ==> #[trigger] count_of(count_step(c, t)->Some_0, k) == if k == t {
            raised(count_of(c, k))->Some_0
        } else {
            count_of(c, k)
        },
{
    lemma_kind_names_differ();
}

/// Adding media whose counted kinds are all different, each counted so far
/// by a number below the largest `u64`, succeeds; each of those kinds is
/// raised by one, every other count stays.
pub proof fn lemma_distinct_kinds_counted(c: CollectionCounts, types: Seq<Seq<char>>)
    requires
        forall|i: int, j: int| 0 <= i < j < types.len() && #[trigger] types[i] == #[trigger] types[j] ==> !counted_kind(types[i]),
        forall|i: int| 0 <= i < types.len() && counted_kind(#[trigger] types[i]) ==> raised(count_of(c, types[i])) is Some,
    ensures
        counts_after(c, types) is Some,
        forall|k: Seq<char>| counted_kind(k) ==> #[trigger] count_of(counts_after(c, types)->Some_0, k) == if types.contains(k) {
            raised(count_of(c, k))->Some_0
        } else {
            count_of(c, k)
        },
    decreases types.len(),
{
    if types.len() == 0 {
        assert forall|k: Seq<char>| counted_kind(k) implies #[trigger] count_of(counts_after(c, types)->Some_0, k) == count_of(c, k) && !types.contains(k) by {}
    } else {
        let pre = types.drop_last();
        let t = types.last();
        assert forall|i: int, j: int| 0 <= i < j < pre.len() && #[trigger] pre[i] == #[trigger] pre[j] implies !counted_kind(pre[i]) by {
            assert(types[i] == pre[i] && types[j] == pre[j]);
        }
        assert forall|i: int| 0 <= i < pre.len() && counted_kind(#[trigger] pre[i]) implies raised(count_of(c, pre[i])) is Some by {
            assert(types[i] == pre[i]);
        }
        lemma_distinct_kinds_counted(c, pre);
        let c1 = counts_after(c, pre)->Some_0;
        if counted_kind(t) {
            assert(!pre.contains(t)) by {
                if pre.contains(t) {
                    let i: int = choose|i: int| 0 <= i < pre.len() && pre[i] == t;
                    assert(types[i] == types[types.len() - 1]);
                }
            }
            assert(count_of(c1, t) == count_of(c, t));
            assert(raised(count_of(c, types[types.len() - 1])) is Some);
        }
        lemma_count_step_fields(c1, t);
        let c2 = count_step(c1, t)->Some_0;
        assert forall|k: Seq<char>| counted_kind(k) implies #[trigger] count_of(c2, k) == if types.contains(k) {
            raised(count_of(c, k))->Some_0
        } else {
            count_of(c, k)
        } by {
            assert(count_of(c1, k) == if pre.contains(k) { raised(count_of(c, k))->Some_0 } else { count_of(c, k) });
            if k == t {
                assert(types.contains(k)) by {
                    assert(types[types.len() - 1] == k);
                }
            } else {
                assert(types.contains(k) == pre.contains(k)) by {
                    if types.contains(k) {
                        let i: int = choose|i: int| 0 <= i < types.len() && types[i] == k;
                        assert(i < types.len() - 1);
                        assert(pre[i] == k);
                    }
                    if pre.contains(k) {
                        let i: int = choose|i: int| 0 <= i < pre.len() && pre[i] == k;
                        assert(types[i] == k);
                    }
                }
            }
        }
    }
}

/// Adding two media of one counted kind in a single request fails: the
/// first raises the count and writes it as text, which the second cannot raise.
pub proof fn lemma_kind_twice_fails(c: CollectionCounts, types: Seq<Seq<char>>, i: int, j: int)
    requires
        0 <= i < j < types.len(),
        types[i] == types[j],
        counted_kind(types[j]),
    ensures
        counts_after(c, types) is None,
{
    lemma_kind_names_differ();
    let t = types[j];
    let pre = types.take(j);
    assert(pre[i] == t);
    assert(types.take(j + 1).drop_last() =~= pre);
    assert(types.take(j + 1).last() == t);
    if counts_after(c, pre) is Some {
        lemma_raised_kind_stays_text(c, pre, t);
    }
    assert(counts_after(c, types.take(j + 1)) is None);
    lemma_counts_after_none(c, types, j + 1);
}

// ---------------------------------------------------------------- identifiers

/// The identifiers a collection holds after new ones are added: the new ones
/// first, then the pieces of the stored text between commas.
pub fn merged_ids(new_ids: Vec<String>, current: &str) -> (res: Vec<String>)
    ensures
        string_views(res@) == string_views(new_ids@) + split_on(current@, ','),
{
    let mut res = new_ids;
    let ghost first = string_views(res@);
    let rest = split_text(current, ',');
    let mut k: usize = 0;
    while k < rest.len()
        invariant
            k <= rest@.len(),
            res@.len() == first.len() + k,
            string_views(res@) == first + string_views(rest@).take(k as int),
        decreases rest@.len() - k,
    {
        let ghost prev = string_views(res@);
        let item = rest[k].clone();
        res.push(item);
        assert(string_views(res@) =~= prev.push(rest@[k as int]@));
        assert(string_views(rest@).take(k + 1) =~= string_views(rest@).take(k as int).push(rest@[k as int]@));
        k = k + 1;
        assert(string_views(res@) =~= first + string_views(rest@).take(k as int));
    }
    assert(string_views(rest@).take(k as int) =~= string_views(rest@));
    res
}

// ---------------------------------------------------------------- adding to a collection

/// What a collection is asked to take in: the media identifiers, the
/// collection, and the kinds of the media.
pub struct CollectionAddition {
    pub ids: Vec<String>,
    pub collection_id: String,
    pub types: Vec<String>,
}

/// Why a new collection could not be made.
#[derive(Debug, PartialEq, Eq, Structural, Clone, Copy)]
pub enum CollectionError {
    MissingTitle,
    MissingDescription,
    MissingCollectionType,
    MissingState,
}

/// The entry of a request named `key`, as a map lookup finds it.
pub open spec fn entry_named<V>(entries: Seq<(String, V)>, key: Seq<char>) -> Option<V> {
    match first_key(entry_keys(entries), key) {
        Some(i) => Some(entries[i].1),
        None => None,
    }
}

/// In entries with distinct keys, the entry named `key` is the value at the
/// one position that holds `key`, and there is none where no position does.
pub proof fn lemma_entry_named_unique<V>(entries: Seq<(String, V)>, key: Seq<char>)
    requires
        unique_keys(entries),
    ensures
        forall|i: int| 0 <= i < entries.len() && (#[trigger] entries[i]).0@ == key ==> entry_named(entries, key) == Some(entries[i].1),
        (forall|i: int| 0 <= i < entries.len() ==> (#[trigger] entries[i]).0@ != key) ==> entry_named(entries, key) is None,
{
    let keys = entry_keys(entries);
    assert forall|a: int, b: int| 0 <= a < keys.len() && 0 <= b < keys.len() && a != b implies #[trigger] keys[a] != #[trigger] keys[b] by {
        assert(keys[a] == entries[a].0@ && keys[b] == entries[b].0@);
    }
    assert forall|i: int| 0 <= i < entries.len() && (#[trigger] entries[i]).0@ == key implies entry_named(entries, key) == Some(entries[i].1) by {
        assert(keys[i] == key);
        lemma_first_key_unique(keys, key, i);
    }
    if forall|i: int| 0 <= i < entries.len() ==> (#[trigger] entries[i]).0@ != key {
        if first_key(keys, key) is Some {
            lemma_first_key_in_keys(keys, key);
            let i = first_key(keys, key)->Some_0;
            assert(entries[i].0@ == keys[i]);
        }
    }
}

/// The first position of a key holds that key.
proof fn lemma_first_key_in_keys(keys: Seq<Seq<char>>, key: Seq<char>)
    requires
        first_key(keys, key) is Some,
    ensures
        0 <= first_key(keys, key)->Some_0 < keys.len(),
        keys[first_key(keys, key)->Some_0] == key,
    decreases keys.len(),
{
    if keys.len() > 0 && keys[0] != key {
        lemma_first_key_in_keys(keys.drop_first(), key);
    }
}

/// Whether a collection request can be read: it names media identifiers
/// under `Id`, one collection (a single text) under `Collection_Id`, and
/// media kinds under `Type`.
pub open spec fn collection_request_ok(details: Seq<(String, CollectionValues)>) -> bool {
    &&& entry_named(details, "Id"@) is Some
    &&& entry_named(details, "Collection_Id"@) matches Some(CollectionValues::String(_))
    &&& entry_named(details, "Type"@) is Some
}

/// Whether a collection request can be read, as `collection_request_ok` says.
pub fn collection_request_complete(details: &Vec<(String, CollectionValues)>) -> (res: bool)
    ensures
        res == collection_request_ok(details@),
{
    let has_id = find_key(details, "Id").is_some();
    let has_type = find_key(details, "Type").is_some();
    let one_collection = match find_key(details, "Collection_Id") {
        Some(c) => match &details[c].1 {
            CollectionValues::String(_) => true,
            CollectionValues::Vec(_) => false,
        },
        None => false,
    };
    has_id && one_collection && has_type
}

/// What a complete collection request asks: the media identifiers under
/// `Id`, the collection under `Collection_Id` and the media kinds under
/// `Type`.
pub fn read_collection_details(details: &Vec<(String, CollectionValues)>) -> (res: CollectionAddition)
    requires
        unique_keys(details@),
        collection_request_ok(details@),
    ensures
        string_views(res.ids@) == collection_values_items(entry_named(details@, "Id"@)->Some_0),
        entry_named(details@, "Collection_Id"@) == Some(CollectionValues::String(res.collection_id)),
        string_views(res.types@) == collection_values_items(entry_named(details@, "Type"@)->Some_0),
{
    let i = find_key(details, "Id").unwrap();
    let ids = details[i].1.items();
    let c = find_key(details, "Collection_Id").unwrap();
    let collection_id = match &details[c].1 {
        CollectionValues::String(s) => s.clone(),
        CollectionValues::Vec(_) => String::new(),
    };
    let t = find_key(details, "Type").unwrap();
    let types = details[t].1.items();
    CollectionAddition { ids, collection_id, types }
}

// ---------------------------------------------------------------- new collections

/// A collection as it is first stored.
pub struct NewCollection {
    pub public_id: String,
    pub title: String,
    pub description: Option<String>,
    pub collection_type: String,
    pub state: String,
    pub username: String,
    pub counts: CollectionCounts,
}

/// Whether a collection of this type can be made: lists and albums.
pub open spec fn collection_type_ok(t: Seq<char>) -> bool {
    t == "List"@ || t == "Album"@
}

fn value_named(params: &Vec<(String, String)>, key: &str) -> (res: Option<String>)
    ensures
        res is Some <==> entry_named(params@, key@) is Some,
        res is Some ==> res->Some_0@ == entry_named(params@, key@)->Some_0@,
{
    match find_key(params, key) {
        Some(i) => Some(params[i].1.clone()),
        None => None,
    }
}

/// A new collection of `username` with public identifier `public_id`, from
/// the request's `Title`, `Description`, `CollectionType` and `State` (each
/// of which must be there, in that order), with no media of any kind; no
/// collection when its type is neither a list nor an album.
pub fn create_collection(params: &Vec<(String, String)>, username: &str, public_id: String) -> (res: Result<Option<NewCollection>, CollectionError>)
    requires
        unique_keys(params@),
    ensures
        ({
            let title = entry_named(params@, "Title"@);
            let desc = entry_named(params@, "Description"@);
            let ty = entry_named(params@, "CollectionType"@);
            let state = entry_named(params@, "State"@);
            if title is None {
                res == Err::<Option<NewCollection>, CollectionError>(CollectionError::MissingTitle)
            } else if desc is None {
                res == Err::<Option<NewCollection>, CollectionError>(CollectionError::MissingDescription)
            } else if ty is None {
                res == Err::<Option<NewCollection>, CollectionError>(CollectionError::MissingCollectionType)
            } else if state is None {
                res == Err::<Option<NewCollection>, CollectionError>(CollectionError::MissingState)
            } else if !collection_type_ok(ty->Some_0@) {
                res matches Ok(None)
            } else {
                res matches Ok(Some(c)) && {
                    &&& c.public_id == public_id
                    &&& c.title@ == title->Some_0@
                    &&& c.description is Some && c.description->Some_0@ == desc->Some_0@
                    &&& c.collection_type@ == ty->Some_0@
                    &&& c.state@ == state->Some_0@
                    &&& c.username@ == username@
                    &&& c.counts.Audio == PropertyCount::Number(0)
                    &&& c.counts.Image == PropertyCount::Number(0)
                    &&& c.counts.Video == PropertyCount::Number(0)
                    &&& c.counts.Text == PropertyCount::Number(0)
                    &&& c.counts.Note == PropertyCount::Number(0)
                }
            }
        }),
{
    proof {
        reveal_strlit("List");
        reveal_strlit("Album");
    }
    let title = match value_named(params, "Title") {
        Some(v) => v,
        None => {
            return Err(CollectionError::MissingTitle);
        },
    };
    let description = match value_named(params, "Description") {
        Some(v) => v,
        None => {
            return Err(CollectionError::MissingDescription);
        },
    };
    let collection_type = match value_named(params, "CollectionType") {
        Some(v) => v,
        None => {
            return Err(CollectionError::MissingCollectionType);
        },
    };
    let state = match value_named(params, "State") {
        Some(v) => v,
        None => {
            return Err(CollectionError::MissingState);
        },
    };
    if text_eq(collection_type.as_str(), "List") || text_eq(collection_type.as_str(), "Album") {
        Ok(Some(NewCollection {
            public_id,
            title,
            description: Some(description),
            collection_type,
            state,
            username: username.to_string(),
            counts: empty_counts(),
        }))
    } else {
        Ok(None)
    }
}

/// The details of a collection request, each value as one text.
pub fn details_from_params(params: &Vec<(String, String)>) -> (res: Vec<(String, CollectionValues)>)
    ensures
        res@.len() == params@.len(),
        forall|i: int| 0 <= i < params@.len() ==> (#[trigger] res@[i]).0@ == params@[i].0@ && res@[i].1 is String && res@[i].1->String_0@ == params@[i].1@,
        unique_keys(params@) ==> unique_keys(res@),
{
    let mut res: Vec<(String, CollectionValues)> = Vec::new();
    let mut k: usize = 0;
    while k < params.len()
        invariant
            k <= params@.len(),
            res@.len() == k,
            forall|i: int| 0 <= i < k ==> (#[trigger] res@[i]).0@ == params@[i].0@ && res@[i].1 is String && res@[i].1->String_0@ == params@[i].1@,
        decreases params@.len() - k,
    {
        res.push((params[k].0.clone(), CollectionValues::String(params[k].1.clone())));
        k = k + 1;
    }
    proof {
        if unique_keys(params@) {
            assert forall|i: int, j: int| 0 <= i < res@.len() && 0 <= j < res@.len() && i != j implies (#[trigger] res@[i]).0@ != (#[trigger] res@[j]).0@ by {
                assert(params@[i].0@ != params@[j].0@);
            }
        }
    }
    res
}

} // verus!
