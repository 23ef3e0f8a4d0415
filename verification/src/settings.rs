//! Service settings and identifiers: the settings file's sections, public
//! identifiers (URL-safe Base64 and Sqids), random digit and letter codes,
//! and the values the settings give the rest of the service.

use vstd::prelude::*;
use crate::strings::{replaced, replace_all};
use crate::numbers::{parsed_unsigned, parse_unsigned};
use base64::Engine;
use rand::Rng;

verus! {

/// The settings file.
pub struct Config {
    pub database: database,
    pub Object: Object,
    pub Core: Core,
    pub S3: ConfigS3,
}

/// The `[Core]` section: where the service and its front end are reached and
/// how large an upload may be.
pub struct Core {
    pub file_size_limit: String,
    pub front_end_url: String,
    pub main_url: String,
}

/// The `[database]` section.
pub struct database {
    pub url: String,
}

/// The `[Object]` section: the object store's kind, its endpoint, and the
/// local directory where media are processed.
pub struct Object {
    pub name: String,
    pub endpoint: String,
    pub process: String,
}

/// The `[S3]` section.
pub struct ConfigS3 {
    pub bucket: String,
    pub root: String,
    pub region: String,
    pub endpoint: String,
    pub access_key_id: String,
    pub secret_access_key: String,
}

// ---------------------------------------------------------------- Base64

/// The symbol of a 6-bit value in the URL-safe Base64 alphabet (RFC 4648 §5).
pub open spec fn base64_symbol(v: nat) -> char {
    if v < 26 {
        ((65 + v) as u8) as char
    } else if v < 52 {
        ((97 + v - 26) as u8) as char
    } else if v < 62 {
        ((48 + v - 52) as u8) as char
    } else if v == 62 {
        '-'
    } else {
        '_'
    }
}

/// URL-safe Base64 without padding: each group of three bytes becomes four
/// symbols; a last group of one or two bytes becomes two or three symbols.
pub open spec fn base64_url(bytes: Seq<u8>) -> Seq<char>
    decreases bytes.len(),
{
    if bytes.len() == 0 {
        Seq::<char>::empty()
    } else if bytes.len() == 1 {
        seq![base64_symbol((bytes[0] / 4) as nat), base64_symbol(((bytes[0] % 4) * 16) as nat)]
    } else if bytes.len() == 2 {
        seq![
            base64_symbol((bytes[0] / 4) as nat),
            base64_symbol(((bytes[0] % 4) * 16 + bytes[1] / 16) as nat),
            base64_symbol(((bytes[1] % 16) * 4) as nat),
        ]
    } else {
        seq![
            base64_symbol((bytes[0] / 4) as nat),
            base64_symbol(((bytes[0] % 4) * 16 + bytes[1] / 16) as nat),
            base64_symbol(((bytes[1] % 16) * 4 + bytes[2] / 64) as nat),
            base64_symbol((bytes[2] % 64) as nat),
        ] + base64_url(bytes.skip(3))
    }
}

/// `base64::engine::GeneralPurpose::encode` with the URL-safe alphabet and no
/// padding; the contract claims it is the RFC 4648 URL-safe encoding without `=`.
#[verifier::external_body]
fn base64_url_encode(bytes: &[u8]) -> (res: String)
    ensures
        res@ == base64_url(bytes@),
{
    base64::engine::GeneralPurpose::new(
        &base64::alphabet::URL_SAFE,
        base64::engine::general_purpose::NO_PAD,
    ).encode(bytes)
}

/// The public form of an identifier: its UTF-8 bytes in URL-safe Base64
/// without padding.
pub fn encode_base64_id(id: String) -> (res: String)
    ensures
        res@ == base64_url(vstd::utf8::encode_utf8(id@)),
{
    let bytes = id.as_str().as_bytes();
    base64_url_encode(bytes)
}

/// The length of the URL-safe Base64 text of `n` bytes.
pub open spec fn base64_len(n: nat) -> nat {
    4 * (n / 3) + if n % 3 == 0 { 0nat } else if n % 3 == 1 { 2nat } else { 3nat }
}

/// The encoding has the expected length and uses only the URL-safe symbols.
pub proof fn lemma_base64_url_shape(bytes: Seq<u8>)
    ensures
        base64_url(bytes).len() == base64_len(bytes.len()),
        forall|i: int| 0 <= i < base64_url(bytes).len() ==> exists|v: nat| v < 64 && #[trigger] base64_url(bytes)[i] == base64_symbol(v),
    decreases bytes.len(),
{
    let e = base64_url(bytes);
    if bytes.len() >= 3 {
        lemma_base64_url_shape(bytes.skip(3));
        let r = base64_url(bytes.skip(3));
        assert forall|i: int| 0 <= i < e.len() implies exists|v: nat| v < 64 && #[trigger] e[i] == base64_symbol(v) by {
            if i >= 4 {
                assert(e[i] == r[i - 4]);
            } else if i == 0 {
                assert(e[i] == base64_symbol((bytes[0] / 4) as nat));
            } else if i == 1 {
                assert(e[i] == base64_symbol(((bytes[0] % 4) * 16 + bytes[1] / 16) as nat));
            } else if i == 2 {
                assert(e[i] == base64_symbol(((bytes[1] % 16) * 4 + bytes[2] / 64) as nat));
            } else {
                assert(e[i] == base64_symbol((bytes[2] % 64) as nat));
            }
        }
    } else if bytes.len() == 2 {
        assert forall|i: int| 0 <= i < e.len() implies exists|v: nat| v < 64 && #[trigger] e[i] == base64_symbol(v) by {
            if i == 0 {
                assert(e[i] == base64_symbol((bytes[0] / 4) as nat));
            } else if i == 1 {
                assert(e[i] == base64_symbol(((bytes[0] % 4) * 16 + bytes[1] / 16) as nat));
            } else {
                assert(e[i] == base64_symbol(((bytes[1] % 16) * 4) as nat));
            }
        }
    } else if bytes.len() == 1 {
        assert forall|i: int| 0 <= i < e.len() implies exists|v: nat| v < 64 && #[trigger] e[i] == base64_symbol(v) by {
            if i == 0 {
                assert(e[i] == base64_symbol((bytes[0] / 4) as nat));
            } else {
                assert(e[i] == base64_symbol(((bytes[0] % 4) * 16) as nat));
            }
        }
    }
}

/// The 6-bit value of a URL-safe Base64 symbol (the inverse of
/// `base64_symbol` on the alphabet).
pub open spec fn base64_value(c: char) -> nat {
    let x = c as u32;
    if 65 <= x <= 90 {
        (x - 65) as nat
    } else if 97 <= x <= 122 {
        (x - 97 + 26) as nat
    } else if 48 <= x <= 57 {
        (x - 48 + 52) as nat
    } else if c == '-' {
        62
    } else {
        63
    }
}

/// URL-safe Base64 without padding read back: each group of four symbols
/// gives three bytes; a last group of two or three symbols gives one or two.
pub open spec fn base64_url_decode(s: Seq<char>) -> Seq<u8>
    decreases s.len(),
{
    if s.len() < 2 {
        Seq::<u8>::empty()
    } else {
        let v0 = base64_value(s[0]);
        let v1 = base64_value(s[1]);
        let first = (v0 * 4 + v1 / 16) as u8;
        if s.len() == 2 {
            seq![first]
        } else {
            let v2 = base64_value(s[2]);
            let second = ((v1 % 16) * 16 + v2 / 4) as u8;
            if s.len() == 3 {
                seq![first, second]
            } else {
                let v3 = base64_value(s[3]);
                seq![first, second, ((v2 % 4) * 64 + v3) as u8] + base64_url_decode(s.skip(4))
            }
        }
    }
}

proof fn lemma_base64_value_of_symbol(v: nat)
    requires
        v < 64,
    ensures
        base64_value(base64_symbol(v)) == v,
{
}

proof fn lemma_base64_group(b0: u8, b1: u8, b2: u8)
    ensures
        (b0 / 4) * 4 + ((b0 % 4) * 16 + b1 / 16) / 16 == b0,
        ((((b0 % 4) * 16 + b1 / 16) as int) % 16) * 16 + ((b1 % 16) * 4 + b2 / 64) / 4 == b1,
        ((((b1 % 16) * 4 + b2 / 64) as int) % 4) * 64 + b2 % 64 == b2,
        ((b0 % 4) * 16 + b1 / 16) < 64,
        ((b1 % 16) * 4 + b2 / 64) < 64,
{
    assert((b0 / 4) * 4 + ((b0 % 4) * 16 + b1 / 16) / 16 == b0) by (bit_vector);
    assert(((((b0 % 4) * 16 + b1 / 16) as u8) % 16) * 16 + (((b1 % 16) * 4 + b2 / 64) as u8) / 4 == b1) by (bit_vector);
    assert(((((b1 % 16) * 4 + b2 / 64) as u8) % 4) * 64 + b2 % 64 == b2) by (bit_vector);
    assert(((b0 % 4) * 16 + b1 / 16) < 64) by (bit_vector);
    assert(((b1 % 16) * 4 + b2 / 64) < 64) by (bit_vector);
}

/// Reading back the URL-safe Base64 text of some bytes gives those bytes:
/// the public form of an identifier loses nothing of it.
pub proof fn lemma_base64_url_roundtrip(bytes: Seq<u8>)
    ensures
        base64_url_decode(base64_url(bytes)) == bytes,
    decreases bytes.len(),
{
    let e = base64_url(bytes);
    if bytes.len() == 0 {
    } else {
        let b0 = bytes[0];
        let b1: u8 = if bytes.len() >= 2 { bytes[1] } else { 0 };
        let b2: u8 = if bytes.len() >= 3 { bytes[2] } else { 0 };
        lemma_base64_group(b0, b1, b2);
        lemma_base64_value_of_symbol((b0 / 4) as nat);
        lemma_base64_value_of_symbol(((b0 % 4) * 16 + b1 / 16) as nat);
        lemma_base64_value_of_symbol(((b1 % 16) * 4 + b2 / 64) as nat);
        lemma_base64_value_of_symbol((b2 % 64) as nat);
        if bytes.len() == 1 {
            assert(((b0 % 4) * 16 + b1 / 16) == (b0 % 4) * 16);
            assert(base64_url_decode(e) =~= bytes);
        } else if bytes.len() == 2 {
            assert(((b1 % 16) * 4 + b2 / 64) == (b1 % 16) * 4);
            assert(base64_url_decode(e) =~= bytes);
        } else {
            lemma_base64_url_roundtrip(bytes.skip(3));
            lemma_base64_url_shape(bytes.skip(3));
            assert(e.skip(4) =~= base64_url(bytes.skip(3)));
            assert(bytes =~= seq![b0, b1, b2] + bytes.skip(3));
            assert(base64_url_decode(e) =~= bytes);
        }
    }
}

/// Different bytes never share a URL-safe Base64 text: two identifiers with
/// the same public form are the same identifier.
pub proof fn lemma_base64_url_injective(x: Seq<u8>, y: Seq<u8>)
    requires
        base64_url(x) == base64_url(y),
    ensures
        x == y,
{
    lemma_base64_url_roundtrip(x);
    lemma_base64_url_roundtrip(y);
}

// ---------------------------------------------------------------- Sqids

/// Why Sqids could not make an identifier.
#[derive(Debug, PartialEq, Eq, Structural, Clone, Copy)]
pub enum SqidsError {
    AlphabetMultibyteCharacters,
    AlphabetLength,
    AlphabetUniqueCharacters,
    BlocklistMaxAttempts,
}

/// Whether every character of `a` is a single UTF-8 byte.
pub open spec fn single_byte_chars(a: Seq<char>) -> bool {
    forall|i: int| 0 <= i < a.len() ==> (#[trigger] a[i] as u32) < 0x80
}

/// Whether no character of `a` occurs twice.
pub open spec fn distinct_chars(a: Seq<char>) -> bool {
    forall|i: int, j: int| 0 <= i < a.len() && 0 <= j < a.len() && i != j ==> #[trigger] a[i] != #[trigger] a[j]
}

/// Whether Sqids accepts `a` as its alphabet.
pub open spec fn sqids_alphabet_ok(a: Seq<char>) -> bool {
    single_byte_chars(a) && a.len() >= 3 && distinct_chars(a)
}

/// The identifier that Sqids makes of `numbers` with the given (valid)
/// alphabet, minimum length and its default block list; nothing when every
/// attempt it makes is on the block list.
pub uninterp spec fn sqids_id(alphabet: Seq<char>, min_length: u8, numbers: Seq<u64>) -> Option<Seq<char>>;

/// `sqids::Sqids::new` with the given alphabet and minimum length (and the
/// default block list), then `Sqids::encode` of `numbers`. The contract claims
/// the alphabet checks that `Sqids::new` makes, in its order; that no numbers
/// give the empty identifier; that with a valid alphabet the call succeeds
/// exactly when the named result is some identifier, and then returns it;
/// and that an identifier of some numbers holds only alphabet characters and
/// has at least the minimum length. Which identifiers the block list rejects
/// is left to the name: encoding is a function of its arguments alone.
#[verifier::external_body]
fn sqids_encode(alphabet: &str, min_length: u8, numbers: &[u64]) -> (res: Result<String, SqidsError>)
    ensures
        !single_byte_chars(alphabet@) ==> res is Err && res->Err_0 == SqidsError::AlphabetMultibyteCharacters,
        single_byte_chars(alphabet@) && alphabet@.len() < 3 ==> res is Err && res->Err_0 == SqidsError::AlphabetLength,
        single_byte_chars(alphabet@) && alphabet@.len() >= 3 && !distinct_chars(alphabet@) ==> res is Err && res->Err_0 == SqidsError::AlphabetUniqueCharacters,
        sqids_alphabet_ok(alphabet@) && numbers@.len() == 0 ==> res is Ok && res->Ok_0@.len() == 0,
        sqids_alphabet_ok(alphabet@) ==> (res is Ok <==> sqids_id(alphabet@, min_length, numbers@) is Some),
        res is Ok ==> sqids_id(alphabet@, min_length, numbers@) == Some(res->Ok_0@),
        res is Ok && numbers@.len() > 0 ==> res->Ok_0@.len() >= min_length && res->Ok_0@.len() > 0,
        res is Ok ==> forall|i: int| 0 <= i < res->Ok_0@.len() ==> alphabet@.contains(#[trigger] res->Ok_0@[i]),
        res is Err && sqids_alphabet_ok(alphabet@) ==> res->Err_0 == SqidsError::BlocklistMaxAttempts && numbers@.len() > 0,
{
    let options = sqids::Options::new(Some(alphabet.to_string()), Some(min_length), None);
    let made = sqids::Sqids::new(Some(options)).and_then(|sq| sq.encode(numbers));
    match made {
        Ok(id) => Ok(id),
        Err(sqids::Error::AlphabetMultibyteCharacters) => Err(SqidsError::AlphabetMultibyteCharacters),
        Err(sqids::Error::AlphabetLength) => Err(SqidsError::AlphabetLength),
        Err(sqids::Error::AlphabetUniqueCharacters) => Err(SqidsError::AlphabetUniqueCharacters),
        Err(sqids::Error::BlocklistMaxAttempts) => Err(SqidsError::BlocklistMaxAttempts),
    }
}

/// The alphabet of the service's public identifiers.
pub open spec fn id_alphabet() -> Seq<char> {
    "ABCDEFGHIJKLMNOPQRSTUVWXYZabcdefghijklmnopqrstuvwxyz0123456789"@
}

/// The shortest public identifier.
pub const SQID_MIN_LENGTH: u8 = 5;

/// A public identifier for `nums`: Sqids over upper- and lower-case letters and
/// digits, at least five characters long; it fails only where every attempt
/// Sqids makes is on its block list.
pub fn make_sqid(nums: Vec<u64>) -> (res: Result<String, SqidsError>)
    ensures
        nums@.len() == 0 ==> (res matches Ok(id) && id@.len() == 0),
        res is Ok <==> sqids_id(id_alphabet(), 5, nums@) is Some,
        res matches Ok(id) ==> {
            &&& sqids_id(id_alphabet(), 5, nums@) == Some(id@)
            &&& nums@.len() > 0 ==> id@.len() >= 5
            &&& forall|i: int| 0 <= i < id@.len() ==> id_alphabet().contains(#[trigger] id@[i])
        },
        res matches Err(e) ==> e == SqidsError::BlocklistMaxAttempts && nums@.len() > 0,
{
    let alphabet = "ABCDEFGHIJKLMNOPQRSTUVWXYZabcdefghijklmnopqrstuvwxyz0123456789";
    proof {
        reveal_strlit("ABCDEFGHIJKLMNOPQRSTUVWXYZabcdefghijklmnopqrstuvwxyz0123456789");
        assert(alphabet@.len() == 62);
        assert(single_byte_chars(alphabet@));
        assert(distinct_chars(alphabet@));
    }
    sqids_encode(alphabet, SQID_MIN_LENGTH, nums.as_slice())
}

// ---------------------------------------------------------------- random codes

#[verifier::external_type_specification]
#[verifier::external_body]
pub struct ExThreadRng(rand::rngs::ThreadRng);

/// `rand::thread_rng`: the thread's random number generator.
#[verifier::external_body]
fn thread_rng() -> (rng: rand::rngs::ThreadRng) {
    rand::thread_rng()
}

/// `rand::Rng::gen_range(0..bound)`: the contract claims only that the
/// number is below `bound`; which one comes is chance.
#[verifier::external_body]
fn gen_index(rng: &mut rand::rngs::ThreadRng, bound: usize) -> (r: usize)
    requires
        bound > 0,
    ensures
        r < bound,
{
    rng.gen_range(0..bound)
}

/// The ASCII codes of the decimal digits.
pub open spec fn digit_codes() -> Seq<u8> {
    seq![48u8, 49, 50, 51, 52, 53, 54, 55, 56, 57]
}

/// `range` numbers, each the ASCII code of a randomly chosen decimal digit
/// (48 to 57).
pub fn random_nums(range: u8) -> (res: Vec<u64>)
    ensures
        res@.len() == range,
        forall|i: int| 0 <= i < res@.len() ==> 48 <= #[trigger] res@[i] <= 57,
{
    let charset: [u8; 10] = [48, 49, 50, 51, 52, 53, 54, 55, 56, 57];
    let mut rng = thread_rng();
    let mut res: Vec<u64> = Vec::new();
    let mut k: u8 = 0;
    while k < range
        invariant
            k <= range,
            res@.len() == k,
            charset@ == digit_codes(),
            forall|i: int| 0 <= i < res@.len() ==> 48 <= #[trigger] res@[i] <= 57,
        decreases range - k,
    {
        let idx: usize = gen_index(&mut rng, 10);
        let code: u8 = charset[idx];
        res.push(code as u64);
        k = k + 1;
    }
    res
}

/// `range` randomly chosen ASCII letters.
pub fn random_alpha(range: u8) -> (res: String)
    ensures
        res@.len() == range,
        forall|i: int| 0 <= i < res@.len() ==> {
            let c: u32 = #[trigger] res@[i] as u32;
            (65 <= c <= 90) || (97 <= c <= 122)
        },
{
    let mut rng = thread_rng();
    let mut res = String::new();
    let mut k: u8 = 0;
    while k < range
        invariant
            k <= range,
            res@.len() == k,
            forall|i: int| 0 <= i < res@.len() ==> {
                let c: u32 = #[trigger] res@[i] as u32;
                (65 <= c <= 90) || (97 <= c <= 122)
            },
        decreases range - k,
    {
        let idx: usize = gen_index(&mut rng, 52);
        let code: u8 = if idx < 26 { 65 + idx as u8 } else { 97 + (idx - 26) as u8 };
        let c = code as char;
        res.push(c);
        k = k + 1;
    }
    res
}

// ---------------------------------------------------------------- record identifiers

/// Whether `id` has the form of a random (version 4) UUID in hyphenated
/// lower-case text: 36 characters, hyphens after 8, 12, 16 and 20 hex digits,
/// and the version digit `4`.
pub open spec fn uuid_v4_text(id: Seq<char>) -> bool {
    &&& id.len() == 36
    &&& id[8] == '-' && id[13] == '-' && id[18] == '-' && id[23] == '-'
    &&& id[14] == '4'
}

/// `uuid::Uuid::new_v4()` in its text form (`to_string`). The identifier is
/// chance; the contract claims only its documented form.
#[verifier::external_body]
fn new_uuid_v4() -> (res: String)
    ensures
        uuid_v4_text(res@),
{
    uuid::Uuid::new_v4().to_string()
}

/// A fresh random identifier for a stored record: a version 4 UUID in text.
pub fn new_record_id() -> (res: String)
    ensures
        uuid_v4_text(res@),
{
    new_uuid_v4()
}

// ---------------------------------------------------------------- sessions

/// The session identifier in the text of an `id` cookie: the text with every
/// `id=` removed.
pub fn session_id_from_cookie(cookie: &str) -> (res: String)
    ensures
        res@ == replaced(cookie@, "id="@, ""@),
{
    proof {
        reveal_strlit("id=");
        reveal_strlit("");
    }
    replace_all(cookie, "id=", "")
}

/// A user name with every `'` and `"` removed, as a stored session holds it
/// in JSON quotes.
pub fn clean_username(raw: &str) -> (res: String)
    ensures
        res@ == replaced(replaced(raw@, "'"@, ""@), "\""@, ""@),
{
    proof {
        reveal_strlit("'");
        reveal_strlit("\"");
        reveal_strlit("");
    }
    let once = replace_all(raw, "'", "");
    replace_all(once.as_str(), "\"", "")
}

/// A cleaned user name holds no quote of either kind.
pub proof fn lemma_clean_username_has_no_quotes(raw: Seq<char>)
    ensures
        !replaced(replaced(raw, "'"@, ""@), "\""@, ""@).contains('\''),
        !replaced(replaced(raw, "'"@, ""@), "\""@, ""@).contains('"'),
{
    reveal_strlit("'");
    reveal_strlit("\"");
    reveal_strlit("");
    assert("'"@ =~= seq!['\'']);
    assert("\""@ =~= seq!['"']);
    assert(""@ =~= Seq::<char>::empty());
    crate::strings::lemma_remove_char(raw, '\'');
    crate::strings::lemma_remove_char(replaced(raw, "'"@, ""@), '"');
}

// ---------------------------------------------------------------- object store

/// The object store is S3.
pub open spec fn object_store_ok(object: &Object) -> bool {
    object.name@ == "S3"@
}

/// What the object store settings give: for S3, its endpoint and the local
/// processing directory; any other store is refused.
pub fn object_store(object: &Object) -> (res: Result<(String, String), String>)
    ensures
        object_store_ok(object) ==> (res matches Ok((e, p)) && e@ == object.endpoint@ && p@ == object.process@),
        !object_store_ok(object) ==> (res matches Err(m) && m@ == "Invaild Object Settings"@),
{
    proof {
        reveal_strlit("S3");
        reveal_strlit("Invaild Object Settings");
    }
    if crate::strings::text_eq(object.name.as_str(), "S3") {
        Ok((object.endpoint.clone(), object.process.clone()))
    } else {
        Err("Invaild Object Settings".to_string())
    }
}

/// The object store settings by name: `Name`, `Endpoint` and `Process`.
pub fn get_object_config(object: &Object) -> (res: Vec<(String, String)>)
    ensures
        res@.len() == 3,
        res@[0].0@ == "Name"@ && res@[0].1@ == object.name@,
        res@[1].0@ == "Endpoint"@ && res@[1].1@ == object.endpoint@,
        res@[2].0@ == "Process"@ && res@[2].1@ == object.process@,
        crate::collection::unique_keys(res@),
{
    proof {
        reveal_strlit("Name");
        reveal_strlit("Endpoint");
        reveal_strlit("Process");
        assert("Name"@[0] == 'N' && "Endpoint"@[0] == 'E' && "Process"@[0] == 'P');
    }
    let mut res: Vec<(String, String)> = Vec::new();
    res.push(("Name".to_string(), object.name.clone()));
    res.push(("Endpoint".to_string(), object.endpoint.clone()));
    res.push(("Process".to_string(), object.process.clone()));
    res
}

// ---------------------------------------------------------------- core settings

/// The serialization of the URL that `input` parses to, or nothing when it
/// is no URL.
pub uninterp spec fn url_serialization(input: Seq<char>) -> Option<Seq<char>>;

/// `url::Url::parse`, then `Url::as_str`: the contract names the result.
#[verifier::external_body]
pub(crate) fn parse_url(input: &str) -> (res: Option<String>)
    ensures
        res is Some <==> url_serialization(input@) is Some,
        res is Some ==> res->Some_0@ == url_serialization(input@)->Some_0,
{
    match url::Url::parse(input) {
        Ok(u) => Some(u.as_str().to_string()),
        Err(_) => None,
    }
}

/// The values that the `[Core]` section gives the service.
pub struct CoreSettings {
    pub front_end_url: String,
    pub main_url: String,
    pub file_size_limit: usize,
}

/// Why the `[Core]` section was refused.
#[derive(Debug, PartialEq, Eq, Structural, Clone, Copy)]
pub enum CoreConfigError {
    FileSizeLimit,
    FrontEndUrl,
    MainUrl,
}

/// The `[Core]` section read: the upload limit as a decimal `usize`, and both
/// addresses as URLs in their serialized form; the first value that does not
/// read is the error, and the section is read whenever all three do.
pub fn get_core_config(core: &Core) -> (res: Result<CoreSettings, CoreConfigError>)
    ensures
        parsed_unsigned(core.file_size_limit@, usize::MAX as nat) is None ==> res == Err::<CoreSettings, CoreConfigError>(CoreConfigError::FileSizeLimit),
        parsed_unsigned(core.file_size_limit@, usize::MAX as nat) is Some && url_serialization(core.front_end_url@) is None ==> res == Err::<CoreSettings, CoreConfigError>(CoreConfigError::FrontEndUrl),
        parsed_unsigned(core.file_size_limit@, usize::MAX as nat) is Some && url_serialization(core.front_end_url@) is Some && url_serialization(core.main_url@) is None ==> res == Err::<CoreSettings, CoreConfigError>(CoreConfigError::MainUrl),
        parsed_unsigned(core.file_size_limit@, usize::MAX as nat) is Some && url_serialization(core.front_end_url@) is Some && url_serialization(core.main_url@) is Some ==> res is Ok,
        res matches Ok(c) ==> {
            &&& parsed_unsigned(core.file_size_limit@, usize::MAX as nat) == Some(c.file_size_limit as nat)
            &&& url_serialization(core.front_end_url@) == Some(c.front_end_url@)
            &&& url_serialization(core.main_url@) == Some(c.main_url@)
        },
{
    let size = match parse_unsigned(core.file_size_limit.as_str(), usize::MAX as u64) {
        Some(v) => v as usize,
        None => {
            return Err(CoreConfigError::FileSizeLimit);
        },
    };
    let front = match parse_url(core.front_end_url.as_str()) {
        Some(u) => u,
        None => {
            return Err(CoreConfigError::FrontEndUrl);
        },
    };
    let main = match parse_url(core.main_url.as_str()) {
        Some(u) => u,
        None => {
            return Err(CoreConfigError::MainUrl);
        },
    };
    Ok(CoreSettings { front_end_url: front, main_url: main, file_size_limit: size })
}

} // verus!
