//! Thin wrappers over the crates that the services call: the clock,
//! identifier generation, digests and hex encoding.
//!
//! Each wrapper makes one call and states what the called crate documents
//! of its result; results that depend on chance or time carry only what
//! holds of every outcome.
use vstd::prelude::*;
use vstd::string::StringSliceAdditionalSpecFns;

verus! {

// ---------------------------------------------------------------------------
// Clock
// ---------------------------------------------------------------------------

/// chrono represents instants between the years -262143 and 262142; their
/// millisecond timestamps lie within this bound.
pub open spec fn clock_bound() -> int {
    8_400_000_000_000_000
}

/// `chrono::Utc::now().timestamp_millis()`: the current time in
/// milliseconds since the Unix epoch.  Nothing is claimed of the value but
/// that it is a timestamp chrono can represent.
#[verifier::external_body]
pub(crate) fn now_millis() -> (t: i64)
    ensures
        -clock_bound() <= t <= clock_bound(),
{
    chrono::Utc::now().timestamp_millis()
}

/// `chrono::Utc::now().to_rfc3339()`: the current time as RFC 3339 text.
/// Nothing is claimed of the text.
#[verifier::external_body]
pub(crate) fn now_rfc3339() -> (s: String) {
    chrono::Utc::now().to_rfc3339()
}

/// The UTC instant `ms` milliseconds after the Unix epoch, written as
/// `%Y-%m-%dT%H:%M:%SZ`.
pub uninterp spec fn utc_second_text(ms: i64) -> Seq<char>;

/// `chrono::DateTime::from_timestamp_millis(ms)` written with
/// `format("%Y-%m-%dT%H:%M:%SZ")`; an instant chrono cannot represent
/// gives the empty string.  The text depends on `ms` alone.
#[verifier::external_body]
pub(crate) fn format_utc_seconds(ms: i64) -> (r: String)
    ensures
        r@ == utc_second_text(ms),
{
    match chrono::DateTime::from_timestamp_millis(ms) {
        Some(t) => t.format("%Y-%m-%dT%H:%M:%SZ").to_string(),
        None => String::new(),
    }
}

/// The hour of the UTC instant `ms` milliseconds after the Unix epoch,
/// written as `%Y-%m-%dT%H:00:00Z`.
pub uninterp spec fn utc_hour_text(ms: i64) -> Seq<char>;

/// `chrono::DateTime::from_timestamp_millis(ms)` written with
/// `format("%Y-%m-%dT%H:00:00Z")`; an instant chrono cannot represent
/// gives the empty string.  The text depends on `ms` alone.
#[verifier::external_body]
pub(crate) fn format_utc_hour(ms: i64) -> (r: String)
    ensures
        r@ == utc_hour_text(ms),
{
    match chrono::DateTime::from_timestamp_millis(ms) {
        Some(t) => t.format("%Y-%m-%dT%H:00:00Z").to_string(),
        None => String::new(),
    }
}

/// The UTC instant `ms` milliseconds after the Unix epoch, written as
/// `%Y-%m-%dT%H:%M:%S.000Z`.
pub uninterp spec fn utc_millis_text(ms: i64) -> Seq<char>;

/// `chrono::DateTime::from_timestamp_millis(ms)` written with
/// `format("%Y-%m-%dT%H:%M:%S.000Z")`; an instant chrono cannot represent
/// gives the empty string.  The text depends on `ms` alone.
#[verifier::external_body]
pub(crate) fn format_utc_millis(ms: i64) -> (r: String)
    ensures
        r@ == utc_millis_text(ms),
{
    match chrono::DateTime::from_timestamp_millis(ms) {
        Some(t) => t.format("%Y-%m-%dT%H:%M:%S.000Z").to_string(),
        None => String::new(),
    }
}

/// The UTC instant `ms` milliseconds after the Unix epoch as an HTTP date,
/// `%a, %d %b %Y %H:%M:%S GMT`.
pub uninterp spec fn http_date_text(ms: i64) -> Seq<char>;

/// `chrono::DateTime::from_timestamp_millis(ms)` written with
/// `format("%a, %d %b %Y %H:%M:%S GMT")`; an instant chrono cannot
/// represent gives the empty string.  The text depends on `ms` alone.
#[verifier::external_body]
pub(crate) fn format_http_date(ms: i64) -> (r: String)
    ensures
        r@ == http_date_text(ms),
{
    match chrono::DateTime::from_timestamp_millis(ms) {
        Some(t) => t.format("%a, %d %b %Y %H:%M:%S GMT").to_string(),
        None => String::new(),
    }
}

// ---------------------------------------------------------------------------
// Identifiers
// ---------------------------------------------------------------------------

/// A lowercase hex digit: `0`-`9` or `a`-`f`.
pub open spec fn is_lower_hex_char(c: char) -> bool {
    (0x30 <= (c as int) <= 0x39) || (0x61 <= (c as int) <= 0x66)
}

/// The places of the hyphens in a hyphenated UUID.
pub open spec fn uuid_hyphen_at(i: int) -> bool {
    i == 8 || i == 13 || i == 18 || i == 23
}

/// The hyphenated lowercase form of a UUID: 36 characters, hyphens at
/// places 8, 13, 18 and 23, lowercase hex digits elsewhere.
pub open spec fn is_uuid_text(s: Seq<char>) -> bool {
    &&& s.len() == 36
    &&& forall|i: int|
        0 <= i < 36 ==> if uuid_hyphen_at(i) {
            #[trigger] s[i] == '-'
        } else {
            is_lower_hex_char(s[i])
        }
}

/// `n` lowercase hex digits.
pub open spec fn is_hex_text(s: Seq<char>, n: nat) -> bool {
    s.len() == n && forall|i: int| 0 <= i < n ==> is_lower_hex_char(#[trigger] s[i])
}

/// Hyphenated UUID text is never the version id `null`.
pub proof fn lemma_uuid_text_is_not_null(s: Seq<char>)
    requires
        is_uuid_text(s),
    ensures
        s != "null"@,
{
    reveal_strlit("null");
}

/// `uuid::Uuid::new_v4().to_string()`: a random identifier. `Display` for
/// `Uuid` writes the hyphenated lowercase form (`format_hyphenated` in the
/// crate's `fmt.rs`), which is all that is claimed; the digits themselves
/// are random.
#[verifier::external_body]
pub(crate) fn new_uuid() -> (s: String)
    ensures
        is_uuid_text(s@),
{
    uuid::Uuid::new_v4().to_string()
}

// ---------------------------------------------------------------------------
// Digests
// ---------------------------------------------------------------------------

/// The SHA-256 digest of `data`.
pub uninterp spec fn sha256_spec(data: Seq<u8>) -> Seq<u8>;

/// `sha2::Sha256::digest`: the 32-byte SHA-256 digest of `data`.
#[verifier::external_body]
pub(crate) fn sha256(data: &[u8]) -> (r: Vec<u8>)
    ensures
        r@ == sha256_spec(data@),
        r@.len() == 32,
{
    <sha2::Sha256 as sha2::Digest>::digest(data).to_vec()
}

/// The MD5 digest of `data`.
pub uninterp spec fn md5_spec(data: Seq<u8>) -> Seq<u8>;

/// `md5::Md5::digest` (crate md-5): the 16-byte MD5 digest of `data`.
#[verifier::external_body]
pub(crate) fn md5(data: &[u8]) -> (r: Vec<u8>)
    ensures
        r@ == md5_spec(data@),
        r@.len() == 16,
{
    <md5::Md5 as md5::Digest>::digest(data).to_vec()
}

/// The XXH3 128-bit hash of `data`.
pub uninterp spec fn xxh3_128_spec(data: Seq<u8>) -> u128;

/// `xxhash_rust::xxh3::xxh3_128`: the XXH3 128-bit hash of `data`.
#[verifier::external_body]
pub(crate) fn xxh3_128(data: &[u8]) -> (r: u128)
    ensures
        r == xxh3_128_spec(data@),
{
    xxhash_rust::xxh3::xxh3_128(data)
}

// ---------------------------------------------------------------------------
// Hex
// ---------------------------------------------------------------------------

/// The lowercase hex digit for `n < 16`.
pub open spec fn hex_lower(n: int) -> char {
    if n < 10 {
        ((n + 48) as u32) as char
    } else {
        ((n - 10 + 97) as u32) as char
    }
}

/// Lowercase hex encoding: two digits per byte, high nibble first.
pub open spec fn hex_encode_spec(b: Seq<u8>) -> Seq<char>
    decreases b.len(),
{
    if b.len() == 0 {
        Seq::empty()
    } else {
        hex_encode_spec(b.drop_last()) + seq![
            hex_lower(b.last() as int / 16),
            hex_lower(b.last() as int % 16),
        ]
    }
}

/// `hex::encode`: "Encodes `data` as hex string using lowercase characters
/// ... each byte in `data` is always encoded using two hex digits."
#[verifier::external_body]
pub(crate) fn hex_encode(data: &[u8]) -> (r: String)
    ensures
        r@ == hex_encode_spec(data@),
{
    hex::encode(data)
}

/// The value of a hex digit byte, upper or lower case.
pub open spec fn hex_value(b: u8) -> Option<int> {
    if 0x30 <= b <= 0x39 {
        Some(b - 0x30)
    } else if 0x61 <= b <= 0x66 {
        Some(b - 0x61 + 10)
    } else if 0x41 <= b <= 0x46 {
        Some(b - 0x41 + 10)
    } else {
        None
    }
}

/// Hex decoding of the bytes `b`: defined when `b` has even length and
/// every byte is a hex digit of either case.
pub open spec fn hex_decode_spec(b: Seq<u8>) -> Option<Seq<u8>>
    decreases b.len(),
{
    if b.len() == 0 {
        Some(Seq::empty())
    } else if b.len() == 1 {
        None
    } else {
        match (hex_decode_spec(b.subrange(0, b.len() - 2)), hex_value(b[b.len() - 2]), hex_value(
            b[b.len() - 1],
        )) {
            (Some(prefix), Some(h), Some(l)) => Some(prefix.push((h * 16 + l) as u8)),
            _ => None,
        }
    }
}

/// `hex::decode`: upper and lower case digits are accepted; an odd length
/// or a character that is not a hex digit is an error.
#[verifier::external_body]
pub(crate) fn hex_decode(s: &str) -> (r: Option<Vec<u8>>)
    ensures
        match r {
            Some(v) => hex_decode_spec(s.spec_bytes()) == Some(v@),
            None => hex_decode_spec(s.spec_bytes()) is None,
        },
{
    hex::decode(s).ok()
}

// ---------------------------------------------------------------------------
// JSON documents
// ---------------------------------------------------------------------------

/// For a JSON document, the string at its key `deadLetterTargetArn` and
/// the unsigned integer at its key `maxReceiveCount` (each absent when the
/// document has no such key of that type); `None` when the text is not
/// JSON.
pub uninterp spec fn redrive_fields_spec(doc: Seq<char>) -> Option<(Option<Seq<char>>, Option<u64>)>;

/// `serde_json::from_str::<serde_json::Value>`, then the two fields of a
/// redrive policy read with `Value::as_str` and `Value::as_u64`.  The value
/// is a function of the document's text alone.
#[verifier::external_body]
pub(crate) fn redrive_fields(doc: &str) -> (r: Option<(Option<String>, Option<u64>)>)
    ensures
        match r {
            Some((arn, max)) => redrive_fields_spec(doc@) == Some((crate::text::opt_view(arn), max)),
            None => redrive_fields_spec(doc@) is None,
        },
{
    let v: serde_json::Value = serde_json::from_str(doc).ok()?;
    Some((v["deadLetterTargetArn"].as_str().map(|s| s.to_string()), v["maxReceiveCount"].as_u64()))
}

/// The entries of a filter policy document: for each key (in key order)
/// its array, each element given as its string when it is a JSON string;
/// `None` when the text is not a JSON object whose values are all arrays.
pub uninterp spec fn filter_policy_doc(json: Seq<char>) -> Option<Seq<(Seq<char>, Seq<Option<Seq<char>>>)>>;

pub open spec fn policy_entries_view(v: Seq<(String, Vec<Option<String>>)>) -> Seq<(Seq<char>, Seq<Option<Seq<char>>>)> {
    v.map_values(|e: (String, Vec<Option<String>>)| (e.0@, e.1@.map_values(|o: Option<String>| crate::text::opt_view(o))))
}

/// `serde_json::from_str` into a map from strings to arrays of JSON
/// values, each element then read with `Value::as_str`.  The value is a
/// function of the document's text alone.
#[verifier::external_body]
pub(crate) fn filter_policy_entries(json: &str) -> (r: Option<Vec<(String, Vec<Option<String>>)>>)
    ensures
        match r {
            Some(v) => filter_policy_doc(json@) == Some(policy_entries_view(v@)),
            None => filter_policy_doc(json@) is None,
        },
{
    let m: std::collections::BTreeMap<String, Vec<serde_json::Value>> = serde_json::from_str(json).ok()?;
    Some(m.into_iter().map(|(k, vs)| (k, vs.iter().map(|v| v.as_str().map(|s| s.to_string())).collect())).collect())
}

/// A field of a JSON object body, as far as the services read it: a
/// string, an object (each of its fields with its string, if it is one),
/// or anything else.
pub enum JsonField {
    Str(String),
    Obj(Vec<(String, Option<String>)>),
    Other,
}

pub enum JsonFieldView {
    Str(Seq<char>),
    Obj(Seq<(Seq<char>, Option<Seq<char>>)>),
    Other,
}

impl View for JsonField {
    type V = JsonFieldView;

    open spec fn view(&self) -> JsonFieldView {
        match self {
            JsonField::Str(s) => JsonFieldView::Str(s@),
            JsonField::Obj(v) => JsonFieldView::Obj(
                v@.map_values(|e: (String, Option<String>)| (e.0@, crate::text::opt_view(e.1))),
            ),
            JsonField::Other => JsonFieldView::Other,
        }
    }
}

/// For bytes that hold a JSON object, its fields in key order; `None` for
/// anything else.
pub uninterp spec fn json_object_fields_spec(body: Seq<u8>) -> Option<Seq<(Seq<char>, JsonFieldView)>>;

pub open spec fn fields_view(v: Seq<(String, JsonField)>) -> Seq<(Seq<char>, JsonFieldView)> {
    v.map_values(|e: (String, JsonField)| (e.0@, e.1@))
}

/// `serde_json::from_slice::<serde_json::Value>`; when the value is an
/// object, its fields (in the key order of serde_json's map), each read with
/// `Value::as_str` or `Value::as_object`.  The value is a function of the
/// bytes alone.
#[verifier::external_body]
pub(crate) fn json_object_fields(body: &[u8]) -> (r: Option<Vec<(String, JsonField)>>)
    ensures
        match r {
            Some(v) => json_object_fields_spec(body@) == Some(fields_view(v@)),
            None => json_object_fields_spec(body@) is None,
        },
{
    match serde_json::from_slice::<serde_json::Value>(body) {
        Ok(serde_json::Value::Object(map)) => Some(
            map.into_iter().map(|(k, v)| {
                let f = match v {
                    serde_json::Value::String(s) => JsonField::Str(s),
                    serde_json::Value::Object(o) => JsonField::Obj(
                        o.into_iter().map(|(mk, mv)| (mk, mv.as_str().map(|x| x.to_string()))).collect(),
                    ),
                    _ => JsonField::Other,
                };
                (k, f)
            }).collect(),
        ),
        _ => None,
    }
}

} // verus!
