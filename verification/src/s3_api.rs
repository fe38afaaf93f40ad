//! Request-level helpers of the S3 service: paths, copy sources, the XML
//! fragments it reads, ETags and the read buffer for streamed bodies.
use vstd::prelude::*;

use crate::deps::{hex_encode, hex_encode_spec, hex_lower, sha256, sha256_spec, xxh3_128, xxh3_128_spec};
use vstd::string::StringSliceAdditionalSpecFns;
use crate::s3::quoted;
use crate::text::{
    chars_of, find_chars, find_spec, percent_decode, percent_decode_spec, push_str, slice_chars,
    string_of, unescape_xml_chars, unescape_xml_spec,
};

verus! {

// ---------------------------------------------------------------------------
// Streaming
// ---------------------------------------------------------------------------

/// Read buffer for objects up to the cutoff.
pub const GET_OBJECT_STREAM_READ_BUF_SMALL: usize = 1048576;

/// Read buffer for objects above the cutoff.
pub const GET_OBJECT_STREAM_READ_BUF_LARGE: usize = 4194304;

/// Objects larger than this are streamed with the large buffer.
pub const GET_OBJECT_STREAM_LARGE_CUTOFF: u64 = 52428800;

/// The read buffer size for streaming an object of `size` bytes.
pub fn get_object_stream_read_buf(size: u64) -> (n: usize)
    ensures
        size <= GET_OBJECT_STREAM_LARGE_CUTOFF ==> n == GET_OBJECT_STREAM_READ_BUF_SMALL,
        size > GET_OBJECT_STREAM_LARGE_CUTOFF ==> n == GET_OBJECT_STREAM_READ_BUF_LARGE,
{
    if size <= GET_OBJECT_STREAM_LARGE_CUTOFF {
        GET_OBJECT_STREAM_READ_BUF_SMALL
    } else {
        GET_OBJECT_STREAM_READ_BUF_LARGE
    }
}

// ---------------------------------------------------------------------------
// ETags
// ---------------------------------------------------------------------------

/// A digest as a quoted ETag: lowercase hex, two digits a byte.
pub fn format_etag(digest: &[u8]) -> (r: String)
    ensures
        r@ == quoted(hex_encode_spec(digest@)),
{
    let hex = hex_encode(digest);
    let mut r = String::new();
    r.push('"');
    push_str(&mut r, hex.as_str());
    r.push('"');
    proof {
        assert(r@ =~= quoted(hex@));
    }
    r
}

// ---------------------------------------------------------------------------
// Paths
// ---------------------------------------------------------------------------

/// `s` without its leading `c` characters.
pub open spec fn strip_leading(s: Seq<char>, c: char) -> Seq<char>
    decreases s.len(),
{
    if s.len() > 0 && s[0] == c {
        strip_leading(s.drop_first(), c)
    } else {
        s
    }
}

/// `s.trim_start_matches(c)`.
pub fn strip_leading_exec(s: &[char], c: char) -> (r: Vec<char>)
    ensures
        r@ == strip_leading(s@, c),
{
    let mut i: usize = 0;
    proof {
        assert(s@.subrange(0, s@.len() as int) =~= s@);
    }
    while i < s.len() && s[i] == c
        invariant
            i <= s@.len(),
            strip_leading(s@, c) == strip_leading(s@.subrange(i as int, s@.len() as int), c),
        decreases s@.len() - i,
    {
        proof {
            assert(s@.subrange(i as int, s@.len() as int).drop_first() =~= s@.subrange(i + 1, s@.len() as int));
        }
        i = i + 1;
    }
    slice_chars(s, i, s.len())
}

/// Where the first `/` of `p` is, or its length when it has none.
pub open spec fn slash_or_end(p: Seq<char>) -> int {
    match find_spec(p, seq!['/']) {
        Some(i) => i,
        None => p.len() as int,
    }
}

/// The bucket named by a path: its first segment after the leading
/// slashes, when that is not empty.
pub open spec fn bucket_from_path_spec(path: Seq<char>) -> Option<Seq<char>> {
    let p = strip_leading(path, '/');
    let seg = p.subrange(0, slash_or_end(p));
    if seg.len() == 0 {
        None
    } else {
        Some(seg)
    }
}

/// The key named by a path: what follows the bucket segment, without
/// leading slashes.
pub open spec fn key_from_path_spec(path: Seq<char>) -> Seq<char> {
    let p = strip_leading(path, '/');
    strip_leading(p.subrange(slash_or_end(p), p.len() as int), '/')
}

proof fn lemma_slash(p: Seq<char>)
    ensures
        0 <= slash_or_end(p) <= p.len(),
{
    crate::text::lemma_find_from(p, seq!['/'], 0);
}

/// The first `/` of `p`, or its length.
fn slash_or_end_exec(p: &[char]) -> (r: usize)
    ensures
        r == slash_or_end(p@),
        r <= p@.len(),
{
    proof {
        lemma_slash(p@);
    }
    let slash = ['/'];
    match find_chars(p, slash.as_slice()) {
        Some(i) => {
            proof {
                assert(slash@ =~= seq!['/']);
            }
            i
        },
        None => {
            proof {
                assert(slash@ =~= seq!['/']);
            }
            p.len()
        },
    }
}

/// The bucket named by `path` (see `bucket_from_path_spec`).
pub fn bucket_from_path(path: &str) -> (r: Option<String>)
    ensures
        match bucket_from_path_spec(path@) {
            Some(b) => r matches Some(s) && s@ == b,
            None => r is None,
        },
{
    let c = chars_of(path);
    let p = strip_leading_exec(c.as_slice(), '/');
    let end = slash_or_end_exec(p.as_slice());
    if end == 0 {
        proof {
            assert(p@.subrange(0, 0).len() == 0);
        }
        None
    } else {
        let seg = slice_chars(p.as_slice(), 0, end);
        Some(string_of(seg.as_slice()))
    }
}

fn key_chars(path: &str) -> (r: Vec<char>)
    ensures
        r@ == key_from_path_spec(path@),
{
    let c = chars_of(path);
    let p = strip_leading_exec(c.as_slice(), '/');
    let end = slash_or_end_exec(p.as_slice());
    let rest = slice_chars(p.as_slice(), end, p.len());
    strip_leading_exec(rest.as_slice(), '/')
}

/// The key named by `path` (see `key_from_path_spec`).
pub fn key_from_path(path: &str) -> (r: String)
    ensures
        r@ == key_from_path_spec(path@),
{
    let k = key_chars(path);
    string_of(k.as_slice())
}

/// Whether `path` names a key.
pub fn path_has_key(path: &str) -> (b: bool)
    ensures
        b == (key_from_path_spec(path@).len() > 0),
{
    let k = key_chars(path);
    k.len() > 0
}

/// Whether `path` names a bucket.
pub fn path_has_bucket(path: &str) -> (b: bool)
    ensures
        b == bucket_from_path_spec(path@) is Some,
{
    bucket_from_path(path).is_some()
}

/// A copy source `/{bucket}/{key}`: its bucket segment and the key after
/// it, leading slashes dropped from both.
pub open spec fn parse_copy_source_spec(source: Seq<char>) -> (Seq<char>, Seq<char>) {
    let s = strip_leading(source, '/');
    let slash = slash_or_end(s);
    (s.subrange(0, slash), strip_leading(s.subrange(slash, s.len() as int), '/'))
}

/// Splits a copy source into bucket and key.
pub fn parse_copy_source(source: &str) -> (r: (String, String))
    ensures
        r.0@ == parse_copy_source_spec(source@).0,
        r.1@ == parse_copy_source_spec(source@).1,
{
    let c = chars_of(source);
    let s = strip_leading_exec(c.as_slice(), '/');
    let slash = slash_or_end_exec(s.as_slice());
    let b = slice_chars(s.as_slice(), 0, slash);
    let rest = slice_chars(s.as_slice(), slash, s.len());
    let k = strip_leading_exec(rest.as_slice(), '/');
    (string_of(b.as_slice()), string_of(k.as_slice()))
}

/// Percent-decodes a copy source; each decoded byte becomes the character
/// with that code, and `+` stays as it is.
pub fn urlencoding_decode(s: &str) -> (r: String)
    ensures
        r@ == percent_decode_spec(vstd::string::StringSliceAdditionalSpecFns::spec_bytes(s), false),
{
    percent_decode(s, false)
}

// ---------------------------------------------------------------------------
// XML fragments
// ---------------------------------------------------------------------------

/// `<tag>`.
pub open spec fn open_tag(tag: Seq<char>) -> Seq<char> {
    seq!['<'] + tag + seq!['>']
}

/// `</tag>`.
pub open spec fn close_tag(tag: Seq<char>) -> Seq<char> {
    seq!['<', '/'] + tag + seq!['>']
}

/// The text of the first `<tag>...</tag>` in `xml`, unescaped: from the
/// first `<tag>` to the first `</tag>` after it.
pub open spec fn extract_xml_text_spec(xml: Seq<char>, tag: Seq<char>) -> Option<Seq<char>> {
    let open = open_tag(tag);
    let close = close_tag(tag);
    match find_spec(xml, open) {
        None => None,
        Some(p) => {
            let start = p + open.len();
            let rest = xml.subrange(start, xml.len() as int);
            match find_spec(rest, close) {
                None => None,
                Some(e) => Some(unescape_xml_spec(rest.subrange(0, e))),
            }
        },
    }
}

fn tag_chars(tag: &[char], closing: bool) -> (r: Vec<char>)
    ensures
        r@ == if closing {
            close_tag(tag@)
        } else {
            open_tag(tag@)
        },
{
    let mut r: Vec<char> = Vec::new();
    r.push('<');
    if closing {
        r.push('/');
    }
    let mut i: usize = 0;
    while i < tag.len()
        invariant
            i <= tag@.len(),
            r@ == (if closing {
                seq!['<', '/']
            } else {
                seq!['<']
            }) + tag@.take(i as int),
        decreases tag@.len() - i,
    {
        r.push(tag[i]);
        proof {
            assert(tag@.take(i + 1) =~= tag@.take(i as int).push(tag@[i as int]));
        }
        i = i + 1;
    }
    r.push('>');
    proof {
        assert(tag@.take(tag@.len() as int) =~= tag@);
        if closing {
            assert(r@ =~= close_tag(tag@));
        } else {
            assert(r@ =~= open_tag(tag@));
        }
    }
    r
}

/// The text of the first `<tag>...</tag>` in `xml`, over characters.
pub fn extract_xml_text_chars(xml: &[char], tag: &[char]) -> (r: Option<Vec<char>>)
    ensures
        match extract_xml_text_spec(xml@, tag@) {
            Some(t) => r matches Some(v) && v@ == t,
            None => r is None,
        },
{
    let open = tag_chars(tag, false);
    let close = tag_chars(tag, true);
    let xl = xml.len();
    let ol = open.len();
    proof {
        crate::text::lemma_find_from(xml@, open@, 0);
    }
    match find_chars(xml, open.as_slice()) {
        None => None,
        Some(p) => {
            proof {
                assert(p + ol <= xl);
            }
            let start = p + ol;
            let rest = slice_chars(xml, start, xml.len());
            proof {
                crate::text::lemma_find_from(rest@, close@, 0);
            }
            match find_chars(rest.as_slice(), close.as_slice()) {
                None => None,
                Some(e) => {
                    let inner = slice_chars(rest.as_slice(), 0, e);
                    Some(unescape_xml_chars(inner.as_slice()))
                },
            }
        },
    }
}

/// The text of the first `<tag>...</tag>` in `xml`.
pub fn extract_xml_text(xml: &str, tag: &str) -> (r: Option<String>)
    ensures
        match extract_xml_text_spec(xml@, tag@) {
            Some(t) => r matches Some(s) && s@ == t,
            None => r is None,
        },
{
    let x = chars_of(xml);
    let t = chars_of(tag);
    match extract_xml_text_chars(x.as_slice(), t.as_slice()) {
        Some(v) => Some(string_of(v.as_slice())),
        None => None,
    }
}

// ---------------------------------------------------------------------------
// Notification filter rules
// ---------------------------------------------------------------------------

/// The characters `char::is_whitespace` accepts (Unicode White_Space).
pub open spec fn is_ws(c: char) -> bool {
    ||| ('\u{9}' <= c && c <= '\u{d}')
    ||| c == ' '
    ||| c == '\u{85}'
    ||| c == '\u{a0}'
    ||| c == '\u{1680}'
    ||| ('\u{2000}' <= c && c <= '\u{200a}')
    ||| c == '\u{2028}'
    ||| c == '\u{2029}'
    ||| c == '\u{202f}'
    ||| c == '\u{205f}'
    ||| c == '\u{3000}'
}

fn is_ws_exec(c: char) -> (b: bool)
    ensures
        b == is_ws(c),
{
    ('\u{9}' <= c && c <= '\u{d}') || c == ' ' || c == '\u{85}' || c == '\u{a0}' || c == '\u{1680}' || (
    '\u{2000}' <= c && c <= '\u{200a}') || c == '\u{2028}' || c == '\u{2029}' || c == '\u{202f}' || c
        == '\u{205f}' || c == '\u{3000}'
}

/// `s` without leading whitespace.
pub open spec fn trim_start_ws(s: Seq<char>) -> Seq<char>
    decreases s.len(),
{
    if s.len() > 0 && is_ws(s[0]) {
        trim_start_ws(s.drop_first())
    } else {
        s
    }
}

/// `s` without trailing whitespace.
pub open spec fn trim_end_ws(s: Seq<char>) -> Seq<char>
    decreases s.len(),
{
    if s.len() > 0 && is_ws(s.last()) {
        trim_end_ws(s.drop_last())
    } else {
        s
    }
}

/// `str::trim`.
pub open spec fn trim_ws(s: Seq<char>) -> Seq<char> {
    trim_end_ws(trim_start_ws(s))
}

pub(crate) fn trim_ws_exec(c: &[char]) -> (r: Vec<char>)
    ensures
        r@ == trim_ws(c@),
{
    let mut i: usize = 0;
    proof {
        assert(c@.subrange(0, c@.len() as int) =~= c@);
    }
    while i < c.len() && is_ws_exec(c[i])
        invariant
            i <= c@.len(),
            trim_start_ws(c@) == trim_start_ws(c@.subrange(i as int, c@.len() as int)),
        decreases c@.len() - i,
    {
        proof {
            assert(c@.subrange(i as int, c@.len() as int).drop_first() =~= c@.subrange(i + 1, c@.len() as int));
        }
        i = i + 1;
    }
    let ghost lead = c@.subrange(i as int, c@.len() as int);
    let mut j: usize = c.len();
    while j > i && is_ws_exec(c[j - 1])
        invariant
            i <= j <= c@.len(),
            lead == c@.subrange(i as int, c@.len() as int),
            trim_end_ws(lead) == trim_end_ws(c@.subrange(i as int, j as int)),
        decreases j,
    {
        proof {
            assert(c@.subrange(i as int, j as int).drop_last() =~= c@.subrange(i as int, j - 1));
        }
        j = j - 1;
    }
    slice_chars(c, i, j)
}

/// The code of `c` in ASCII lower case.
pub open spec fn ascii_lower(c: char) -> int {
    if 'A' <= c && c <= 'Z' {
        (c as int) + 32
    } else {
        c as int
    }
}

/// `str::eq_ignore_ascii_case`.
pub open spec fn eq_ignore_ascii_case(a: Seq<char>, b: Seq<char>) -> bool {
    a.len() == b.len() && forall|i: int| 0 <= i < a.len() ==> ascii_lower(#[trigger] a[i]) == ascii_lower(b[i])
}

fn ascii_lower_exec(c: char) -> (r: u32)
    ensures
        r as int == ascii_lower(c),
{
    if 'A' <= c && c <= 'Z' {
        c as u32 + 32
    } else {
        c as u32
    }
}

pub fn eq_ignore_ascii_case_exec(a: &[char], b: &[char]) -> (r: bool)
    ensures
        r == eq_ignore_ascii_case(a@, b@),
{
    if a.len() != b.len() {
        return false;
    }
    let mut i: usize = 0;
    while i < a.len()
        invariant
            i <= a@.len(),
            a@.len() == b@.len(),
            forall|j: int| 0 <= j < i ==> ascii_lower(#[trigger] a@[j]) == ascii_lower(b@[j]),
        decreases a@.len() - i,
    {
        if ascii_lower_exec(a[i]) != ascii_lower_exec(b[i]) {
            return false;
        }
        i = i + 1;
    }
    true
}

/// Scanning `rem` for `<FilterRule>` blocks, the `Value` of the first whose
/// trimmed `Name` equals `name` ignoring ASCII case.
pub open spec fn filter_rule_from(rem: Seq<char>, name: Seq<char>) -> Option<Seq<char>>
    decreases rem.len(),
{
    match find_spec(rem, "<FilterRule>"@) {
        None => None,
        Some(start) => {
            let r2 = rem.subrange(start + "<FilterRule>"@.len(), rem.len() as int);
            let end = match find_spec(r2, "</FilterRule>"@) {
                Some(e) => e,
                None => r2.len() as int,
            };
            let rule = r2.subrange(0, end);
            if (extract_xml_text_spec(rule, "Name"@) matches Some(n) && eq_ignore_ascii_case(trim_ws(n), name)) {
                extract_xml_text_spec(rule, "Value"@)
            } else {
                proof {
                    reveal_strlit("<FilterRule>");
                    crate::text::lemma_find_from(rem, "<FilterRule>"@, 0);
                    crate::text::lemma_find_from(r2, "</FilterRule>"@, 0);
                }
                filter_rule_from(r2.subrange(end, r2.len() as int), name)
            }
        },
    }
}

/// The value of the filter rule named `name` (ASCII case ignored) in a
/// `<Filter>` block.
pub fn find_filter_rule(block: &str, name: &str) -> (r: Option<String>)
    ensures
        match filter_rule_from(block@, name@) {
            Some(v) => r matches Some(s) && s@ == v,
            None => r is None,
        },
{
    let open = chars_of("<FilterRule>");
    let close = chars_of("</FilterRule>");
    let name_tag = chars_of("Name");
    let value_tag = chars_of("Value");
    let want = chars_of(name);
    let mut rem = chars_of(block);
    loop
        invariant
            open@ == "<FilterRule>"@,
            close@ == "</FilterRule>"@,
            name_tag@ == "Name"@,
            value_tag@ == "Value"@,
            want@ == name@,
            filter_rule_from(block@, name@) == filter_rule_from(rem@, name@),
        decreases rem@.len(),
    {
        proof {
            reveal_strlit("<FilterRule>");
            crate::text::lemma_find_from(rem@, open@, 0);
        }
        let rl = rem.len();
        let start = match find_chars(rem.as_slice(), open.as_slice()) {
            None => {
                return None;
            },
            Some(s) => s,
        };
        let r2 = slice_chars(rem.as_slice(), start + open.len(), rl);
        proof {
            crate::text::lemma_find_from(r2@, close@, 0);
        }
        let end = match find_chars(r2.as_slice(), close.as_slice()) {
            Some(e) => e,
            None => r2.len(),
        };
        let rule = slice_chars(r2.as_slice(), 0, end);
        let matched = match extract_xml_text_chars(rule.as_slice(), name_tag.as_slice()) {
            Some(n) => {
                let t = trim_ws_exec(n.as_slice());
                eq_ignore_ascii_case_exec(t.as_slice(), want.as_slice())
            },
            None => false,
        };
        if matched {
            return match extract_xml_text_chars(rule.as_slice(), value_tag.as_slice()) {
                Some(v) => Some(string_of(v.as_slice())),
                None => None,
            };
        }
        rem = slice_chars(r2.as_slice(), end, r2.len());
    }
}

// ---------------------------------------------------------------------------
// ACL
// ---------------------------------------------------------------------------

/// The access control policy that grants `owner` full control.
pub open spec fn default_acl_xml_spec(owner: Seq<char>) -> Seq<char> {
    "<?xml version=\"1.0\" encoding=\"UTF-8\"?><AccessControlPolicy xmlns=\"http://s3.amazonaws.com/doc/2006-03-01/\"><Owner><ID>"@
        + owner
        + "</ID><DisplayName>localstack</DisplayName></Owner><AccessControlList><Grant><Grantee xmlns:xsi=\"http://www.w3.org/2001/XMLSchema-instance\" xsi:type=\"CanonicalUser\"><ID>"@
        + owner
        + "</ID><DisplayName>localstack</DisplayName></Grantee><Permission>FULL_CONTROL</Permission></Grant></AccessControlList></AccessControlPolicy>"@
}

/// The default ACL document for `owner`.
pub fn default_acl_xml(owner: &str) -> (r: String)
    ensures
        r@ == default_acl_xml_spec(owner@),
{
    let mut r = String::new();
    push_str(
        &mut r,
        "<?xml version=\"1.0\" encoding=\"UTF-8\"?><AccessControlPolicy xmlns=\"http://s3.amazonaws.com/doc/2006-03-01/\"><Owner><ID>",
    );
    push_str(&mut r, owner);
    push_str(
        &mut r,
        "</ID><DisplayName>localstack</DisplayName></Owner><AccessControlList><Grant><Grantee xmlns:xsi=\"http://www.w3.org/2001/XMLSchema-instance\" xsi:type=\"CanonicalUser\"><ID>",
    );
    push_str(&mut r, owner);
    push_str(
        &mut r,
        "</ID><DisplayName>localstack</DisplayName></Grantee><Permission>FULL_CONTROL</Permission></Grant></AccessControlList></AccessControlPolicy>",
    );
    proof {
        assert(r@ =~= default_acl_xml_spec(owner@));
    }
    r
}

// ---------------------------------------------------------------------------
// Object files
// ---------------------------------------------------------------------------

/// Where an object version's file lives.
pub struct ObjectLocation<'a> {
    pub account_id: &'a str,
    pub region: &'a str,
    pub bucket: &'a str,
    pub key: &'a str,
    pub version_id: &'a str,
}

/// The `width` lowest hex digits of `n`, most significant first (digit
/// `k` is `(n / 16^(width - 1 - k)) % 16`).
pub open spec fn hex_digits(n: nat, width: nat) -> Seq<char> {
    Seq::new(
        width,
        |k: int| hex_lower(((n / (vstd::arithmetic::power::pow(16, (width - 1 - k) as nat) as nat)) % 16) as int),
    )
}

fn hex_digit_char(d: u128) -> (c: char)
    requires
        d < 16,
    ensures
        c == hex_lower(d as int),
{
    if d == 0 {
        '0'
    } else if d == 1 {
        '1'
    } else if d == 2 {
        '2'
    } else if d == 3 {
        '3'
    } else if d == 4 {
        '4'
    } else if d == 5 {
        '5'
    } else if d == 6 {
        '6'
    } else if d == 7 {
        '7'
    } else if d == 8 {
        '8'
    } else if d == 9 {
        '9'
    } else if d == 10 {
        'a'
    } else if d == 11 {
        'b'
    } else if d == 12 {
        'c'
    } else if d == 13 {
        'd'
    } else if d == 14 {
        'e'
    } else {
        'f'
    }
}

/// The directory name an object key gets on disk: its XXH3-128 hash as 32
/// lowercase hex digits.
pub open spec fn key_hash_spec(key: Seq<char>) -> Seq<char> {
    hex_digits(xxh3_128_spec(vstd::utf8::encode_utf8(key)) as nat, 32)
}

/// The directory name of `key` on disk.
pub fn key_hash(key: &str) -> (r: String)
    ensures
        r@ == key_hash_spec(key@),
{
    let bytes = key.as_bytes();
    let h = xxh3_128(bytes);
    let ghost full = h as nat;
    let mut digits: Vec<char> = Vec::new();
    let mut n: u128 = h;
    let mut i: usize = 0;
    proof {
        vstd::arithmetic::power::lemma_pow0(16);
    }
    while i < 32
        invariant
            i <= 32,
            digits@.len() == i,
            vstd::arithmetic::power::pow(16, i as nat) > 0,
            n as nat == full / (vstd::arithmetic::power::pow(16, i as nat) as nat),
            forall|j: int|
                0 <= j < i ==> digits@[j] == hex_lower(
                    ((full / (vstd::arithmetic::power::pow(16, j as nat) as nat)) % 16) as int,
                ),
        decreases 32 - i,
    {
        let d = n % 16;
        digits.push(hex_digit_char(d));
        proof {
            let p = vstd::arithmetic::power::pow(16, i as nat);
            assert(vstd::arithmetic::power::pow(16, (i + 1) as nat) == 16 * p) by {
                vstd::arithmetic::power::lemma_pow_adds(16, i as nat, 1);
                vstd::arithmetic::power::lemma_pow1(16);
            }
            vstd::arithmetic::div_mod::lemma_div_denominator(full as int, p as int, 16);
            assert(p * 16 == 16 * p) by (nonlinear_arith);
        }
        n = n / 16;
        i = i + 1;
    }
    let mut r = String::new();
    let mut j: usize = 32;
    let ghost target = hex_digits(full, 32);
    while j > 0
        invariant
            j <= 32,
            digits@.len() == 32,
            target == hex_digits(full, 32),
            forall|k: int|
                0 <= k < 32 ==> digits@[k] == hex_lower(((full / (vstd::arithmetic::power::pow(16, k as nat) as nat)) % 16) as int),
            r@ == target.subrange(0, 32 - j),
        decreases j,
    {
        j = j - 1;
        r.push(digits[j]);
        proof {
            assert(target[31 - j] == digits@[j as int]);
            assert(target.subrange(0, 32 - j) =~= target.subrange(0, 31 - j).push(target[31 - j]));
        }
    }
    proof {
        assert(target.subrange(0, 32) =~= target);
    }
    r
}

/// The directory name an object key had on disk in the older layout: the
/// SHA-256 digest of the key's UTF-8 bytes as 64 lowercase hex digits.
pub open spec fn key_hash_legacy_spec(key: Seq<char>) -> Seq<char> {
    hex_encode_spec(sha256_spec(vstd::utf8::encode_utf8(key)))
}

/// The directory name of `key` in the older on-disk layout.
pub fn key_hash_legacy(key: &str) -> (r: String)
    ensures
        r@ == key_hash_legacy_spec(key@),
        r@.len() == 64,
{
    let digest = sha256(key.as_bytes());
    proof {
        lemma_hex_len(digest@);
    }
    hex_encode(digest.as_slice())
}

/// Two hex digits per byte.
proof fn lemma_hex_len(b: Seq<u8>)
    ensures
        hex_encode_spec(b).len() == 2 * b.len(),
    decreases b.len(),
{
    if b.len() > 0 {
        lemma_hex_len(b.drop_last());
    }
}

} // verus!
