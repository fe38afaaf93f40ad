//! Character-level text helpers shared by the services: conversions between
//! strings and character vectors, substring search, XML escaping, decimal
//! numbers, and percent-decoding.
use vstd::prelude::*;
use vstd::string::StringSliceAdditionalSpecFns;

verus! {

pub assume_specification[ String::push ](s: &mut String, ch: char)
    ensures
        final(s)@ == old(s)@.push(ch),
;

// ---------------------------------------------------------------------------
// Conversions
// ---------------------------------------------------------------------------

/// The characters of `s`, in order.
pub fn chars_of(s: &str) -> (v: Vec<char>)
    ensures
        v@ == s@,
{
    let mut v: Vec<char> = Vec::new();
    for c in it: s.chars()
        invariant
            v@ == it.seq().take(it.index() as int),
            it.seq() == s@,
    {
        v.push(c);
    }
    v
}

/// Appends the characters of `s` to `out`.
pub fn push_chars(out: &mut String, s: &[char])
    ensures
        final(out)@ == old(out)@ + s@,
{
    let mut i: usize = 0;
    while i < s.len()
        invariant
            i <= s@.len(),
            out@ == old(out)@ + s@.take(i as int),
        decreases s@.len() - i,
    {
        out.push(s[i]);
        proof {
            assert(s@.take(i + 1) =~= s@.take(i as int).push(s@[i as int]));
        }
        i = i + 1;
    }
    proof {
        assert(s@.take(s@.len() as int) =~= s@);
    }
}

/// The string made of the characters `s`.
pub fn string_of(s: &[char]) -> (r: String)
    ensures
        r@ == s@,
{
    let mut r = String::new();
    push_chars(&mut r, s);
    r
}

/// Appends `s` to `out`.
pub fn push_str(out: &mut String, s: &str)
    ensures
        final(out)@ == old(out)@ + s@,
{
    let v = chars_of(s);
    push_chars(out, v.as_slice());
}

/// The characters of `s` from position `from` up to position `to`.
pub fn slice_chars(s: &[char], from: usize, to: usize) -> (r: Vec<char>)
    requires
        from <= to <= s@.len(),
    ensures
        r@ == s@.subrange(from as int, to as int),
{
    let mut r: Vec<char> = Vec::new();
    let mut i = from;
    while i < to
        invariant
            from <= i <= to,
            to <= s@.len(),
            r@ == s@.subrange(from as int, i as int),
        decreases to - i,
    {
        r.push(s[i]);
        proof {
            assert(s@.subrange(from as int, i + 1) =~= s@.subrange(from as int, i as int).push(
                s@[i as int],
            ));
        }
        i = i + 1;
    }
    r
}

/// Whether the character sequences `a` and `b` are equal.
pub fn chars_eq(a: &[char], b: &[char]) -> (r: bool)
    ensures
        r == (a@ == b@),
{
    if a.len() != b.len() {
        return false;
    }
    let mut i: usize = 0;
    while i < a.len()
        invariant
            a@.len() == b@.len(),
            i <= a@.len(),
            forall|j: int| 0 <= j < i ==> a@[j] == b@[j],
        decreases a@.len() - i,
    {
        if a[i] != b[i] {
            return false;
        }
        i = i + 1;
    }
    proof {
        assert(a@ =~= b@);
    }
    true
}

/// The view of an optional string.
pub open spec fn opt_view(o: Option<String>) -> Option<Seq<char>> {
    match o {
        Some(s) => Some(s@),
        None => None,
    }
}

/// The views of a sequence of strings.
pub open spec fn string_views(s: Seq<String>) -> Seq<Seq<char>> {
    s.map_values(|x: String| x@)
}

/// A copy of an optional string.
pub fn copy_opt(o: &Option<String>) -> (r: Option<String>)
    ensures
        opt_view(r) == opt_view(*o),
{
    match o {
        Some(s) => Some(s.clone()),
        None => None,
    }
}

/// A copy of a byte vector.
pub fn copy_bytes(b: &Vec<u8>) -> (r: Vec<u8>)
    ensures
        r@ == b@,
{
    let mut r: Vec<u8> = Vec::new();
    let mut i: usize = 0;
    while i < b.len()
        invariant
            i <= b@.len(),
            r@ == b@.take(i as int),
        decreases b@.len() - i,
    {
        r.push(b[i]);
        proof {
            assert(b@.take(i + 1) =~= b@.take(i as int).push(b@[i as int]));
        }
        i = i + 1;
    }
    proof {
        assert(b@.take(b@.len() as int) =~= b@);
    }
    r
}

/// The string made of `a` followed by `b`.
pub fn concat2(a: &str, b: &str) -> (r: String)
    ensures
        r@ == a@ + b@,
{
    let mut r = String::new();
    push_str(&mut r, a);
    push_str(&mut r, b);
    proof {
        assert(r@ =~= a@ + b@);
    }
    r
}

// ---------------------------------------------------------------------------
// Substring search
// ---------------------------------------------------------------------------

/// `n` occurs in `h` at position `i`.
pub open spec fn occurs_at(h: Seq<char>, n: Seq<char>, i: int) -> bool {
    0 <= i && i + n.len() <= h.len() && h.subrange(i, i + n.len()) == n
}

/// The first position at or after `i` where `n` occurs in `h`.
pub open spec fn find_from(h: Seq<char>, n: Seq<char>, i: int) -> Option<int>
    decreases h.len() + 1 - i,
{
    if i < 0 || i + n.len() > h.len() {
        None
    } else if occurs_at(h, n, i) {
        Some(i)
    } else {
        find_from(h, n, i + 1)
    }
}

/// The first position where `n` occurs in `h`, as `str::find` reports it.
pub open spec fn find_spec(h: Seq<char>, n: Seq<char>) -> Option<int> {
    find_from(h, n, 0)
}

pub proof fn lemma_find_from(h: Seq<char>, n: Seq<char>, i: int)
    requires
        0 <= i,
    ensures
        match find_from(h, n, i) {
            Some(p) => i <= p && occurs_at(h, n, p) && forall|j: int|
                i <= j < p ==> !occurs_at(h, n, j),
            None => forall|j: int| i <= j ==> !occurs_at(h, n, j),
        },
    decreases h.len() + 1 - i,
{
    if i + n.len() > h.len() {
    } else if occurs_at(h, n, i) {
    } else {
        lemma_find_from(h, n, i + 1);
    }
}

fn occurs_at_exec(h: &[char], n: &[char], i: usize) -> (r: bool)
    requires
        i + n@.len() <= h@.len(),
    ensures
        r == occurs_at(h@, n@, i as int),
{
    let hl = h.len();
    let mut j: usize = 0;
    while j < n.len()
        invariant
            hl == h@.len(),
            i + n@.len() <= h@.len(),
            j <= n@.len(),
            forall|k: int| 0 <= k < j ==> h@[i + k] == n@[k],
        decreases n@.len() - j,
    {
        if h[i + j] != n[j] {
            proof {
                assert(h@.subrange(i as int, i + n@.len())[j as int] != n@[j as int]);
            }
            return false;
        }
        j = j + 1;
    }
    proof {
        assert(h@.subrange(i as int, i + n@.len()) =~= n@);
    }
    true
}

/// The first position at or after `start` where `n` occurs in `h`.
pub fn find_chars_from(h: &[char], n: &[char], start: usize) -> (r: Option<usize>)
    ensures
        match find_from(h@, n@, start as int) {
            Some(p) => r matches Some(k) && k == p,
            None => r is None,
        },
{
    if n.len() > h.len() {
        proof {
            lemma_find_from(h@, n@, start as int);
            assert(find_from(h@, n@, start as int) is None);
        }
        return None;
    }
    let last = h.len() - n.len();
    let mut i = start;
    while i <= last
        invariant
            last + n@.len() == h@.len(),
            start <= i,
            find_from(h@, n@, start as int) == find_from(h@, n@, i as int),
        decreases last + 1 - i,
    {
        if occurs_at_exec(h, n, i) {
            return Some(i);
        }
        if i == last {
            return None;
        }
        i = i + 1;
    }
    None
}

/// The first position where `n` occurs in `h`.
pub fn find_chars(h: &[char], n: &[char]) -> (r: Option<usize>)
    ensures
        match find_spec(h@, n@) {
            Some(p) => r matches Some(k) && k == p,
            None => r is None,
        },
{
    find_chars_from(h, n, 0)
}

/// Whether `s` starts with `p`.
pub fn starts_with_chars(s: &[char], p: &[char]) -> (r: bool)
    ensures
        r == (p@.len() <= s@.len() && s@.subrange(0, p@.len() as int) == p@),
{
    if p.len() > s.len() {
        false
    } else {
        occurs_at_exec(s, p, 0)
    }
}

/// Whether `s` ends with `p`.
pub fn ends_with_chars(s: &[char], p: &[char]) -> (r: bool)
    ensures
        r == (p@.len() <= s@.len() && s@.subrange(s@.len() - p@.len(), s@.len() as int) == p@),
{
    if p.len() > s.len() {
        false
    } else {
        occurs_at_exec(s, p, s.len() - p.len())
    }
}

// ---------------------------------------------------------------------------
// XML escaping
// ---------------------------------------------------------------------------

/// How one character is written inside XML text.
pub open spec fn escape_xml_char(c: char) -> Seq<char> {
    if c == '&' {
        seq!['&', 'a', 'm', 'p', ';']
    } else if c == '<' {
        seq!['&', 'l', 't', ';']
    } else if c == '>' {
        seq!['&', 'g', 't', ';']
    } else if c == '"' {
        seq!['&', 'q', 'u', 'o', 't', ';']
    } else {
        seq![c]
    }
}

/// `s` with `&`, `<`, `>` and `"` replaced by their XML entities.
pub open spec fn escape_xml_spec(s: Seq<char>) -> Seq<char>
    decreases s.len(),
{
    if s.len() == 0 {
        Seq::empty()
    } else {
        escape_xml_spec(s.drop_last()) + escape_xml_char(s.last())
    }
}

pub proof fn lemma_escape_xml_append(a: Seq<char>, b: Seq<char>)
    ensures
        escape_xml_spec(a + b) == escape_xml_spec(a) + escape_xml_spec(b),
    decreases b.len(),
{
    if b.len() == 0 {
        assert(a + b =~= a);
    } else {
        lemma_escape_xml_append(a, b.drop_last());
        assert((a + b).drop_last() =~= a + b.drop_last());
        assert((a + b).last() == b.last());
    }
}

fn push_escaped_char(out: &mut String, c: char)
    ensures
        final(out)@ == old(out)@ + escape_xml_char(c),
{
    if c == '&' {
        out.push('&');
        out.push('a');
        out.push('m');
        out.push('p');
        out.push(';');
    } else if c == '<' {
        out.push('&');
        out.push('l');
        out.push('t');
        out.push(';');
    } else if c == '>' {
        out.push('&');
        out.push('g');
        out.push('t');
        out.push(';');
    } else if c == '"' {
        out.push('&');
        out.push('q');
        out.push('u');
        out.push('o');
        out.push('t');
        out.push(';');
    } else {
        out.push(c);
    }
    proof {
        assert(final(out)@ =~= old(out)@ + escape_xml_char(c));
    }
}

/// Appends `s`, escaped for XML text, to `out`.
pub fn push_escaped(out: &mut String, s: &str)
    ensures
        final(out)@ == old(out)@ + escape_xml_spec(s@),
{
    let v = chars_of(s);
    let mut i: usize = 0;
    let ghost start = out@;
    while i < v.len()
        invariant
            i <= v@.len(),
            v@ == s@,
            out@ == start + escape_xml_spec(v@.take(i as int)),
        decreases v@.len() - i,
    {
        push_escaped_char(out, v[i]);
        proof {
            assert(v@.take(i + 1).drop_last() =~= v@.take(i as int));
        }
        i = i + 1;
    }
    proof {
        assert(v@.take(v@.len() as int) =~= v@);
    }
}

/// `s` escaped for XML text: `&`, `<`, `>` and `"` become entities.
pub fn escape_xml(s: &str) -> (r: String)
    ensures
        r@ == escape_xml_spec(s@),
{
    let mut r = String::new();
    push_escaped(&mut r, s);
    r
}

/// The entity that starts `s`, if any, with its length and the character
/// it stands for.
pub open spec fn entity_at(s: Seq<char>) -> Option<(int, char)> {
    if s.len() >= 4 && s.subrange(0, 4) == seq!['&', 'l', 't', ';'] {
        Some((4, '<'))
    } else if s.len() >= 4 && s.subrange(0, 4) == seq!['&', 'g', 't', ';'] {
        Some((4, '>'))
    } else if s.len() >= 6 && s.subrange(0, 6) == seq!['&', 'a', 'p', 'o', 's', ';'] {
        Some((6, '\''))
    } else if s.len() >= 6 && s.subrange(0, 6) == seq!['&', 'q', 'u', 'o', 't', ';'] {
        Some((6, '"'))
    } else if s.len() >= 5 && s.subrange(0, 5) == seq!['&', 'a', 'm', 'p', ';'] {
        Some((5, '&'))
    } else {
        None
    }
}

/// `s` with the five predefined XML entities decoded, left to right.
pub open spec fn unescape_xml_spec(s: Seq<char>) -> Seq<char>
    decreases s.len(),
{
    if s.len() == 0 {
        Seq::empty()
    } else {
        match entity_at(s) {
            Some((n, c)) => seq![c] + unescape_xml_spec(s.subrange(n, s.len() as int)),
            None => seq![s[0]] + unescape_xml_spec(s.subrange(1, s.len() as int)),
        }
    }
}

fn entity_at_exec(s: &[char], i: usize) -> (r: Option<(usize, char)>)
    requires
        i <= s@.len(),
    ensures
        r == (match entity_at(s@.subrange(i as int, s@.len() as int)) {
            Some((n, c)) => Some((n as usize, c)),
            None => None::<(usize, char)>,
        }),
{
    let ghost t = s@.subrange(i as int, s@.len() as int);
    let n = s.len() - i;
    if n >= 4 && s[i] == '&' && s[i + 1] == 'l' && s[i + 2] == 't' && s[i + 3] == ';' {
        proof {
            assert(t.subrange(0, 4) =~= seq!['&', 'l', 't', ';']);
        }
        return Some((4, '<'));
    }
    proof {
        if t.len() >= 4 && t.subrange(0, 4) == seq!['&', 'l', 't', ';'] {
            assert(t.subrange(0, 4)[1] == 'l');
        }
    }
    if n >= 4 && s[i] == '&' && s[i + 1] == 'g' && s[i + 2] == 't' && s[i + 3] == ';' {
        proof {
            assert(t.subrange(0, 4) =~= seq!['&', 'g', 't', ';']);
        }
        return Some((4, '>'));
    }
    proof {
        if t.len() >= 4 && t.subrange(0, 4) == seq!['&', 'g', 't', ';'] {
            assert(t.subrange(0, 4)[1] == 'g');
        }
    }
    if n >= 6 && s[i] == '&' && s[i + 1] == 'a' && s[i + 2] == 'p' && s[i + 3] == 'o' && s[i + 4]
        == 's' && s[i + 5] == ';' {
        proof {
            assert(t.subrange(0, 6) =~= seq!['&', 'a', 'p', 'o', 's', ';']);
        }
        return Some((6, '\''));
    }
    proof {
        if t.len() >= 6 && t.subrange(0, 6) == seq!['&', 'a', 'p', 'o', 's', ';'] {
            assert(t.subrange(0, 6)[2] == 'p');
        }
    }
    if n >= 6 && s[i] == '&' && s[i + 1] == 'q' && s[i + 2] == 'u' && s[i + 3] == 'o' && s[i + 4]
        == 't' && s[i + 5] == ';' {
        proof {
            assert(t.subrange(0, 6) =~= seq!['&', 'q', 'u', 'o', 't', ';']);
        }
        return Some((6, '"'));
    }
    proof {
        if t.len() >= 6 && t.subrange(0, 6) == seq!['&', 'q', 'u', 'o', 't', ';'] {
            assert(t.subrange(0, 6)[1] == 'q');
        }
    }
    if n >= 5 && s[i] == '&' && s[i + 1] == 'a' && s[i + 2] == 'm' && s[i + 3] == 'p' && s[i + 4]
        == ';' {
        proof {
            assert(t.subrange(0, 5) =~= seq!['&', 'a', 'm', 'p', ';']);
        }
        return Some((5, '&'));
    }
    proof {
        if t.len() >= 5 && t.subrange(0, 5) == seq!['&', 'a', 'm', 'p', ';'] {
            assert(t.subrange(0, 5)[2] == 'm');
        }
    }
    None
}

/// `s` with `&lt;`, `&gt;`, `&apos;`, `&quot;` and `&amp;` decoded.
pub fn unescape_xml_chars(s: &[char]) -> (r: Vec<char>)
    ensures
        r@ == unescape_xml_spec(s@),
{
    let mut r: Vec<char> = Vec::new();
    let mut i: usize = 0;
    proof {
        assert(s@.subrange(0, s@.len() as int) =~= s@);
        assert(r@ + unescape_xml_spec(s@) =~= unescape_xml_spec(s@));
    }
    while i < s.len()
        invariant
            i <= s@.len(),
            r@ + unescape_xml_spec(s@.subrange(i as int, s@.len() as int)) == unescape_xml_spec(
                s@,
            ),
        decreases s@.len() - i,
    {
        let ghost t = s@.subrange(i as int, s@.len() as int);
        match entity_at_exec(s, i) {
            Some((n, c)) => {
                proof {
                    assert(t.subrange(n as int, t.len() as int) =~= s@.subrange(
                        i + n,
                        s@.len() as int,
                    ));
                    assert(r@.push(c) + unescape_xml_spec(s@.subrange(i + n, s@.len() as int))
                        =~= r@ + unescape_xml_spec(t));
                }
                r.push(c);
                i = i + n;
            },
            None => {
                proof {
                    assert(t.subrange(1, t.len() as int) =~= s@.subrange(i + 1, s@.len() as int));
                    assert(r@.push(s@[i as int]) + unescape_xml_spec(
                        s@.subrange(i + 1, s@.len() as int),
                    ) =~= r@ + unescape_xml_spec(t));
                }
                r.push(s[i]);
                i = i + 1;
            },
        }
    }
    proof {
        assert(s@.subrange(s@.len() as int, s@.len() as int) =~= Seq::<char>::empty());
        assert(r@ + Seq::<char>::empty() =~= r@);
    }
    r
}

/// `s` with the five predefined XML entities decoded.
pub fn unescape_xml(s: &str) -> (r: String)
    ensures
        r@ == unescape_xml_spec(s@),
{
    let v = chars_of(s);
    let u = unescape_xml_chars(v.as_slice());
    string_of(u.as_slice())
}

// ---------------------------------------------------------------------------
// Decimal numbers
// ---------------------------------------------------------------------------

pub open spec fn is_digit(c: char) -> bool {
    '0' <= c <= '9'
}

pub open spec fn digit_value(c: char) -> nat {
    (c as u32 - '0' as u32) as nat
}

pub open spec fn digit_char(d: nat) -> char {
    ((d + '0' as u32) as u32) as char
}

pub open spec fn all_digits(s: Seq<char>) -> bool {
    forall|i: int| 0 <= i < s.len() ==> is_digit(#[trigger] s[i])
}

/// The number that the digits `s` spell, most significant first.
pub open spec fn digits_value(s: Seq<char>) -> nat
    decreases s.len(),
{
    if s.len() == 0 {
        0
    } else {
        digits_value(s.drop_last()) * 10 + digit_value(s.last())
    }
}

/// What `str::parse` gives for an unsigned type whose largest value is
/// `max`: an optional `+`, then one or more decimal digits, whose value is
/// at most `max`.
pub open spec fn parse_unsigned_spec(s: Seq<char>, max: nat) -> Option<nat> {
    let d = if s.len() > 0 && s[0] == '+' {
        s.subrange(1, s.len() as int)
    } else {
        s
    };
    if d.len() > 0 && all_digits(d) && digits_value(d) <= max {
        Some(digits_value(d))
    } else {
        None
    }
}

proof fn lemma_digits_value_monotone(s: Seq<char>, i: int)
    requires
        all_digits(s),
        0 <= i <= s.len(),
    ensures
        digits_value(s.take(i)) <= digits_value(s),
    decreases s.len() - i,
{
    if i < s.len() {
        lemma_digits_value_monotone(s, i + 1);
        assert(s.take(i + 1).drop_last() =~= s.take(i));
        assert(is_digit(s[i]));
    } else {
        assert(s.take(i) =~= s);
    }
}

fn parse_unsigned(s: &[char], max: u64) -> (r: Option<u64>)
    requires
        max >= 9,
    ensures
        r == (match parse_unsigned_spec(s@, max as nat) {
            Some(n) => Some(n as u64),
            None => None::<u64>,
        }),
{
    let start: usize = if s.len() > 0 && s[0] == '+' {
        1
    } else {
        0
    };
    let ghost d = if s@.len() > 0 && s@[0] == '+' {
        s@.subrange(1, s@.len() as int)
    } else {
        s@
    };
    proof {
        assert(d =~= s@.subrange(start as int, s@.len() as int));
    }
    if start >= s.len() {
        return None;
    }
    let mut acc: u64 = 0;
    let mut i = start;
    while i < s.len()
        invariant
            max >= 9,
            start <= i <= s@.len(),
            d == s@.subrange(start as int, s@.len() as int),
            d == (if s@.len() > 0 && s@[0] == '+' {
                s@.subrange(1, s@.len() as int)
            } else {
                s@
            }),
            all_digits(d.take(i - start)),
            acc == digits_value(d.take(i - start)),
            acc <= max,
        decreases s@.len() - i,
    {
        let c = s[i];
        if !('0' <= c && c <= '9') {
            proof {
                assert(d[i - start] == c);
                assert(!is_digit(d[i - start]));
            }
            return None;
        }
        let dv = (c as u32 - '0' as u32) as u64;
        proof {
            assert(d.take(i - start + 1).drop_last() =~= d.take(i - start));
            assert(d.take(i - start + 1).last() == c);
            assert forall|j: int| 0 <= j < d.take(i - start + 1).len() implies is_digit(
                #[trigger] d.take(i - start + 1)[j],
            ) by {
                if j < i - start {
                    assert(d.take(i - start + 1)[j] == d.take(i - start)[j]);
                }
            }
        }
        if acc > (max - dv) / 10 {
            proof {
                assert(digits_value(d.take(i - start + 1)) == acc * 10 + dv);
                assert(acc * 10 + dv > max) by (nonlinear_arith)
                    requires
                        acc > (max - dv) / 10,
                        dv <= max || dv > max,
                        dv <= 9,
                ;
                if all_digits(d) {
                    lemma_digits_value_monotone(d, i - start + 1);
                }
            }
            return None;
        }
        proof {
            assert(acc * 10 + dv <= max) by (nonlinear_arith)
                requires
                    acc <= (max - dv) / 10,
                    dv <= 9,
                    dv <= max,
            ;
        }
        acc = acc * 10 + dv;
        i = i + 1;
    }
    proof {
        assert(d.take(i - start) =~= d);
    }
    Some(acc)
}

/// What `str::parse::<u64>` gives for `s`.
pub fn parse_u64(s: &[char]) -> (r: Option<u64>)
    ensures
        r == (match parse_unsigned_spec(s@, u64::MAX as nat) {
            Some(n) => Some(n as u64),
            None => None::<u64>,
        }),
{
    parse_unsigned(s, u64::MAX)
}

/// What `str::parse::<u32>` gives for `s`.
pub fn parse_u32(s: &[char]) -> (r: Option<u32>)
    ensures
        r == (match parse_unsigned_spec(s@, u32::MAX as nat) {
            Some(n) => Some(n as u32),
            None => None::<u32>,
        }),
{
    match parse_unsigned(s, u32::MAX as u64) {
        Some(n) => Some(n as u32),
        None => None,
    }
}

/// What `str::parse::<u16>` gives for `s`.
pub fn parse_u16(s: &[char]) -> (r: Option<u16>)
    ensures
        r == (match parse_unsigned_spec(s@, u16::MAX as nat) {
            Some(n) => Some(n as u16),
            None => None::<u16>,
        }),
{
    match parse_unsigned(s, u16::MAX as u64) {
        Some(n) => Some(n as u16),
        None => None,
    }
}

/// What `str::parse::<usize>` gives for `s`.
pub fn parse_usize(s: &[char]) -> (r: Option<usize>)
    ensures
        r == (match parse_unsigned_spec(s@, usize::MAX as nat) {
            Some(n) => Some(n as usize),
            None => None::<usize>,
        }),
{
    match parse_unsigned(s, usize::MAX as u64) {
        Some(n) => Some(n as usize),
        None => None,
    }
}

/// The decimal spelling of `n`, without leading zeros.
pub open spec fn decimal_spec(n: nat) -> Seq<char>
    decreases n,
{
    if n < 10 {
        seq![digit_char(n)]
    } else {
        decimal_spec(n / 10) + seq![digit_char(n % 10)]
    }
}

fn digit_char_exec(d: u64) -> (c: char)
    requires
        d < 10,
    ensures
        c == digit_char(d as nat),
{
    if d == 0 {
        '0'
    } else if d == 1 {
        '1'
    } else if d == 2 {
        '2'
    } else if d == 3 {
        '3'
    } else if d == 4 {
        '4'
    } else if d == 5 {
        '5'
    } else if d == 6 {
        '6'
    } else if d == 7 {
        '7'
    } else if d == 8 {
        '8'
    } else {
        '9'
    }
}

/// Appends the decimal spelling of `n` to `out`.
pub fn push_decimal(out: &mut String, n: u64)
    ensures
        final(out)@ == old(out)@ + decimal_spec(n as nat),
    decreases n,
{
    if n >= 10 {
        push_decimal(out, n / 10);
    }
    let c = digit_char_exec(n % 10);
    out.push(c);
    proof {
        if n < 10 {
            assert(n % 10 == n);
        }
        assert(final(out)@ =~= old(out)@ + decimal_spec(n as nat));
    }
}

/// The decimal spelling of a signed number, with `-` before a negative one.
pub open spec fn signed_decimal_spec(n: int) -> Seq<char> {
    if n < 0 {
        seq!['-'] + decimal_spec((-n) as nat)
    } else {
        decimal_spec(n as nat)
    }
}

/// Appends the decimal spelling of `n` to `out`.
pub fn push_i64(out: &mut String, n: i64)
    ensures
        final(out)@ == old(out)@ + signed_decimal_spec(n as int),
{
    if n < 0 {
        out.push('-');
        let m: u64 = (-(n as i128)) as u64;
        push_decimal(out, m);
        proof {
            assert(final(out)@ =~= old(out)@ + signed_decimal_spec(n as int));
        }
    } else {
        push_decimal(out, n as u64);
    }
}

/// The spelling of a boolean, as `bool::to_string` gives it.
pub open spec fn bool_spec(b: bool) -> Seq<char> {
    if b {
        seq!['t', 'r', 'u', 'e']
    } else {
        seq!['f', 'a', 'l', 's', 'e']
    }
}

/// Appends `true` or `false` to `out`.
pub fn push_bool(out: &mut String, b: bool)
    ensures
        final(out)@ == old(out)@ + bool_spec(b),
{
    if b {
        out.push('t');
        out.push('r');
        out.push('u');
        out.push('e');
    } else {
        out.push('f');
        out.push('a');
        out.push('l');
        out.push('s');
        out.push('e');
    }
    proof {
        assert(final(out)@ =~= old(out)@ + bool_spec(b));
    }
}

// ---------------------------------------------------------------------------
// Percent-decoding
// ---------------------------------------------------------------------------

pub open spec fn hex_digit_value(b: u8) -> Option<nat> {
    if 0x30 <= b <= 0x39 {
        Some((b - 0x30) as nat)
    } else if 0x61 <= b <= 0x66 {
        Some((b - 0x61 + 10) as nat)
    } else if 0x41 <= b <= 0x46 {
        Some((b - 0x41 + 10) as nat)
    } else {
        None
    }
}

/// What `u8::from_str_radix(.., 16)` gives for the two bytes `b1 b2`,
/// read as text: two hex digits, or `+` and one hex digit.
pub open spec fn hex_pair_spec(b1: u8, b2: u8) -> Option<u8> {
    match (hex_digit_value(b1), hex_digit_value(b2)) {
        (Some(h), Some(l)) => Some((h * 16 + l) as u8),
        (None, Some(l)) => if b1 == 0x2b {
            Some(l as u8)
        } else {
            None
        },
        _ => None,
    }
}

/// Percent-decoding of the bytes `b`: `%XY` with a valid hex pair becomes
/// that byte, `+` becomes a space when `plus_is_space`, and every other
/// byte stands for itself; each resulting byte is read as the character
/// with that code.
pub open spec fn percent_decode_spec(b: Seq<u8>, plus_is_space: bool) -> Seq<char>
    decreases b.len(),
{
    if b.len() == 0 {
        Seq::empty()
    } else if b[0] == 0x25 && 2 < b.len() && hex_pair_spec(b[1], b[2]) is Some {
        seq![(hex_pair_spec(b[1], b[2])->0 as u32) as char] + percent_decode_spec(
            b.subrange(3, b.len() as int),
            plus_is_space,
        )
    } else if b[0] == 0x2b && plus_is_space && !(b[0] == 0x25 && 2 < b.len()) {
        seq![' '] + percent_decode_spec(b.subrange(1, b.len() as int), plus_is_space)
    } else {
        seq![(b[0] as u32) as char] + percent_decode_spec(b.subrange(1, b.len() as int), plus_is_space)
    }
}

fn hex_digit_exec(b: u8) -> (r: Option<u8>)
    ensures
        r == (match hex_digit_value(b) {
            Some(v) => Some(v as u8),
            None => None::<u8>,
        }),
{
    if 0x30 <= b && b <= 0x39 {
        Some(b - 0x30)
    } else if 0x61 <= b && b <= 0x66 {
        Some(b - 0x61 + 10)
    } else if 0x41 <= b && b <= 0x46 {
        Some(b - 0x41 + 10)
    } else {
        None
    }
}

fn hex_pair_exec(b1: u8, b2: u8) -> (r: Option<u8>)
    ensures
        r == hex_pair_spec(b1, b2),
{
    match (hex_digit_exec(b1), hex_digit_exec(b2)) {
        (Some(h), Some(l)) => Some(h * 16 + l),
        (None, Some(l)) => if b1 == 0x2b {
            Some(l)
        } else {
            None
        },
        _ => None,
    }
}

pub fn percent_decode(s: &str, plus_is_space: bool) -> (r: String)
    ensures
        r@ == percent_decode_spec(s.spec_bytes(), plus_is_space),
{
    let b = s.as_bytes();
    let mut r = String::new();
    let mut i: usize = 0;
    proof {
        assert(b@.subrange(0, b@.len() as int) =~= b@);
        assert(r@ + percent_decode_spec(b@, plus_is_space) =~= percent_decode_spec(b@, plus_is_space));
    }
    while i < b.len()
        invariant
            i <= b@.len(),
            b@ == s.spec_bytes(),
            r@ + percent_decode_spec(b@.subrange(i as int, b@.len() as int), plus_is_space)
                == percent_decode_spec(b@, plus_is_space),
        decreases b@.len() - i,
    {
        let ghost t = b@.subrange(i as int, b@.len() as int);
        if b[i] == 0x25 && b.len() - i > 2 {
            match hex_pair_exec(b[i + 1], b[i + 2]) {
                Some(v) => {
                    proof {
                        assert(t[1] == b@[i + 1] && t[2] == b@[i + 2]);
                        assert(t.subrange(3, t.len() as int) =~= b@.subrange(
                            i + 3,
                            b@.len() as int,
                        ));
                    }
                    r.push(v as char);
                    proof {
                        assert(r@ + percent_decode_spec(
                            b@.subrange(i + 3, b@.len() as int),
                            plus_is_space,
                        ) =~= old_r_plus(r@.drop_last(), t, plus_is_space));
                    }
                    i = i + 3;
                    continue ;
                },
                None => {},
            }
        } else if b[i] == 0x2b && plus_is_space {
            proof {
                assert(t.subrange(1, t.len() as int) =~= b@.subrange(i + 1, b@.len() as int));
            }
            r.push(' ');
            proof {
                assert(r@ + percent_decode_spec(b@.subrange(i + 1, b@.len() as int), plus_is_space)
                    =~= old_r_plus(r@.drop_last(), t, plus_is_space));
            }
            i = i + 1;
            continue ;
        }
        proof {
            assert(t.subrange(1, t.len() as int) =~= b@.subrange(i + 1, b@.len() as int));
            if t.len() > 2 {
                assert(t[2] == b@[i + 2]);
            }
        }
        r.push(b[i] as char);
        proof {
            assert(r@ + percent_decode_spec(b@.subrange(i + 1, b@.len() as int), plus_is_space)
                =~= old_r_plus(r@.drop_last(), t, plus_is_space));
        }
        i = i + 1;
    }
    proof {
        assert(b@.subrange(b@.len() as int, b@.len() as int) =~= Seq::<u8>::empty());
        assert(r@ + Seq::<char>::empty() =~= r@);
    }
    r
}

spec fn old_r_plus(r: Seq<char>, t: Seq<u8>, plus_is_space: bool) -> Seq<char> {
    r + percent_decode_spec(t, plus_is_space)
}

/// Whole seconds of a millisecond timestamp, rounded down.
pub open spec fn seconds_of(ms: i64) -> int {
    if ms >= 0 {
        ms / 1000
    } else {
        -((-ms - 1) / 1000) - 1
    }
}

pub fn seconds_of_exec(ms: i64) -> (r: i64)
    ensures
        r == seconds_of(ms),
{
    if ms >= 0 {
        ms / 1000
    } else {
        let m: i64 = -(ms + 1);
        -(m / 1000) - 1
    }
}

} // verus!
