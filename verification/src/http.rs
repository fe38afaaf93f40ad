//! The request and response values that the service handlers exchange
//! with the HTTP gateway, and the parsing of form-encoded request bodies.
use vstd::prelude::*;
use vstd::string::StringSliceAdditionalSpecFns;

use crate::strmap::StrMap;
use crate::text::{
    chars_of, decimal_spec, find_chars, find_spec, percent_decode, percent_decode_spec, push_decimal,
    push_str, string_of,
};

verus! {

/// One request as the gateway hands it to a service.
pub struct RequestContext {
    pub service: String,
    pub operation: String,
    pub region: String,
    pub account_id: String,
    pub method: String,
    pub path: String,
    /// Header names in lower case, with their values.
    pub headers: StrMap<String>,
    pub query_params: StrMap<String>,
    pub raw_body: Vec<u8>,
    /// The top-level fields of a JSON request body.
    pub request_body: StrMap<BodyValue>,
}

/// A top-level field of a JSON request body, as far as the services read
/// it: a string, a boolean, or something else.
pub enum BodyValue {
    Str(String),
    Bool(bool),
    Other,
}

pub enum BodyValueView {
    Str(Seq<char>),
    Bool(bool),
    Other,
}

impl View for BodyValue {
    type V = BodyValueView;

    open spec fn view(&self) -> BodyValueView {
        match self {
            BodyValue::Str(s) => BodyValueView::Str(s@),
            BodyValue::Bool(b) => BodyValueView::Bool(*b),
            BodyValue::Other => BodyValueView::Other,
        }
    }
}

/// The string field `key` of a JSON request body.
pub open spec fn body_str(body: Map<Seq<char>, BodyValueView>, key: Seq<char>) -> Option<Seq<char>> {
    if body.contains_key(key) {
        match body[key] {
            BodyValueView::Str(s) => Some(s),
            _ => None,
        }
    } else {
        None
    }
}

/// The boolean field `key` of a JSON request body.
pub open spec fn body_bool(body: Map<Seq<char>, BodyValueView>, key: Seq<char>) -> Option<bool> {
    if body.contains_key(key) {
        match body[key] {
            BodyValueView::Bool(b) => Some(b),
            _ => None,
        }
    } else {
        None
    }
}

/// The string fields of a JSON request body.
pub open spec fn body_strings(body: Map<Seq<char>, BodyValueView>) -> Map<Seq<char>, Seq<char>> {
    Map::new(
        |k: Seq<char>| body_str(body, k) is Some,
        |k: Seq<char>|
            match body_str(body, k) {
                Some(s) => s,
                None => Seq::empty(),
            },
    )
}

/// The parameters of a request that may come in the query string or as
/// string fields of a JSON body: the query string wins.
pub open spec fn service_params(ctx: RequestContext) -> Map<Seq<char>, Seq<char>> {
    body_strings(ctx.request_body@).union_prefer_right(ctx.query_params@)
}

/// The string fields of a JSON request body, as a map.
pub fn body_string_fields(body: &StrMap<BodyValue>) -> (r: StrMap<String>)
    requires
        body.wf(),
    ensures
        r.wf(),
        r@ == body_strings(body@),
{
    let n = body.len();
    proof {
        body.lemma_enumeration();
    }
    let ghost ks = body.keys_seq();
    let ghost full = body_strings(body@);
    let mut r: StrMap<String> = StrMap::new();
    let mut i: usize = 0;
    proof {
        assert(ks.take(0).to_set() =~= Set::<Seq<char>>::empty());
        assert(r@ =~= full.restrict(ks.take(0).to_set()));
    }
    while i < n
        invariant
            i <= n,
            n == ks.len(),
            ks == body.keys_seq(),
            body.wf(),
            full == body_strings(body@),
            r.wf(),
            r@ == full.restrict(ks.take(i as int).to_set()),
        decreases n - i,
    {
        proof {
            body.lemma_enumeration();
        }
        let k = body.key_at_index(i);
        let v = body.value_at_index(i);
        proof {
            assert(body@.contains_key(k@));
            assert(body@[k@] == v@);
            assert(ks.take(i + 1).to_set() =~= ks.take(i as int).to_set().insert(ks[i as int])) by {
                assert(ks.take(i + 1) =~= ks.take(i as int).push(ks[i as int]));
                ks.take(i as int).lemma_push_to_set_commute(ks[i as int]);
            }
        }
        match v {
            BodyValue::Str(s) => {
                r.insert(k.clone(), s.clone());
                proof {
                    assert(r@ =~= full.restrict(ks.take(i + 1).to_set()));
                }
            },
            _ => {
                proof {
                    assert(!full.contains_key(k@));
                    assert(r@ =~= full.restrict(ks.take(i + 1).to_set()));
                }
            },
        }
        i = i + 1;
    }
    proof {
        assert(ks.take(n as int) =~= ks);
        assert forall|k: Seq<char>| full.contains_key(k) implies ks.to_set().contains(k) by {
            assert(body@.contains_key(k));
            assert(ks.contains(k));
        }
        assert(r@ =~= full);
    }
    r
}

/// Reads the parameters of a request (see `service_params`).
pub fn service_params_exec(ctx: &RequestContext) -> (r: StrMap<String>)
    requires
        ctx.wf(),
    ensures
        r.wf(),
        r@ == service_params(*ctx),
{
    let mut params = ctx.query_params.deep_copy();
    let fields = body_string_fields(&ctx.request_body);
    absorb_missing(&mut params, &fields);
    params
}

impl RequestContext {
    /// The string field `key` of the JSON request body.
    pub fn body_str(&self, key: &str) -> (r: Option<&String>)
        requires
            self.wf(),
        ensures
            match r {
                Some(s) => body_str(self.request_body@, key@) == Some(s@),
                None => body_str(self.request_body@, key@) is None,
            },
    {
        match self.request_body.get(key) {
            Some(BodyValue::Str(s)) => Some(s),
            _ => None,
        }
    }

    /// The boolean field `key` of the JSON request body.
    pub fn body_bool(&self, key: &str) -> (r: Option<bool>)
        requires
            self.wf(),
        ensures
            r == body_bool(self.request_body@, key@),
    {
        match self.request_body.get(key) {
            Some(BodyValue::Bool(b)) => Some(*b),
            _ => None,
        }
    }
}

impl RequestContext {
    pub open spec fn wf(&self) -> bool {
        self.headers.wf() && self.query_params.wf() && self.request_body.wf()
    }
}

/// A response: status, body text, content type and extra headers.
pub struct DispatchResponse {
    pub status_code: u16,
    pub body: String,
    pub content_type: String,
    pub headers: Vec<(String, String)>,
}

pub struct ResponseView {
    pub status_code: u16,
    pub body: Seq<char>,
    pub content_type: Seq<char>,
    pub headers: Seq<(Seq<char>, Seq<char>)>,
}

impl View for DispatchResponse {
    type V = ResponseView;

    open spec fn view(&self) -> ResponseView {
        ResponseView {
            status_code: self.status_code,
            body: self.body@,
            content_type: self.content_type@,
            headers: self.headers@.map_values(|h: (String, String)| (h.0@, h.1@)),
        }
    }
}

/// A response with no extra headers.
pub open spec fn plain_response(status: u16, body: Seq<char>, content_type: Seq<char>) -> ResponseView {
    ResponseView { status_code: status, body, content_type, headers: Seq::empty() }
}

pub fn plain(status: u16, body: String, content_type: &str) -> (r: DispatchResponse)
    ensures
        r@ == plain_response(status, body@, content_type@),
{
    let r = DispatchResponse {
        status_code: status,
        body,
        content_type: String::from_str(content_type),
        headers: Vec::new(),
    };
    proof {
        assert(r@.headers =~= Seq::<(Seq<char>, Seq<char>)>::empty());
    }
    r
}

pub enum DispatchError {
    /// The operation is not supported; carries its name.
    NotImplemented(String),
}

// ---------------------------------------------------------------------------
// UTF-8
// ---------------------------------------------------------------------------

/// `std::str::from_utf8`: the text that `bytes` encode when they are valid
/// UTF-8, and an error otherwise.
#[verifier::external_body]
pub(crate) fn utf8_text(bytes: &[u8]) -> (r: Option<String>)
    ensures
        match r {
            Some(s) => vstd::utf8::valid_utf8(bytes@) && s@ == vstd::utf8::decode_utf8(bytes@),
            None => !vstd::utf8::valid_utf8(bytes@),
        },
{
    match std::str::from_utf8(bytes) {
        Ok(s) => Some(s.to_string()),
        Err(_) => None,
    }
}

/// The text `String::from_utf8_lossy` reads from `bytes`.
pub uninterp spec fn lossy_text(bytes: Seq<u8>) -> Seq<char>;

/// `String::from_utf8_lossy`: the text `bytes` encode, with each invalid
/// sequence replaced by U+FFFD; valid UTF-8 reads as its decoding.
#[verifier::external_body]
pub(crate) fn utf8_lossy(bytes: &[u8]) -> (r: String)
    ensures
        r@ == lossy_text(bytes@),
        vstd::utf8::valid_utf8(bytes@) ==> r@ == vstd::utf8::decode_utf8(bytes@),
{
    String::from_utf8_lossy(bytes).into_owned()
}

/// The text of a body: its UTF-8 decoding, or empty when it is not UTF-8.
pub open spec fn body_text(bytes: Seq<u8>) -> Seq<char> {
    if vstd::utf8::valid_utf8(bytes) {
        vstd::utf8::decode_utf8(bytes)
    } else {
        Seq::empty()
    }
}

pub fn body_text_exec(bytes: &[u8]) -> (r: String)
    ensures
        r@ == body_text(bytes@),
{
    match utf8_text(bytes) {
        Some(s) => s,
        None => String::new(),
    }
}

// ---------------------------------------------------------------------------
// Splitting
// ---------------------------------------------------------------------------

/// The pieces of `s` between occurrences of `sep`, as `str::split` gives
/// them: there is always at least one piece.
pub open spec fn split_spec(s: Seq<char>, sep: char) -> Seq<Seq<char>>
    decreases s.len(),
{
    if s.len() == 0 {
        seq![Seq::empty()]
    } else {
        let r = split_spec(s.drop_last(), sep);
        if s.last() == sep {
            r.push(Seq::empty())
        } else {
            r.update(r.len() - 1, r.last().push(s.last()))
        }
    }
}

pub proof fn lemma_split_nonempty(s: Seq<char>, sep: char)
    ensures
        split_spec(s, sep).len() >= 1,
    decreases s.len(),
{
    if s.len() > 0 {
        lemma_split_nonempty(s.drop_last(), sep);
    }
}

/// The pieces of `s` between occurrences of `sep`.
pub fn split_chars(s: &[char], sep: char) -> (r: Vec<Vec<char>>)
    ensures
        r@.map_values(|v: Vec<char>| v@) == split_spec(s@, sep),
{
    let mut done: Vec<Vec<char>> = Vec::new();
    let mut cur: Vec<char> = Vec::new();
    let mut i: usize = 0;
    proof {
        assert(s@.take(0) =~= Seq::<char>::empty());
        assert(done@.map_values(|v: Vec<char>| v@).push(cur@) =~= split_spec(s@.take(0), sep));
    }
    while i < s.len()
        invariant
            i <= s@.len(),
            done@.map_values(|v: Vec<char>| v@).push(cur@) == split_spec(s@.take(i as int), sep),
        decreases s@.len() - i,
    {
        proof {
            assert(s@.take(i + 1).drop_last() =~= s@.take(i as int));
            assert(s@.take(i + 1).last() == s@[i as int]);
            lemma_split_nonempty(s@.take(i as int), sep);
        }
        let ghost prev = split_spec(s@.take(i as int), sep);
        if s[i] == sep {
            let ghost before = done@;
            let mut finished: Vec<char> = Vec::new();
            std::mem::swap(&mut finished, &mut cur);
            done.push(finished);
            proof {
                assert(done@.map_values(|v: Vec<char>| v@) =~= before.map_values(|v: Vec<char>| v@).push(
                    finished@,
                ));
                assert(done@.map_values(|v: Vec<char>| v@).push(cur@) =~= prev.push(Seq::empty()));
            }
        } else {
            cur.push(s[i]);
            proof {
                assert(done@.map_values(|v: Vec<char>| v@).push(cur@) =~= prev.update(
                    prev.len() - 1,
                    prev.last().push(s@[i as int]),
                ));
            }
        }
        i = i + 1;
    }
    let ghost before = done@;
    done.push(cur);
    proof {
        assert(s@.take(s@.len() as int) =~= s@);
        assert(done@.map_values(|v: Vec<char>| v@) =~= before.map_values(|v: Vec<char>| v@).push(
            cur@,
        ));
    }
    done
}

// ---------------------------------------------------------------------------
// Form-encoded bodies
// ---------------------------------------------------------------------------

/// The key of a `key=value` piece: everything before the first `=`.
pub open spec fn pair_key(seg: Seq<char>) -> Seq<char> {
    match find_spec(seg, seq!['=']) {
        Some(p) => seg.subrange(0, p),
        None => seg,
    }
}

/// The value of a `key=value` piece: everything after the first `=`, or
/// nothing when there is none.
pub open spec fn pair_value(seg: Seq<char>) -> Seq<char> {
    match find_spec(seg, seq!['=']) {
        Some(p) => seg.subrange(p + 1, seg.len() as int),
        None => Seq::empty(),
    }
}

/// Form decoding of one component: percent escapes and `+` for space.
pub open spec fn form_decode(s: Seq<char>) -> Seq<char> {
    percent_decode_spec(vstd::utf8::encode_utf8(s), true)
}

/// The parameters of the `&`-separated pieces `segs`, later pieces
/// winning; pieces with an empty key are skipped.
pub open spec fn form_params_spec(segs: Seq<Seq<char>>) -> Map<Seq<char>, Seq<char>>
    decreases segs.len(),
{
    if segs.len() == 0 {
        Map::empty()
    } else {
        let m = form_params_spec(segs.drop_last());
        let seg = segs.last();
        if pair_key(seg).len() == 0 {
            m
        } else {
            m.insert(form_decode(pair_key(seg)), form_decode(pair_value(seg)))
        }
    }
}

/// The parameters of a form-encoded body.
pub open spec fn form_body_params(body: Seq<char>) -> Map<Seq<char>, Seq<char>> {
    form_params_spec(split_spec(body, '&'))
}

fn form_decode_exec(s: &[char]) -> (r: String)
    ensures
        r@ == form_decode(s@),
{
    let t = string_of(s);
    percent_decode(t.as_str(), true)
}

/// Parses a form-encoded body into `params`, later pairs winning.
pub fn parse_form_into(params: &mut StrMap<String>, body: &str)
    requires
        old(params).wf(),
    ensures
        final(params).wf(),
        final(params)@ == old(params)@.union_prefer_right(form_body_params(body@)),
{
    let chars = chars_of(body);
    let segs = split_chars(chars.as_slice(), '&');
    let ghost sv = segs@.map_values(|v: Vec<char>| v@);
    let ghost start = params@;
    let eq: Vec<char> = vec!['='];
    proof {
        assert(eq@ =~= seq!['=']);
        assert(sv.take(0) =~= Seq::<Seq<char>>::empty());
        assert(start.union_prefer_right(form_params_spec(sv.take(0))) =~= start);
    }
    let mut i: usize = 0;
    while i < segs.len()
        invariant
            i <= segs@.len(),
            sv == segs@.map_values(|v: Vec<char>| v@),
            sv == split_spec(body@, '&'),
            eq@ == seq!['='],
            params.wf(),
            params@ == start.union_prefer_right(form_params_spec(sv.take(i as int))),
        decreases segs@.len() - i,
    {
        let seg = &segs[i];
        let seg_len = seg.len();
        proof {
            assert(sv.take(i + 1).drop_last() =~= sv.take(i as int));
            assert(sv.take(i + 1).last() == seg@);
        }
        let (k, v) = match find_chars(seg.as_slice(), eq.as_slice()) {
            Some(p) => {
                proof {
                    crate::text::lemma_find_from(seg@, eq@, 0);
                    assert(p + 1 <= seg@.len());
                }
                let k = crate::text::slice_chars(seg.as_slice(), 0, p);
                let v = crate::text::slice_chars(seg.as_slice(), p + 1, seg_len);
                (k, v)
            },
            None => {
                let k = crate::text::slice_chars(seg.as_slice(), 0, seg.len());
                proof {
                    assert(k@ =~= seg@);
                }
                (k, Vec::new())
            },
        };
        proof {
            assert(k@ == pair_key(seg@));
            assert(v@ =~= pair_value(seg@));
        }
        if k.len() > 0 {
            let dk = form_decode_exec(k.as_slice());
            let dv = form_decode_exec(v.as_slice());
            let ghost before = params@;
            params.insert(dk, dv);
            proof {
                assert(params@ =~= start.union_prefer_right(form_params_spec(sv.take(i + 1))));
            }
        }
        i = i + 1;
    }
    proof {
        assert(sv.take(sv.len() as int) =~= sv);
    }
}

/// The keys among the first `i` of `ks`.
pub open spec fn first_keys(ks: Seq<Seq<char>>, i: int) -> Set<Seq<char>> {
    Set::new(|k: Seq<char>| exists|j: int| 0 <= j < i && ks[j] == k)
}

/// Adds the entries of `extra` whose keys `params` lacks.
pub fn absorb_missing(params: &mut StrMap<String>, extra: &StrMap<String>)
    requires
        old(params).wf(),
        extra.wf(),
    ensures
        final(params).wf(),
        final(params)@ == extra@.union_prefer_right(old(params)@),
{
    let n = extra.len();
    proof {
        extra.lemma_enumeration();
    }
    let ghost start = params@;
    let ghost ks = extra.keys_seq();
    let mut i: usize = 0;
    proof {
        assert(start =~= extra@.restrict(first_keys(ks, 0)).union_prefer_right(start));
    }
    while i < n
        invariant
            extra.wf(),
            n == ks.len(),
            ks == extra.keys_seq(),
            ks.len() == extra.vals_seq().len(),
            forall|j: int| 0 <= j < ks.len() ==> extra@.contains_key(#[trigger] ks[j]) && extra@[ks[j]] == extra.vals_seq()[j]@,
            forall|kk: Seq<char>| #[trigger] extra@.contains_key(kk) ==> ks.contains(kk),
            i <= n,
            params.wf(),
            params@ == extra@.restrict(first_keys(ks, i as int)).union_prefer_right(start),
        decreases n - i,
    {
        let k = extra.key_at_index(i);
        let v = extra.value_at_index(i);
        let ghost before = params@;
        proof {
            assert(first_keys(ks, i + 1) =~= first_keys(ks, i as int).insert(ks[i as int])) by {
                assert forall|kk: Seq<char>| first_keys(ks, i + 1).contains(kk) implies first_keys(ks, i as int).insert(ks[i as int]).contains(kk) by {
                    let j = choose|j: int| 0 <= j < i + 1 && ks[j] == kk;
                    if j < i {
                        assert(first_keys(ks, i as int).contains(kk));
                    }
                }
                assert forall|kk: Seq<char>| first_keys(ks, i as int).insert(ks[i as int]).contains(kk) implies first_keys(ks, i + 1).contains(kk) by {
                    if kk == ks[i as int] {
                        assert(0 <= i < i + 1 && ks[i as int] == kk);
                    } else {
                        let j = choose|j: int| 0 <= j < i && ks[j] == kk;
                        assert(0 <= j < i + 1 && ks[j] == kk);
                    }
                }
            }
        }
        if !params.contains_key(k.as_str()) {
            params.insert(k.clone(), v.clone());
            proof {
                assert(params@ =~= extra@.restrict(first_keys(ks, i + 1)).union_prefer_right(start));
            }
        } else {
            proof {
                assert(params@ =~= extra@.restrict(first_keys(ks, i + 1)).union_prefer_right(start));
            }
        }
        i = i + 1;
    }
    proof {
        assert(extra@.restrict(first_keys(ks, n as int)) =~= extra@) by {
            assert forall|kk: Seq<char>| extra@.contains_key(kk) implies first_keys(ks, n as int).contains(kk) by {
                assert(ks.contains(kk));
                let j = choose|j: int| 0 <= j < ks.len() && ks[j] == kk;
                assert(0 <= j < n && ks[j] == kk);
            }
        }
    }
}

// ---------------------------------------------------------------------------
// Indexed parameters
// ---------------------------------------------------------------------------

/// `{prefix}.{i}{suffix}`
pub open spec fn indexed_key(prefix: Seq<char>, i: nat, suffix: Seq<char>) -> Seq<char> {
    prefix + seq!['.'] + decimal_spec(i) + suffix
}

/// `{prefix}.{i}{suffix}`
pub fn indexed_key_exec(prefix: &str, i: u64, suffix: &str) -> (r: String)
    ensures
        r@ == indexed_key(prefix@, i as nat, suffix@),
{
    let mut r = String::new();
    push_str(&mut r, prefix);
    r.push('.');
    push_decimal(&mut r, i);
    push_str(&mut r, suffix);
    proof {
        assert(r@ =~= indexed_key(prefix@, i as nat, suffix@));
    }
    r
}

/// The `Name`/`Value` pairs `{prefix}.{i}.Name`, `{prefix}.{i}.Value`
/// read for `i` from `i` upwards while both are present, at most `fuel`
/// of them, later names winning.
pub open spec fn indexed_kv_from(params: Map<Seq<char>, Seq<char>>, prefix: Seq<char>, i: nat, fuel: nat) -> Map<
    Seq<char>,
    Seq<char>,
>
    decreases fuel,
{
    if fuel == 0 {
        Map::empty()
    } else {
        let nk = indexed_key(prefix, i, ".Name"@);
        let vk = indexed_key(prefix, i, ".Value"@);
        if params.contains_key(nk) && params.contains_key(vk) {
            Map::empty().insert(params[nk], params[vk]).union_prefer_right(
                indexed_kv_from(params, prefix, i + 1, (fuel - 1) as nat),
            )
        } else {
            Map::empty()
        }
    }
}

/// The pairs `{prefix}.1.Name`/`{prefix}.1.Value`, `{prefix}.2.Name`/...
/// read in order while both are present (each round reads two parameters
/// of its own, so there are never more rounds than parameters), later
/// names winning.
pub open spec fn indexed_kv_spec(params: Map<Seq<char>, Seq<char>>, prefix: Seq<char>) -> Map<
    Seq<char>,
    Seq<char>,
> {
    indexed_kv_from(params, prefix, 1, params.dom().len())
}

/// Extracts the indexed `Name`/`Value` pairs under `prefix`.
pub fn extract_indexed_kv(params: &StrMap<String>, prefix: &str) -> (r: StrMap<String>)
    requires
        params.wf(),
    ensures
        r.wf(),
        r@ == indexed_kv_spec(params@, prefix@),
{
    let n = params.len();
    let mut result: StrMap<String> = StrMap::new();
    let mut left: usize = n;
    let mut i: u64 = 1;
    proof {
        assert(result@.union_prefer_right(indexed_kv_from(params@, prefix@, 1, n as nat)) =~= indexed_kv_from(
            params@,
            prefix@,
            1,
            n as nat,
        ));
    }
    while left > 0
        invariant
            n == params@.dom().len(),
            params.wf(),
            result.wf(),
            left <= n,
            left > 0 ==> i == n - left + 1,
            result@.union_prefer_right(indexed_kv_from(params@, prefix@, i as nat, left as nat))
                == indexed_kv_spec(params@, prefix@),
        decreases left,
    {
        let nk = indexed_key_exec(prefix, i, ".Name");
        let vk = indexed_key_exec(prefix, i, ".Value");
        match (params.get(nk.as_str()), params.get(vk.as_str())) {
            (Some(name), Some(value)) => {
                let ghost before = result@;
                let ghost rest = indexed_kv_from(params@, prefix@, (i + 1) as nat, (left - 1) as nat);
                result.insert(name.clone(), value.clone());
                proof {
                    assert(result@.union_prefer_right(rest) =~= before.union_prefer_right(
                        Map::empty().insert(params@[nk@], params@[vk@]).union_prefer_right(rest),
                    ));
                }
                left = left - 1;
                if left > 0 {
                    i = i + 1;
                } else {
                    proof {
                        assert(result@.union_prefer_right(Map::empty()) =~= result@);
                    }
                    return result;
                }
            },
            _ => {
                proof {
                    assert(result@.union_prefer_right(Map::empty()) =~= result@);
                }
                return result;
            },
        }
    }
    proof {
        assert(result@.union_prefer_right(Map::empty()) =~= result@);
    }
    result
}

} // verus!
