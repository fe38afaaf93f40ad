//! The AWS query protocol as SQS and SNS speak it: form-encoded request
//! parameters, indexed parameter groups, and XML responses.
use vstd::prelude::*;

use crate::http::{
    absorb_missing, body_text, body_text_exec, form_body_params, indexed_key, indexed_key_exec, plain,
    plain_response, DispatchResponse, RequestContext, ResponseView,
};
use crate::sqs::MessageAttributeValueView;
use crate::strmap::StrMap;
use crate::text::{escape_xml_spec, push_escaped, push_str};

verus! {

// ---------------------------------------------------------------------------
// Parameters
// ---------------------------------------------------------------------------

/// The parameters of a query request: the form-encoded body (later pairs
/// winning), then the query string's parameters for the names the body
/// lacks.
pub open spec fn query_params_spec(body: Seq<u8>, query: Map<Seq<char>, Seq<char>>) -> Map<Seq<char>, Seq<char>> {
    query.union_prefer_right(form_body_params(body_text(body)))
}

/// Reads the parameters of a query request.
pub fn parse_query_params(ctx: &RequestContext) -> (r: StrMap<String>)
    requires
        ctx.wf(),
    ensures
        r.wf(),
        r@ == query_params_spec(ctx.raw_body@, ctx.query_params@),
{
    let mut params: StrMap<String> = StrMap::new();
    let body = body_text_exec(ctx.raw_body.as_slice());
    crate::http::parse_form_into(&mut params, body.as_str());
    proof {
        assert(Map::<Seq<char>, Seq<char>>::empty().union_prefer_right(form_body_params(body@)) =~= form_body_params(
            body@,
        ));
    }
    absorb_missing(&mut params, &ctx.query_params);
    params
}

// ---------------------------------------------------------------------------
// Message attributes
// ---------------------------------------------------------------------------

/// The message attributes read from `{prefix}.{i}.Name`,
/// `{prefix}.{i}.Value.DataType` and `{prefix}.{i}.Value.StringValue` for
/// `i` from `i` upwards while the name is present, at most `fuel` of them,
/// later names winning.  A missing data type reads as empty.
pub open spec fn attributes_from(params: Map<Seq<char>, Seq<char>>, prefix: Seq<char>, i: nat, fuel: nat) -> Map<
    Seq<char>,
    MessageAttributeValueView,
>
    decreases fuel,
{
    if fuel == 0 {
        Map::empty()
    } else {
        let nk = indexed_key(prefix, i, ".Name"@);
        let tk = indexed_key(prefix, i, ".Value.DataType"@);
        let sk = indexed_key(prefix, i, ".Value.StringValue"@);
        if params.contains_key(nk) {
            let a = MessageAttributeValueView {
                data_type: if params.contains_key(tk) {
                    params[tk]
                } else {
                    Seq::empty()
                },
                string_value: if params.contains_key(sk) {
                    Some(params[sk])
                } else {
                    None
                },
                binary_value: None,
            };
            Map::empty().insert(params[nk], a).union_prefer_right(
                attributes_from(params, prefix, i + 1, (fuel - 1) as nat),
            )
        } else {
            Map::empty()
        }
    }
}

/// The message attributes of a request under `prefix`, counting from 1
/// (each one reads a parameter of its own, so there are never more than
/// there are parameters).
pub open spec fn attributes_spec(params: Map<Seq<char>, Seq<char>>, prefix: Seq<char>) -> Map<
    Seq<char>,
    MessageAttributeValueView,
> {
    attributes_from(params, prefix, 1, params.dom().len())
}

/// One attribute as its three parts.
pub struct AttributeParts {
    pub name: String,
    pub data_type: String,
    pub string_value: Option<String>,
}

/// The message attributes under `prefix`, in the order they were numbered,
/// as name, data type and string value.
pub fn message_attribute_parts(params: &StrMap<String>, prefix: &str) -> (r: Vec<AttributeParts>)
    requires
        params.wf(),
    ensures
        parts_map(r@) == attributes_spec(params@, prefix@),
{
    let n = params.len();
    let mut result: Vec<AttributeParts> = Vec::new();
    let mut left: usize = n;
    let mut i: u64 = 1;
    proof {
        assert(parts_map(result@) =~= Map::empty());
        assert(parts_map(result@).union_prefer_right(attributes_from(params@, prefix@, 1, n as nat)) =~= attributes_from(
            params@,
            prefix@,
            1,
            n as nat,
        ));
    }
    while left > 0
        invariant
            n == params@.dom().len(),
            params.wf(),
            left <= n,
            left > 0 ==> i == n - left + 1,
            parts_map(result@).union_prefer_right(attributes_from(params@, prefix@, i as nat, left as nat))
                == attributes_spec(params@, prefix@),
        decreases left,
    {
        let nk = indexed_key_exec(prefix, i, ".Name");
        let tk = indexed_key_exec(prefix, i, ".Value.DataType");
        let sk = indexed_key_exec(prefix, i, ".Value.StringValue");
        match params.get(nk.as_str()) {
            Some(name) => {
                let data_type = match params.get(tk.as_str()) {
                    Some(t) => t.clone(),
                    None => String::new(),
                };
                let string_value = match params.get(sk.as_str()) {
                    Some(v) => Some(v.clone()),
                    None => None,
                };
                let ghost before = result@;
                let ghost rest = attributes_from(params@, prefix@, (i + 1) as nat, (left - 1) as nat);
                let part = AttributeParts { name: name.clone(), data_type, string_value };
                let ghost pv = part_view(part);
                result.push(part);
                proof {
                    assert(result@.drop_last() =~= before);
                    assert(parts_map(result@) == parts_map(before).insert(pv.0, pv.1));
                    assert(parts_map(result@).union_prefer_right(rest) =~= parts_map(before).union_prefer_right(
                        Map::empty().insert(pv.0, pv.1).union_prefer_right(rest),
                    ));
                }
                left = left - 1;
                if left > 0 {
                    i = i + 1;
                } else {
                    proof {
                        assert(parts_map(result@).union_prefer_right(Map::empty()) =~= parts_map(result@));
                    }
                    return result;
                }
            },
            None => {
                proof {
                    assert(parts_map(result@).union_prefer_right(Map::empty()) =~= parts_map(result@));
                }
                return result;
            },
        }
    }
    proof {
        assert(parts_map(result@).union_prefer_right(Map::empty()) =~= parts_map(result@));
    }
    result
}

pub open spec fn part_view(p: AttributeParts) -> (Seq<char>, MessageAttributeValueView) {
    (
        p.name@,
        MessageAttributeValueView {
            data_type: p.data_type@,
            string_value: crate::text::opt_view(p.string_value),
            binary_value: None,
        },
    )
}

/// Attribute parts as a map, later names winning.
pub open spec fn parts_map(ps: Seq<AttributeParts>) -> Map<Seq<char>, MessageAttributeValueView>
    decreases ps.len(),
{
    if ps.len() == 0 {
        Map::empty()
    } else {
        parts_map(ps.drop_last()).insert(part_view(ps.last()).0, part_view(ps.last()).1)
    }
}

// ---------------------------------------------------------------------------
// XML responses
// ---------------------------------------------------------------------------

/// `<?xml version="1.0" encoding="UTF-8"?>`
pub open spec fn xml_decl() -> Seq<char> {
    "<?xml version=\"1.0\" encoding=\"UTF-8\"?>"@
}

/// The body of a successful response with a result element.
pub open spec fn xml_wrap_body(ns: Seq<char>, action: Seq<char>, request_id: Seq<char>, inner: Seq<char>) -> Seq<char> {
    xml_decl() + "<"@ + action + "Response xmlns=\""@ + ns + "\"><"@ + action + "Result>"@ + inner + "</"@ + action
        + "Result><ResponseMetadata><RequestId>"@ + request_id + "</RequestId></ResponseMetadata></"@ + action
        + "Response>"@
}

/// The body of a successful response without a result element.
pub open spec fn xml_no_result_body(ns: Seq<char>, action: Seq<char>, request_id: Seq<char>) -> Seq<char> {
    xml_decl() + "<"@ + action + "Response xmlns=\""@ + ns
        + "\"><ResponseMetadata><RequestId>"@ + request_id + "</RequestId></ResponseMetadata></"@ + action
        + "Response>"@
}

/// The body of an error response (the code and message are written as
/// they are).
pub open spec fn xml_error_body(ns: Seq<char>, code: Seq<char>, message: Seq<char>) -> Seq<char> {
    xml_decl() + "<ErrorResponse xmlns=\""@ + ns + "\"><Error><Type>Sender</Type><Code>"@ + code + "</Code><Message>"@
        + message + "</Message></Error></ErrorResponse>"@
}

/// A 200 `text/xml` response wrapping `inner` in `{action}Result`.
pub fn xml_wrap(ns: &str, action: &str, request_id: &str, inner: &str) -> (r: DispatchResponse)
    ensures
        r@ == plain_response(200, xml_wrap_body(ns@, action@, request_id@, inner@), "text/xml"@),
{
    let mut b = String::new();
    push_str(&mut b, "<?xml version=\"1.0\" encoding=\"UTF-8\"?>");
    push_str(&mut b, "<");
    push_str(&mut b, action);
    push_str(&mut b, "Response xmlns=\"");
    push_str(&mut b, ns);
    push_str(&mut b, "\"><");
    push_str(&mut b, action);
    push_str(&mut b, "Result>");
    push_str(&mut b, inner);
    push_str(&mut b, "</");
    push_str(&mut b, action);
    push_str(&mut b, "Result><ResponseMetadata><RequestId>");
    push_str(&mut b, request_id);
    push_str(&mut b, "</RequestId></ResponseMetadata></");
    push_str(&mut b, action);
    push_str(&mut b, "Response>");
    proof {
        assert(b@ =~= xml_wrap_body(ns@, action@, request_id@, inner@));
    }
    plain(200, b, "text/xml")
}

/// A 200 `text/xml` response with only the response metadata.
pub fn xml_no_result(ns: &str, action: &str, request_id: &str) -> (r: DispatchResponse)
    ensures
        r@ == plain_response(200, xml_no_result_body(ns@, action@, request_id@), "text/xml"@),
{
    let mut b = String::new();
    push_str(&mut b, "<?xml version=\"1.0\" encoding=\"UTF-8\"?>");
    push_str(&mut b, "<");
    push_str(&mut b, action);
    push_str(&mut b, "Response xmlns=\"");
    push_str(&mut b, ns);
    push_str(&mut b, "\"><ResponseMetadata><RequestId>");
    push_str(&mut b, request_id);
    push_str(&mut b, "</RequestId></ResponseMetadata></");
    push_str(&mut b, action);
    push_str(&mut b, "Response>");
    proof {
        assert(b@ =~= xml_no_result_body(ns@, action@, request_id@));
    }
    plain(200, b, "text/xml")
}

/// A `text/xml` error response with the given status.
pub fn xml_error(ns: &str, code: &str, message: &str, status: u16) -> (r: DispatchResponse)
    ensures
        r@ == plain_response(status, xml_error_body(ns@, code@, message@), "text/xml"@),
{
    let mut b = String::new();
    push_str(&mut b, "<?xml version=\"1.0\" encoding=\"UTF-8\"?>");
    push_str(&mut b, "<ErrorResponse xmlns=\"");
    push_str(&mut b, ns);
    push_str(&mut b, "\"><Error><Type>Sender</Type><Code>");
    push_str(&mut b, code);
    push_str(&mut b, "</Code><Message>");
    push_str(&mut b, message);
    push_str(&mut b, "</Message></Error></ErrorResponse>");
    proof {
        assert(b@ =~= xml_error_body(ns@, code@, message@));
    }
    plain(status, b, "text/xml")
}

/// `<tag>` + escaped `text` + `</tag>`.
pub open spec fn element(tag: Seq<char>, text: Seq<char>) -> Seq<char> {
    "<"@ + tag + ">"@ + escape_xml_spec(text) + "</"@ + tag + ">"@
}

/// Appends `<tag>` + escaped `text` + `</tag>` to `out`.
pub fn push_element(out: &mut String, tag: &str, text: &str)
    ensures
        final(out)@ == old(out)@ + element(tag@, text@),
{
    push_str(out, "<");
    push_str(out, tag);
    push_str(out, ">");
    push_escaped(out, text);
    push_str(out, "</");
    push_str(out, tag);
    push_str(out, ">");
    proof {
        assert(out@ =~= old(out)@ + element(tag@, text@));
    }
}

// ---------------------------------------------------------------------------
// Indexed parameters
// ---------------------------------------------------------------------------

/// The values of `{prefix}.{i}{suffix}` for `i` from `i` upwards while
/// present, at most `fuel` of them.
pub open spec fn indexed_values_from(params: Map<Seq<char>, Seq<char>>, prefix: Seq<char>, suffix: Seq<char>, i: nat, fuel: nat) -> Seq<
    Seq<char>,
>
    decreases fuel,
{
    if fuel == 0 {
        Seq::empty()
    } else {
        let k = indexed_key(prefix, i, suffix);
        if params.contains_key(k) {
            seq![params[k]] + indexed_values_from(params, prefix, suffix, i + 1, (fuel - 1) as nat)
        } else {
            Seq::empty()
        }
    }
}

/// The values of `{prefix}.1{suffix}`, `{prefix}.2{suffix}`, ... while
/// present.
pub open spec fn indexed_values(params: Map<Seq<char>, Seq<char>>, prefix: Seq<char>, suffix: Seq<char>) -> Seq<Seq<char>> {
    indexed_values_from(params, prefix, suffix, 1, params.dom().len())
}

/// Reads the values of `{prefix}.1{suffix}`, `{prefix}.2{suffix}`, ...
pub fn indexed_values_exec(params: &StrMap<String>, prefix: &str, suffix: &str) -> (r: Vec<String>)
    requires
        params.wf(),
    ensures
        crate::text::string_views(r@) == indexed_values(params@, prefix@, suffix@),
{
    let n = params.len();
    let mut result: Vec<String> = Vec::new();
    let mut left: usize = n;
    let mut i: u64 = 1;
    proof {
        assert(crate::text::string_views(result@) + indexed_values_from(params@, prefix@, suffix@, 1, n as nat) =~= indexed_values(
            params@,
            prefix@,
            suffix@,
        ));
    }
    while left > 0
        invariant
            n == params@.dom().len(),
            params.wf(),
            left <= n,
            left > 0 ==> i == n - left + 1,
            crate::text::string_views(result@) + indexed_values_from(params@, prefix@, suffix@, i as nat, left as nat)
                == indexed_values(params@, prefix@, suffix@),
        decreases left,
    {
        let k = indexed_key_exec(prefix, i, suffix);
        match params.get(k.as_str()) {
            Some(v) => {
                let ghost before = result@;
                result.push(v.clone());
                proof {
                    assert(crate::text::string_views(result@) =~= crate::text::string_views(before).push(v@));
                    assert(crate::text::string_views(result@) + indexed_values_from(params@, prefix@, suffix@, (i + 1) as nat, (left - 1) as nat)
                        =~= crate::text::string_views(before) + indexed_values_from(params@, prefix@, suffix@, i as nat, left as nat));
                }
                left = left - 1;
                if left > 0 {
                    i = i + 1;
                } else {
                    proof {
                        assert(crate::text::string_views(result@) + Seq::<Seq<char>>::empty() =~= crate::text::string_views(result@));
                    }
                    return result;
                }
            },
            None => {
                proof {
                    assert(crate::text::string_views(result@) + Seq::<Seq<char>>::empty() =~= crate::text::string_views(result@));
                }
                return result;
            },
        }
    }
    proof {
        assert(crate::text::string_views(result@) + Seq::<Seq<char>>::empty() =~= crate::text::string_views(result@));
    }
    result
}

/// The entries `{prefix}.{i}{s1}` / `{prefix}.{i}{s2}` for `i` from `i`
/// upwards while both are present, at most `fuel` of them, each with its
/// index.
pub open spec fn indexed_pairs_from(
    params: Map<Seq<char>, Seq<char>>,
    prefix: Seq<char>,
    s1: Seq<char>,
    s2: Seq<char>,
    i: nat,
    fuel: nat,
) -> Seq<(nat, Seq<char>, Seq<char>)>
    decreases fuel,
{
    if fuel == 0 {
        Seq::empty()
    } else {
        let k1 = indexed_key(prefix, i, s1);
        let k2 = indexed_key(prefix, i, s2);
        if params.contains_key(k1) && params.contains_key(k2) {
            seq![(i, params[k1], params[k2])] + indexed_pairs_from(params, prefix, s1, s2, i + 1, (fuel - 1) as nat)
        } else {
            Seq::empty()
        }
    }
}

/// The entries `{prefix}.1{s1}` / `{prefix}.1{s2}`, ... while both are
/// present, each with its index.
pub open spec fn indexed_pairs(params: Map<Seq<char>, Seq<char>>, prefix: Seq<char>, s1: Seq<char>, s2: Seq<char>) -> Seq<
    (nat, Seq<char>, Seq<char>),
> {
    indexed_pairs_from(params, prefix, s1, s2, 1, params.dom().len())
}

pub open spec fn pair_views(v: Seq<(u64, String, String)>) -> Seq<(nat, Seq<char>, Seq<char>)> {
    v.map_values(|e: (u64, String, String)| (e.0 as nat, e.1@, e.2@))
}

/// Reads the indexed entries with both `s1` and `s2` present.
pub fn indexed_pairs_exec(params: &StrMap<String>, prefix: &str, s1: &str, s2: &str) -> (r: Vec<(u64, String, String)>)
    requires
        params.wf(),
    ensures
        pair_views(r@) == indexed_pairs(params@, prefix@, s1@, s2@),
{
    let n = params.len();
    let mut result: Vec<(u64, String, String)> = Vec::new();
    let mut left: usize = n;
    let mut i: u64 = 1;
    proof {
        assert(pair_views(result@) + indexed_pairs_from(params@, prefix@, s1@, s2@, 1, n as nat) =~= indexed_pairs(
            params@,
            prefix@,
            s1@,
            s2@,
        ));
    }
    while left > 0
        invariant
            n == params@.dom().len(),
            params.wf(),
            left <= n,
            left > 0 ==> i == n - left + 1,
            pair_views(result@) + indexed_pairs_from(params@, prefix@, s1@, s2@, i as nat, left as nat)
                == indexed_pairs(params@, prefix@, s1@, s2@),
        decreases left,
    {
        let k1 = indexed_key_exec(prefix, i, s1);
        let k2 = indexed_key_exec(prefix, i, s2);
        match (params.get(k1.as_str()), params.get(k2.as_str())) {
            (Some(a), Some(b)) => {
                let ghost before = result@;
                result.push((i, a.clone(), b.clone()));
                proof {
                    assert(pair_views(result@) =~= pair_views(before).push((i as nat, a@, b@)));
                    assert(pair_views(result@) + indexed_pairs_from(params@, prefix@, s1@, s2@, (i + 1) as nat, (left - 1) as nat)
                        =~= pair_views(before) + indexed_pairs_from(params@, prefix@, s1@, s2@, i as nat, left as nat));
                }
                left = left - 1;
                if left > 0 {
                    i = i + 1;
                } else {
                    proof {
                        assert(pair_views(result@) + Seq::<(nat, Seq<char>, Seq<char>)>::empty() =~= pair_views(result@));
                    }
                    return result;
                }
            },
            _ => {
                proof {
                    assert(pair_views(result@) + Seq::<(nat, Seq<char>, Seq<char>)>::empty() =~= pair_views(result@));
                }
                return result;
            },
        }
    }
    proof {
        assert(pair_views(result@) + Seq::<(nat, Seq<char>, Seq<char>)>::empty() =~= pair_views(result@));
    }
    result
}

} // verus!
