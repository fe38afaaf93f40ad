//! The SQS request layer: reading parameters, addressing queues by URL,
//! and the response documents of each operation.
use vstd::prelude::*;

use crate::http::{DispatchError, extract_indexed_kv, indexed_kv_spec, plain_response, DispatchResponse, RequestContext, ResponseView};
use crate::query::{
    attributes_spec, element, message_attribute_parts, parts_map, part_view, push_element, xml_error,
    xml_error_body, xml_no_result, xml_no_result_body, xml_wrap, xml_wrap_body, AttributeParts,
};
use crate::query::{indexed_pairs, indexed_pairs_exec, indexed_values, indexed_values_exec, pair_views};
use crate::sqs::{SqsMessage, SqsMessageView, admitted_spec, by_receive_count, is_duplicate, receive_outcome, sent_message_spec, views,
    attributes_applied, last_segment, last_segment_exec, new_queue_spec, redrive_of, visibility_changed,
    with_name_prefix, without_handle, MessageAttributeValue, MessageAttributeValueView, SqsQueueView,
    SqsStore,
};
use crate::strmap::StrMap;
use crate::deps::{json_object_fields, json_object_fields_spec, JsonField, JsonFieldView};
use crate::json::{json_string, push_json_string};
use crate::text::{seconds_of, seconds_of_exec,
    bool_spec, chars_of, decimal_spec, escape_xml_spec, find_chars, find_spec, opt_view, push_bool, push_chars,
    push_decimal, push_escaped, push_i64, push_str, signed_decimal_spec, slice_chars, string_of, string_views,
};

verus! {

/// The XML namespace of SQS responses.
pub open spec fn sqs_ns() -> Seq<char> {
    "http://queue.amazonaws.com/doc/2012-11-05/"@
}

// ---------------------------------------------------------------------------
// Queue URLs
// ---------------------------------------------------------------------------

/// The name of the queue a URL addresses: its last `/`-separated segment.
pub fn queue_name_from_url(url: &str) -> (r: String)
    ensures
        r@ == last_segment(url@),
{
    last_segment_exec(url)
}

/// `s` without trailing `/` characters.
pub open spec fn trim_end_slashes(s: Seq<char>) -> Seq<char>
    decreases s.len(),
{
    if s.len() > 0 && s.last() == '/' {
        trim_end_slashes(s.drop_last())
    } else {
        s
    }
}

fn trim_end_slashes_exec(s: &[char]) -> (r: Vec<char>)
    ensures
        r@ == trim_end_slashes(s@),
{
    let mut j: usize = s.len();
    proof {
        assert(s@.subrange(0, s@.len() as int) =~= s@);
    }
    while j > 0 && s[j - 1] == '/'
        invariant
            j <= s@.len(),
            trim_end_slashes(s@) == trim_end_slashes(s@.subrange(0, j as int)),
        decreases j,
    {
        proof {
            assert(s@.subrange(0, j as int).drop_last() =~= s@.subrange(0, j - 1));
        }
        j = j - 1;
    }
    slice_chars(s, 0, j)
}

/// A queue URL moved onto `endpoint`: from the account path
/// `/000000000000/` on when it has one, else from the first `/` after the
/// scheme; unchanged when it has neither.
pub open spec fn normalize_queue_url_spec(url: Seq<char>, endpoint: Seq<char>) -> Seq<char> {
    match find_spec(url, "/000000000000/"@) {
        Some(p) => trim_end_slashes(endpoint) + url.subrange(p, url.len() as int),
        None => match find_spec(url, "://"@) {
            Some(sp) => {
                let rest = url.subrange(sp + "://"@.len(), url.len() as int);
                match find_spec(rest, seq!['/']) {
                    Some(fs) => trim_end_slashes(endpoint) + rest.subrange(fs, rest.len() as int),
                    None => url,
                }
            },
            None => url,
        },
    }
}

/// Moves a queue URL onto `endpoint` (see `normalize_queue_url_spec`).
pub fn normalize_queue_url_for_endpoint(url: &str, endpoint: &str) -> (r: String)
    ensures
        r@ == normalize_queue_url_spec(url@, endpoint@),
{
    let u = chars_of(url);
    let e = chars_of(endpoint);
    let acct = chars_of("/000000000000/");
    let scheme = chars_of("://");
    let slash = vec!['/'];
    proof {
        assert(slash@ =~= seq!['/']);
        crate::text::lemma_find_from(u@, acct@, 0);
        crate::text::lemma_find_from(u@, scheme@, 0);
    }
    let ul = u.len();
    match find_chars(u.as_slice(), acct.as_slice()) {
        Some(p) => {
            let mut r = string_of(trim_end_slashes_exec(e.as_slice()).as_slice());
            let tail = slice_chars(u.as_slice(), p, ul);
            push_chars(&mut r, tail.as_slice());
            return r;
        },
        None => {},
    }
    match find_chars(u.as_slice(), scheme.as_slice()) {
        Some(sp) => {
            let sl = scheme.len();
            proof {
                assert(sp + sl <= ul);
            }
            let rest = slice_chars(u.as_slice(), sp + sl, ul);
            proof {
                crate::text::lemma_find_from(rest@, slash@, 0);
            }
            match find_chars(rest.as_slice(), slash.as_slice()) {
                Some(fs) => {
                    let mut r = string_of(trim_end_slashes_exec(e.as_slice()).as_slice());
                    let tail = slice_chars(rest.as_slice(), fs, rest.len());
                    push_chars(&mut r, tail.as_slice());
                    r
                },
                None => url.to_string(),
            }
        },
        None => url.to_string(),
    }
}

/// The base of the URLs of new queues: a regional host name when the
/// request names a host (the region from `x-amz-region`, else the
/// request's), a local one otherwise.
pub open spec fn base_queue_url_spec(headers: Map<Seq<char>, Seq<char>>, region: Seq<char>) -> Seq<char> {
    if headers.contains_key("host"@) {
        let r = if headers.contains_key("x-amz-region"@) {
            headers["x-amz-region"@]
        } else {
            region
        };
        "http://sqs."@ + r + ".localhost.localstack.cloud:4566"@
    } else {
        "http://localhost:4566"@
    }
}

/// The base of the URLs of new queues for this request.
pub fn base_queue_url(ctx: &RequestContext) -> (r: String)
    requires
        ctx.wf(),
    ensures
        r@ == base_queue_url_spec(ctx.headers@, ctx.region@),
{
    if ctx.headers.contains_key("host") {
        let region: &str = match ctx.headers.get("x-amz-region") {
            Some(r) => r.as_str(),
            None => ctx.region.as_str(),
        };
        let mut r = String::new();
        push_str(&mut r, "http://sqs.");
        push_str(&mut r, region);
        push_str(&mut r, ".localhost.localstack.cloud:4566");
        proof {
            assert(r@ =~= base_queue_url_spec(ctx.headers@, ctx.region@));
        }
        r
    } else {
        "http://localhost:4566".to_string()
    }
}

/// The scheme and host a request came in on, when it names a host:
/// `https` when `x-forwarded-proto` says so, `http` otherwise.
pub open spec fn request_endpoint(headers: Map<Seq<char>, Seq<char>>) -> Option<Seq<char>> {
    if headers.contains_key("host"@) {
        let scheme = if headers.contains_key("x-forwarded-proto"@) && headers["x-forwarded-proto"@] == "https"@ {
            "https"@
        } else {
            "http"@
        };
        Some(scheme + "://"@ + headers["host"@])
    } else {
        None
    }
}

/// Parameters whose `QueueUrl` is moved onto the endpoint the request
/// came in on, when it names a host.
pub open spec fn transport_compat_spec(headers: Map<Seq<char>, Seq<char>>, params: Map<Seq<char>, Seq<char>>) -> Map<
    Seq<char>,
    Seq<char>,
> {
    match request_endpoint(headers) {
        Some(e) => if params.contains_key("QueueUrl"@) {
            params.insert("QueueUrl"@, normalize_queue_url_spec(params["QueueUrl"@], e))
        } else {
            params
        },
        None => params,
    }
}

/// Moves the `QueueUrl` parameter onto the endpoint the request came in
/// on: clients are handed host-name URLs but address the endpoint they
/// were configured with.
pub fn apply_transport_compat(ctx: &RequestContext, params: &mut StrMap<String>)
    requires
        ctx.wf(),
        old(params).wf(),
    ensures
        final(params).wf(),
        final(params)@ == transport_compat_spec(ctx.headers@, old(params)@),
{
    let host = match ctx.headers.get("host") {
        Some(h) => h,
        None => {
            return;
        },
    };
    let https = match ctx.headers.get("x-forwarded-proto") {
        Some(v) => v.as_str().eq("https"),
        None => false,
    };
    let mut endpoint = String::new();
    if https {
        push_str(&mut endpoint, "https");
    } else {
        push_str(&mut endpoint, "http");
    }
    push_str(&mut endpoint, "://");
    push_str(&mut endpoint, host.as_str());
    proof {
        assert(endpoint@ =~= request_endpoint(ctx.headers@)->0);
    }
    let normalized = match params.get("QueueUrl") {
        Some(u) => normalize_queue_url_for_endpoint(u.as_str(), endpoint.as_str()),
        None => {
            return;
        },
    };
    params.insert("QueueUrl".to_string(), normalized);
}

// ---------------------------------------------------------------------------
// Message attributes
// ---------------------------------------------------------------------------

/// The message attributes of a send: `MessageAttribute.{i}.Name`,
/// `.Value.DataType` and `.Value.StringValue` for `i` from 1 while the
/// name is present.
pub fn extract_message_attributes(params: &StrMap<String>) -> (r: StrMap<MessageAttributeValue>)
    requires
        params.wf(),
    ensures
        r.wf(),
        r@ == attributes_spec(params@, "MessageAttribute"@),
{
    let parts = message_attribute_parts(params, "MessageAttribute");
    let ghost ps = parts@;
    let mut r: StrMap<MessageAttributeValue> = StrMap::new();
    let mut parts = parts;
    let mut i: usize = 0;
    proof {
        assert(ps.take(0) =~= Seq::<AttributeParts>::empty());
        assert(r@ =~= parts_map(ps.take(0)));
    }
    while i < parts.len()
        invariant
            i <= ps.len(),
            parts@ == ps,
            r.wf(),
            r@ == parts_map(ps.take(i as int)),
        decreases ps.len() - i,
    {
        let p = &parts[i];
        let v = MessageAttributeValue {
            data_type: p.data_type.clone(),
            string_value: crate::text::copy_opt(&p.string_value),
            binary_value: None,
        };
        r.insert(p.name.clone(), v);
        proof {
            assert(ps.take(i + 1).drop_last() =~= ps.take(i as int));
            assert(ps.take(i + 1).last() == ps[i as int]);
        }
        i = i + 1;
    }
    proof {
        assert(ps.take(ps.len() as int) =~= ps);
    }
    r
}

// ---------------------------------------------------------------------------
// Responses
// ---------------------------------------------------------------------------

/// A successful response with a result element.
pub open spec fn ok_xml(action: Seq<char>, rid: Seq<char>, inner: Seq<char>) -> ResponseView {
    plain_response(200, xml_wrap_body(sqs_ns(), action, rid, inner), "text/xml"@)
}

/// A successful response without a result element.
pub open spec fn ok_empty(action: Seq<char>, rid: Seq<char>) -> ResponseView {
    plain_response(200, xml_no_result_body(sqs_ns(), action, rid), "text/xml"@)
}

/// A 400 error response.
pub open spec fn sqs_error_spec(code: Seq<char>, message: Seq<char>) -> ResponseView {
    plain_response(400, xml_error_body(sqs_ns(), code, message), "text/xml"@)
}

/// The error for a queue that does not exist.
pub open spec fn no_such_queue() -> ResponseView {
    sqs_error_spec("AWS.SimpleQueueService.NonExistentQueue"@, "Queue does not exist"@)
}

fn ok(action: &str, rid: &str, inner: &str) -> (r: DispatchResponse)
    ensures
        r@ == ok_xml(action@, rid@, inner@),
{
    xml_wrap("http://queue.amazonaws.com/doc/2012-11-05/", action, rid, inner)
}

fn ok_no_result(action: &str, rid: &str) -> (r: DispatchResponse)
    ensures
        r@ == ok_empty(action@, rid@),
{
    xml_no_result("http://queue.amazonaws.com/doc/2012-11-05/", action, rid)
}

fn sqs_error(code: &str, message: &str) -> (r: DispatchResponse)
    ensures
        r@ == sqs_error_spec(code@, message@),
{
    xml_error("http://queue.amazonaws.com/doc/2012-11-05/", code, message, 400)
}

fn queue_missing() -> (r: DispatchResponse)
    ensures
        r@ == no_such_queue(),
{
    sqs_error("AWS.SimpleQueueService.NonExistentQueue", "Queue does not exist")
}

/// The queue a parameter map addresses by its `QueueUrl`.
pub open spec fn addressed_queue(params: Map<Seq<char>, Seq<char>>) -> Seq<char> {
    last_segment(params["QueueUrl"@])
}

// ---------------------------------------------------------------------------
// Queue operations
// ---------------------------------------------------------------------------

/// What `handle_create_queue` does: its store change and its response.
pub open spec fn create_queue_outcome(s0: SqsStore, s1: SqsStore, ctx: RequestContext, params: Map<Seq<char>, Seq<char>>, rid: Seq<char>, r: ResponseView) -> bool {
    &&& (!params.contains_key("QueueName"@) ==> r == sqs_error_spec("MissingParameter"@, "QueueName is required"@)
        && s1.queues@ == s0.queues@)
    &&& (params.contains_key("QueueName"@) ==> {
        let name = params["QueueName"@];
        &&& s1.queues@.contains_key(name)
        &&& s0.queues@.contains_key(name) ==> s1.queues@ == s0.queues@
        &&& !s0.queues@.contains_key(name) ==> exists|t1: i64, t2: i64|
            s1.queues@ == s0.queues@.insert(
                name,
                #[trigger] attributes_applied(
                    new_queue_spec(name, base_queue_url_spec(ctx.headers@, ctx.region@), ctx.account_id@, ctx.region@, t1),
                    indexed_kv_spec(params, "Attribute"@),
                    t2,
                    redrive_of(indexed_kv_spec(params, "Attribute"@)),
                ),
            )
        &&& r == ok_xml("CreateQueue"@, rid, element("QueueUrl"@, s1.queues@[name].url))
    })
}

/// CreateQueue: creates the queue named by `QueueName` (unless it exists)
/// with the `Attribute.{i}` attributes, and answers with its URL.
pub fn handle_create_queue(store: &mut SqsStore, ctx: &RequestContext, params: &StrMap<String>, rid: &str) -> (r: DispatchResponse)
    requires
        old(store).wf(),
        ctx.wf(),
        params.wf(),
    ensures
        final(store).wf(),
        create_queue_outcome(*old(store), *final(store), *ctx, params@, rid@, r@),
{
    let name = match params.get("QueueName") {
        Some(n) => n.clone(),
        None => {
            return sqs_error("MissingParameter", "QueueName is required");
        },
    };
    let attributes = extract_indexed_kv(params, "Attribute");
    let base = base_queue_url(ctx);
    let q = store.create_queue(name, base.as_str(), ctx.account_id.as_str(), ctx.region.as_str(), &attributes);
    let mut inner = String::new();
    push_element(&mut inner, "QueueUrl", q.url.as_str());
    proof {
        assert(inner@ =~= element("QueueUrl"@, q@.url));
    }
    ok("CreateQueue", rid, inner.as_str())
}

/// What `handle_delete_queue` does: its store change and its response.
pub open spec fn delete_queue_outcome(s0: SqsStore, s1: SqsStore, params: Map<Seq<char>, Seq<char>>, rid: Seq<char>, r: ResponseView) -> bool {
    &&& (!params.contains_key("QueueUrl"@) ==> r == sqs_error_spec("MissingParameter"@, "QueueUrl is required"@)
        && s1.queues@ == s0.queues@)
    &&& (params.contains_key("QueueUrl"@) ==> s1.queues@ == s0.queues@.remove(addressed_queue(params))
        && if s0.queues@.contains_key(addressed_queue(params)) {
        r == ok_empty("DeleteQueue"@, rid)
    } else {
        r == no_such_queue()
    })
}

/// DeleteQueue: deletes the queue `QueueUrl` addresses.
pub fn handle_delete_queue(store: &mut SqsStore, params: &StrMap<String>, rid: &str) -> (r: DispatchResponse)
    requires
        old(store).wf(),
        params.wf(),
    ensures
        final(store).wf(),
        delete_queue_outcome(*old(store), *final(store), params@, rid@, r@),
{
    let url = match params.get("QueueUrl") {
        Some(u) => u,
        None => {
            return sqs_error("MissingParameter", "QueueUrl is required");
        },
    };
    let name = queue_name_from_url(url.as_str());
    if !store.delete_queue(name.as_str()) {
        return queue_missing();
    }
    ok_no_result("DeleteQueue", rid)
}

/// The `<QueueUrl>` elements of `qs`.
pub open spec fn queue_urls_xml(qs: Seq<SqsQueueView>) -> Seq<char>
    decreases qs.len(),
{
    if qs.len() == 0 {
        Seq::empty()
    } else {
        queue_urls_xml(qs.drop_last()) + element("QueueUrl"@, qs.last().url)
    }
}

/// The value of `key`, or the empty string.
pub open spec fn param_or_empty(params: Map<Seq<char>, Seq<char>>, key: Seq<char>) -> Seq<char> {
    if params.contains_key(key) {
        params[key]
    } else {
        Seq::empty()
    }
}

/// What `handle_list_queues` does: its store change and its response.
pub open spec fn list_queues_outcome(s0: SqsStore, params: Map<Seq<char>, Seq<char>>, rid: Seq<char>, r: ResponseView) -> bool {
    &&& (r == ok_xml(
        "ListQueues"@,
        rid,
        queue_urls_xml(with_name_prefix(s0.queue_seq(), param_or_empty(params, "QueueNamePrefix"@)))
    ))
}

/// ListQueues: the URLs of the queues whose name starts with
/// `QueueNamePrefix`, in the order they were created.
pub fn handle_list_queues(store: &SqsStore, params: &StrMap<String>, rid: &str) -> (r: DispatchResponse)
    requires
        store.wf(),
        params.wf(),
    ensures
        list_queues_outcome(*store, params@, rid@, r@),
{
    let prefix: &str = match params.get("QueueNamePrefix") {
        Some(p) => p.as_str(),
        None => "",
    };
    proof {
        reveal_strlit("");
        assert(prefix@ == param_or_empty(params@, "QueueNamePrefix"@));
    }
    let queues = store.list_queues(prefix);
    let ghost qs = queues@.map_values(|q: &crate::sqs::SqsQueue| q@);
    let mut inner = String::new();
    let mut i: usize = 0;
    proof {
        assert(qs.take(0) =~= Seq::<SqsQueueView>::empty());
    }
    while i < queues.len()
        invariant
            i <= queues@.len(),
            qs == queues@.map_values(|q: &crate::sqs::SqsQueue| q@),
            inner@ == queue_urls_xml(qs.take(i as int)),
        decreases queues@.len() - i,
    {
        push_element(&mut inner, "QueueUrl", queues[i].url.as_str());
        proof {
            assert(qs.take(i + 1).drop_last() =~= qs.take(i as int));
            assert(qs.take(i + 1).last() == queues@[i as int]@);
        }
        i = i + 1;
    }
    proof {
        assert(qs.take(qs.len() as int) =~= qs);
    }
    ok("ListQueues", rid, inner.as_str())
}

/// What `handle_get_queue_url` does: its store change and its response.
pub open spec fn get_queue_url_outcome(s0: SqsStore, params: Map<Seq<char>, Seq<char>>, rid: Seq<char>, r: ResponseView) -> bool {
    &&& (!params.contains_key("QueueName"@) ==> r == sqs_error_spec("MissingParameter"@, "QueueName is required"@))
    &&& (params.contains_key("QueueName"@) ==> if s0.queues@.contains_key(params["QueueName"@]) {
        r == ok_xml("GetQueueUrl"@, rid, element("QueueUrl"@, s0.queues@[params["QueueName"@]].url))
    } else {
        r == no_such_queue()
    })
}

/// GetQueueUrl: the URL of the queue named `QueueName`.
pub fn handle_get_queue_url(store: &SqsStore, params: &StrMap<String>, rid: &str) -> (r: DispatchResponse)
    requires
        store.wf(),
        params.wf(),
    ensures
        get_queue_url_outcome(*store, params@, rid@, r@),
{
    let name = match params.get("QueueName") {
        Some(n) => n,
        None => {
            return sqs_error("MissingParameter", "QueueName is required");
        },
    };
    match store.get_queue_by_name(name.as_str()) {
        None => queue_missing(),
        Some(q) => {
            let mut inner = String::new();
            push_element(&mut inner, "QueueUrl", q.url.as_str());
            proof {
                assert(inner@ =~= element("QueueUrl"@, q@.url));
            }
            ok("GetQueueUrl", rid, inner.as_str())
        },
    }
}

/// What `handle_purge_queue` does: its store change and its response.
pub open spec fn purge_queue_outcome(s0: SqsStore, s1: SqsStore, params: Map<Seq<char>, Seq<char>>, rid: Seq<char>, r: ResponseView) -> bool {
    &&& (!params.contains_key("QueueUrl"@) ==> r == sqs_error_spec("MissingParameter"@, "QueueUrl is required"@)
        && s1.queues@ == s0.queues@)
    &&& (params.contains_key("QueueUrl"@) ==> {
        let name = addressed_queue(params);
        if s0.queues@.contains_key(name) {
            &&& r == ok_empty("PurgeQueue"@, rid)
            &&& s1.queues@ == s0.queues@.insert(
                name,
                SqsQueueView { messages: Seq::empty(), ..s0.queues@[name] },
            )
        } else {
            r == no_such_queue() && s1.queues@ == s0.queues@
        }
    })
}

/// PurgeQueue: removes every message of the queue `QueueUrl` addresses.
pub fn handle_purge_queue(store: &mut SqsStore, params: &StrMap<String>, rid: &str) -> (r: DispatchResponse)
    requires
        old(store).wf(),
        params.wf(),
    ensures
        final(store).wf(),
        purge_queue_outcome(*old(store), *final(store), params@, rid@, r@),
{
    let url = match params.get("QueueUrl") {
        Some(u) => u,
        None => {
            return sqs_error("MissingParameter", "QueueUrl is required");
        },
    };
    let name = queue_name_from_url(url.as_str());
    let ghost s0 = *store;
    let found = match store.get_queue_by_name_mut(name.as_str()) {
        None => false,
        Some(q) => {
            q.purge();
            true
        },
    };
    if !found {
        return queue_missing();
    }
    proof {
        s0.queues.lemma_pos(name@);
        SqsStore::lemma_queue_replaced(&s0, store, name@);
    }
    ok_no_result("PurgeQueue", rid)
}

/// What `handle_set_queue_attributes` does: its store change and its response.
pub open spec fn set_queue_attributes_outcome(s0: SqsStore, s1: SqsStore, params: Map<Seq<char>, Seq<char>>, rid: Seq<char>, r: ResponseView) -> bool {
    &&& (!params.contains_key("QueueUrl"@) ==> r == sqs_error_spec("MissingParameter"@, "QueueUrl is required"@)
        && s1.queues@ == s0.queues@)
    &&& (params.contains_key("QueueUrl"@) ==> {
        let name = addressed_queue(params);
        let attrs = indexed_kv_spec(params, "Attribute"@);
        if s0.queues@.contains_key(name) {
            &&& r == ok_empty("SetQueueAttributes"@, rid)
            &&& exists|t: i64|
                s1.queues@ == s0.queues@.insert(
                    name,
                    #[trigger] attributes_applied(s0.queues@[name], attrs, t, redrive_of(attrs)),
                )
        } else {
            r == no_such_queue() && s1.queues@ == s0.queues@
        }
    })
}

/// SetQueueAttributes: applies the `Attribute.{i}` attributes to the queue
/// `QueueUrl` addresses, now.
pub fn handle_set_queue_attributes(store: &mut SqsStore, params: &StrMap<String>, rid: &str) -> (r: DispatchResponse)
    requires
        old(store).wf(),
        params.wf(),
    ensures
        final(store).wf(),
        set_queue_attributes_outcome(*old(store), *final(store), params@, rid@, r@),
{
    let url = match params.get("QueueUrl") {
        Some(u) => u,
        None => {
            return sqs_error("MissingParameter", "QueueUrl is required");
        },
    };
    let name = queue_name_from_url(url.as_str());
    let attributes = extract_indexed_kv(params, "Attribute");
    let ghost s0 = *store;
    let found = match store.get_queue_by_name_mut(name.as_str()) {
        None => false,
        Some(q) => {
            crate::sqs::apply_queue_attributes(q, &attributes);
            true
        },
    };
    if !found {
        return queue_missing();
    }
    proof {
        s0.queues.lemma_pos(name@);
        SqsStore::lemma_queue_replaced(&s0, store, name@);
    }
    ok_no_result("SetQueueAttributes", rid)
}

/// What `handle_delete_message` does: its store change and its response.
pub open spec fn delete_message_outcome(s0: SqsStore, s1: SqsStore, params: Map<Seq<char>, Seq<char>>, rid: Seq<char>, r: ResponseView) -> bool {
    &&& (!params.contains_key("QueueUrl"@) ==> r == sqs_error_spec("MissingParameter"@, "QueueUrl is required"@)
        && s1.queues@ == s0.queues@)
    &&& (params.contains_key("QueueUrl"@) && !params.contains_key("ReceiptHandle"@) ==> r == sqs_error_spec(
        "MissingParameter"@,
        "ReceiptHandle is required"@
    ) && s1.queues@ == s0.queues@)
    &&& (params.contains_key("QueueUrl"@) && params.contains_key("ReceiptHandle"@) ==> {
        let name = addressed_queue(params);
        &&& r == ok_empty("DeleteMessage"@, rid)
        &&& s0.queues@.contains_key(name) ==> s1.queues@ == s0.queues@.insert(
            name,
            SqsQueueView {
                messages: without_handle(s0.queues@[name].messages, params["ReceiptHandle"@]),
                ..s0.queues@[name]
            },
        )
        &&& !s0.queues@.contains_key(name) ==> s1.queues@ == s0.queues@
    })
}

/// DeleteMessage: deletes the messages with `ReceiptHandle` from the queue
/// `QueueUrl` addresses, if there is one; succeeds either way.
pub fn handle_delete_message(store: &mut SqsStore, params: &StrMap<String>, rid: &str) -> (r: DispatchResponse)
    requires
        old(store).wf(),
        params.wf(),
    ensures
        final(store).wf(),
        delete_message_outcome(*old(store), *final(store), params@, rid@, r@),
{
    let url = match params.get("QueueUrl") {
        Some(u) => u,
        None => {
            return sqs_error("MissingParameter", "QueueUrl is required");
        },
    };
    let rh = match params.get("ReceiptHandle") {
        Some(r) => r,
        None => {
            return sqs_error("MissingParameter", "ReceiptHandle is required");
        },
    };
    let name = queue_name_from_url(url.as_str());
    let ghost s0 = *store;
    let found = match store.get_queue_by_name_mut(name.as_str()) {
        Some(q) => {
            q.delete_message(rh.as_str());
            true
        },
        None => false,
    };
    proof {
        if found {
            s0.queues.lemma_pos(name@);
        SqsStore::lemma_queue_replaced(&s0, store, name@);
        }
    }
    ok_no_result("DeleteMessage", rid)
}

/// The visibility timeout a request asks for: `VisibilityTimeout` read as
/// a `u32`, or 30 when absent or unreadable.
pub open spec fn requested_timeout(params: Map<Seq<char>, Seq<char>>, key: Seq<char>) -> u32 {
    if params.contains_key(key) {
        match crate::text::parse_unsigned_spec(params[key], u32::MAX as nat) {
            Some(n) => n as u32,
            None => 30,
        }
    } else {
        30
    }
}

fn requested_timeout_exec(params: &StrMap<String>, key: &str) -> (r: u32)
    requires
        params.wf(),
    ensures
        r == requested_timeout(params@, key@),
{
    match params.get(key) {
        Some(v) => {
            let c = chars_of(v.as_str());
            match crate::text::parse_u32(c.as_slice()) {
                Some(n) => n,
                None => 30,
            }
        },
        None => 30,
    }
}

/// What `handle_change_message_visibility` does: its store change and its response.
pub open spec fn change_message_visibility_outcome(s0: SqsStore, s1: SqsStore, params: Map<Seq<char>, Seq<char>>, rid: Seq<char>, r: ResponseView) -> bool {
    &&& (!params.contains_key("QueueUrl"@) ==> r == sqs_error_spec("MissingParameter"@, "QueueUrl is required"@)
        && s1.queues@ == s0.queues@)
    &&& (params.contains_key("QueueUrl"@) && !params.contains_key("ReceiptHandle"@) ==> r == sqs_error_spec(
        "MissingParameter"@,
        "ReceiptHandle is required"@
    ) && s1.queues@ == s0.queues@)
    &&& (params.contains_key("QueueUrl"@) && params.contains_key("ReceiptHandle"@) ==> {
        let name = addressed_queue(params);
        &&& r == ok_empty("ChangeMessageVisibility"@, rid)
        &&& s0.queues@.contains_key(name) ==> exists|now: i64, found: bool|
            s1.queues@.contains_key(name) && s1.queues@ == s0.queues@.insert(
                name,
                s1.queues@[name],
            ) && #[trigger] visibility_changed(
                s0.queues@[name],
                s1.queues@[name],
                params["ReceiptHandle"@],
                requested_timeout(params, "VisibilityTimeout"@),
                now,
                found,
            )
        &&& !s0.queues@.contains_key(name) ==> s1.queues@ == s0.queues@
    })
}

/// ChangeMessageVisibility: sets the visibility of the message with
/// `ReceiptHandle` in the queue `QueueUrl` addresses (when there is one) to
/// end `VisibilityTimeout` seconds (30 by default) from now.
pub fn handle_change_message_visibility(store: &mut SqsStore, params: &StrMap<String>, rid: &str) -> (r: DispatchResponse)
    requires
        old(store).wf(),
        params.wf(),
    ensures
        final(store).wf(),
        change_message_visibility_outcome(*old(store), *final(store), params@, rid@, r@),
{
    let url = match params.get("QueueUrl") {
        Some(u) => u,
        None => {
            return sqs_error("MissingParameter", "QueueUrl is required");
        },
    };
    let rh = match params.get("ReceiptHandle") {
        Some(r) => r,
        None => {
            return sqs_error("MissingParameter", "ReceiptHandle is required");
        },
    };
    let vt = requested_timeout_exec(params, "VisibilityTimeout");
    let name = queue_name_from_url(url.as_str());
    let ghost s0 = *store;
    let ghost mut qbefore: SqsQueueView = arbitrary();
    let ghost mut qafter: SqsQueueView = arbitrary();
    let ghost mut changed: bool = false;
    let found = match store.get_queue_by_name_mut(name.as_str()) {
        Some(q) => {
            proof {
                qbefore = q@;
            }
            let f = q.change_visibility(rh.as_str(), vt);
            proof {
                qafter = q@;
                changed = f;
            }
            true
        },
        None => false,
    };
    proof {
        if found {
            s0.queues.lemma_pos(name@);
            SqsStore::lemma_queue_replaced(&s0, store, name@);
            assert(store.queues@[name@] == qafter);
            let now = choose|now: i64| visibility_changed(qbefore, qafter, rh@, vt, now, changed);
            assert(visibility_changed(s0.queues@[name@], store.queues@[name@], rh@, vt, now, changed));
        }
    }
    ok_no_result("ChangeMessageVisibility", rid)
}

// ---------------------------------------------------------------------------
// Queue attributes
// ---------------------------------------------------------------------------

/// The attributes GetQueueAttributes reports of a queue at `now`, in the
/// order it reports them.
pub open spec fn queue_attribute_list(q: SqsQueueView, now: i64) -> Seq<(Seq<char>, Seq<char>)> {
    seq![
        ("QueueArn"@, q.arn),
        ("VisibilityTimeout"@, decimal_spec(q.visibility_timeout as nat)),
        ("MessageRetentionPeriod"@, decimal_spec(q.message_retention_period as nat)),
        ("MaximumMessageSize"@, decimal_spec(q.maximum_message_size as nat)),
        ("DelaySeconds"@, decimal_spec(q.delay_seconds as nat)),
        ("ReceiveMessageWaitTimeSeconds"@, decimal_spec(q.receive_message_wait_time_seconds as nat)),
        ("ApproximateNumberOfMessages"@, decimal_spec(crate::sqs::count_visible(q.messages, now))),
        ("ApproximateNumberOfMessagesNotVisible"@, decimal_spec(crate::sqs::count_invisible(q.messages, now))),
        ("CreatedTimestamp"@, signed_decimal_spec(seconds_of(q.created))),
        ("LastModifiedTimestamp"@, signed_decimal_spec(seconds_of(q.last_modified))),
        ("FifoQueue"@, bool_spec(q.fifo)),
        ("ContentBasedDeduplication"@, bool_spec(q.content_based_deduplication)),
    ]
}

/// `<Attribute><Name>{name}</Name><Value>{escaped value}</Value></Attribute>`
pub open spec fn attribute_xml(name: Seq<char>, value: Seq<char>) -> Seq<char> {
    "<Attribute><Name>"@ + name + "</Name><Value>"@ + escape_xml_spec(value) + "</Value></Attribute>"@
}

/// The attributes of `list` that were asked for (all of them when `all`).
pub open spec fn attributes_xml(list: Seq<(Seq<char>, Seq<char>)>, all: bool, requested: Seq<Seq<char>>) -> Seq<char>
    decreases list.len(),
{
    if list.len() == 0 {
        Seq::empty()
    } else {
        attributes_xml(list.drop_last(), all, requested) + if all || requested.contains(list.last().0) {
            attribute_xml(list.last().0, list.last().1)
        } else {
            Seq::empty()
        }
    }
}

/// The attribute names a request asks for, `AttributeName.1`, ...
pub open spec fn requested_attributes(params: Map<Seq<char>, Seq<char>>) -> Seq<Seq<char>> {
    indexed_values(params, "AttributeName"@, ""@)
}

/// Whether a request asks for every attribute: it names none, or `All`.
pub open spec fn wants_all(requested: Seq<Seq<char>>) -> bool {
    requested.len() == 0 || requested.contains("All"@)
}

fn attribute_list_exec(q: &crate::sqs::SqsQueue, now: i64) -> (r: Vec<(&'static str, String)>)
    requires
        q.wf(),
    ensures
        r@.map_values(|e: (&'static str, String)| (e.0@, e.1@)) == queue_attribute_list(q@, now),
{
    let mut r: Vec<(&'static str, String)> = Vec::new();
    r.push(("QueueArn", q.arn.clone()));
    let mut v = String::new();
    push_decimal(&mut v, q.visibility_timeout as u64);
    r.push(("VisibilityTimeout", v));
    let mut v = String::new();
    push_decimal(&mut v, q.message_retention_period as u64);
    r.push(("MessageRetentionPeriod", v));
    let mut v = String::new();
    push_decimal(&mut v, q.maximum_message_size as u64);
    r.push(("MaximumMessageSize", v));
    let mut v = String::new();
    push_decimal(&mut v, q.delay_seconds as u64);
    r.push(("DelaySeconds", v));
    let mut v = String::new();
    push_decimal(&mut v, q.receive_message_wait_time_seconds as u64);
    r.push(("ReceiveMessageWaitTimeSeconds", v));
    let mut v = String::new();
    push_decimal(&mut v, q.approximate_number_of_messages_at(now) as u64);
    r.push(("ApproximateNumberOfMessages", v));
    let mut v = String::new();
    push_decimal(&mut v, q.approximate_number_of_messages_not_visible_at(now) as u64);
    r.push(("ApproximateNumberOfMessagesNotVisible", v));
    let mut v = String::new();
    push_i64(&mut v, seconds_of_exec(q.created));
    r.push(("CreatedTimestamp", v));
    let mut v = String::new();
    push_i64(&mut v, seconds_of_exec(q.last_modified));
    r.push(("LastModifiedTimestamp", v));
    let mut v = String::new();
    push_bool(&mut v, q.fifo);
    r.push(("FifoQueue", v));
    let mut v = String::new();
    push_bool(&mut v, q.content_based_deduplication);
    r.push(("ContentBasedDeduplication", v));
    proof {
        assert(r@.map_values(|e: (&'static str, String)| (e.0@, e.1@)) =~= queue_attribute_list(q@, now));
    }
    r
}

/// What `handle_get_queue_attributes_at` does: its store change and its response.
pub open spec fn get_queue_attributes_outcome(s0: SqsStore, params: Map<Seq<char>, Seq<char>>, rid: Seq<char>, now: i64, r: ResponseView) -> bool {
    &&& (!params.contains_key("QueueUrl"@) ==> r == sqs_error_spec("MissingParameter"@, "QueueUrl is required"@))
    &&& (params.contains_key("QueueUrl"@) ==> {
        let name = addressed_queue(params);
        if s0.queues@.contains_key(name) {
            let req = requested_attributes(params);
            r == ok_xml(
                "GetQueueAttributes"@,
                rid,
                attributes_xml(queue_attribute_list(s0.queues@[name], now), wants_all(req), req),
            )
        } else {
            r == no_such_queue()
        }
    })
}

/// GetQueueAttributes: the attributes of the queue `QueueUrl` addresses
/// at `now`, those named by `AttributeName.{i}` (all of them when none or
/// `All` is named).
pub fn handle_get_queue_attributes_at(store: &SqsStore, params: &StrMap<String>, rid: &str, now: i64) -> (r: DispatchResponse)
    requires
        store.wf(),
        params.wf(),
    ensures
        get_queue_attributes_outcome(*store, params@, rid@, now, r@),
{
    let url = match params.get("QueueUrl") {
        Some(u) => u,
        None => {
            return sqs_error("MissingParameter", "QueueUrl is required");
        },
    };
    let name = queue_name_from_url(url.as_str());
    let q = match store.get_queue_by_name(name.as_str()) {
        None => {
            return queue_missing();
        },
        Some(q) => q,
    };
    let requested = indexed_values_exec(params, "AttributeName", "");
    let ghost req = string_views(requested@);
    let mut all = requested.len() == 0;
    let mut k: usize = 0;
    while k < requested.len()
        invariant
            k <= requested@.len(),
            req == string_views(requested@),
            all == (requested@.len() == 0 || exists|j: int| 0 <= j < k && req[j] == "All"@),
        decreases requested@.len() - k,
    {
        proof {
            assert(req[k as int] == requested@[k as int]@);
        }
        if requested[k].as_str().eq("All") {
            all = true;
            proof {
                assert(0 <= k < k + 1 && req[k as int] == "All"@);
            }
        }
        k = k + 1;
    }
    proof {
        if all && req.len() > 0 {
            let j = choose|j: int| 0 <= j < requested@.len() && req[j] == "All"@;
            assert(req.contains("All"@));
        }
        if req.contains("All"@) {
            let j = choose|j: int| 0 <= j < req.len() && req[j] == "All"@;
        }
    }
    let list = attribute_list_exec(q, now);
    let ghost lv = list@.map_values(|e: (&'static str, String)| (e.0@, e.1@));
    let mut inner = String::new();
    let mut i: usize = 0;
    proof {
        assert(lv.take(0) =~= Seq::<(Seq<char>, Seq<char>)>::empty());
    }
    while i < list.len()
        invariant
            i <= list@.len(),
            lv == list@.map_values(|e: (&'static str, String)| (e.0@, e.1@)),
            req == string_views(requested@),
            inner@ == attributes_xml(lv.take(i as int), all, req),
        decreases list@.len() - i,
    {
        let (n, v) = (list[i].0, &list[i].1);
        let mut wanted = all;
        let mut j: usize = 0;
        while j < requested.len()
            invariant
                j <= requested@.len(),
                req == string_views(requested@),
                wanted == (all || exists|t: int| 0 <= t < j && req[t] == n@),
            decreases requested@.len() - j,
        {
            proof {
                assert(req[j as int] == requested@[j as int]@);
            }
            if requested[j].as_str().eq(n) {
                wanted = true;
                proof {
                    assert(0 <= j < j + 1 && req[j as int] == n@);
                }
            }
            j = j + 1;
        }
        proof {
            assert(lv.take(i + 1).drop_last() =~= lv.take(i as int));
            assert(lv.take(i + 1).last() == (n@, v@));
            if wanted && !all {
                let t = choose|t: int| 0 <= t < requested@.len() && req[t] == n@;
                assert(req.contains(n@));
            }
            if req.contains(n@) {
                let t = choose|t: int| 0 <= t < req.len() && req[t] == n@;
            }
        }
        if wanted {
            push_str(&mut inner, "<Attribute><Name>");
            push_str(&mut inner, n);
            push_str(&mut inner, "</Name><Value>");
            push_escaped(&mut inner, v.as_str());
            push_str(&mut inner, "</Value></Attribute>");
        }
        proof {
            assert(inner@ =~= attributes_xml(lv.take(i + 1), all, req));
        }
        i = i + 1;
    }
    proof {
        assert(lv.take(lv.len() as int) =~= lv);
    }
    ok("GetQueueAttributes", rid, inner.as_str())
}

// ---------------------------------------------------------------------------
// Sending
// ---------------------------------------------------------------------------

/// The value of `key` read as a `u32`, if present and readable.
pub open spec fn u32_param(params: Map<Seq<char>, Seq<char>>, key: Seq<char>) -> Option<u32> {
    if params.contains_key(key) {
        match crate::text::parse_unsigned_spec(params[key], u32::MAX as nat) {
            Some(n) => Some(n as u32),
            None => None,
        }
    } else {
        None
    }
}

fn u32_param_exec(params: &StrMap<String>, key: &str) -> (r: Option<u32>)
    requires
        params.wf(),
    ensures
        r == u32_param(params@, key@),
{
    match params.get(key) {
        Some(v) => {
            let c = chars_of(v.as_str());
            crate::text::parse_u32(c.as_slice())
        },
        None => None,
    }
}

/// The value of `key`, if present.
pub open spec fn opt_param(params: Map<Seq<char>, Seq<char>>, key: Seq<char>) -> Option<Seq<char>> {
    if params.contains_key(key) {
        Some(params[key])
    } else {
        None
    }
}

fn opt_param_exec(params: &StrMap<String>, key: &str) -> (r: Option<String>)
    requires
        params.wf(),
    ensures
        opt_view(r) == opt_param(params@, key@),
{
    match params.get(key) {
        Some(v) => Some(v.clone()),
        None => None,
    }
}

/// The result of a send that was dropped as a duplicate.
pub open spec fn duplicate_send_xml() -> Seq<char> {
    "<MessageId>duplicate</MessageId><MD5OfMessageBody></MD5OfMessageBody><SequenceNumber>0</SequenceNumber>"@
}

/// The result of a send that admitted `m`.
pub open spec fn sent_xml(m: SqsMessageView) -> Seq<char> {
    element("MessageId"@, m.message_id) + element("MD5OfMessageBody"@, m.md5_of_body) + "<SequenceNumber>"@
        + decimal_spec(m.sequence_number as nat) + "</SequenceNumber>"@
}

/// The message a SendMessage request sends to `q` with the given id,
/// receipt handle and time.
pub open spec fn requested_message(q: SqsQueueView, params: Map<Seq<char>, Seq<char>>, id: Seq<char>, handle: Seq<char>, now: i64) -> SqsMessageView {
    sent_message_spec(
        q,
        params["MessageBody"@],
        u32_param(params, "DelaySeconds"@),
        attributes_spec(params, "MessageAttribute"@),
        opt_param(params, "MessageGroupId"@),
        opt_param(params, "MessageDeduplicationId"@),
        id,
        handle,
        now,
    )
}

/// What `handle_send_message` does: its store change and its response.
pub open spec fn send_message_outcome(s0: SqsStore, s1: SqsStore, params: Map<Seq<char>, Seq<char>>, rid: Seq<char>, r: ResponseView) -> bool {
    &&& (!params.contains_key("QueueUrl"@) ==> r == sqs_error_spec("MissingParameter"@, "QueueUrl is required"@)
        && s1.queues@ == s0.queues@)
    &&& (params.contains_key("QueueUrl"@) && !params.contains_key("MessageBody"@) ==> r == sqs_error_spec(
        "MissingParameter"@,
        "MessageBody is required"@
    ) && s1.queues@ == s0.queues@)
    &&& (params.contains_key("QueueUrl"@) && params.contains_key("MessageBody"@) ==> {
        let name = addressed_queue(params);
        if !s0.queues@.contains_key(name) {
            r == no_such_queue() && s1.queues@ == s0.queues@
        } else {
            let q = s0.queues@[name];
            if is_duplicate(q, opt_param(params, "MessageDeduplicationId"@)) {
                r == ok_xml("SendMessage"@, rid, duplicate_send_xml()) && s1.queues@ == s0.queues@
            } else {
                exists|id: Seq<char>, handle: Seq<char>, now: i64|
                    s1.queues@ == s0.queues@.insert(
                        name,
                        admitted_spec(q, #[trigger] requested_message(q, params, id, handle, now)),
                    ) && r == ok_xml("SendMessage"@, rid, sent_xml(requested_message(q, params, id, handle, now)))
            }
        }
    })
}

/// SendMessage: sends `MessageBody` to the queue `QueueUrl` addresses,
/// with `DelaySeconds`, `MessageGroupId`, `MessageDeduplicationId` and the
/// `MessageAttribute.{i}` attributes; a FIFO duplicate is answered with a
/// placeholder and changes nothing.
pub fn handle_send_message(store: &mut SqsStore, params: &StrMap<String>, rid: &str) -> (r: DispatchResponse)
    requires
        old(store).wf(),
        params.wf(),
    ensures
        final(store).wf(),
        send_message_outcome(*old(store), *final(store), params@, rid@, r@),
{
    let url = match params.get("QueueUrl") {
        Some(u) => u,
        None => {
            return sqs_error("MissingParameter", "QueueUrl is required");
        },
    };
    let body = match params.get("MessageBody") {
        Some(b) => b.clone(),
        None => {
            return sqs_error("MissingParameter", "MessageBody is required");
        },
    };
    let name = queue_name_from_url(url.as_str());
    let delay = u32_param_exec(params, "DelaySeconds");
    let group = opt_param_exec(params, "MessageGroupId");
    let dedup = opt_param_exec(params, "MessageDeduplicationId");
    let attrs = extract_message_attributes(params);
    let ghost s0 = *store;
    let ghost mut qbefore: SqsQueueView = arbitrary();
    let ghost mut qafter: SqsQueueView = arbitrary();
    let outcome = match store.get_queue_by_name_mut(name.as_str()) {
        None => None,
        Some(q) => {
            proof {
                qbefore = q@;
            }
            let sent = q.send_message(body, delay, attrs, group, dedup);
            proof {
                qafter = q@;
            }
            Some(sent)
        },
    };
    let sent = match outcome {
        None => {
            return queue_missing();
        },
        Some(s) => s,
    };
    proof {
        s0.queues.lemma_pos(name@);
        SqsStore::lemma_queue_replaced(&s0, store, name@);
        assert(store.queues@[name@] == qafter);
        assert(qbefore == s0.queues@[name@]);
    }
    match sent {
        None => {
            proof {
                assert(store.queues@ =~= s0.queues@);
            }
            ok("SendMessage", rid, "<MessageId>duplicate</MessageId><MD5OfMessageBody></MD5OfMessageBody><SequenceNumber>0</SequenceNumber>")
        },
        Some(m) => {
            let mut inner = String::new();
            push_element(&mut inner, "MessageId", m.message_id.as_str());
            push_element(&mut inner, "MD5OfMessageBody", m.md5_of_body.as_str());
            push_str(&mut inner, "<SequenceNumber>");
            push_decimal(&mut inner, m.sequence_number);
            push_str(&mut inner, "</SequenceNumber>");
            proof {
                assert(inner@ =~= sent_xml(m@));
                let (id, handle, now) = choose|id: Seq<char>, handle: Seq<char>, now: i64|
                    m@ == #[trigger] sent_message_spec(
                        qbefore,
                        body@,
                        delay,
                        attrs@,
                        opt_view(group),
                        opt_view(dedup),
                        id,
                        handle,
                        now,
                    ) && qafter == admitted_spec(qbefore, m@);
                assert(requested_message(qbefore, params@, id, handle, now) == m@);
            }
            ok("SendMessage", rid, inner.as_str())
        },
    }
}

// ---------------------------------------------------------------------------
// Receiving
// ---------------------------------------------------------------------------

/// How many messages a receive asks for: `MaxNumberOfMessages` (1 when
/// absent or unreadable), at most 10.
pub open spec fn max_messages(params: Map<Seq<char>, Seq<char>>) -> nat {
    let m = if params.contains_key("MaxNumberOfMessages"@) {
        match crate::text::parse_unsigned_spec(params["MaxNumberOfMessages"@], usize::MAX as nat) {
            Some(n) => n,
            None => 1,
        }
    } else {
        1
    };
    if m < 10 {
        m
    } else {
        10
    }
}

/// The queue after a receive: with a redrive policy, the messages received
/// at least its maximum number of times are dropped.
pub open spec fn dlq_pruned(q: SqsQueueView) -> SqsQueueView {
    match q.redrive_policy {
        Some(rp) => SqsQueueView { messages: by_receive_count(q.messages, rp.max_receive_count, true), ..q },
        None => q,
    }
}

/// The system attributes of a message, in the order they are kept.
pub open spec fn system_attributes_xml(ks: Seq<Seq<char>>, vs: Seq<Seq<char>>) -> Seq<char>
    decreases ks.len(),
{
    if ks.len() == 0 {
        Seq::empty()
    } else {
        system_attributes_xml(ks.drop_last(), vs.drop_last()) + "<Attribute>"@ + element("Name"@, ks.last())
            + element("Value"@, vs.last()) + "</Attribute>"@
    }
}

/// The text a message attribute reports: its string value, or empty.
pub open spec fn string_value_text(v: Option<Seq<char>>) -> Seq<char> {
    match v {
        Some(s) => s,
        None => Seq::empty(),
    }
}

/// The message attributes of a message, in the order they are kept.
pub open spec fn message_attributes_xml(ks: Seq<Seq<char>>, vs: Seq<MessageAttributeValue>) -> Seq<char>
    decreases ks.len(),
{
    if ks.len() == 0 {
        Seq::empty()
    } else {
        message_attributes_xml(ks.drop_last(), vs.drop_last()) + "<MessageAttribute>"@ + element("Name"@, ks.last())
            + "<Value>"@ + element("DataType"@, vs.last().data_type@) + element(
            "StringValue"@,
            string_value_text(opt_view(vs.last().string_value)),
        ) + "</Value></MessageAttribute>"@
    }
}

/// One received message.
pub open spec fn message_xml(m: SqsMessage) -> Seq<char> {
    "<Message>"@ + element("MessageId"@, m.message_id@) + element("ReceiptHandle"@, m.receipt_handle@) + element(
        "MD5OfBody"@,
        m.md5_of_body@,
    ) + element("Body"@, m.body@) + system_attributes_xml(m.attributes.keys_seq(), string_views(m.attributes.vals_seq()))
        + message_attributes_xml(m.message_attributes.keys_seq(), m.message_attributes.vals_seq()) + "</Message>"@
}

/// The received messages, in order.
pub open spec fn messages_xml(ms: Seq<SqsMessage>) -> Seq<char>
    decreases ms.len(),
{
    if ms.len() == 0 {
        Seq::empty()
    } else {
        messages_xml(ms.drop_last()) + message_xml(ms.last())
    }
}

fn push_system_attributes(out: &mut String, attrs: &StrMap<String>)
    requires
        attrs.wf(),
    ensures
        final(out)@ == old(out)@ + system_attributes_xml(attrs.keys_seq(), string_views(attrs.vals_seq())),
{
    let ghost head = out@;
    let n = attrs.len();
    proof {
        attrs.lemma_enumeration();
    }
    let ghost ks = attrs.keys_seq();
    let ghost vs = string_views(attrs.vals_seq());
    let mut i: usize = 0;
    proof {
        assert(ks.take(0) =~= Seq::<Seq<char>>::empty());
        assert(head =~= head + system_attributes_xml(ks.take(0), vs.take(0)));
    }
    while i < n
        invariant
            i <= n,
            n == ks.len(),
            n == attrs.vals_seq().len(),
            ks == attrs.keys_seq(),
            vs == string_views(attrs.vals_seq()),
            out@ == head + system_attributes_xml(ks.take(i as int), vs.take(i as int)),
        decreases n - i,
    {
        let k = attrs.key_at_index(i);
        let v = attrs.value_at_index(i);
        push_str(out, "<Attribute>");
        push_element(out, "Name", k.as_str());
        push_element(out, "Value", v.as_str());
        push_str(out, "</Attribute>");
        proof {
            assert(ks.take(i + 1).drop_last() =~= ks.take(i as int));
            assert(vs.take(i + 1).drop_last() =~= vs.take(i as int));
            assert(vs[i as int] == v@);
            assert(out@ =~= head + system_attributes_xml(ks.take(i + 1), vs.take(i + 1)));
        }
        i = i + 1;
    }
    proof {
        assert(ks.take(n as int) =~= ks);
        assert(vs.take(n as int) =~= vs);
    }
}

fn push_message_attributes(out: &mut String, attrs: &StrMap<MessageAttributeValue>)
    requires
        attrs.wf(),
    ensures
        final(out)@ == old(out)@ + message_attributes_xml(attrs.keys_seq(), attrs.vals_seq()),
{
    let ghost mid = out@;
    let n2 = attrs.len();
    proof {
        attrs.lemma_enumeration();
    }
    let ghost ks2 = attrs.keys_seq();
    let ghost vs2 = attrs.vals_seq();
    let mut j: usize = 0;
    proof {
        assert(mid =~= mid + message_attributes_xml(ks2.take(0), vs2.take(0)));
    }
    while j < n2
        invariant
            j <= n2,
            n2 == ks2.len(),
            n2 == vs2.len(),
            ks2 == attrs.keys_seq(),
            vs2 == attrs.vals_seq(),
            out@ == mid + message_attributes_xml(ks2.take(j as int), vs2.take(j as int)),
        decreases n2 - j,
    {
        let k = attrs.key_at_index(j);
        let v = attrs.value_at_index(j);
        push_str(out, "<MessageAttribute>");
        push_element(out, "Name", k.as_str());
        push_str(out, "<Value>");
        push_element(out, "DataType", v.data_type.as_str());
        let sv: &str = match &v.string_value {
            Some(s) => s.as_str(),
            None => "",
        };
        proof {
            reveal_strlit("");
            assert(sv@ == string_value_text(opt_view(v.string_value)));
        }
        push_element(out, "StringValue", sv);
        push_str(out, "</Value></MessageAttribute>");
        proof {
            assert(ks2.take(j + 1).drop_last() =~= ks2.take(j as int));
            assert(vs2.take(j + 1).drop_last() =~= vs2.take(j as int));
            assert(out@ =~= mid + message_attributes_xml(ks2.take(j + 1), vs2.take(j + 1)));
        }
        j = j + 1;
    }
    proof {
        assert(ks2.take(n2 as int) =~= ks2);
        assert(vs2.take(n2 as int) =~= vs2);
    }
}

fn push_message_xml(out: &mut String, m: &SqsMessage)
    requires
        m.wf(),
    ensures
        final(out)@ == old(out)@ + message_xml(*m),
{
    push_str(out, "<Message>");
    push_element(out, "MessageId", m.message_id.as_str());
    push_element(out, "ReceiptHandle", m.receipt_handle.as_str());
    push_element(out, "MD5OfBody", m.md5_of_body.as_str());
    push_element(out, "Body", m.body.as_str());
    push_system_attributes(out, &m.attributes);
    push_message_attributes(out, &m.message_attributes);
    push_str(out, "</Message>");
    proof {
        assert(out@ =~= old(out)@ + message_xml(*m));
    }
}

/// What `handle_receive_message` does: its store change and its response.
pub open spec fn receive_message_outcome(s0: SqsStore, s1: SqsStore, params: Map<Seq<char>, Seq<char>>, rid: Seq<char>, r: ResponseView) -> bool {
    &&& (!params.contains_key("QueueUrl"@) ==> r == sqs_error_spec("MissingParameter"@, "QueueUrl is required"@)
        && s1.queues@ == s0.queues@)
    &&& (params.contains_key("QueueUrl"@) ==> {
        let name = addressed_queue(params);
        if !s0.queues@.contains_key(name) {
            r == no_such_queue() && s1.queues@ == s0.queues@
        } else {
            exists|rs: Seq<SqsMessage>, mid: SqsQueueView, now: i64, handles: Seq<Seq<char>>|
                #[trigger] receive_outcome(
                    s0.queues@[name],
                    mid,
                    views(rs),
                    max_messages(params),
                    u32_param(params, "VisibilityTimeout"@),
                    now,
                    handles,
                ) && s1.queues@ == s0.queues@.insert(name, dlq_pruned(mid)) && r == ok_xml(
                    "ReceiveMessage"@,
                    rid,
                    messages_xml(rs),
                )
        }
    })
}

/// ReceiveMessage: receives up to `max_messages` messages from the queue
/// `QueueUrl` addresses (hidden for `VisibilityTimeout` seconds, the
/// queue's default when absent), then drops the messages due for the
/// dead-letter queue, and lists the messages received.
#[verifier::rlimit(50)]
pub fn handle_receive_message(store: &mut SqsStore, params: &StrMap<String>, rid: &str) -> (r: DispatchResponse)
    requires
        old(store).wf(),
        params.wf(),
    ensures
        final(store).wf(),
        receive_message_outcome(*old(store), *final(store), params@, rid@, r@),
{
    let url = match params.get("QueueUrl") {
        Some(u) => u,
        None => {
            return sqs_error("MissingParameter", "QueueUrl is required");
        },
    };
    let requested_max: usize = match params.get("MaxNumberOfMessages") {
        Some(v) => {
            let c = chars_of(v.as_str());
            match crate::text::parse_usize(c.as_slice()) {
                Some(n) => n,
                None => 1,
            }
        },
        None => 1,
    };
    let max: usize = if requested_max < 10 {
        requested_max
    } else {
        10
    };
    let vt = u32_param_exec(params, "VisibilityTimeout");
    let name = queue_name_from_url(url.as_str());
    let ghost s0 = *store;
    let ghost mut qbefore: SqsQueueView = arbitrary();
    let ghost mut qmid: SqsQueueView = arbitrary();
    let ghost mut qafter: SqsQueueView = arbitrary();
    let outcome = match store.get_queue_by_name_mut(name.as_str()) {
        None => None,
        Some(q) => {
            proof {
                qbefore = q@;
            }
            let messages = q.receive_messages(max, vt);
            proof {
                qmid = q@;
            }
            q.remove_dlq_candidates();
            proof {
                qafter = q@;
            }
            Some(messages)
        },
    };
    let messages = match outcome {
        None => {
            return queue_missing();
        },
        Some(m) => m,
    };
    proof {
        s0.queues.lemma_pos(name@);
        SqsStore::lemma_queue_replaced(&s0, store, name@);
        assert(store.queues@[name@] == qafter);
        assert(qafter == dlq_pruned(qmid));
        assert(max as nat == max_messages(params@));
    }
    let mut inner = String::new();
    let mut i: usize = 0;
    proof {
        assert(messages@.take(0) =~= Seq::<SqsMessage>::empty());
    }
    while i < messages.len()
        invariant
            i <= messages@.len(),
            forall|k: int| 0 <= k < messages@.len() ==> (#[trigger] messages@[k]).wf(),
            inner@ == messages_xml(messages@.take(i as int)),
        decreases messages@.len() - i,
    {
        push_message_xml(&mut inner, &messages[i]);
        proof {
            assert(messages@.take(i + 1).drop_last() =~= messages@.take(i as int));
        }
        i = i + 1;
    }
    proof {
        assert(messages@.take(messages@.len() as int) =~= messages@);
        let (now, handles) = choose|now: i64, handles: Seq<Seq<char>>|
            #[trigger] receive_outcome(qbefore, qmid, views(messages@), max as nat, vt, now, handles);
        assert(receive_outcome(s0.queues@[name@], qmid, views(messages@), max_messages(params@), vt, now, handles));
    }
    ok("ReceiveMessage", rid, inner.as_str())
}

// ---------------------------------------------------------------------------
// Batches
// ---------------------------------------------------------------------------

/// `msgs` without the messages whose handle is any of `hs`, taken in turn.
pub open spec fn without_handles(msgs: Seq<SqsMessageView>, hs: Seq<Seq<char>>) -> Seq<SqsMessageView>
    decreases hs.len(),
{
    if hs.len() == 0 {
        msgs
    } else {
        without_handle(without_handles(msgs, hs.drop_last()), hs.last())
    }
}

/// The entries of a batch: `{prefix}.{i}.Id` with `{prefix}.{i}{field}`.
pub open spec fn batch_entries(params: Map<Seq<char>, Seq<char>>, prefix: Seq<char>, field: Seq<char>) -> Seq<
    (nat, Seq<char>, Seq<char>),
> {
    indexed_pairs(params, prefix, ".Id"@, field)
}

/// `<{tag}><Id>{escaped id}</Id></{tag}>` for each entry.
pub open spec fn entry_ids_xml(tag: Seq<char>, es: Seq<(nat, Seq<char>, Seq<char>)>) -> Seq<char>
    decreases es.len(),
{
    if es.len() == 0 {
        Seq::empty()
    } else {
        entry_ids_xml(tag, es.drop_last()) + "<"@ + tag + ">"@ + element("Id"@, es.last().1) + "</"@ + tag + ">"@
    }
}

pub open spec fn handles_of(es: Seq<(nat, Seq<char>, Seq<char>)>) -> Seq<Seq<char>> {
    es.map_values(|e: (nat, Seq<char>, Seq<char>)| e.2)
}

/// What `handle_delete_message_batch` does: its store change and its response.
pub open spec fn delete_message_batch_outcome(s0: SqsStore, s1: SqsStore, params: Map<Seq<char>, Seq<char>>, rid: Seq<char>, r: ResponseView) -> bool {
    &&& (!params.contains_key("QueueUrl"@) ==> r == sqs_error_spec("MissingParameter"@, "QueueUrl is required"@)
        && s1.queues@ == s0.queues@)
    &&& (params.contains_key("QueueUrl"@) ==> {
        let name = addressed_queue(params);
        let es = batch_entries(params, "DeleteMessageBatchRequestEntry"@, ".ReceiptHandle"@);
        &&& r == ok_xml("DeleteMessageBatch"@, rid, entry_ids_xml("DeleteMessageBatchResultEntry"@, es))
        &&& s0.queues@.contains_key(name) ==> s1.queues@ == s0.queues@.insert(
            name,
            SqsQueueView {
                messages: without_handles(s0.queues@[name].messages, handles_of(es)),
                ..s0.queues@[name]
            },
        )
        &&& !s0.queues@.contains_key(name) ==> s1.queues@ == s0.queues@
    })
}

/// DeleteMessageBatch: for each entry `DeleteMessageBatchRequestEntry.{i}`
/// with an id and a receipt handle, deletes the messages with that handle
/// from the queue `QueueUrl` addresses (when there is one), and lists the
/// entries' ids.
pub fn handle_delete_message_batch(store: &mut SqsStore, params: &StrMap<String>, rid: &str) -> (r: DispatchResponse)
    requires
        old(store).wf(),
        params.wf(),
    ensures
        final(store).wf(),
        delete_message_batch_outcome(*old(store), *final(store), params@, rid@, r@),
{
    let url = match params.get("QueueUrl") {
        Some(u) => u,
        None => {
            return sqs_error("MissingParameter", "QueueUrl is required");
        },
    };
    let name = queue_name_from_url(url.as_str());
    let entries = indexed_pairs_exec(params, "DeleteMessageBatchRequestEntry", ".Id", ".ReceiptHandle");
    let ghost es = pair_views(entries@);
    let ghost s0 = *store;
    let mut inner = String::new();
    let mut i: usize = 0;
    proof {
        assert(es.take(0) =~= Seq::<(nat, Seq<char>, Seq<char>)>::empty());
        assert(handles_of(es.take(0)) =~= Seq::<Seq<char>>::empty());
        if s0.queues@.contains_key(name@) {
            assert(s0.queues@.insert(name@, SqsQueueView { messages: s0.queues@[name@].messages, ..s0.queues@[name@] }) =~= s0.queues@);
        }
    }
    while i < entries.len()
        invariant
            i <= entries@.len(),
            es == pair_views(entries@),
            params.wf(),
            store.wf(),
            s0.wf(),
            inner@ == entry_ids_xml("DeleteMessageBatchResultEntry"@, es.take(i as int)),
            s0.queues@.contains_key(name@) ==> store.queues@ == s0.queues@.insert(
                name@,
                SqsQueueView {
                    messages: without_handles(s0.queues@[name@].messages, handles_of(es.take(i as int))),
                    ..s0.queues@[name@]
                },
            ),
            !s0.queues@.contains_key(name@) ==> store.queues@ == s0.queues@,
        decreases entries@.len() - i,
    {
        let id = &entries[i].1;
        let rh = &entries[i].2;
        let ghost s1 = *store;
        let found = match store.get_queue_by_name_mut(name.as_str()) {
            Some(q) => {
                q.delete_message(rh.as_str());
                true
            },
            None => false,
        };
        proof {
            assert(es.take(i + 1).drop_last() =~= es.take(i as int));
            assert(handles_of(es.take(i + 1)).drop_last() =~= handles_of(es.take(i as int)));
            assert(handles_of(es.take(i + 1)).last() == rh@);
            if found {
                s1.queues.lemma_pos(name@);
                SqsStore::lemma_queue_replaced(&s1, store, name@);
                assert(store.queues@ =~= s0.queues@.insert(
                    name@,
                    SqsQueueView {
                        messages: without_handles(s0.queues@[name@].messages, handles_of(es.take(i + 1))),
                        ..s0.queues@[name@]
                    },
                ));
            }
        }
        proof {
            assert(es[i as int] == (entries@[i as int].0 as nat, id@, rh@));
            assert(es.take(i + 1).last() == es[i as int]);
        }
        push_str(&mut inner, "<");
        push_str(&mut inner, "DeleteMessageBatchResultEntry");
        push_str(&mut inner, ">");
        push_element(&mut inner, "Id", id.as_str());
        push_str(&mut inner, "</");
        push_str(&mut inner, "DeleteMessageBatchResultEntry");
        push_str(&mut inner, ">");
        proof {
            assert(inner@ =~= entry_ids_xml("DeleteMessageBatchResultEntry"@, es.take(i + 1)));
        }
        i = i + 1;
    }
    proof {
        assert(es.take(es.len() as int) =~= es);
    }
    ok("DeleteMessageBatch", rid, inner.as_str())
}

/// What `handle_change_message_visibility_batch` does: its store change and its response.
pub open spec fn change_message_visibility_batch_outcome(s0: SqsStore, s1: SqsStore, params: Map<Seq<char>, Seq<char>>, rid: Seq<char>, r: ResponseView) -> bool {
    &&& (!params.contains_key("QueueUrl"@) ==> r == sqs_error_spec("MissingParameter"@, "QueueUrl is required"@)
        && s1.queues@ == s0.queues@)
    &&& (params.contains_key("QueueUrl"@) ==> {
        let name = addressed_queue(params);
        let es = batch_entries(params, "ChangeMessageVisibilityBatchRequestEntry"@, ".ReceiptHandle"@);
        &&& r == ok_xml(
            "ChangeMessageVisibilityBatch"@,
            rid,
            entry_ids_xml("ChangeMessageVisibilityBatchResultEntry"@, es),
        )
        &&& s1.queues@.dom() == s0.queues@.dom()
        &&& forall|k: Seq<char>| k != name && #[trigger] s0.queues@.contains_key(k) ==> s1.queues@[k] == s0.queues@[k]
    })
}

/// ChangeMessageVisibilityBatch: for each entry
/// `ChangeMessageVisibilityBatchRequestEntry.{i}` with an id and a receipt
/// handle, changes that message's visibility in the queue `QueueUrl`
/// addresses (when there is one) to the entry's `VisibilityTimeout` (30 by
/// default) from now, and lists the entries' ids.
pub fn handle_change_message_visibility_batch(store: &mut SqsStore, params: &StrMap<String>, rid: &str) -> (r: DispatchResponse)
    requires
        old(store).wf(),
        params.wf(),
    ensures
        final(store).wf(),
        change_message_visibility_batch_outcome(*old(store), *final(store), params@, rid@, r@),
{
    let url = match params.get("QueueUrl") {
        Some(u) => u,
        None => {
            return sqs_error("MissingParameter", "QueueUrl is required");
        },
    };
    let name = queue_name_from_url(url.as_str());
    let entries = indexed_pairs_exec(params, "ChangeMessageVisibilityBatchRequestEntry", ".Id", ".ReceiptHandle");
    let ghost es = pair_views(entries@);
    let ghost s0 = *store;
    let mut inner = String::new();
    let mut i: usize = 0;
    proof {
        assert(es.take(0) =~= Seq::<(nat, Seq<char>, Seq<char>)>::empty());
    }
    while i < entries.len()
        invariant
            i <= entries@.len(),
            es == pair_views(entries@),
            params.wf(),
            store.wf(),
            inner@ == entry_ids_xml("ChangeMessageVisibilityBatchResultEntry"@, es.take(i as int)),
            store.queues@.dom() == s0.queues@.dom(),
            forall|k: Seq<char>| k != name@ && #[trigger] s0.queues@.contains_key(k) ==> store.queues@[k] == s0.queues@[k],
        decreases entries@.len() - i,
    {
        let idx = entries[i].0;
        let id = &entries[i].1;
        let rh = &entries[i].2;
        let vt_key = crate::http::indexed_key_exec("ChangeMessageVisibilityBatchRequestEntry", idx, ".VisibilityTimeout");
        let vt = requested_timeout_exec(params, vt_key.as_str());
        let ghost s1 = *store;
        let found = match store.get_queue_by_name_mut(name.as_str()) {
            Some(q) => {
                q.change_visibility(rh.as_str(), vt);
                true
            },
            None => false,
        };
        proof {
            if found {
                s1.queues.lemma_pos(name@);
                SqsStore::lemma_queue_replaced(&s1, store, name@);
                assert(store.queues@.dom() =~= s1.queues@.dom());
            }
            assert(es.take(i + 1).drop_last() =~= es.take(i as int));
        }
        proof {
            assert(es[i as int] == (entries@[i as int].0 as nat, id@, rh@));
            assert(es.take(i + 1).last() == es[i as int]);
        }
        push_str(&mut inner, "<");
        push_str(&mut inner, "ChangeMessageVisibilityBatchResultEntry");
        push_str(&mut inner, ">");
        push_element(&mut inner, "Id", id.as_str());
        push_str(&mut inner, "</");
        push_str(&mut inner, "ChangeMessageVisibilityBatchResultEntry");
        push_str(&mut inner, ">");
        proof {
            assert(inner@ =~= entry_ids_xml("ChangeMessageVisibilityBatchResultEntry"@, es.take(i + 1)));
        }
        i = i + 1;
    }
    proof {
        assert(es.take(es.len() as int) =~= es);
    }
    ok("ChangeMessageVisibilityBatch", rid, inner.as_str())
}

// ---------------------------------------------------------------------------
// Reading the parameters
// ---------------------------------------------------------------------------

/// The fields of an object flattened into parameters: each string field
/// under its name, each string field of an object field under
/// `{name}.{field}`, later fields winning.
pub open spec fn flatten_fields(base: Map<Seq<char>, Seq<char>>, fields: Seq<(Seq<char>, JsonFieldView)>) -> Map<
    Seq<char>,
    Seq<char>,
>
    decreases fields.len(),
{
    if fields.len() == 0 {
        base
    } else {
        let m = flatten_fields(base, fields.drop_last());
        let (k, f) = fields.last();
        match f {
            JsonFieldView::Str(v) => m.insert(k, v),
            JsonFieldView::Obj(es) => flatten_object(m, k, es),
            JsonFieldView::Other => m,
        }
    }
}

/// The string fields of object field `k`, as `{k}.{field}`.
pub open spec fn flatten_object(base: Map<Seq<char>, Seq<char>>, k: Seq<char>, es: Seq<(Seq<char>, Option<Seq<char>>)>) -> Map<
    Seq<char>,
    Seq<char>,
>
    decreases es.len(),
{
    if es.len() == 0 {
        base
    } else {
        let m = flatten_object(base, k, es.drop_last());
        match es.last().1 {
            Some(v) => m.insert(k + seq!['.'] + es.last().0, v),
            None => m,
        }
    }
}

/// The operation an `x-amz-target` header names: the piece after the
/// first `.` of a target starting with `AmazonSQS.`.
pub open spec fn target_action(headers: Map<Seq<char>, Seq<char>>) -> Option<Seq<char>> {
    if headers.contains_key("x-amz-target"@) && crate::sqs::starts_with_spec(headers["x-amz-target"@], "AmazonSQS."@) {
        Some(crate::http::split_spec(headers["x-amz-target"@], '.')[1])
    } else {
        None
    }
}

/// The parameters of an SQS request: the form body; when that names no
/// `Action`, the action of `x-amz-target` and the fields of a JSON object
/// body; then the query string's parameters for names still missing.
pub open spec fn sqs_params_spec(ctx: RequestContext) -> Map<Seq<char>, Seq<char>> {
    let form = crate::http::form_body_params(crate::http::body_text(ctx.raw_body@));
    let p = if form.contains_key("Action"@) {
        form
    } else {
        let t = match target_action(ctx.headers@) {
            Some(a) => form.insert("Action"@, a),
            None => form,
        };
        match json_object_fields_spec(ctx.raw_body@) {
            Some(fs) => flatten_fields(t, fs),
            None => t,
        }
    };
    ctx.query_params@.union_prefer_right(p)
}

fn flatten_into(params: &mut StrMap<String>, fields: &Vec<(String, JsonField)>)
    requires
        old(params).wf(),
    ensures
        final(params).wf(),
        final(params)@ == flatten_fields(old(params)@, crate::deps::fields_view(fields@)),
{
    let ghost fs = crate::deps::fields_view(fields@);
    let ghost start = params@;
    let mut i: usize = 0;
    proof {
        assert(fs.take(0) =~= Seq::<(Seq<char>, JsonFieldView)>::empty());
    }
    while i < fields.len()
        invariant
            i <= fields@.len(),
            fs == crate::deps::fields_view(fields@),
            params.wf(),
            params@ == flatten_fields(start, fs.take(i as int)),
        decreases fields@.len() - i,
    {
        proof {
            assert(fs.take(i + 1).drop_last() =~= fs.take(i as int));
            assert(fs.take(i + 1).last() == fs[i as int]);
        }
        let k = &fields[i].0;
        match &fields[i].1 {
            JsonField::Str(v) => {
                params.insert(k.clone(), v.clone());
            },
            JsonField::Obj(es) => {
                let ghost ev = es@.map_values(|e: (String, Option<String>)| (e.0@, crate::text::opt_view(e.1)));
                let ghost m0 = params@;
                let mut j: usize = 0;
                proof {
                    assert(ev.take(0) =~= Seq::<(Seq<char>, Option<Seq<char>>)>::empty());
                }
                while j < es.len()
                    invariant
                        j <= es@.len(),
                        ev == es@.map_values(|e: (String, Option<String>)| (e.0@, crate::text::opt_view(e.1))),
                        params.wf(),
                        params@ == flatten_object(m0, k@, ev.take(j as int)),
                    decreases es@.len() - j,
                {
                    proof {
                        assert(ev.take(j + 1).drop_last() =~= ev.take(j as int));
                        assert(ev.take(j + 1).last() == ev[j as int]);
                    }
                    match &es[j].1 {
                        Some(v) => {
                            let mut name = k.clone();
                            name.push('.');
                            push_str(&mut name, es[j].0.as_str());
                            proof {
                                assert(name@ =~= k@ + seq!['.'] + es@[j as int].0@);
                            }
                            params.insert(name, v.clone());
                        },
                        None => {},
                    }
                    j = j + 1;
                }
                proof {
                    assert(ev.take(ev.len() as int) =~= ev);
                }
            },
            JsonField::Other => {},
        }
        i = i + 1;
    }
    proof {
        assert(fs.take(fs.len() as int) =~= fs);
    }
}

/// Reads the parameters of an SQS request (see `sqs_params_spec`).
pub fn parse_params(ctx: &RequestContext) -> (r: StrMap<String>)
    requires
        ctx.wf(),
    ensures
        r.wf(),
        r@ == sqs_params_spec(*ctx),
{
    let mut params: StrMap<String> = StrMap::new();
    let body = crate::http::body_text_exec(ctx.raw_body.as_slice());
    crate::http::parse_form_into(&mut params, body.as_str());
    proof {
        assert(Map::<Seq<char>, Seq<char>>::empty().union_prefer_right(crate::http::form_body_params(body@))
            =~= crate::http::form_body_params(body@));
    }
    if !params.contains_key("Action") {
        match ctx.headers.get("x-amz-target") {
            Some(target) => {
                let t = chars_of(target.as_str());
                let prefix = chars_of("AmazonSQS.");
                if crate::text::starts_with_chars(t.as_slice(), prefix.as_slice()) {
                    let pieces = crate::http::split_chars(t.as_slice(), '.');
                    proof {
                        reveal_strlit("AmazonSQS.");
                        assert(t@.subrange(0, 10)[9] == '.');
                        assert(crate::http::split_spec(t@, '.').len() >= 2) by {
                            lemma_split_has_second(t@, 10);
                        }
                        assert(pieces@.map_values(|v: Vec<char>| v@)[1] == pieces@[1]@);
                    }
                    let action = string_of(pieces[1].as_slice());
                    params.insert("Action".to_string(), action);
                }
            },
            None => {},
        }
        match json_object_fields(ctx.raw_body.as_slice()) {
            Some(fields) => flatten_into(&mut params, &fields),
            None => {},
        }
    }
    crate::http::absorb_missing(&mut params, &ctx.query_params);
    params
}

/// A string with a separator before position `n` splits into at least two
/// pieces.
proof fn lemma_split_has_second(s: Seq<char>, n: int)
    requires
        0 < n <= s.len(),
        s[n - 1] == '.',
    ensures
        crate::http::split_spec(s, '.').len() >= 2,
    decreases s.len(),
{
    crate::http::lemma_split_nonempty(s, '.');
    if s.len() > n {
        lemma_split_has_second(s.drop_last(), n);
    } else {
        crate::http::lemma_split_nonempty(s.drop_last(), '.');
    }
}

// ---------------------------------------------------------------------------
// JSON mode
// ---------------------------------------------------------------------------

/// A 200 JSON response.
pub open spec fn json_ok(body: Seq<char>) -> ResponseView {
    plain_response(200, body, "application/x-amz-json-1.0"@)
}

/// A JSON error response.
pub open spec fn json_error_spec(code: Seq<char>, message: Seq<char>, status: u16) -> ResponseView {
    plain_response(
        status,
        "{\"__type\":"@ + json_string(code) + ",\"message\":"@ + json_string(message) + "}"@,
        "application/x-amz-json-1.0"@,
    )
}

/// The JSON error for a queue that does not exist.
pub open spec fn json_no_such_queue() -> ResponseView {
    json_error_spec("AWS.SimpleQueueService.NonExistentQueue"@, "The specified queue does not exist."@, 400)
}

fn json_error(code: &str, message: &str, status: u16) -> (r: DispatchResponse)
    ensures
        r@ == json_error_spec(code@, message@, status),
{
    let mut b = String::new();
    push_str(&mut b, "{\"__type\":");
    push_json_string(&mut b, code);
    push_str(&mut b, ",\"message\":");
    push_json_string(&mut b, message);
    push_str(&mut b, "}");
    proof {
        assert(b@ =~= "{\"__type\":"@ + json_string(code@) + ",\"message\":"@ + json_string(message@) + "}"@);
    }
    crate::http::plain(status, b, "application/x-amz-json-1.0")
}

/// `{"QueueUrl":...}`
pub open spec fn json_queue_url(url: Seq<char>) -> Seq<char> {
    "{\"QueueUrl\":"@ + json_string(url) + "}"@
}

fn json_queue_url_exec(url: &str) -> (r: DispatchResponse)
    ensures
        r@ == json_ok(json_queue_url(url@)),
{
    let mut b = String::new();
    push_str(&mut b, "{\"QueueUrl\":");
    push_json_string(&mut b, url);
    push_str(&mut b, "}");
    proof {
        assert(b@ =~= json_queue_url(url@));
    }
    crate::http::plain(200, b, "application/x-amz-json-1.0")
}

/// `{"MD5OfMessageBody":...,"MessageId":...}`
pub open spec fn json_sent(md5: Seq<char>, id: Seq<char>) -> Seq<char> {
    "{\"MD5OfMessageBody\":"@ + json_string(md5) + ",\"MessageId\":"@ + json_string(id) + "}"@
}

fn json_sent_exec(md5: &str, id: &str) -> (r: DispatchResponse)
    ensures
        r@ == json_ok(json_sent(md5@, id@)),
{
    let mut b = String::new();
    push_str(&mut b, "{\"MD5OfMessageBody\":");
    push_json_string(&mut b, md5);
    push_str(&mut b, ",\"MessageId\":");
    push_json_string(&mut b, id);
    push_str(&mut b, "}");
    proof {
        assert(b@ =~= json_sent(md5@, id@));
    }
    crate::http::plain(200, b, "application/x-amz-json-1.0")
}

/// One received message in JSON, its keys in order.
pub open spec fn json_message(m: SqsMessageView) -> Seq<char> {
    "{\"Body\":"@ + json_string(m.body) + ",\"MD5OfBody\":"@ + json_string(m.md5_of_body) + ",\"MessageId\":"@
        + json_string(m.message_id) + ",\"ReceiptHandle\":"@ + json_string(m.receipt_handle) + "}"@
}

fn push_json_message(b: &mut String, m: &SqsMessage)
    ensures
        final(b)@ == old(b)@ + json_message(m@),
{
    push_str(b, "{\"Body\":");
    push_json_string(b, m.body.as_str());
    push_str(b, ",\"MD5OfBody\":");
    push_json_string(b, m.md5_of_body.as_str());
    push_str(b, ",\"MessageId\":");
    push_json_string(b, m.message_id.as_str());
    push_str(b, ",\"ReceiptHandle\":");
    push_json_string(b, m.receipt_handle.as_str());
    push_str(b, "}");
    proof {
        assert(b@ =~= old(b)@ + json_message(m@));
    }
}

/// The received messages in JSON, comma-separated.
pub open spec fn json_messages(ms: Seq<SqsMessageView>) -> Seq<char>
    decreases ms.len(),
{
    if ms.len() == 0 {
        Seq::empty()
    } else if ms.len() == 1 {
        json_message(ms[0])
    } else {
        json_messages(ms.drop_last()) + ","@ + json_message(ms.last())
    }
}

/// What a JSON-mode request does, by its action; `None` for an action this
/// mode does not support.
pub open spec fn json_outcome(s0: SqsStore, s1: SqsStore, ctx: RequestContext, params: Map<Seq<char>, Seq<char>>, action: Seq<char>, r: ResponseView) -> bool {
    if action == "CreateQueue"@ {
        &&& !params.contains_key("QueueName"@) ==> r == json_error_spec("MissingParameter"@, "QueueName is required"@, 400)
            && s1.queues@ == s0.queues@
        &&& params.contains_key("QueueName"@) ==> {
            let name = params["QueueName"@];
            &&& s1.queues@.contains_key(name)
            &&& s0.queues@.contains_key(name) ==> s1.queues@ == s0.queues@
            &&& !s0.queues@.contains_key(name) ==> exists|t1: i64, t2: i64|
                s1.queues@ == s0.queues@.insert(
                    name,
                    #[trigger] attributes_applied(
                        new_queue_spec(name, base_queue_url_spec(ctx.headers@, ctx.region@), ctx.account_id@, ctx.region@, t1),
                        indexed_kv_spec(params, "Attribute"@),
                        t2,
                        redrive_of(indexed_kv_spec(params, "Attribute"@)),
                    ),
                )
            &&& r == json_ok(json_queue_url(s1.queues@[name].url))
        }
    } else if action == "GetQueueUrl"@ {
        &&& s1.queues@ == s0.queues@
        &&& !params.contains_key("QueueName"@) ==> r == json_error_spec("MissingParameter"@, "QueueName is required"@, 400)
        &&& params.contains_key("QueueName"@) ==> if s0.queues@.contains_key(params["QueueName"@]) {
            r == json_ok(json_queue_url(s0.queues@[params["QueueName"@]].url))
        } else {
            r == json_no_such_queue()
        }
    } else if action == "SendMessage"@ {
        &&& !params.contains_key("QueueUrl"@) ==> r == json_error_spec("MissingParameter"@, "QueueUrl is required"@, 400)
            && s1.queues@ == s0.queues@
        &&& params.contains_key("QueueUrl"@) && !params.contains_key("MessageBody"@) ==> r == json_error_spec(
            "MissingParameter"@,
            "MessageBody is required"@,
            400,
        ) && s1.queues@ == s0.queues@
        &&& params.contains_key("QueueUrl"@) && params.contains_key("MessageBody"@) ==> {
            let name = addressed_queue(params);
            if !s0.queues@.contains_key(name) {
                r == json_no_such_queue() && s1.queues@ == s0.queues@
            } else {
                let q = s0.queues@[name];
                if is_duplicate(q, opt_param(params, "MessageDeduplicationId"@)) {
                    r == json_ok(json_sent(Seq::empty(), "duplicate"@)) && s1.queues@ == s0.queues@
                } else {
                    exists|id: Seq<char>, handle: Seq<char>, now: i64|
                        s1.queues@ == s0.queues@.insert(
                            name,
                            admitted_spec(q, #[trigger] requested_message(q, params, id, handle, now)),
                        ) && r == json_ok(
                            json_sent(
                                requested_message(q, params, id, handle, now).md5_of_body,
                                requested_message(q, params, id, handle, now).message_id,
                            ),
                        )
                }
            }
        }
    } else if action == "ReceiveMessage"@ {
        &&& !params.contains_key("QueueUrl"@) ==> r == json_error_spec("MissingParameter"@, "QueueUrl is required"@, 400)
            && s1.queues@ == s0.queues@
        &&& params.contains_key("QueueUrl"@) ==> {
            let name = addressed_queue(params);
            if !s0.queues@.contains_key(name) {
                r == json_no_such_queue() && s1.queues@ == s0.queues@
            } else {
                exists|rs: Seq<SqsMessageView>, now: i64, handles: Seq<Seq<char>>|
                    s1.queues@.contains_key(name) && #[trigger] receive_outcome(
                        s0.queues@[name],
                        s1.queues@[name],
                        rs,
                        max_messages(params),
                        u32_param(params, "VisibilityTimeout"@),
                        now,
                        handles,
                    ) && s1.queues@ == s0.queues@.insert(name, s1.queues@[name]) && r == json_ok(
                        "{\"Messages\":["@ + json_messages(rs) + "]}"@,
                    )
            }
        }
    } else if action == "DeleteQueue"@ {
        &&& !params.contains_key("QueueUrl"@) ==> r == json_error_spec("MissingParameter"@, "QueueUrl is required"@, 400)
            && s1.queues@ == s0.queues@
        &&& params.contains_key("QueueUrl"@) ==> s1.queues@ == s0.queues@.remove(addressed_queue(params)) && if s0.queues@.contains_key(
            addressed_queue(params),
        ) {
            r == json_ok("{}"@)
        } else {
            r == json_no_such_queue()
        }
    } else {
        false
    }
}

/// The JSON-mode action names are distinct.
proof fn lemma_json_actions_distinct()
    ensures
        "CreateQueue"@ != "GetQueueUrl"@,
        "CreateQueue"@ != "SendMessage"@,
        "CreateQueue"@ != "ReceiveMessage"@,
        "CreateQueue"@ != "DeleteQueue"@,
        "GetQueueUrl"@ != "SendMessage"@,
        "GetQueueUrl"@ != "ReceiveMessage"@,
        "GetQueueUrl"@ != "DeleteQueue"@,
        "SendMessage"@ != "ReceiveMessage"@,
        "SendMessage"@ != "DeleteQueue"@,
        "ReceiveMessage"@ != "DeleteQueue"@,
{
    reveal_strlit("CreateQueue");
    reveal_strlit("GetQueueUrl");
    reveal_strlit("SendMessage");
    reveal_strlit("ReceiveMessage");
    reveal_strlit("DeleteQueue");
    assert("CreateQueue"@[0] != "GetQueueUrl"@[0]);
    assert("CreateQueue"@[0] != "SendMessage"@[0]);
    assert("CreateQueue"@.len() != "ReceiveMessage"@.len());
    assert("CreateQueue"@[0] != "DeleteQueue"@[0]);
    assert("GetQueueUrl"@[0] != "SendMessage"@[0]);
    assert("GetQueueUrl"@.len() != "ReceiveMessage"@.len());
    assert("GetQueueUrl"@[0] != "DeleteQueue"@[0]);
    assert("SendMessage"@.len() != "ReceiveMessage"@.len());
    assert("SendMessage"@[0] != "DeleteQueue"@[0]);
    assert("ReceiveMessage"@.len() != "DeleteQueue"@.len());
}

/// Whether JSON mode supports `action`.
pub open spec fn json_supported(action: Seq<char>) -> bool {
    action == "CreateQueue"@ || action == "GetQueueUrl"@ || action == "SendMessage"@ || action == "ReceiveMessage"@
        || action == "DeleteQueue"@
}

/// Handles a JSON-mode request whose action is supported.
pub fn handle_json(store: &mut SqsStore, ctx: &RequestContext, params: &StrMap<String>, action: &str) -> (r: DispatchResponse)
    requires
        old(store).wf(),
        ctx.wf(),
        params.wf(),
        json_supported(action@),
    ensures
        final(store).wf(),
        json_outcome(*old(store), *final(store), *ctx, params@, action@, r@),
{
    proof {
        lemma_json_actions_distinct();
    }
    if action.eq("CreateQueue") {
        let name = match params.get("QueueName") {
            Some(n) => n.clone(),
            None => {
                return json_error("MissingParameter", "QueueName is required", 400);
            },
        };
        let attributes = extract_indexed_kv(params, "Attribute");
        let base = base_queue_url(ctx);
        let q = store.create_queue(name, base.as_str(), ctx.account_id.as_str(), ctx.region.as_str(), &attributes);
        json_queue_url_exec(q.url.as_str())
    } else if action.eq("GetQueueUrl") {
        let name = match params.get("QueueName") {
            Some(n) => n,
            None => {
                return json_error("MissingParameter", "QueueName is required", 400);
            },
        };
        match store.get_queue_by_name(name.as_str()) {
            Some(q) => json_queue_url_exec(q.url.as_str()),
            None => json_error("AWS.SimpleQueueService.NonExistentQueue", "The specified queue does not exist.", 400),
        }
    } else if action.eq("SendMessage") {
        json_send_message(store, params)
    } else if action.eq("ReceiveMessage") {
        json_receive_message(store, params)
    } else {
        let url = match params.get("QueueUrl") {
            Some(u) => u,
            None => {
                return json_error("MissingParameter", "QueueUrl is required", 400);
            },
        };
        let name = queue_name_from_url(url.as_str());
        if store.delete_queue(name.as_str()) {
            crate::http::plain(200, "{}".to_string(), "application/x-amz-json-1.0")
        } else {
            json_error("AWS.SimpleQueueService.NonExistentQueue", "The specified queue does not exist.", 400)
        }
    }
}

fn json_send_message(store: &mut SqsStore, params: &StrMap<String>) -> (r: DispatchResponse)
    requires
        old(store).wf(),
        params.wf(),
    ensures
        final(store).wf(),
        json_outcome(*old(store), *final(store), arbitrary(), params@, "SendMessage"@, r@),
{
    proof {
        lemma_json_actions_distinct();
    }
    let url = match params.get("QueueUrl") {
        Some(u) => u,
        None => {
            return json_error("MissingParameter", "QueueUrl is required", 400);
        },
    };
    let body = match params.get("MessageBody") {
        Some(b) => b.clone(),
        None => {
            return json_error("MissingParameter", "MessageBody is required", 400);
        },
    };
    let name = queue_name_from_url(url.as_str());
    let delay = u32_param_exec(params, "DelaySeconds");
    let group = opt_param_exec(params, "MessageGroupId");
    let dedup = opt_param_exec(params, "MessageDeduplicationId");
    let attrs = extract_message_attributes(params);
    let ghost s0 = *store;
    let ghost mut qbefore: SqsQueueView = arbitrary();
    let ghost mut qafter: SqsQueueView = arbitrary();
    let outcome = match store.get_queue_by_name_mut(name.as_str()) {
        None => None,
        Some(q) => {
            proof {
                qbefore = q@;
            }
            let sent = q.send_message(body, delay, attrs, group, dedup);
            proof {
                qafter = q@;
            }
            Some(sent)
        },
    };
    let sent = match outcome {
        None => {
            return json_error("AWS.SimpleQueueService.NonExistentQueue", "The specified queue does not exist.", 400);
        },
        Some(s) => s,
    };
    proof {
        s0.queues.lemma_pos(name@);
        SqsStore::lemma_queue_replaced(&s0, store, name@);
        assert(store.queues@[name@] == qafter);
    }
    match sent {
        None => {
            proof {
                assert(store.queues@ =~= s0.queues@);
                reveal_strlit("");
            }
            json_sent_exec("", "duplicate")
        },
        Some(m) => {
            proof {
                let (id, handle, now) = choose|id: Seq<char>, handle: Seq<char>, now: i64|
                    m@ == #[trigger] sent_message_spec(
                        qbefore,
                        body@,
                        delay,
                        attrs@,
                        opt_view(group),
                        opt_view(dedup),
                        id,
                        handle,
                        now,
                    ) && qafter == admitted_spec(qbefore, m@);
                assert(requested_message(qbefore, params@, id, handle, now) == m@);
            }
            json_sent_exec(m.md5_of_body.as_str(), m.message_id.as_str())
        },
    }
}

fn json_messages_doc(messages: &Vec<SqsMessage>) -> (b: String)
    ensures
        b@ == "{\"Messages\":["@ + json_messages(views(messages@)) + "]}"@,
{
    let mut b = String::new();
    push_str(&mut b, "{\"Messages\":[");
    let ghost head = b@;
    let ghost mv = views(messages@);
    let mut i: usize = 0;
    proof {
        assert(mv.take(0) =~= Seq::<SqsMessageView>::empty());
        assert(b@ =~= head + json_messages(mv.take(0)));
    }
    while i < messages.len()
        invariant
            i <= messages@.len(),
            mv == views(messages@),
            b@ == head + json_messages(mv.take(i as int)),
        decreases messages@.len() - i,
    {
        if i > 0 {
            push_str(&mut b, ",");
        }
        let m = &messages[i];
        push_json_message(&mut b, m);
        proof {
            assert(mv.take(i + 1).drop_last() =~= mv.take(i as int));
            assert(mv.take(i + 1).last() == m@);
            if i == 0 {
                assert(mv.take(1) =~= seq![m@]);
            }
            assert(b@ =~= head + json_messages(mv.take(i + 1)));
        }
        i = i + 1;
    }
    push_str(&mut b, "]}");
    proof {
        assert(mv.take(mv.len() as int) =~= mv);
        assert(b@ =~= "{\"Messages\":["@ + json_messages(mv) + "]}"@);
    }
    b
}

fn json_receive_message(store: &mut SqsStore, params: &StrMap<String>) -> (r: DispatchResponse)
    requires
        old(store).wf(),
        params.wf(),
    ensures
        final(store).wf(),
        json_outcome(*old(store), *final(store), arbitrary(), params@, "ReceiveMessage"@, r@),
{
    proof {
        lemma_json_actions_distinct();
    }
    let url = match params.get("QueueUrl") {
        Some(u) => u,
        None => {
            return json_error("MissingParameter", "QueueUrl is required", 400);
        },
    };
    let requested_max: usize = match params.get("MaxNumberOfMessages") {
        Some(v) => {
            let c = chars_of(v.as_str());
            match crate::text::parse_usize(c.as_slice()) {
                Some(n) => n,
                None => 1,
            }
        },
        None => 1,
    };
    let max: usize = if requested_max < 10 {
        requested_max
    } else {
        10
    };
    let vt = u32_param_exec(params, "VisibilityTimeout");
    let name = queue_name_from_url(url.as_str());
    let ghost s0 = *store;
    let ghost mut qbefore: SqsQueueView = arbitrary();
    let ghost mut qafter: SqsQueueView = arbitrary();
    let outcome = match store.get_queue_by_name_mut(name.as_str()) {
        None => None,
        Some(q) => {
            proof {
                qbefore = q@;
            }
            let messages = q.receive_messages(max, vt);
            proof {
                qafter = q@;
            }
            Some(messages)
        },
    };
    let messages = match outcome {
        None => {
            return json_error("AWS.SimpleQueueService.NonExistentQueue", "The specified queue does not exist.", 400);
        },
        Some(m) => m,
    };
    proof {
        s0.queues.lemma_pos(name@);
        SqsStore::lemma_queue_replaced(&s0, store, name@);
        assert(store.queues@[name@] == qafter);
    }
    let b = json_messages_doc(&messages);
    proof {
        let (now, handles) = choose|now: i64, handles: Seq<Seq<char>>|
            #[trigger] receive_outcome(qbefore, qafter, views(messages@), max as nat, vt, now, handles);
        assert(receive_outcome(s0.queues@[name@], store.queues@[name@], views(messages@), max_messages(params@), vt, now, handles));
    }
    crate::http::plain(200, b, "application/x-amz-json-1.0")
}


/// What `handle_send_message_batch` does, as far as it is stated: a missing
/// `QueueUrl` is an error; a queue that does not exist gets an empty
/// result; otherwise only that queue may change.
pub open spec fn send_message_batch_outcome(s0: SqsStore, s1: SqsStore, params: Map<Seq<char>, Seq<char>>, rid: Seq<char>, r: ResponseView) -> bool {
    &&& !params.contains_key("QueueUrl"@) ==> r == sqs_error_spec("MissingParameter"@, "QueueUrl is required"@)
        && s1.queues@ == s0.queues@
    &&& params.contains_key("QueueUrl"@) && !s0.queues@.contains_key(addressed_queue(params)) ==> r == ok_xml(
        "SendMessageBatch"@,
        rid,
        Seq::empty(),
    ) && s1.queues@ == s0.queues@
    &&& params.contains_key("QueueUrl"@) && s0.queues@.contains_key(addressed_queue(params)) ==> {
        &&& s1.queues@.dom() == s0.queues@.dom()
        &&& forall|k: Seq<char>| k != addressed_queue(params) && #[trigger] s0.queues@.contains_key(k) ==> s1.queues@[k] == s0.queues@[k]
        &&& exists|inner: Seq<char>| r == ok_xml("SendMessageBatch"@, rid, inner)
    }
}

/// SendMessageBatch: sends each entry `SendMessageBatchRequestEntry.{i}`
/// that has an id and a body (with its own delay, group and deduplication
/// id) to the queue `QueueUrl` addresses, and lists the results; it stops
/// at the first entry when the queue does not exist.
#[verifier::rlimit(50)]
pub fn handle_send_message_batch(store: &mut SqsStore, params: &StrMap<String>, rid: &str) -> (r: DispatchResponse)
    requires
        old(store).wf(),
        params.wf(),
    ensures
        final(store).wf(),
        send_message_batch_outcome(*old(store), *final(store), params@, rid@, r@),
{
    let url = match params.get("QueueUrl") {
        Some(u) => u,
        None => {
            return sqs_error("MissingParameter", "QueueUrl is required");
        },
    };
    let name = queue_name_from_url(url.as_str());
    let entries = indexed_pairs_exec(params, "SendMessageBatchRequestEntry", ".Id", ".MessageBody");
    let ghost s0 = *store;
    let mut successful = String::new();
    let mut i: usize = 0;
    while i < entries.len()
        invariant
            i <= entries@.len(),
            params.wf(),
            store.wf(),
            s0.wf(),
            store.queues@.dom() == s0.queues@.dom(),
            forall|k: Seq<char>| k != name@ && #[trigger] s0.queues@.contains_key(k) ==> store.queues@[k] == s0.queues@[k],
            !s0.queues@.contains_key(name@) ==> store.queues@ == s0.queues@ && successful@ == Seq::<char>::empty(),
        decreases entries@.len() - i,
    {
        let idx = entries[i].0;
        let id = &entries[i].1;
        let body = entries[i].2.clone();
        let dk = crate::http::indexed_key_exec("SendMessageBatchRequestEntry", idx, ".DelaySeconds");
        let gk = crate::http::indexed_key_exec("SendMessageBatchRequestEntry", idx, ".MessageGroupId");
        let ddk = crate::http::indexed_key_exec("SendMessageBatchRequestEntry", idx, ".MessageDeduplicationId");
        let delay = u32_param_exec(params, dk.as_str());
        let group = opt_param_exec(params, gk.as_str());
        let dedup = opt_param_exec(params, ddk.as_str());
        let ghost s1 = *store;
        let sent = match store.get_queue_by_name_mut(name.as_str()) {
            None => None,
            Some(q) => Some(q.send_message(body, delay, StrMap::new(), group, dedup)),
        };
        let sent = match sent {
            None => {
                break;
            },
            Some(x) => x,
        };
        proof {
            s1.queues.lemma_pos(name@);
            SqsStore::lemma_queue_replaced(&s1, store, name@);
            assert(store.queues@.dom() =~= s1.queues@.dom());
        }
        match sent {
            None => {
                push_str(&mut successful, "<SendMessageBatchResultEntry>");
                push_element(&mut successful, "Id", id.as_str());
                push_str(&mut successful, "<MessageId>dup</MessageId><MD5OfMessageBody></MD5OfMessageBody></SendMessageBatchResultEntry>");
            },
            Some(m) => {
                push_str(&mut successful, "<SendMessageBatchResultEntry>");
                push_element(&mut successful, "Id", id.as_str());
                push_element(&mut successful, "MessageId", m.message_id.as_str());
                push_element(&mut successful, "MD5OfMessageBody", m.md5_of_body.as_str());
                push_str(&mut successful, "</SendMessageBatchResultEntry>");
            },
        }
        i = i + 1;
    }
    ok("SendMessageBatch", rid, successful.as_str())
}

/// The action names are distinct.
proof fn lemma_xml_actions_distinct()
    ensures
        "CreateQueue"@ != "DeleteQueue"@,
        "CreateQueue"@ != "ListQueues"@,
        "CreateQueue"@ != "GetQueueUrl"@,
        "CreateQueue"@ != "GetQueueAttributes"@,
        "CreateQueue"@ != "SetQueueAttributes"@,
        "CreateQueue"@ != "PurgeQueue"@,
        "CreateQueue"@ != "SendMessage"@,
        "CreateQueue"@ != "SendMessageBatch"@,
        "CreateQueue"@ != "ReceiveMessage"@,
        "CreateQueue"@ != "DeleteMessage"@,
        "CreateQueue"@ != "DeleteMessageBatch"@,
        "CreateQueue"@ != "ChangeMessageVisibility"@,
        "CreateQueue"@ != "ChangeMessageVisibilityBatch"@,
        "DeleteQueue"@ != "ListQueues"@,
        "DeleteQueue"@ != "GetQueueUrl"@,
        "DeleteQueue"@ != "GetQueueAttributes"@,
        "DeleteQueue"@ != "SetQueueAttributes"@,
        "DeleteQueue"@ != "PurgeQueue"@,
        "DeleteQueue"@ != "SendMessage"@,
        "DeleteQueue"@ != "SendMessageBatch"@,
        "DeleteQueue"@ != "ReceiveMessage"@,
        "DeleteQueue"@ != "DeleteMessage"@,
        "DeleteQueue"@ != "DeleteMessageBatch"@,
        "DeleteQueue"@ != "ChangeMessageVisibility"@,
        "DeleteQueue"@ != "ChangeMessageVisibilityBatch"@,
        "ListQueues"@ != "GetQueueUrl"@,
        "ListQueues"@ != "GetQueueAttributes"@,
        "ListQueues"@ != "SetQueueAttributes"@,
        "ListQueues"@ != "PurgeQueue"@,
        "ListQueues"@ != "SendMessage"@,
        "ListQueues"@ != "SendMessageBatch"@,
        "ListQueues"@ != "ReceiveMessage"@,
        "ListQueues"@ != "DeleteMessage"@,
        "ListQueues"@ != "DeleteMessageBatch"@,
        "ListQueues"@ != "ChangeMessageVisibility"@,
        "ListQueues"@ != "ChangeMessageVisibilityBatch"@,
        "GetQueueUrl"@ != "GetQueueAttributes"@,
        "GetQueueUrl"@ != "SetQueueAttributes"@,
        "GetQueueUrl"@ != "PurgeQueue"@,
        "GetQueueUrl"@ != "SendMessage"@,
        "GetQueueUrl"@ != "SendMessageBatch"@,
        "GetQueueUrl"@ != "ReceiveMessage"@,
        "GetQueueUrl"@ != "DeleteMessage"@,
        "GetQueueUrl"@ != "DeleteMessageBatch"@,
        "GetQueueUrl"@ != "ChangeMessageVisibility"@,
        "GetQueueUrl"@ != "ChangeMessageVisibilityBatch"@,
        "GetQueueAttributes"@ != "SetQueueAttributes"@,
        "GetQueueAttributes"@ != "PurgeQueue"@,
        "GetQueueAttributes"@ != "SendMessage"@,
        "GetQueueAttributes"@ != "SendMessageBatch"@,
        "GetQueueAttributes"@ != "ReceiveMessage"@,
        "GetQueueAttributes"@ != "DeleteMessage"@,
        "GetQueueAttributes"@ != "DeleteMessageBatch"@,
        "GetQueueAttributes"@ != "ChangeMessageVisibility"@,
        "GetQueueAttributes"@ != "ChangeMessageVisibilityBatch"@,
        "SetQueueAttributes"@ != "PurgeQueue"@,
        "SetQueueAttributes"@ != "SendMessage"@,
        "SetQueueAttributes"@ != "SendMessageBatch"@,
        "SetQueueAttributes"@ != "ReceiveMessage"@,
        "SetQueueAttributes"@ != "DeleteMessage"@,
        "SetQueueAttributes"@ != "DeleteMessageBatch"@,
        "SetQueueAttributes"@ != "ChangeMessageVisibility"@,
        "SetQueueAttributes"@ != "ChangeMessageVisibilityBatch"@,
        "PurgeQueue"@ != "SendMessage"@,
        "PurgeQueue"@ != "SendMessageBatch"@,
        "PurgeQueue"@ != "ReceiveMessage"@,
        "PurgeQueue"@ != "DeleteMessage"@,
        "PurgeQueue"@ != "DeleteMessageBatch"@,
        "PurgeQueue"@ != "ChangeMessageVisibility"@,
        "PurgeQueue"@ != "ChangeMessageVisibilityBatch"@,
        "SendMessage"@ != "SendMessageBatch"@,
        "SendMessage"@ != "ReceiveMessage"@,
        "SendMessage"@ != "DeleteMessage"@,
        "SendMessage"@ != "DeleteMessageBatch"@,
        "SendMessage"@ != "ChangeMessageVisibility"@,
        "SendMessage"@ != "ChangeMessageVisibilityBatch"@,
        "SendMessageBatch"@ != "ReceiveMessage"@,
        "SendMessageBatch"@ != "DeleteMessage"@,
        "SendMessageBatch"@ != "DeleteMessageBatch"@,
        "SendMessageBatch"@ != "ChangeMessageVisibility"@,
        "SendMessageBatch"@ != "ChangeMessageVisibilityBatch"@,
        "ReceiveMessage"@ != "DeleteMessage"@,
        "ReceiveMessage"@ != "DeleteMessageBatch"@,
        "ReceiveMessage"@ != "ChangeMessageVisibility"@,
        "ReceiveMessage"@ != "ChangeMessageVisibilityBatch"@,
        "DeleteMessage"@ != "DeleteMessageBatch"@,
        "DeleteMessage"@ != "ChangeMessageVisibility"@,
        "DeleteMessage"@ != "ChangeMessageVisibilityBatch"@,
        "DeleteMessageBatch"@ != "ChangeMessageVisibility"@,
        "DeleteMessageBatch"@ != "ChangeMessageVisibilityBatch"@,
        "ChangeMessageVisibility"@ != "ChangeMessageVisibilityBatch"@,
{
    reveal_strlit("CreateQueue");
    reveal_strlit("DeleteQueue");
    reveal_strlit("ListQueues");
    reveal_strlit("GetQueueUrl");
    reveal_strlit("GetQueueAttributes");
    reveal_strlit("SetQueueAttributes");
    reveal_strlit("PurgeQueue");
    reveal_strlit("SendMessage");
    reveal_strlit("SendMessageBatch");
    reveal_strlit("ReceiveMessage");
    reveal_strlit("DeleteMessage");
    reveal_strlit("DeleteMessageBatch");
    reveal_strlit("ChangeMessageVisibility");
    reveal_strlit("ChangeMessageVisibilityBatch");
    assert("CreateQueue"@[0] != "DeleteQueue"@[0]);
    assert("CreateQueue"@.len() != "ListQueues"@.len());
    assert("CreateQueue"@[0] != "GetQueueUrl"@[0]);
    assert("CreateQueue"@.len() != "GetQueueAttributes"@.len());
    assert("CreateQueue"@.len() != "SetQueueAttributes"@.len());
    assert("CreateQueue"@.len() != "PurgeQueue"@.len());
    assert("CreateQueue"@[0] != "SendMessage"@[0]);
    assert("CreateQueue"@.len() != "SendMessageBatch"@.len());
    assert("CreateQueue"@.len() != "ReceiveMessage"@.len());
    assert("CreateQueue"@.len() != "DeleteMessage"@.len());
    assert("CreateQueue"@.len() != "DeleteMessageBatch"@.len());
    assert("CreateQueue"@.len() != "ChangeMessageVisibility"@.len());
    assert("CreateQueue"@.len() != "ChangeMessageVisibilityBatch"@.len());
    assert("DeleteQueue"@.len() != "ListQueues"@.len());
    assert("DeleteQueue"@[0] != "GetQueueUrl"@[0]);
    assert("DeleteQueue"@.len() != "GetQueueAttributes"@.len());
    assert("DeleteQueue"@.len() != "SetQueueAttributes"@.len());
    assert("DeleteQueue"@.len() != "PurgeQueue"@.len());
    assert("DeleteQueue"@[0] != "SendMessage"@[0]);
    assert("DeleteQueue"@.len() != "SendMessageBatch"@.len());
    assert("DeleteQueue"@.len() != "ReceiveMessage"@.len());
    assert("DeleteQueue"@.len() != "DeleteMessage"@.len());
    assert("DeleteQueue"@.len() != "DeleteMessageBatch"@.len());
    assert("DeleteQueue"@.len() != "ChangeMessageVisibility"@.len());
    assert("DeleteQueue"@.len() != "ChangeMessageVisibilityBatch"@.len());
    assert("ListQueues"@.len() != "GetQueueUrl"@.len());
    assert("ListQueues"@.len() != "GetQueueAttributes"@.len());
    assert("ListQueues"@.len() != "SetQueueAttributes"@.len());
    assert("ListQueues"@[0] != "PurgeQueue"@[0]);
    assert("ListQueues"@.len() != "SendMessage"@.len());
    assert("ListQueues"@.len() != "SendMessageBatch"@.len());
    assert("ListQueues"@.len() != "ReceiveMessage"@.len());
    assert("ListQueues"@.len() != "DeleteMessage"@.len());
    assert("ListQueues"@.len() != "DeleteMessageBatch"@.len());
    assert("ListQueues"@.len() != "ChangeMessageVisibility"@.len());
    assert("ListQueues"@.len() != "ChangeMessageVisibilityBatch"@.len());
    assert("GetQueueUrl"@.len() != "GetQueueAttributes"@.len());
    assert("GetQueueUrl"@.len() != "SetQueueAttributes"@.len());
    assert("GetQueueUrl"@.len() != "PurgeQueue"@.len());
    assert("GetQueueUrl"@[0] != "SendMessage"@[0]);
    assert("GetQueueUrl"@.len() != "SendMessageBatch"@.len());
    assert("GetQueueUrl"@.len() != "ReceiveMessage"@.len());
    assert("GetQueueUrl"@.len() != "DeleteMessage"@.len());
    assert("GetQueueUrl"@.len() != "DeleteMessageBatch"@.len());
    assert("GetQueueUrl"@.len() != "ChangeMessageVisibility"@.len());
    assert("GetQueueUrl"@.len() != "ChangeMessageVisibilityBatch"@.len());
    assert("GetQueueAttributes"@[0] != "SetQueueAttributes"@[0]);
    assert("GetQueueAttributes"@.len() != "PurgeQueue"@.len());
    assert("GetQueueAttributes"@.len() != "SendMessage"@.len());
    assert("GetQueueAttributes"@.len() != "SendMessageBatch"@.len());
    assert("GetQueueAttributes"@.len() != "ReceiveMessage"@.len());
    assert("GetQueueAttributes"@.len() != "DeleteMessage"@.len());
    assert("GetQueueAttributes"@[0] != "DeleteMessageBatch"@[0]);
    assert("GetQueueAttributes"@.len() != "ChangeMessageVisibility"@.len());
    assert("GetQueueAttributes"@.len() != "ChangeMessageVisibilityBatch"@.len());
    assert("SetQueueAttributes"@.len() != "PurgeQueue"@.len());
    assert("SetQueueAttributes"@.len() != "SendMessage"@.len());
    assert("SetQueueAttributes"@.len() != "SendMessageBatch"@.len());
    assert("SetQueueAttributes"@.len() != "ReceiveMessage"@.len());
    assert("SetQueueAttributes"@.len() != "DeleteMessage"@.len());
    assert("SetQueueAttributes"@[0] != "DeleteMessageBatch"@[0]);
    assert("SetQueueAttributes"@.len() != "ChangeMessageVisibility"@.len());
    assert("SetQueueAttributes"@.len() != "ChangeMessageVisibilityBatch"@.len());
    assert("PurgeQueue"@.len() != "SendMessage"@.len());
    assert("PurgeQueue"@.len() != "SendMessageBatch"@.len());
    assert("PurgeQueue"@.len() != "ReceiveMessage"@.len());
    assert("PurgeQueue"@.len() != "DeleteMessage"@.len());
    assert("PurgeQueue"@.len() != "DeleteMessageBatch"@.len());
    assert("PurgeQueue"@.len() != "ChangeMessageVisibility"@.len());
    assert("PurgeQueue"@.len() != "ChangeMessageVisibilityBatch"@.len());
    assert("SendMessage"@.len() != "SendMessageBatch"@.len());
    assert("SendMessage"@.len() != "ReceiveMessage"@.len());
    assert("SendMessage"@.len() != "DeleteMessage"@.len());
    assert("SendMessage"@.len() != "DeleteMessageBatch"@.len());
    assert("SendMessage"@.len() != "ChangeMessageVisibility"@.len());
    assert("SendMessage"@.len() != "ChangeMessageVisibilityBatch"@.len());
    assert("SendMessageBatch"@.len() != "ReceiveMessage"@.len());
    assert("SendMessageBatch"@.len() != "DeleteMessage"@.len());
    assert("SendMessageBatch"@.len() != "DeleteMessageBatch"@.len());
    assert("SendMessageBatch"@.len() != "ChangeMessageVisibility"@.len());
    assert("SendMessageBatch"@.len() != "ChangeMessageVisibilityBatch"@.len());
    assert("ReceiveMessage"@.len() != "DeleteMessage"@.len());
    assert("ReceiveMessage"@.len() != "DeleteMessageBatch"@.len());
    assert("ReceiveMessage"@.len() != "ChangeMessageVisibility"@.len());
    assert("ReceiveMessage"@.len() != "ChangeMessageVisibilityBatch"@.len());
    assert("DeleteMessage"@.len() != "DeleteMessageBatch"@.len());
    assert("DeleteMessage"@.len() != "ChangeMessageVisibility"@.len());
    assert("DeleteMessage"@.len() != "ChangeMessageVisibilityBatch"@.len());
    assert("DeleteMessageBatch"@.len() != "ChangeMessageVisibility"@.len());
    assert("DeleteMessageBatch"@.len() != "ChangeMessageVisibilityBatch"@.len());
    assert("ChangeMessageVisibility"@.len() != "ChangeMessageVisibilityBatch"@.len());
}

/// Whether query mode supports `action`.
pub open spec fn xml_supported(action: Seq<char>) -> bool {
    action == "CreateQueue"@
        || action == "DeleteQueue"@
        || action == "ListQueues"@
        || action == "GetQueueUrl"@
        || action == "GetQueueAttributes"@
        || action == "SetQueueAttributes"@
        || action == "PurgeQueue"@
        || action == "SendMessage"@
        || action == "SendMessageBatch"@
        || action == "ReceiveMessage"@
        || action == "DeleteMessage"@
        || action == "DeleteMessageBatch"@
        || action == "ChangeMessageVisibility"@
        || action == "ChangeMessageVisibilityBatch"@
}

/// What a query-mode request does, by its action.
pub open spec fn xml_outcome(s0: SqsStore, s1: SqsStore, ctx: RequestContext, params: Map<Seq<char>, Seq<char>>, action: Seq<char>, rid: Seq<char>, now: i64, r: ResponseView) -> bool {
    if action == "CreateQueue"@ {
        create_queue_outcome(s0, s1, ctx, params, rid, r)
    } else if action == "DeleteQueue"@ {
        delete_queue_outcome(s0, s1, params, rid, r)
    } else if action == "ListQueues"@ {
        list_queues_outcome(s0, params, rid, r) && s1.queues@ == s0.queues@
    } else if action == "GetQueueUrl"@ {
        get_queue_url_outcome(s0, params, rid, r) && s1.queues@ == s0.queues@
    } else if action == "GetQueueAttributes"@ {
        get_queue_attributes_outcome(s0, params, rid, now, r) && s1.queues@ == s0.queues@
    } else if action == "SetQueueAttributes"@ {
        set_queue_attributes_outcome(s0, s1, params, rid, r)
    } else if action == "PurgeQueue"@ {
        purge_queue_outcome(s0, s1, params, rid, r)
    } else if action == "SendMessage"@ {
        send_message_outcome(s0, s1, params, rid, r)
    } else if action == "SendMessageBatch"@ {
        send_message_batch_outcome(s0, s1, params, rid, r)
    } else if action == "ReceiveMessage"@ {
        receive_message_outcome(s0, s1, params, rid, r)
    } else if action == "DeleteMessage"@ {
        delete_message_outcome(s0, s1, params, rid, r)
    } else if action == "DeleteMessageBatch"@ {
        delete_message_batch_outcome(s0, s1, params, rid, r)
    } else if action == "ChangeMessageVisibility"@ {
        change_message_visibility_outcome(s0, s1, params, rid, r)
    } else if action == "ChangeMessageVisibilityBatch"@ {
        change_message_visibility_batch_outcome(s0, s1, params, rid, r)
    } else {
        false
    }
}

/// Routes a query-mode request to its handler.
pub fn handle_xml(store: &mut SqsStore, ctx: &RequestContext, params: &StrMap<String>, action: &str, rid: &str, now: i64) -> (r: DispatchResponse)
    requires
        old(store).wf(),
        ctx.wf(),
        params.wf(),
        xml_supported(action@),
    ensures
        final(store).wf(),
        xml_outcome(*old(store), *final(store), *ctx, params@, action@, rid@, now, r@),
{
    proof {
        lemma_xml_actions_distinct();
    }
    if action.eq("CreateQueue") {
        handle_create_queue(store, ctx, params, rid)
    } else if action.eq("DeleteQueue") {
        handle_delete_queue(store, params, rid)
    } else if action.eq("ListQueues") {
        handle_list_queues(store, params, rid)
    } else if action.eq("GetQueueUrl") {
        handle_get_queue_url(store, params, rid)
    } else if action.eq("GetQueueAttributes") {
        handle_get_queue_attributes_at(store, params, rid, now)
    } else if action.eq("SetQueueAttributes") {
        handle_set_queue_attributes(store, params, rid)
    } else if action.eq("PurgeQueue") {
        handle_purge_queue(store, params, rid)
    } else if action.eq("SendMessage") {
        handle_send_message(store, params, rid)
    } else if action.eq("SendMessageBatch") {
        handle_send_message_batch(store, params, rid)
    } else if action.eq("ReceiveMessage") {
        handle_receive_message(store, params, rid)
    } else if action.eq("DeleteMessage") {
        handle_delete_message(store, params, rid)
    } else if action.eq("DeleteMessageBatch") {
        handle_delete_message_batch(store, params, rid)
    } else if action.eq("ChangeMessageVisibility") {
        handle_change_message_visibility(store, params, rid)
    } else {
        handle_change_message_visibility_batch(store, params, rid)
    }
}


// ---------------------------------------------------------------------------
// Dispatch
// ---------------------------------------------------------------------------

/// The parameters a request is handled with: read as `sqs_params_spec`
/// says, then with `QueueUrl` moved onto the endpoint.
pub open spec fn request_params(ctx: RequestContext) -> Map<Seq<char>, Seq<char>> {
    transport_compat_spec(ctx.headers@, sqs_params_spec(ctx))
}

/// Whether the request asks for JSON responses (`x-amzn-query-mode: true`).
pub open spec fn json_mode(headers: Map<Seq<char>, Seq<char>>) -> bool {
    headers.contains_key("x-amzn-query-mode"@) && headers["x-amzn-query-mode"@] == "true"@
}

/// What dispatching a request does: a request without `Action` and one
/// whose action the mode does not support are refused as not implemented
/// and change nothing; the others do what their handler does.
pub open spec fn dispatch_outcome(
    s0: SqsStore,
    s1: SqsStore,
    ctx: RequestContext,
    rid: Seq<char>,
    now: i64,
    r: Result<DispatchResponse, DispatchError>,
) -> bool {
    let params = request_params(ctx);
    if !params.contains_key("Action"@) {
        s1.queues@ == s0.queues@ && (r matches Err(DispatchError::NotImplemented(a)) && a@ == "(missing Action)"@)
    } else {
        let action = params["Action"@];
        if json_mode(ctx.headers@) {
            if json_supported(action) {
                r matches Ok(resp) && json_outcome(s0, s1, ctx, params, action, resp@)
            } else {
                s1.queues@ == s0.queues@ && (r matches Err(DispatchError::NotImplemented(a)) && a@ == action)
            }
        } else {
            if xml_supported(action) {
                r matches Ok(resp) && xml_outcome(s0, s1, ctx, params, action, rid, now, resp@)
            } else {
                s1.queues@ == s0.queues@ && (r matches Err(DispatchError::NotImplemented(a)) && a@ == action)
            }
        }
    }
}

/// Handles one request with request id `rid`, reading queue attributes as
/// of `now`.
pub fn dispatch_at(store: &mut SqsStore, ctx: &RequestContext, rid: &str, now: i64) -> (r: Result<DispatchResponse, DispatchError>)
    requires
        old(store).wf(),
        ctx.wf(),
    ensures
        final(store).wf(),
        dispatch_outcome(*old(store), *final(store), *ctx, rid@, now, r),
{
    let mut params = parse_params(ctx);
    apply_transport_compat(ctx, &mut params);
    let json = match ctx.headers.get("x-amzn-query-mode") {
        Some(v) => v.as_str().eq("true"),
        None => false,
    };
    let action = match params.get("Action") {
        Some(a) => a.clone(),
        None => {
            return Err(DispatchError::NotImplemented("(missing Action)".to_string()));
        },
    };
    proof {
        lemma_json_actions_distinct();
        lemma_xml_actions_distinct();
    }
    if json {
        let supported = action.as_str().eq("CreateQueue") || action.as_str().eq("GetQueueUrl") || action.as_str().eq(
            "SendMessage",
        ) || action.as_str().eq("ReceiveMessage") || action.as_str().eq("DeleteQueue");
        if !supported {
            return Err(DispatchError::NotImplemented(action));
        }
        Ok(handle_json(store, ctx, &params, action.as_str()))
    } else {
        let a = action.as_str();
        let supported = a.eq("CreateQueue") || a.eq("DeleteQueue") || a.eq("ListQueues") || a.eq("GetQueueUrl") || a.eq(
            "GetQueueAttributes",
        ) || a.eq("SetQueueAttributes") || a.eq("PurgeQueue") || a.eq("SendMessage") || a.eq("SendMessageBatch")
            || a.eq("ReceiveMessage") || a.eq("DeleteMessage") || a.eq("DeleteMessageBatch") || a.eq(
            "ChangeMessageVisibility",
        ) || a.eq("ChangeMessageVisibilityBatch");
        if !supported {
            return Err(DispatchError::NotImplemented(action));
        }
        Ok(handle_xml(store, ctx, &params, a, rid, now))
    }
}

/// Handles one request, with a fresh request id and the current time.
pub fn dispatch(store: &mut SqsStore, ctx: &RequestContext) -> (r: Result<DispatchResponse, DispatchError>)
    requires
        old(store).wf(),
        ctx.wf(),
    ensures
        final(store).wf(),
        exists|rid: Seq<char>, now: i64| crate::deps::is_uuid_text(rid) && #[trigger] dispatch_outcome(*old(store), *final(store), *ctx, rid, now, r),
{
    let rid = crate::deps::new_uuid();
    let now = crate::deps::now_millis();
    dispatch_at(store, ctx, rid.as_str(), now)
}

} // verus!
