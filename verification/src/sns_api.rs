//! The SNS request layer: query parameters in, XML documents out, and the
//! deliveries a publish fans out to.
//!
//! Handlers that would read the clock or draw a fresh identifier take
//! those values as arguments; `dispatch` draws them.
use vstd::prelude::*;

use crate::http::{indexed_kv_spec, extract_indexed_kv, plain_response, DispatchError, DispatchResponse, RequestContext, ResponseView};
use crate::query::{
    attributes_spec, element, message_attribute_parts, parse_query_params, part_view, parts_map, push_element,
    query_params_spec, xml_error, xml_error_body, xml_no_result, xml_no_result_body, xml_wrap, xml_wrap_body,
    AttributeParts,
};
use crate::sns::{
    created_topic_spec, new_subscription_spec, parse_protocol_spec, policy_matches, protocol_name,
    subscription_arn_spec, subscription_attribute_set, topic_arn_spec, topic_attribute_set, without_topic,
    MessageAttribute, Protocol, SnsStore, SnsStoreView, Subscription, SubscriptionView, Topic, TopicView,
};
use crate::json::{json_member, push_json_member};
use crate::sqs::MessageAttributeValueView;
use crate::strmap::StrMap;
use crate::text::{bool_spec, decimal_spec, escape_xml_spec, push_bool, push_decimal, push_escaped, push_str};

verus! {

/// The XML namespace of SNS responses.
pub open spec fn sns_ns() -> Seq<char> {
    "https://sns.amazonaws.com/doc/2010-03-31/"@
}

// ---------------------------------------------------------------------------
// Responses
// ---------------------------------------------------------------------------

/// A successful response with a result element.
pub open spec fn sns_ok(action: Seq<char>, rid: Seq<char>, inner: Seq<char>) -> ResponseView {
    plain_response(200, xml_wrap_body(sns_ns(), action, rid, inner), "text/xml"@)
}

/// A successful response without a result element.
pub open spec fn sns_ok_empty(action: Seq<char>, rid: Seq<char>) -> ResponseView {
    plain_response(200, xml_no_result_body(sns_ns(), action, rid), "text/xml"@)
}

/// An error response with the given status.
pub open spec fn sns_error_spec(code: Seq<char>, message: Seq<char>, status: u16) -> ResponseView {
    plain_response(status, xml_error_body(sns_ns(), code, message), "text/xml"@)
}

/// A 400 `InvalidParameter` error.
pub open spec fn invalid_parameter(message: Seq<char>) -> ResponseView {
    sns_error_spec("InvalidParameter"@, message, 400)
}

/// The 404 answer for a topic that does not exist.
pub open spec fn topic_not_found() -> ResponseView {
    sns_error_spec("NotFound"@, "Topic not found"@, 404)
}

/// The 404 answer for a subscription that does not exist.
pub open spec fn subscription_not_found() -> ResponseView {
    sns_error_spec("NotFound"@, "Subscription not found"@, 404)
}

fn ok(action: &str, rid: &str, inner: &str) -> (r: DispatchResponse)
    ensures
        r@ == sns_ok(action@, rid@, inner@),
{
    xml_wrap("https://sns.amazonaws.com/doc/2010-03-31/", action, rid, inner)
}

fn ok_no_result(action: &str, rid: &str) -> (r: DispatchResponse)
    ensures
        r@ == sns_ok_empty(action@, rid@),
{
    xml_no_result("https://sns.amazonaws.com/doc/2010-03-31/", action, rid)
}

fn sns_error(code: &str, message: &str, status: u16) -> (r: DispatchResponse)
    ensures
        r@ == sns_error_spec(code@, message@, status),
{
    xml_error("https://sns.amazonaws.com/doc/2010-03-31/", code, message, status)
}

fn invalid(message: &str) -> (r: DispatchResponse)
    ensures
        r@ == invalid_parameter(message@),
{
    sns_error("InvalidParameter", message, 400)
}

fn topic_missing() -> (r: DispatchResponse)
    ensures
        r@ == topic_not_found(),
{
    sns_error("NotFound", "Topic not found", 404)
}

fn subscription_missing() -> (r: DispatchResponse)
    ensures
        r@ == subscription_not_found(),
{
    sns_error("NotFound", "Subscription not found", 404)
}

/// The value of `key`, or the empty string.
pub open spec fn param_or_empty(params: Map<Seq<char>, Seq<char>>, key: Seq<char>) -> Seq<char> {
    if params.contains_key(key) {
        params[key]
    } else {
        Seq::empty()
    }
}

fn param_or_empty_exec(params: &StrMap<String>, key: &str) -> (r: String)
    requires
        params.wf(),
    ensures
        r@ == param_or_empty(params@, key@),
{
    match params.get(key) {
        Some(v) => v.clone(),
        None => String::new(),
    }
}

/// `<entry><key>{key}</key><value>{value, escaped}</value></entry>`
pub open spec fn entry_xml(key: Seq<char>, value: Seq<char>) -> Seq<char> {
    "<entry><key>"@ + key + "</key><value>"@ + escape_xml_spec(value) + "</value></entry>"@
}

fn push_entry(out: &mut String, key: &str, value: &str)
    ensures
        final(out)@ == old(out)@ + entry_xml(key@, value@),
{
    push_str(out, "<entry><key>");
    push_str(out, key);
    push_str(out, "</key><value>");
    push_escaped(out, value);
    push_str(out, "</value></entry>");
    proof {
        assert(out@ =~= old(out)@ + entry_xml(key@, value@));
    }
}

// ---------------------------------------------------------------------------
// Topics
// ---------------------------------------------------------------------------

/// What `handle_create_topic_at` does: its store change and its response.
pub open spec fn create_topic_outcome(
    s0: SnsStoreView,
    s1: SnsStoreView,
    ctx: RequestContext,
    params: Map<Seq<char>, Seq<char>>,
    rid: Seq<char>,
    now: i64,
    r: ResponseView,
) -> bool {
    &&& !params.contains_key("Name"@) ==> r == invalid_parameter("Name is required"@) && s1 == s0
    &&& params.contains_key("Name"@) ==> {
        let name = params["Name"@];
        let arn = topic_arn_spec(ctx.region@, ctx.account_id@, name);
        &&& s0.topics.contains_key(arn) ==> s1 == s0
        &&& !s0.topics.contains_key(arn) ==> s1 == (SnsStoreView {
            topics: s0.topics.insert(
                arn,
                created_topic_spec(name, ctx.account_id@, ctx.region@, indexed_kv_spec(params, "Attributes.entry"@), now),
            ),
            ..s0
        })
        &&& r == sns_ok("CreateTopic"@, rid, element("TopicArn"@, s1.topics[arn].topic_arn))
    }
}

/// CreateTopic: creates the topic `Name` in the caller's account and
/// region (unless it exists) with the `Attributes.entry.{i}` attributes,
/// and answers with its ARN.
pub fn handle_create_topic_at(
    store: &mut SnsStore,
    ctx: &RequestContext,
    params: &StrMap<String>,
    rid: &str,
    now: i64,
) -> (r: DispatchResponse)
    requires
        old(store).wf(),
        params.wf(),
    ensures
        final(store).wf(),
        create_topic_outcome(old(store)@, final(store)@, *ctx, params@, rid@, now, r@),
{
    let name = match params.get("Name") {
        Some(n) => n,
        None => {
            return invalid("Name is required");
        },
    };
    let attrs = extract_indexed_kv(params, "Attributes.entry");
    let topic = store.create_topic_at(name.as_str(), ctx.account_id.as_str(), ctx.region.as_str(), &attrs, now);
    let mut inner = String::new();
    push_element(&mut inner, "TopicArn", topic.topic_arn.as_str());
    ok("CreateTopic", rid, inner.as_str())
}

/// What `handle_delete_topic` does: its store change and its response.
pub open spec fn delete_topic_outcome(
    s0: SnsStoreView,
    s1: SnsStoreView,
    params: Map<Seq<char>, Seq<char>>,
    rid: Seq<char>,
    r: ResponseView,
) -> bool {
    &&& !params.contains_key("TopicArn"@) ==> r == invalid_parameter("TopicArn is required"@) && s1 == s0
    &&& params.contains_key("TopicArn"@) ==> {
        let arn = params["TopicArn"@];
        if s0.topics.contains_key(arn) {
            &&& s1 == (SnsStoreView {
                topics: s0.topics.remove(arn),
                subscriptions: without_topic(s0.subscriptions, arn),
            })
            &&& r == sns_ok_empty("DeleteTopic"@, rid)
        } else {
            s1 == s0 && r == topic_not_found()
        }
    }
}

/// DeleteTopic: deletes topic `TopicArn` and its subscriptions.
pub fn handle_delete_topic(store: &mut SnsStore, params: &StrMap<String>, rid: &str) -> (r: DispatchResponse)
    requires
        old(store).wf(),
        params.wf(),
    ensures
        final(store).wf(),
        delete_topic_outcome(old(store)@, final(store)@, params@, rid@, r@),
{
    let arn = match params.get("TopicArn") {
        Some(a) => a,
        None => {
            return invalid("TopicArn is required");
        },
    };
    if store.delete_topic(arn.as_str()) {
        ok_no_result("DeleteTopic", rid)
    } else {
        topic_missing()
    }
}

/// `<member><TopicArn>..</TopicArn></member>` for each topic.
pub open spec fn topic_members_xml(ts: Seq<Topic>) -> Seq<char>
    decreases ts.len(),
{
    if ts.len() == 0 {
        Seq::empty()
    } else {
        topic_members_xml(ts.drop_last()) + "<member>"@ + element("TopicArn"@, ts.last().topic_arn@) + "</member>"@
    }
}

/// What `handle_list_topics` answers.
pub open spec fn list_topics_outcome(s0: SnsStore, rid: Seq<char>, r: ResponseView) -> bool {
    r == sns_ok("ListTopics"@, rid, "<Topics>"@ + topic_members_xml(s0.topics.vals_seq()) + "</Topics>"@)
}

/// ListTopics: the ARNs of all topics, in the order they were created.
pub fn handle_list_topics(store: &SnsStore, rid: &str) -> (r: DispatchResponse)
    requires
        store.wf(),
    ensures
        list_topics_outcome(*store, rid@, r@),
{
    let topics = store.list_topics();
    let ghost ts = store.topics.vals_seq();
    let mut inner = String::new();
    push_str(&mut inner, "<Topics>");
    let ghost start = inner@;
    let mut i: usize = 0;
    proof {
        assert(ts.take(0) =~= Seq::<Topic>::empty());
        assert(inner@ =~= start + topic_members_xml(ts.take(0)));
    }
    while i < topics.len()
        invariant
            i <= topics@.len(),
            topics@.len() == ts.len(),
            ts == store.topics.vals_seq(),
            forall|j: int| 0 <= j < topics@.len() ==> *(#[trigger] topics@[j]) == ts[j],
            inner@ == start + topic_members_xml(ts.take(i as int)),
        decreases topics@.len() - i,
    {
        push_str(&mut inner, "<member>");
        push_element(&mut inner, "TopicArn", topics[i].topic_arn.as_str());
        push_str(&mut inner, "</member>");
        proof {
            assert(ts.take(i + 1).drop_last() =~= ts.take(i as int));
            assert(ts.take(i + 1).last() == *topics@[i as int]);
            assert(inner@ =~= start + topic_members_xml(ts.take(i + 1)));
        }
        i = i + 1;
    }
    push_str(&mut inner, "</Topics>");
    proof {
        assert(ts.take(ts.len() as int) =~= ts);
        assert(inner@ =~= "<Topics>"@ + topic_members_xml(ts) + "</Topics>"@);
    }
    ok("ListTopics", rid, inner.as_str())
}

/// The subscriptions of `store` to topic `arn`, in the order they were made.
pub open spec fn topic_subscriptions(store: SnsStore, arn: Seq<char>) -> Seq<Subscription> {
    store.subscriptions.vals_seq().filter(|s: Subscription| s.topic_arn@ == arn)
}

/// The `<Attributes>` document of a topic with `count` subscriptions.
pub open spec fn topic_attributes_xml(t: TopicView, count: nat) -> Seq<char> {
    "<Attributes>"@ + entry_xml("TopicArn"@, t.topic_arn) + entry_xml("DisplayName"@, t.display_name) + entry_xml(
        "Owner"@,
        t.owner,
    ) + entry_xml("SubscriptionsConfirmed"@, decimal_spec(count)) + entry_xml("SubscriptionsPending"@, "0"@)
        + entry_xml("SubscriptionsDeleted"@, "0"@) + entry_xml("FifoTopic"@, bool_spec(t.fifo)) + entry_xml(
        "ContentBasedDeduplication"@,
        bool_spec(t.content_based_deduplication),
    ) + match t.policy {
        Some(p) => entry_xml("Policy"@, p),
        None => Seq::empty(),
    } + "</Attributes>"@
}

/// What `handle_get_topic_attributes` answers.
pub open spec fn get_topic_attributes_outcome(s0: SnsStore, params: Map<Seq<char>, Seq<char>>, rid: Seq<char>, r: ResponseView) -> bool {
    &&& !params.contains_key("TopicArn"@) ==> r == invalid_parameter("TopicArn is required"@)
    &&& params.contains_key("TopicArn"@) ==> {
        let arn = params["TopicArn"@];
        if s0@.topics.contains_key(arn) {
            r == sns_ok(
                "GetTopicAttributes"@,
                rid,
                topic_attributes_xml(s0@.topics[arn], topic_subscriptions(s0, arn).len()),
            )
        } else {
            r == topic_not_found()
        }
    }
}

/// GetTopicAttributes: the attributes of topic `TopicArn`, with the number
/// of its subscriptions as the confirmed count.
pub fn handle_get_topic_attributes(store: &SnsStore, params: &StrMap<String>, rid: &str) -> (r: DispatchResponse)
    requires
        store.wf(),
        params.wf(),
    ensures
        get_topic_attributes_outcome(*store, params@, rid@, r@),
{
    let arn = match params.get("TopicArn") {
        Some(a) => a,
        None => {
            return invalid("TopicArn is required");
        },
    };
    let topic = match store.get_topic(arn.as_str()) {
        Some(t) => t,
        None => {
            return topic_missing();
        },
    };
    let subs = store.list_subscriptions_by_topic(arn.as_str());
    proof {
        assert(subs@.len() == subs@.map_values(|s: &Subscription| *s).len());
    }
    let count = subs.len();
    let mut inner = String::new();
    push_str(&mut inner, "<Attributes>");
    push_entry(&mut inner, "TopicArn", topic.topic_arn.as_str());
    push_entry(&mut inner, "DisplayName", topic.display_name.as_str());
    push_entry(&mut inner, "Owner", topic.owner.as_str());
    let mut c = String::new();
    push_decimal(&mut c, count as u64);
    push_entry(&mut inner, "SubscriptionsConfirmed", c.as_str());
    push_entry(&mut inner, "SubscriptionsPending", "0");
    push_entry(&mut inner, "SubscriptionsDeleted", "0");
    let mut f = String::new();
    push_bool(&mut f, topic.fifo);
    push_entry(&mut inner, "FifoTopic", f.as_str());
    let mut d = String::new();
    push_bool(&mut d, topic.content_based_deduplication);
    push_entry(&mut inner, "ContentBasedDeduplication", d.as_str());
    match &topic.policy {
        Some(p) => {
            push_entry(&mut inner, "Policy", p.as_str());
        },
        None => {},
    }
    push_str(&mut inner, "</Attributes>");
    proof {
        assert(inner@ =~= topic_attributes_xml(topic@, topic_subscriptions(*store, arn@).len()));
    }
    ok("GetTopicAttributes", rid, inner.as_str())
}

/// What `handle_set_topic_attributes` does: its store change and its response.
pub open spec fn set_topic_attributes_outcome(
    s0: SnsStoreView,
    s1: SnsStoreView,
    params: Map<Seq<char>, Seq<char>>,
    rid: Seq<char>,
    r: ResponseView,
) -> bool {
    if !params.contains_key("TopicArn"@) {
        r == invalid_parameter("TopicArn is required"@) && s1 == s0
    } else if !params.contains_key("AttributeName"@) {
        r == invalid_parameter("AttributeName is required"@) && s1 == s0
    } else {
        let arn = params["TopicArn"@];
        if s0.topics.contains_key(arn) {
            &&& s1 == (SnsStoreView {
                topics: s0.topics.insert(
                    arn,
                    topic_attribute_set(s0.topics[arn], params["AttributeName"@], param_or_empty(params, "AttributeValue"@)),
                ),
                ..s0
            })
            &&& r == sns_ok_empty("SetTopicAttributes"@, rid)
        } else {
            s1 == s0 && r == topic_not_found()
        }
    }
}

/// SetTopicAttributes: sets attribute `AttributeName` of topic `TopicArn`
/// to `AttributeValue` (empty when absent).
pub fn handle_set_topic_attributes(store: &mut SnsStore, params: &StrMap<String>, rid: &str) -> (r: DispatchResponse)
    requires
        old(store).wf(),
        params.wf(),
    ensures
        final(store).wf(),
        set_topic_attributes_outcome(old(store)@, final(store)@, params@, rid@, r@),
{
    let arn = match params.get("TopicArn") {
        Some(a) => a,
        None => {
            return invalid("TopicArn is required");
        },
    };
    let name = match params.get("AttributeName") {
        Some(n) => n,
        None => {
            return invalid("AttributeName is required");
        },
    };
    let value = param_or_empty_exec(params, "AttributeValue");
    if store.set_topic_attribute(arn.as_str(), name.as_str(), value.as_str()) {
        ok_no_result("SetTopicAttributes", rid)
    } else {
        topic_missing()
    }
}

// ---------------------------------------------------------------------------
// Subscriptions
// ---------------------------------------------------------------------------

/// What `handle_subscribe_at` does: its store change and its response.
pub open spec fn subscribe_outcome(
    s0: SnsStoreView,
    s1: SnsStoreView,
    ctx: RequestContext,
    params: Map<Seq<char>, Seq<char>>,
    rid: Seq<char>,
    sub_id: Seq<char>,
    now: i64,
    r: ResponseView,
) -> bool {
    if !params.contains_key("TopicArn"@) {
        r == invalid_parameter("TopicArn is required"@) && s1 == s0
    } else if !params.contains_key("Protocol"@) {
        r == invalid_parameter("Protocol is required"@) && s1 == s0
    } else {
        let arn = params["TopicArn"@];
        match parse_protocol_spec(params["Protocol"@]) {
            None => r == invalid_parameter("Unsupported protocol"@) && s1 == s0,
            Some(p) => if s0.topics.contains_key(arn) {
                &&& s1 == (SnsStoreView {
                    subscriptions: s0.subscriptions.insert(
                        subscription_arn_spec(arn, sub_id),
                        new_subscription_spec(arn, p, param_or_empty(params, "Endpoint"@), ctx.account_id@, sub_id, now),
                    ),
                    ..s0
                })
                &&& r == sns_ok("Subscribe"@, rid, element("SubscriptionArn"@, subscription_arn_spec(arn, sub_id)))
            } else {
                s1 == s0 && r == topic_not_found()
            },
        }
    }
}

/// Subscribe: subscribes `Endpoint` (empty when absent) to topic
/// `TopicArn` over `Protocol`, with subscription id `sub_id`, and answers
/// with the subscription's ARN.
pub fn handle_subscribe_at(
    store: &mut SnsStore,
    ctx: &RequestContext,
    params: &StrMap<String>,
    rid: &str,
    sub_id: &str,
    now: i64,
) -> (r: DispatchResponse)
    requires
        old(store).wf(),
        params.wf(),
    ensures
        final(store).wf(),
        subscribe_outcome(old(store)@, final(store)@, *ctx, params@, rid@, sub_id@, now, r@),
{
    let arn = match params.get("TopicArn") {
        Some(a) => a,
        None => {
            return invalid("TopicArn is required");
        },
    };
    let protocol_name = match params.get("Protocol") {
        Some(p) => p,
        None => {
            return invalid("Protocol is required");
        },
    };
    let endpoint = param_or_empty_exec(params, "Endpoint");
    let protocol = match Protocol::parse(protocol_name.as_str()) {
        Some(p) => p,
        None => {
            return invalid("Unsupported protocol");
        },
    };
    match store.subscribe_at(arn.as_str(), protocol, endpoint.as_str(), ctx.account_id.as_str(), sub_id, now) {
        None => topic_missing(),
        Some(sub_arn) => {
            let mut inner = String::new();
            push_element(&mut inner, "SubscriptionArn", sub_arn.as_str());
            ok("Subscribe", rid, inner.as_str())
        },
    }
}

/// What `handle_unsubscribe` does: its store change and its response.
pub open spec fn unsubscribe_outcome(
    s0: SnsStoreView,
    s1: SnsStoreView,
    params: Map<Seq<char>, Seq<char>>,
    rid: Seq<char>,
    r: ResponseView,
) -> bool {
    &&& !params.contains_key("SubscriptionArn"@) ==> r == invalid_parameter("SubscriptionArn is required"@) && s1 == s0
    &&& params.contains_key("SubscriptionArn"@) ==> {
        let arn = params["SubscriptionArn"@];
        &&& s1 == (SnsStoreView { subscriptions: s0.subscriptions.remove(arn), ..s0 })
        &&& r == if s0.subscriptions.contains_key(arn) {
            sns_ok_empty("Unsubscribe"@, rid)
        } else {
            subscription_not_found()
        }
    }
}

/// Unsubscribe: removes subscription `SubscriptionArn`.
pub fn handle_unsubscribe(store: &mut SnsStore, params: &StrMap<String>, rid: &str) -> (r: DispatchResponse)
    requires
        old(store).wf(),
        params.wf(),
    ensures
        final(store).wf(),
        unsubscribe_outcome(old(store)@, final(store)@, params@, rid@, r@),
{
    let arn = match params.get("SubscriptionArn") {
        Some(a) => a,
        None => {
            return invalid("SubscriptionArn is required");
        },
    };
    if store.unsubscribe(arn.as_str()) {
        ok_no_result("Unsubscribe", rid)
    } else {
        subscription_missing()
    }
}

/// The `<member>` element describing one subscription.
pub open spec fn subscription_member_xml(s: SubscriptionView) -> Seq<char> {
    "<member>"@ + element("SubscriptionArn"@, s.subscription_arn) + element("Owner"@, s.owner) + element(
        "Protocol"@,
        protocol_name(s.protocol),
    ) + element("Endpoint"@, s.endpoint) + element("TopicArn"@, s.topic_arn) + "</member>"@
}

/// The `<member>` elements of `subs`, in order.
pub open spec fn subscription_members_xml(subs: Seq<Subscription>) -> Seq<char>
    decreases subs.len(),
{
    if subs.len() == 0 {
        Seq::empty()
    } else {
        subscription_members_xml(subs.drop_last()) + subscription_member_xml(subs.last()@)
    }
}

fn push_subscription_member(out: &mut String, s: &Subscription)
    ensures
        final(out)@ == old(out)@ + subscription_member_xml(s@),
{
    push_str(out, "<member>");
    push_element(out, "SubscriptionArn", s.subscription_arn.as_str());
    push_element(out, "Owner", s.owner.as_str());
    push_element(out, "Protocol", s.protocol.as_str());
    push_element(out, "Endpoint", s.endpoint.as_str());
    push_element(out, "TopicArn", s.topic_arn.as_str());
    push_str(out, "</member>");
    proof {
        assert(out@ =~= old(out)@ + subscription_member_xml(s@));
    }
}

/// `<Subscriptions>` + the members of `subs` + `</Subscriptions>`.
pub open spec fn subscriptions_xml(subs: Seq<Subscription>) -> Seq<char> {
    "<Subscriptions>"@ + subscription_members_xml(subs) + "</Subscriptions>"@
}

fn subscriptions_doc(subs: &Vec<&Subscription>, Ghost(expected): Ghost<Seq<Subscription>>) -> (r: String)
    requires
        subs@.map_values(|s: &Subscription| *s) == expected,
    ensures
        r@ == subscriptions_xml(expected),
{
    let mut inner = String::new();
    push_str(&mut inner, "<Subscriptions>");
    let ghost start = inner@;
    let mut i: usize = 0;
    proof {
        assert(expected.take(0) =~= Seq::<Subscription>::empty());
        assert(inner@ =~= start + subscription_members_xml(expected.take(0)));
    }
    while i < subs.len()
        invariant
            i <= subs@.len(),
            subs@.map_values(|s: &Subscription| *s) == expected,
            inner@ == start + subscription_members_xml(expected.take(i as int)),
        decreases subs@.len() - i,
    {
        push_subscription_member(&mut inner, subs[i]);
        proof {
            assert(expected[i as int] == *subs@[i as int]);
            assert(expected.take(i + 1).drop_last() =~= expected.take(i as int));
            assert(inner@ =~= start + subscription_members_xml(expected.take(i + 1)));
        }
        i = i + 1;
    }
    push_str(&mut inner, "</Subscriptions>");
    proof {
        assert(expected.take(subs@.len() as int) =~= expected);
        assert(inner@ =~= subscriptions_xml(expected));
    }
    inner
}

/// What `handle_list_subscriptions` answers.
pub open spec fn list_subscriptions_outcome(s0: SnsStore, rid: Seq<char>, r: ResponseView) -> bool {
    r == sns_ok("ListSubscriptions"@, rid, subscriptions_xml(s0.subscriptions.vals_seq()))
}

/// ListSubscriptions: every subscription, in the order they were made.
pub fn handle_list_subscriptions(store: &SnsStore, rid: &str) -> (r: DispatchResponse)
    requires
        store.wf(),
    ensures
        list_subscriptions_outcome(*store, rid@, r@),
{
    let subs = store.list_subscriptions();
    proof {
        assert(subs@.map_values(|s: &Subscription| *s) =~= store.subscriptions.vals_seq());
    }
    let inner = subscriptions_doc(&subs, Ghost(store.subscriptions.vals_seq()));
    ok("ListSubscriptions", rid, inner.as_str())
}

/// What `handle_list_subscriptions_by_topic` answers.
pub open spec fn list_subscriptions_by_topic_outcome(
    s0: SnsStore,
    params: Map<Seq<char>, Seq<char>>,
    rid: Seq<char>,
    r: ResponseView,
) -> bool {
    &&& !params.contains_key("TopicArn"@) ==> r == invalid_parameter("TopicArn is required"@)
    &&& params.contains_key("TopicArn"@) ==> {
        let arn = params["TopicArn"@];
        r == if s0@.topics.contains_key(arn) {
            sns_ok("ListSubscriptionsByTopic"@, rid, subscriptions_xml(topic_subscriptions(s0, arn)))
        } else {
            topic_not_found()
        }
    }
}

/// ListSubscriptionsByTopic: the subscriptions to topic `TopicArn`, in the
/// order they were made.
pub fn handle_list_subscriptions_by_topic(store: &SnsStore, params: &StrMap<String>, rid: &str) -> (r: DispatchResponse)
    requires
        store.wf(),
        params.wf(),
    ensures
        list_subscriptions_by_topic_outcome(*store, params@, rid@, r@),
{
    let arn = match params.get("TopicArn") {
        Some(a) => a,
        None => {
            return invalid("TopicArn is required");
        },
    };
    if store.get_topic(arn.as_str()).is_none() {
        return topic_missing();
    }
    let subs = store.list_subscriptions_by_topic(arn.as_str());
    let inner = subscriptions_doc(&subs, Ghost(topic_subscriptions(*store, arn@)));
    ok("ListSubscriptionsByTopic", rid, inner.as_str())
}

/// The `<Attributes>` document of a subscription.
pub open spec fn subscription_attributes_xml(s: SubscriptionView) -> Seq<char> {
    "<Attributes>"@ + entry_xml("SubscriptionArn"@, s.subscription_arn) + entry_xml("TopicArn"@, s.topic_arn) + entry_xml(
        "Protocol"@,
        protocol_name(s.protocol),
    ) + entry_xml("Endpoint"@, s.endpoint) + entry_xml("Owner"@, s.owner) + entry_xml(
        "RawMessageDelivery"@,
        bool_spec(s.raw_message_delivery),
    ) + entry_xml("PendingConfirmation"@, bool_spec(s.pending_confirmation)) + "</Attributes>"@
}

/// What `handle_get_subscription_attributes` answers.
pub open spec fn get_subscription_attributes_outcome(
    s0: SnsStoreView,
    params: Map<Seq<char>, Seq<char>>,
    rid: Seq<char>,
    r: ResponseView,
) -> bool {
    &&& !params.contains_key("SubscriptionArn"@) ==> r == invalid_parameter("SubscriptionArn is required"@)
    &&& params.contains_key("SubscriptionArn"@) ==> {
        let arn = params["SubscriptionArn"@];
        r == if s0.subscriptions.contains_key(arn) {
            sns_ok("GetSubscriptionAttributes"@, rid, subscription_attributes_xml(s0.subscriptions[arn]))
        } else {
            subscription_not_found()
        }
    }
}

/// GetSubscriptionAttributes: the attributes of subscription
/// `SubscriptionArn`.
pub fn handle_get_subscription_attributes(store: &SnsStore, params: &StrMap<String>, rid: &str) -> (r: DispatchResponse)
    requires
        store.wf(),
        params.wf(),
    ensures
        get_subscription_attributes_outcome(store@, params@, rid@, r@),
{
    let arn = match params.get("SubscriptionArn") {
        Some(a) => a,
        None => {
            return invalid("SubscriptionArn is required");
        },
    };
    let sub = match store.get_subscription(arn.as_str()) {
        Some(s) => s,
        None => {
            return subscription_missing();
        },
    };
    let mut inner = String::new();
    push_str(&mut inner, "<Attributes>");
    push_entry(&mut inner, "SubscriptionArn", sub.subscription_arn.as_str());
    push_entry(&mut inner, "TopicArn", sub.topic_arn.as_str());
    push_entry(&mut inner, "Protocol", sub.protocol.as_str());
    push_entry(&mut inner, "Endpoint", sub.endpoint.as_str());
    push_entry(&mut inner, "Owner", sub.owner.as_str());
    let mut raw = String::new();
    push_bool(&mut raw, sub.raw_message_delivery);
    push_entry(&mut inner, "RawMessageDelivery", raw.as_str());
    let mut pending = String::new();
    push_bool(&mut pending, sub.pending_confirmation);
    push_entry(&mut inner, "PendingConfirmation", pending.as_str());
    push_str(&mut inner, "</Attributes>");
    proof {
        assert(inner@ =~= subscription_attributes_xml(sub@));
    }
    ok("GetSubscriptionAttributes", rid, inner.as_str())
}

/// What `handle_set_subscription_attributes` does: its store change and
/// its response.
pub open spec fn set_subscription_attributes_outcome(
    s0: SnsStoreView,
    s1: SnsStoreView,
    params: Map<Seq<char>, Seq<char>>,
    rid: Seq<char>,
    r: ResponseView,
) -> bool {
    if !params.contains_key("SubscriptionArn"@) {
        r == invalid_parameter("SubscriptionArn is required"@) && s1 == s0
    } else if !params.contains_key("AttributeName"@) {
        r == invalid_parameter("AttributeName is required"@) && s1 == s0
    } else {
        let arn = params["SubscriptionArn"@];
        if s0.subscriptions.contains_key(arn) {
            &&& s1 == (SnsStoreView {
                subscriptions: s0.subscriptions.insert(
                    arn,
                    subscription_attribute_set(
                        s0.subscriptions[arn],
                        params["AttributeName"@],
                        param_or_empty(params, "AttributeValue"@),
                    ),
                ),
                ..s0
            })
            &&& r == sns_ok_empty("SetSubscriptionAttributes"@, rid)
        } else {
            s1 == s0 && r == subscription_not_found()
        }
    }
}

/// SetSubscriptionAttributes: sets attribute `AttributeName` of
/// subscription `SubscriptionArn` to `AttributeValue` (empty when absent).
pub fn handle_set_subscription_attributes(store: &mut SnsStore, params: &StrMap<String>, rid: &str) -> (r: DispatchResponse)
    requires
        old(store).wf(),
        params.wf(),
    ensures
        final(store).wf(),
        set_subscription_attributes_outcome(old(store)@, final(store)@, params@, rid@, r@),
{
    let arn = match params.get("SubscriptionArn") {
        Some(a) => a,
        None => {
            return invalid("SubscriptionArn is required");
        },
    };
    let name = match params.get("AttributeName") {
        Some(n) => n,
        None => {
            return invalid("AttributeName is required");
        },
    };
    let value = param_or_empty_exec(params, "AttributeValue");
    if store.set_subscription_attribute(arn.as_str(), name.as_str(), value.as_str()) {
        ok_no_result("SetSubscriptionAttributes", rid)
    } else {
        subscription_missing()
    }
}

// ---------------------------------------------------------------------------
// Publishing
// ---------------------------------------------------------------------------

/// The message attributes of a publish: `MessageAttributes.entry.{i}.Name`,
/// `.Value.DataType` and `.Value.StringValue` for `i` from 1 while the
/// name is present.
pub fn extract_message_attributes(params: &StrMap<String>) -> (r: StrMap<MessageAttribute>)
    requires
        params.wf(),
    ensures
        r.wf(),
        r@ == attributes_spec(params@, "MessageAttributes.entry"@),
{
    let parts = message_attribute_parts(params, "MessageAttributes.entry");
    let ghost ps = parts@;
    let mut r: StrMap<MessageAttribute> = StrMap::new();
    let mut i: usize = 0;
    proof {
        assert(ps.take(0) =~= Seq::<AttributeParts>::empty());
        assert(r@ =~= parts_map(ps.take(0)));
    }
    while i < parts.len()
        invariant
            i <= ps.len(),
            parts@ == ps,
            r.wf(),
            r@ == parts_map(ps.take(i as int)),
        decreases ps.len() - i,
    {
        let p = &parts[i];
        let v = MessageAttribute {
            data_type: p.data_type.clone(),
            string_value: crate::text::copy_opt(&p.string_value),
            binary_value: None,
        };
        r.insert(p.name.clone(), v);
        proof {
            assert(ps.take(i + 1).drop_last() =~= ps.take(i as int));
            assert(ps.take(i + 1).last() == ps[i as int]);
        }
        i = i + 1;
    }
    proof {
        assert(ps.take(ps.len() as int) =~= ps);
    }
    r
}

/// The notification envelope delivered for a published message: a JSON
/// object with its members in key order.
pub open spec fn notification_spec(
    topic_arn: Seq<char>,
    message_id: Seq<char>,
    message: Seq<char>,
    subject: Seq<char>,
    timestamp: Seq<char>,
) -> Seq<char> {
    seq!['{'] + json_member("Message"@, message) + seq![','] + json_member("MessageId"@, message_id) + seq![',']
        + json_member("Signature"@, "EXAMPLE"@) + seq![','] + json_member("SignatureVersion"@, "1"@) + seq![',']
        + json_member("SigningCertURL"@, Seq::empty()) + seq![','] + json_member("Subject"@, subject) + seq![',']
        + json_member("Timestamp"@, timestamp) + seq![','] + json_member("TopicArn"@, topic_arn) + seq![',']
        + json_member("Type"@, "Notification"@) + seq![','] + json_member("UnsubscribeURL"@, Seq::empty()) + seq!['}']
}

/// Writes the notification envelope of a message published to
/// `topic_arn` at `timestamp`.
pub fn format_sns_notification(
    topic_arn: &str,
    message_id: &str,
    message: &str,
    subject: &str,
    timestamp: &str,
) -> (r: String)
    ensures
        r@ == notification_spec(topic_arn@, message_id@, message@, subject@, timestamp@),
{
    let mut r = String::new();
    r.push('{');
    push_json_member(&mut r, "Message", message);
    r.push(',');
    push_json_member(&mut r, "MessageId", message_id);
    r.push(',');
    push_json_member(&mut r, "Signature", "EXAMPLE");
    r.push(',');
    push_json_member(&mut r, "SignatureVersion", "1");
    r.push(',');
    push_json_member(&mut r, "SigningCertURL", "");
    r.push(',');
    push_json_member(&mut r, "Subject", subject);
    r.push(',');
    push_json_member(&mut r, "Timestamp", timestamp);
    r.push(',');
    push_json_member(&mut r, "TopicArn", topic_arn);
    r.push(',');
    push_json_member(&mut r, "Type", "Notification");
    r.push(',');
    push_json_member(&mut r, "UnsubscribeURL", "");
    r.push('}');
    proof {
        reveal_strlit("");
        assert(r@ =~= notification_spec(topic_arn@, message_id@, message@, subject@, timestamp@));
    }
    r
}

/// One delivery of a published message: where it goes and, for the
/// protocols that carry one, the payload.
pub struct Delivery {
    pub protocol: Protocol,
    pub endpoint: String,
    pub payload: Option<String>,
}

pub struct DeliveryView {
    pub protocol: Protocol,
    pub endpoint: Seq<char>,
    pub payload: Option<Seq<char>>,
}

impl View for Delivery {
    type V = DeliveryView;

    open spec fn view(&self) -> DeliveryView {
        DeliveryView { protocol: self.protocol, endpoint: self.endpoint@, payload: crate::text::opt_view(self.payload) }
    }
}

pub open spec fn delivery_views(ds: Seq<Delivery>) -> Seq<DeliveryView> {
    ds.map_values(|d: Delivery| d@)
}

/// Whether a subscription takes a message with `attrs`: it has no filter
/// policy, or the attributes pass it.
pub open spec fn accepts(s: SubscriptionView, attrs: Map<Seq<char>, MessageAttributeValueView>) -> bool {
    match s.filter_policy {
        Some(p) => policy_matches(p, attrs),
        None => true,
    }
}

/// The delivery a message makes to one subscription: SQS gets the raw
/// message when raw delivery is on and the envelope otherwise, HTTP and
/// HTTPS get the envelope, Lambda is invoked without a payload; other
/// protocols and subscriptions whose filter rejects the message get none.
pub open spec fn delivery_for(
    s: SubscriptionView,
    attrs: Map<Seq<char>, MessageAttributeValueView>,
    envelope: Seq<char>,
    message: Seq<char>,
) -> Option<DeliveryView> {
    if !accepts(s, attrs) {
        None
    } else {
        match s.protocol {
            Protocol::Sqs => Some(
                DeliveryView {
                    protocol: s.protocol,
                    endpoint: s.endpoint,
                    payload: Some(
                        if s.raw_message_delivery {
                            message
                        } else {
                            envelope
                        },
                    ),
                },
            ),
            Protocol::Http => Some(DeliveryView { protocol: s.protocol, endpoint: s.endpoint, payload: Some(envelope) }),
            Protocol::Https => Some(DeliveryView { protocol: s.protocol, endpoint: s.endpoint, payload: Some(envelope) }),
            Protocol::Lambda => Some(DeliveryView { protocol: s.protocol, endpoint: s.endpoint, payload: None }),
            _ => None,
        }
    }
}

/// The deliveries of a message to `subs`, in order.
pub open spec fn deliveries_spec(
    subs: Seq<Subscription>,
    attrs: Map<Seq<char>, MessageAttributeValueView>,
    envelope: Seq<char>,
    message: Seq<char>,
) -> Seq<DeliveryView>
    decreases subs.len(),
{
    if subs.len() == 0 {
        Seq::empty()
    } else {
        let before = deliveries_spec(subs.drop_last(), attrs, envelope, message);
        match delivery_for(subs.last()@, attrs, envelope, message) {
            Some(d) => before.push(d),
            None => before,
        }
    }
}

/// The deliveries of a message with attributes `attrs` to the
/// subscriptions `subs` (see `delivery_for`).
pub fn plan_deliveries(
    subs: &Vec<&Subscription>,
    attrs: &StrMap<MessageAttribute>,
    envelope: &str,
    message: &str,
    Ghost(expected): Ghost<Seq<Subscription>>,
) -> (r: Vec<Delivery>)
    requires
        subs@.map_values(|s: &Subscription| *s) == expected,
        crate::sns::subs_wf(expected),
        attrs.wf(),
    ensures
        delivery_views(r@) == deliveries_spec(expected, attrs@, envelope@, message@),
{
    let mut r: Vec<Delivery> = Vec::new();
    let mut i: usize = 0;
    proof {
        assert(expected.take(0) =~= Seq::<Subscription>::empty());
        assert(delivery_views(r@) =~= Seq::<DeliveryView>::empty());
    }
    while i < subs.len()
        invariant
            i <= subs@.len(),
            subs@.map_values(|s: &Subscription| *s) == expected,
            crate::sns::subs_wf(expected),
            attrs.wf(),
            delivery_views(r@) == deliveries_spec(expected.take(i as int), attrs@, envelope@, message@),
        decreases subs@.len() - i,
    {
        let s = subs[i];
        proof {
            assert(expected[i as int] == *s);
            assert(s.wf());
            assert(expected.take(i + 1).drop_last() =~= expected.take(i as int));
            assert(expected.take(i + 1).last() == *s);
        }
        let passes = match &s.filter_policy {
            Some(p) => p.matches(attrs),
            None => true,
        };
        let ghost before = r@;
        if passes {
            let payload: Option<Option<String>> = match s.protocol {
                Protocol::Sqs => if s.raw_message_delivery {
                    Some(Some(message.to_string()))
                } else {
                    Some(Some(envelope.to_string()))
                },
                Protocol::Http => Some(Some(envelope.to_string())),
                Protocol::Https => Some(Some(envelope.to_string())),
                Protocol::Lambda => Some(None),
                _ => None,
            };
            match payload {
                Some(p) => {
                    r.push(Delivery { protocol: s.protocol, endpoint: s.endpoint.clone(), payload: p });
                    proof {
                        assert(delivery_views(r@) =~= delivery_views(before).push(r@.last()@));
                    }
                },
                None => {},
            }
        }
        i = i + 1;
    }
    proof {
        assert(expected.take(subs@.len() as int) =~= expected);
    }
    r
}

/// Keeping some of a list of well-formed subscriptions keeps them
/// well-formed.
proof fn lemma_filter_keeps_wf(subs: Seq<Subscription>, pred: spec_fn(Subscription) -> bool)
    requires
        crate::sns::subs_wf(subs),
    ensures
        crate::sns::subs_wf(subs.filter(pred)),
    decreases subs.len(),
{
    reveal(Seq::filter);
    if subs.len() > 0 {
        lemma_filter_keeps_wf(subs.drop_last(), pred);
        let f = subs.drop_last().filter(pred);
        assert(subs.drop_last().len() < subs.len());
        if pred(subs.last()) {
            assert(subs.filter(pred) == f.push(subs.last()));
            assert(subs.last() == subs[subs.len() - 1]);
        } else {
            assert(subs.filter(pred) == f);
        }
        assert forall|i: int| 0 <= i < subs.filter(pred).len() implies (#[trigger] subs.filter(pred)[i]).wf() by {
            if i < f.len() {
                assert(subs.filter(pred)[i] == f[i]);
            }
        }
    }
}

/// What `handle_publish_at` answers and the deliveries it plans.
pub open spec fn publish_outcome(
    s0: SnsStore,
    params: Map<Seq<char>, Seq<char>>,
    rid: Seq<char>,
    message_id: Seq<char>,
    timestamp: Seq<char>,
    r: ResponseView,
    ds: Seq<DeliveryView>,
) -> bool {
    if !params.contains_key("TopicArn"@) {
        r == invalid_parameter("TopicArn is required"@) && ds.len() == 0
    } else if !s0@.topics.contains_key(params["TopicArn"@]) {
        r == topic_not_found() && ds.len() == 0
    } else if !params.contains_key("Message"@) {
        r == invalid_parameter("Message is required"@) && ds.len() == 0
    } else {
        let arn = params["TopicArn"@];
        let message = params["Message"@];
        let envelope = notification_spec(arn, message_id, message, param_or_empty(params, "Subject"@), timestamp);
        &&& ds == deliveries_spec(
            topic_subscriptions(s0, arn),
            attributes_spec(params, "MessageAttributes.entry"@),
            envelope,
            message,
        )
        &&& r == sns_ok("Publish"@, rid, element("MessageId"@, message_id))
    }
}

/// Publish: publishes `Message` (with `Subject` and the message
/// attributes) to topic `TopicArn` as message `message_id` at
/// `timestamp`; answers with the message id and returns the deliveries to
/// the topic's subscribers.
pub fn handle_publish_at(
    store: &SnsStore,
    params: &StrMap<String>,
    rid: &str,
    message_id: &str,
    timestamp: &str,
) -> (r: (DispatchResponse, Vec<Delivery>))
    requires
        store.wf(),
        params.wf(),
    ensures
        publish_outcome(*store, params@, rid@, message_id@, timestamp@, r.0@, delivery_views(r.1@)),
{
    let arn = match params.get("TopicArn") {
        Some(a) => a,
        None => {
            return (invalid("TopicArn is required"), Vec::new());
        },
    };
    if store.get_topic(arn.as_str()).is_none() {
        return (topic_missing(), Vec::new());
    }
    let message = match params.get("Message") {
        Some(m) => m,
        None => {
            return (invalid("Message is required"), Vec::new());
        },
    };
    let subject = param_or_empty_exec(params, "Subject");
    let attrs = extract_message_attributes(params);
    let subs = store.list_subscriptions_by_topic(arn.as_str());
    let ghost expected = topic_subscriptions(*store, arn@);
    proof {
        lemma_filter_keeps_wf(store.subscriptions.vals_seq(), |s: Subscription| s.topic_arn@ == arn@);
    }
    let envelope = format_sns_notification(arn.as_str(), message_id, message.as_str(), subject.as_str(), timestamp);
    let deliveries = plan_deliveries(&subs, &attrs, envelope.as_str(), message.as_str(), Ghost(expected));
    let mut inner = String::new();
    push_element(&mut inner, "MessageId", message_id);
    (ok("Publish", rid, inner.as_str()), deliveries)
}

/// The entries of a PublishBatch request: the index, `Id` and `Message`
/// of each `PublishBatchRequestEntries.member.{i}` with both present,
/// counting from 1.
pub open spec fn batch_entries(params: Map<Seq<char>, Seq<char>>) -> Seq<(nat, Seq<char>, Seq<char>)> {
    crate::query::indexed_pairs(params, "PublishBatchRequestEntries.member"@, ".Id"@, ".Message"@)
}

/// The `<member>` elements reporting batch entries `es` as published with
/// message ids `ids`.
pub open spec fn batch_members_xml(es: Seq<(nat, Seq<char>, Seq<char>)>, ids: Seq<Seq<char>>) -> Seq<char>
    decreases es.len(),
{
    if es.len() == 0 || ids.len() == 0 {
        Seq::empty()
    } else {
        batch_members_xml(es.drop_last(), ids.drop_last()) + "<member>"@ + element("Id"@, es.last().1) + element(
            "MessageId"@,
            ids.last(),
        ) + "</member>"@
    }
}

/// The result of a PublishBatch: every entry published, none failed.
pub open spec fn batch_result_xml(es: Seq<(nat, Seq<char>, Seq<char>)>, ids: Seq<Seq<char>>) -> Seq<char> {
    "<Successful>"@ + batch_members_xml(es, ids) + "</Successful><Failed></Failed>"@
}

/// Writes the result of a PublishBatch whose entries `entries` were
/// published as messages `ids`.
pub fn publish_batch_result(entries: &Vec<(u64, String, String)>, ids: &Vec<String>) -> (r: String)
    requires
        ids@.len() == entries@.len(),
    ensures
        r@ == batch_result_xml(crate::query::pair_views(entries@), crate::text::string_views(ids@)),
{
    let ghost es = crate::query::pair_views(entries@);
    let ghost is = crate::text::string_views(ids@);
    let mut r = String::new();
    push_str(&mut r, "<Successful>");
    let ghost start = r@;
    let mut i: usize = 0;
    proof {
        assert(es.take(0) =~= Seq::<(nat, Seq<char>, Seq<char>)>::empty());
    }
    while i < entries.len()
        invariant
            i <= entries@.len(),
            ids@.len() == entries@.len(),
            es == crate::query::pair_views(entries@),
            is == crate::text::string_views(ids@),
            r@ == start + batch_members_xml(es.take(i as int), is.take(i as int)),
        decreases entries@.len() - i,
    {
        push_str(&mut r, "<member>");
        push_element(&mut r, "Id", entries[i].1.as_str());
        push_element(&mut r, "MessageId", ids[i].as_str());
        push_str(&mut r, "</member>");
        proof {
            assert(es.take(i + 1).drop_last() =~= es.take(i as int));
            assert(is.take(i + 1).drop_last() =~= is.take(i as int));
            assert(es.take(i + 1).last() == es[i as int]);
            assert(is.take(i + 1).last() == is[i as int]);
            assert(r@ =~= start + batch_members_xml(es.take(i + 1), is.take(i + 1)));
        }
        i = i + 1;
    }
    push_str(&mut r, "</Successful><Failed></Failed>");
    proof {
        assert(es.take(entries@.len() as int) =~= es);
        assert(is.take(entries@.len() as int) =~= is);
        assert(r@ =~= batch_result_xml(es, is));
    }
    r
}

/// What `handle_publish_batch` answers: the entries are reported under
/// some message ids, one per entry, that the call drew fresh.
pub open spec fn publish_batch_outcome(s0: SnsStoreView, params: Map<Seq<char>, Seq<char>>, rid: Seq<char>, r: ResponseView) -> bool {
    if !params.contains_key("TopicArn"@) {
        r == invalid_parameter("TopicArn is required"@)
    } else if !s0.topics.contains_key(params["TopicArn"@]) {
        r == topic_not_found()
    } else {
        exists|ids: Seq<Seq<char>>|
            ids.len() == batch_entries(params).len() && (forall|k: int|
                0 <= k < ids.len() ==> crate::deps::is_uuid_text(#[trigger] ids[k])) && r == sns_ok(
                "PublishBatch"@,
                rid,
                #[trigger] batch_result_xml(batch_entries(params), ids),
            )
    }
}

/// PublishBatch: reports every entry of the batch to topic `TopicArn` as
/// published under a fresh message id.
pub fn handle_publish_batch(store: &SnsStore, params: &StrMap<String>, rid: &str) -> (r: DispatchResponse)
    requires
        store.wf(),
        params.wf(),
    ensures
        publish_batch_outcome(store@, params@, rid@, r@),
{
    let arn = match params.get("TopicArn") {
        Some(a) => a,
        None => {
            return invalid("TopicArn is required");
        },
    };
    if store.get_topic(arn.as_str()).is_none() {
        return topic_missing();
    }
    let entries = crate::query::indexed_pairs_exec(params, "PublishBatchRequestEntries.member", ".Id", ".Message");
    let mut ids: Vec<String> = Vec::new();
    let mut i: usize = 0;
    while i < entries.len()
        invariant
            i <= entries@.len(),
            ids@.len() == i,
            forall|k: int| 0 <= k < i ==> crate::deps::is_uuid_text(#[trigger] ids@[k]@),
        decreases entries@.len() - i,
    {
        ids.push(crate::deps::new_uuid());
        i = i + 1;
    }
    let inner = publish_batch_result(&entries, &ids);
    proof {
        assert(crate::text::string_views(ids@).len() == ids@.len());
        assert(crate::query::pair_views(entries@).len() == entries@.len());
        assert(inner@ == batch_result_xml(batch_entries(params@), crate::text::string_views(ids@)));
        let vs = crate::text::string_views(ids@);
        assert forall|k: int| 0 <= k < vs.len() implies crate::deps::is_uuid_text(#[trigger] vs[k]) by {
            assert(vs[k] == ids@[k]@);
        }
    }
    ok("PublishBatch", rid, inner.as_str())
}

// ---------------------------------------------------------------------------
// Dispatch
// ---------------------------------------------------------------------------

/// The answer to a request: the response, and the deliveries a publish
/// fans out to (none for the other operations).
pub struct SnsReply {
    pub response: DispatchResponse,
    pub deliveries: Vec<Delivery>,
}

/// What handling `action` does, for the operations SNS supports; `fresh`
/// is the identifier a new subscription takes and a published message
/// gets, `now` and `timestamp` the time the request is handled at.
pub open spec fn action_outcome(
    s0: SnsStore,
    s1: SnsStore,
    ctx: RequestContext,
    params: Map<Seq<char>, Seq<char>>,
    action: Seq<char>,
    rid: Seq<char>,
    now: i64,
    fresh: Seq<char>,
    timestamp: Seq<char>,
    r: SnsReply,
) -> bool {
    let resp = r.response@;
    let ds = delivery_views(r.deliveries@);
    if action == "CreateTopic"@ {
        ds.len() == 0 && create_topic_outcome(s0@, s1@, ctx, params, rid, now, resp)
    } else if action == "DeleteTopic"@ {
        ds.len() == 0 && delete_topic_outcome(s0@, s1@, params, rid, resp)
    } else if action == "ListTopics"@ {
        ds.len() == 0 && s1 == s0 && list_topics_outcome(s0, rid, resp)
    } else if action == "GetTopicAttributes"@ {
        ds.len() == 0 && s1 == s0 && get_topic_attributes_outcome(s0, params, rid, resp)
    } else if action == "SetTopicAttributes"@ {
        ds.len() == 0 && set_topic_attributes_outcome(s0@, s1@, params, rid, resp)
    } else if action == "Subscribe"@ {
        ds.len() == 0 && subscribe_outcome(s0@, s1@, ctx, params, rid, fresh, now, resp)
    } else if action == "Unsubscribe"@ {
        ds.len() == 0 && unsubscribe_outcome(s0@, s1@, params, rid, resp)
    } else if action == "ListSubscriptions"@ {
        ds.len() == 0 && s1 == s0 && list_subscriptions_outcome(s0, rid, resp)
    } else if action == "ListSubscriptionsByTopic"@ {
        ds.len() == 0 && s1 == s0 && list_subscriptions_by_topic_outcome(s0, params, rid, resp)
    } else if action == "GetSubscriptionAttributes"@ {
        ds.len() == 0 && s1 == s0 && get_subscription_attributes_outcome(s0@, params, rid, resp)
    } else if action == "SetSubscriptionAttributes"@ {
        ds.len() == 0 && set_subscription_attributes_outcome(s0@, s1@, params, rid, resp)
    } else if action == "Publish"@ {
        s1 == s0 && publish_outcome(s0, params, rid, fresh, timestamp, resp, ds)
    } else {
        ds.len() == 0 && s1 == s0 && publish_batch_outcome(s0@, params, rid, resp)
    }
}

/// The operations SNS supports.
pub open spec fn supported_action(action: Seq<char>) -> bool {
    action == "CreateTopic"@ || action == "DeleteTopic"@ || action == "ListTopics"@ || action == "GetTopicAttributes"@
        || action == "SetTopicAttributes"@ || action == "Subscribe"@ || action == "Unsubscribe"@ || action
        == "ListSubscriptions"@ || action == "ListSubscriptionsByTopic"@ || action == "GetSubscriptionAttributes"@
        || action == "SetSubscriptionAttributes"@ || action == "Publish"@ || action == "PublishBatch"@
}

/// What dispatching a request does: without an `Action` parameter, or with
/// one SNS does not support, it is refused as not implemented and nothing
/// changes; otherwise the action's handler runs on the request's
/// parameters.
pub open spec fn dispatch_outcome(
    s0: SnsStore,
    s1: SnsStore,
    ctx: RequestContext,
    rid: Seq<char>,
    now: i64,
    fresh: Seq<char>,
    timestamp: Seq<char>,
    r: Result<SnsReply, DispatchError>,
) -> bool {
    let params = query_params_spec(ctx.raw_body@, ctx.query_params@);
    if !params.contains_key("Action"@) {
        s1 == s0 && (r matches Err(DispatchError::NotImplemented(a)) && a@ == "(missing Action)"@)
    } else {
        let action = params["Action"@];
        if supported_action(action) {
            r matches Ok(reply) && action_outcome(s0, s1, ctx, params, action, rid, now, fresh, timestamp, reply)
        } else {
            s1 == s0 && (r matches Err(DispatchError::NotImplemented(a)) && a@ == action)
        }
    }
}

fn reply(response: DispatchResponse) -> (r: SnsReply)
    ensures
        r.response == response,
        r.deliveries@.len() == 0,
{
    SnsReply { response, deliveries: Vec::new() }
}

/// Handles one request with request id `rid` at time `now` (`timestamp`
/// in RFC 3339), using `fresh` as the new subscription's or message's id.
pub fn dispatch_at(
    store: &mut SnsStore,
    ctx: &RequestContext,
    rid: &str,
    now: i64,
    fresh: &str,
    timestamp: &str,
) -> (r: Result<SnsReply, DispatchError>)
    requires
        old(store).wf(),
        ctx.wf(),
    ensures
        final(store).wf(),
        dispatch_outcome(*old(store), *final(store), *ctx, rid@, now, fresh@, timestamp@, r),
{
    let params = parse_query_params(ctx);
    let action = match params.get("Action") {
        Some(a) => a.clone(),
        None => {
            return Err(DispatchError::NotImplemented("(missing Action)".to_string()));
        },
    };
    let a = action.as_str();
    let r = if a.eq("CreateTopic") {
        reply(handle_create_topic_at(store, ctx, &params, rid, now))
    } else if a.eq("DeleteTopic") {
        reply(handle_delete_topic(store, &params, rid))
    } else if a.eq("ListTopics") {
        reply(handle_list_topics(store, rid))
    } else if a.eq("GetTopicAttributes") {
        reply(handle_get_topic_attributes(store, &params, rid))
    } else if a.eq("SetTopicAttributes") {
        reply(handle_set_topic_attributes(store, &params, rid))
    } else if a.eq("Subscribe") {
        reply(handle_subscribe_at(store, ctx, &params, rid, fresh, now))
    } else if a.eq("Unsubscribe") {
        reply(handle_unsubscribe(store, &params, rid))
    } else if a.eq("ListSubscriptions") {
        reply(handle_list_subscriptions(store, rid))
    } else if a.eq("ListSubscriptionsByTopic") {
        reply(handle_list_subscriptions_by_topic(store, &params, rid))
    } else if a.eq("GetSubscriptionAttributes") {
        reply(handle_get_subscription_attributes(store, &params, rid))
    } else if a.eq("SetSubscriptionAttributes") {
        reply(handle_set_subscription_attributes(store, &params, rid))
    } else if a.eq("Publish") {
        let (response, deliveries) = handle_publish_at(store, &params, rid, fresh, timestamp);
        SnsReply { response, deliveries }
    } else if a.eq("PublishBatch") {
        reply(handle_publish_batch(store, &params, rid))
    } else {
        return Err(DispatchError::NotImplemented(action));
    };
    Ok(r)
}

/// Handles one request with a fresh request id, a fresh identifier for
/// what it creates, and the current time.
pub fn dispatch(store: &mut SnsStore, ctx: &RequestContext) -> (r: Result<SnsReply, DispatchError>)
    requires
        old(store).wf(),
        ctx.wf(),
    ensures
        final(store).wf(),
        exists|rid: Seq<char>, now: i64, fresh: Seq<char>, timestamp: Seq<char>|
            crate::deps::is_uuid_text(rid) && crate::deps::is_uuid_text(fresh) && #[trigger] dispatch_outcome(*old(store), *final(store), *ctx, rid, now, fresh, timestamp, r),
{
    let rid = crate::deps::new_uuid();
    let now = crate::deps::now_millis();
    let fresh = crate::deps::new_uuid();
    let timestamp = crate::deps::now_rfc3339();
    dispatch_at(store, ctx, rid.as_str(), now, fresh.as_str(), timestamp.as_str())
}

} // verus!
