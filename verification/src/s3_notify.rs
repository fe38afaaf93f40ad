//! S3 bucket notifications: the configuration documents a bucket keeps
//! and reports, and which configurations an object event reaches.
use vstd::prelude::*;
use vstd::string::StringSliceAdditionalSpecFns;

use crate::deps::new_uuid;
use crate::http::{body_text, utf8_text, DispatchResponse, RequestContext, ResponseView};
use crate::s3::{with_bucket, BucketView, NotificationConfig, S3Store, S3StoreView};
use crate::s3_api::{
    bucket_from_path, extract_xml_text_chars, extract_xml_text_spec, filter_rule_from, find_filter_rule, trim_ws,
    trim_ws_exec,
};
use crate::s3_rest::{
    char_vec_views, empty_response, empty_view, invalid_bucket_name, missing_bucket, no_bucket_name, no_such_bucket,
    push_doc_open, req_bucket, s3_doc_open, s3_error, s3_error_view, s3_ok, s3_ok_view, xml_blocks, xml_blocks_exec,
};
use crate::text::{
    chars_of, escape_xml_spec, find_chars, find_from, find_spec, lemma_find_from, occurs_at, opt_view, push_escaped,
    push_str, slice_chars, string_of, string_views,
};

verus! {

// ---------------------------------------------------------------------------
// Reading configurations
// ---------------------------------------------------------------------------

/// The trimmed texts of the `<Event>` elements of a block; an `<Event>`
/// without a closing tag is passed over.
pub open spec fn event_texts(rem: Seq<char>) -> Seq<Seq<char>>
    decreases rem.len(),
{
    match find_spec(rem, "<Event>"@) {
        None => Seq::empty(),
        Some(i) => {
            proof {
                reveal_strlit("<Event>");
                lemma_find_from(rem, "<Event>"@, 0);
            }
            let rest = rem.subrange(i + 7, rem.len() as int);
            match find_spec(rest, "</Event>"@) {
                Some(e) => {
                    proof {
                        lemma_find_from(rest, "</Event>"@, 0);
                    }
                    seq![trim_ws(rest.subrange(0, e))] + event_texts(rest.subrange(e, rest.len() as int))
                },
                None => event_texts(rest),
            }
        },
    }
}

fn event_texts_exec(block: &[char]) -> (r: Vec<String>)
    ensures
        string_views(r@) == event_texts(block@),
{
    let open = chars_of("<Event>");
    let close = chars_of("</Event>");
    proof {
        reveal_strlit("<Event>");
        reveal_strlit("</Event>");
    }
    let mut out: Vec<String> = Vec::new();
    let mut rem: Vec<char> = slice_chars(block, 0, block.len());
    proof {
        assert(rem@ =~= block@);
        assert(string_views(out@) =~= Seq::<Seq<char>>::empty());
    }
    loop
        invariant
            open@ == "<Event>"@,
            close@ == "</Event>"@,
            "<Event>"@.len() == 7,
            event_texts(block@) == string_views(out@) + event_texts(rem@),
        decreases rem@.len(),
    {
        proof {
            lemma_find_from(rem@, open@, 0);
        }
        let rl = rem.len();
        match find_chars(rem.as_slice(), open.as_slice()) {
            None => {
                proof {
                    assert(string_views(out@) + Seq::<Seq<char>>::empty() =~= string_views(out@));
                }
                return out;
            },
            Some(i) => {
                proof {
                    assert(find_from(rem@, open@, 0) == Some(i as int));
                    assert(occurs_at(rem@, open@, i as int));
                    assert(i + 7 <= rl);
                }
                let rest = slice_chars(rem.as_slice(), i + 7, rl);
                proof {
                    lemma_find_from(rest@, close@, 0);
                }
                match find_chars(rest.as_slice(), close.as_slice()) {
                    Some(e) => {
                        let inner = slice_chars(rest.as_slice(), 0, e);
                        let t = trim_ws_exec(inner.as_slice());
                        let ghost before = string_views(out@);
                        out.push(string_of(t.as_slice()));
                        let next = slice_chars(rest.as_slice(), e, rest.len());
                        proof {
                            assert(string_views(out@) =~= before.push(t@));
                            assert(before.push(t@) + event_texts(next@) =~= before + (seq![t@] + event_texts(next@)));
                        }
                        rem = next;
                    },
                    None => {
                        rem = rest;
                    },
                }
            },
        }
    }
}

/// The filter rule `name` of a block's `<Filter>`, if it has one.
pub open spec fn block_filter(block: Seq<char>, name: Seq<char>) -> Option<Seq<char>> {
    match extract_xml_text_spec(block, "Filter"@) {
        Some(f) => filter_rule_from(f, name),
        None => None,
    }
}

/// The destination a configuration block names (empty when it names none).
pub open spec fn block_arn(block: Seq<char>, arn_tag: Seq<char>) -> Seq<char> {
    match extract_xml_text_spec(block, arn_tag) {
        Some(a) => a,
        None => Seq::empty(),
    }
}

/// `c` is the configuration that `block` describes: its destination, type,
/// events and filters, and its `Id` when the block gives one (a fresh UUID
/// otherwise).
pub open spec fn config_from_block(block: Seq<char>, arn_tag: Seq<char>, dest_type: Seq<char>, c: NotificationConfig) -> bool {
    &&& c.destination_arn@ == block_arn(block, arn_tag)
    &&& (extract_xml_text_spec(block, "Id"@) matches Some(id) ==> c.id@ == id)
    &&& (extract_xml_text_spec(block, "Id"@) is None ==> crate::deps::is_uuid_text(c.id@))
    &&& c.destination_type@ == dest_type
    &&& string_views(c.events@) == event_texts(block)
    &&& opt_view(c.prefix_filter) == block_filter(block, "prefix"@)
    &&& opt_view(c.suffix_filter) == block_filter(block, "suffix"@)
}

/// The blocks that name a destination.
pub open spec fn blocks_with_arn(bs: Seq<Seq<char>>, arn_tag: Seq<char>) -> Seq<Seq<char>>
    decreases bs.len(),
{
    if bs.len() == 0 {
        Seq::empty()
    } else {
        let init = blocks_with_arn(bs.drop_last(), arn_tag);
        if block_arn(bs.last(), arn_tag).len() > 0 {
            init.push(bs.last())
        } else {
            init
        }
    }
}

/// The configuration blocks of one kind in a body.
pub open spec fn config_blocks(body: Seq<char>, outer: Seq<char>, arn_tag: Seq<char>) -> Seq<Seq<char>> {
    blocks_with_arn(xml_blocks(body, "<"@ + outer + ">"@, "</"@ + outer + ">"@, true), arn_tag)
}

/// `cs` are the configurations the blocks describe, in order.
pub open spec fn configs_match(cs: Seq<NotificationConfig>, bs: Seq<Seq<char>>, arn_tag: Seq<char>, dest_type: Seq<char>) -> bool {
    &&& cs.len() == bs.len()
    &&& forall|i: int| 0 <= i < bs.len() ==> config_from_block(bs[i], arn_tag, dest_type, #[trigger] cs[i])
}

fn tag_text(outer: &str, closing: bool) -> (r: Vec<char>)
    ensures
        r@ == if closing {
            "</"@ + outer@ + ">"@
        } else {
            "<"@ + outer@ + ">"@
        },
{
    let mut s = String::new();
    if closing {
        push_str(&mut s, "</");
    } else {
        push_str(&mut s, "<");
    }
    push_str(&mut s, outer);
    push_str(&mut s, ">");
    proof {
        if closing {
            assert(s@ =~= "</"@ + outer@ + ">"@);
        } else {
            assert(s@ =~= "<"@ + outer@ + ">"@);
        }
    }
    chars_of(s.as_str())
}

/// Appends the configurations of one kind found in `body`.
fn parse_configs(body: &[char], outer: &str, arn_tag: &str, dest_type: &str, out: &mut Vec<NotificationConfig>)
    ensures
        old(out)@.len() <= final(out)@.len(),
        final(out)@.len() == old(out)@.len() + config_blocks(body@, outer@, arn_tag@).len(),
        final(out)@.subrange(0, old(out)@.len() as int) == old(out)@,
        configs_match(
            final(out)@.subrange(old(out)@.len() as int, final(out)@.len() as int),
            config_blocks(body@, outer@, arn_tag@),
            arn_tag@,
            dest_type@,
        ),
{
    let open = tag_text(outer, false);
    let close = tag_text(outer, true);
    proof {
        reveal_strlit("<");
        assert(open@.len() > 0);
    }
    let blocks = xml_blocks_exec(body, open.as_slice(), close.as_slice(), true);
    let ghost bs = char_vec_views(blocks@);
    let ghost start = out@;
    let ghost n0 = out@.len();
    let arn_c = chars_of(arn_tag);
    let id_c = chars_of("Id");
    let filter_c = chars_of("Filter");
    let mut i: usize = 0;
    proof {
        assert(bs.take(0) =~= Seq::<Seq<char>>::empty());
        assert(out@.subrange(n0 as int, out@.len() as int) =~= Seq::<NotificationConfig>::empty());
        assert(out@.subrange(0, n0 as int) =~= start);
    }
    while i < blocks.len()
        invariant
            i <= blocks@.len(),
            bs == char_vec_views(blocks@),
            n0 == start.len(),
            n0 <= out@.len(),
            out@.subrange(0, n0 as int) == start,
            arn_c@ == arn_tag@,
            id_c@ == "Id"@,
            filter_c@ == "Filter"@,
            configs_match(
                out@.subrange(n0 as int, out@.len() as int),
                blocks_with_arn(bs.take(i as int), arn_tag@),
                arn_tag@,
                dest_type@,
            ),
        decreases blocks@.len() - i,
    {
        let block = &blocks[i];
        proof {
            assert(bs.take(i + 1).drop_last() =~= bs.take(i as int));
            assert(bs.take(i + 1).last() == block@);
        }
        let arn: Vec<char> = match extract_xml_text_chars(block.as_slice(), arn_c.as_slice()) {
            Some(a) => a,
            None => Vec::new(),
        };
        if arn.len() > 0 {
            let id = match extract_xml_text_chars(block.as_slice(), id_c.as_slice()) {
                Some(v) => string_of(v.as_slice()),
                None => new_uuid(),
            };
            let events = event_texts_exec(block.as_slice());
            let (prefix_filter, suffix_filter) = match extract_xml_text_chars(block.as_slice(), filter_c.as_slice()) {
                Some(f) => {
                    let fs = string_of(f.as_slice());
                    (find_filter_rule(fs.as_str(), "prefix"), find_filter_rule(fs.as_str(), "suffix"))
                },
                None => (None, None),
            };
            let c = NotificationConfig {
                id,
                destination_arn: string_of(arn.as_slice()),
                destination_type: dest_type.to_string(),
                events,
                prefix_filter,
                suffix_filter,
            };
            proof {
                assert(config_from_block(block@, arn_tag@, dest_type@, c));
            }
            let ghost before = out@;
            out.push(c);
            proof {
                let prev = before.subrange(n0 as int, before.len() as int);
                assert(out@.subrange(n0 as int, out@.len() as int) =~= prev.push(c));
                assert(out@.subrange(0, n0 as int) =~= before.subrange(0, n0 as int));
                let bw = blocks_with_arn(bs.take(i + 1), arn_tag@);
                assert(bw == blocks_with_arn(bs.take(i as int), arn_tag@).push(block@));
                assert forall|k: int| 0 <= k < bw.len() implies config_from_block(
                    bw[k],
                    arn_tag@,
                    dest_type@,
                    #[trigger] out@.subrange(n0 as int, out@.len() as int)[k],
                ) by {
                    if k < bw.len() - 1 {
                        assert(out@.subrange(n0 as int, out@.len() as int)[k] == prev[k]);
                    }
                }
            }
        }
        i = i + 1;
    }
    proof {
        assert(bs.take(blocks@.len() as int) =~= bs);
    }
}

// ---------------------------------------------------------------------------
// PutBucketNotificationConfiguration
// ---------------------------------------------------------------------------

/// The body mentions a configuration element of some kind.
pub open spec fn mentions_configs(body: Seq<char>) -> bool {
    find_spec(body, "QueueConfiguration"@) is Some || find_spec(body, "TopicConfiguration"@) is Some || find_spec(
        body,
        "CloudFunctionConfiguration"@,
    ) is Some
}

/// The configurations a body describes: queues, then topics, then
/// functions, each kind in order.
pub open spec fn body_configs_match(cs: Seq<NotificationConfig>, body: Seq<char>) -> bool {
    let q = config_blocks(body, "QueueConfiguration"@, "Queue"@);
    let t = config_blocks(body, "TopicConfiguration"@, "Topic"@);
    let l = config_blocks(body, "CloudFunctionConfiguration"@, "CloudFunction"@);
    &&& cs.len() == q.len() + t.len() + l.len()
    &&& configs_match(cs.subrange(0, q.len() as int), q, "Queue"@, "sqs"@)
    &&& configs_match(cs.subrange(q.len() as int, (q.len() + t.len()) as int), t, "Topic"@, "sns"@)
    &&& configs_match(cs.subrange((q.len() + t.len()) as int, cs.len() as int), l, "CloudFunction"@, "lambda"@)
}

/// What PutBucketNotificationConfiguration does: the bucket's
/// configurations become those the body describes.  A body that is not
/// UTF-8, or that mentions configurations none of which could be read, is
/// refused.
pub open spec fn put_notification_outcome(s0: S3StoreView, s1: S3StoreView, ctx: RequestContext, r: ResponseView) -> bool {
    match req_bucket(ctx) {
        None => s1 == s0 && r == no_bucket_name(),
        Some(b) => if !s0.buckets.contains_key(b) {
            s1 == s0 && r == no_such_bucket()
        } else if !vstd::utf8::valid_utf8(ctx.raw_body@) {
            s1 == s0 && r == s3_error_view("MalformedXML"@, "The XML you provided was not valid UTF-8"@, 400)
        } else {
            let body = vstd::utf8::decode_utf8(ctx.raw_body@);
            let none = config_blocks(body, "QueueConfiguration"@, "Queue"@).len() + config_blocks(
                body,
                "TopicConfiguration"@,
                "Topic"@,
            ).len() + config_blocks(body, "CloudFunctionConfiguration"@, "CloudFunction"@).len() == 0;
            if mentions_configs(body) && none {
                s1 == s0 && r == s3_error_view(
                    "MalformedXML"@,
                    "The XML you provided was ill-formed or did not validate against our published schema"@,
                    400,
                )
            } else {
                &&& s1.objects == s0.objects
                &&& s1.uploads == s0.uploads
                &&& s1.buckets.dom() == s0.buckets.dom()
                &&& forall|k: Seq<char>| k != b && #[trigger] s0.buckets.contains_key(k) ==> s1.buckets[k] == s0.buckets[k]
                &&& s1.buckets[b] == BucketView { notifications: s1.buckets[b].notifications, ..s0.buckets[b] }
                &&& body_configs_match(s1.buckets[b].notifications, body)
                &&& r == empty_view(200)
            }
        },
    }
}

/// PutBucketNotificationConfiguration.
pub fn put_bucket_notification(store: &mut S3Store, ctx: &RequestContext) -> (r: DispatchResponse)
    requires
        old(store).wf(),
        ctx.wf(),
    ensures
        final(store).wf(),
        put_notification_outcome(old(store)@, final(store)@, *ctx, r@),
{
    let bucket = match bucket_from_path(ctx.path.as_str()) {
        Some(b) => b,
        None => return invalid_bucket_name(),
    };
    if !store.bucket_exists(bucket.as_str()) {
        return missing_bucket();
    }
    let text = match utf8_text(ctx.raw_body.as_slice()) {
        Some(t) => t,
        None => return s3_error("MalformedXML", "The XML you provided was not valid UTF-8", 400),
    };
    let body = chars_of(text.as_str());
    let mut configs: Vec<NotificationConfig> = Vec::new();
    parse_configs(body.as_slice(), "QueueConfiguration", "Queue", "sqs", &mut configs);
    let ghost c1 = configs@;
    parse_configs(body.as_slice(), "TopicConfiguration", "Topic", "sns", &mut configs);
    let ghost c2 = configs@;
    parse_configs(body.as_slice(), "CloudFunctionConfiguration", "CloudFunction", "lambda", &mut configs);
    let q = chars_of("QueueConfiguration");
    let t = chars_of("TopicConfiguration");
    let l = chars_of("CloudFunctionConfiguration");
    let mentions = find_chars(body.as_slice(), q.as_slice()).is_some() || find_chars(body.as_slice(), t.as_slice()).is_some()
        || find_chars(body.as_slice(), l.as_slice()).is_some();
    proof {
        assert(c1.len() == config_blocks(body@, "QueueConfiguration"@, "Queue"@).len()) by {
            assert(c1.subrange(0, 0) =~= Seq::<NotificationConfig>::empty());
        }
    }
    if mentions && configs.len() == 0 {
        return s3_error(
            "MalformedXML",
            "The XML you provided was ill-formed or did not validate against our published schema",
            400,
        );
    }
    let ghost cs = configs@;
    proof {
        let qn = config_blocks(body@, "QueueConfiguration"@, "Queue"@).len();
        let tn = config_blocks(body@, "TopicConfiguration"@, "Topic"@).len();
        assert(c1.len() == qn);
        assert(c2.len() == qn + tn);
        assert(c1.subrange(0, 0) =~= Seq::<NotificationConfig>::empty());
        assert(c1.subrange(0, c1.len() as int) =~= c1);
        assert(cs.subrange(0, c2.len() as int) == c2);
        assert(c2.subrange(0, c1.len() as int) == c1);
        assert(cs.subrange(0, qn as int) =~= c1);
        assert(cs.subrange(qn as int, (qn + tn) as int) =~= c2.subrange(c1.len() as int, c2.len() as int));
    }
    let ghost s0 = store@;
    let _ = store.set_bucket_notifications(bucket.as_str(), configs);
    proof {
        let qn = config_blocks(body@, "QueueConfiguration"@, "Queue"@).len();
        let tn = config_blocks(body@, "TopicConfiguration"@, "Topic"@).len();
        assert(store@.buckets.dom() =~= s0.buckets.dom());
        assert(store@.buckets[bucket@].notifications == cs);
        assert(text@ == vstd::utf8::decode_utf8(ctx.raw_body@));
        assert(body_configs_match(cs, body@));
    }
    empty_response(200)
}

// ---------------------------------------------------------------------------
// GetBucketNotificationConfiguration
// ---------------------------------------------------------------------------

/// The element names a configuration is written with: its outer element
/// and the element of its destination.
pub open spec fn config_tags(dest_type: Seq<char>) -> (Seq<char>, Seq<char>) {
    if dest_type == "sns"@ {
        ("TopicConfiguration"@, "Topic"@)
    } else if dest_type == "lambda"@ {
        ("CloudFunctionConfiguration"@, "CloudFunction"@)
    } else {
        ("QueueConfiguration"@, "Queue"@)
    }
}

pub open spec fn events_xml(evs: Seq<Seq<char>>) -> Seq<char>
    decreases evs.len(),
{
    if evs.len() == 0 {
        Seq::empty()
    } else {
        events_xml(evs.drop_last()) + "<Event>"@ + escape_xml_spec(evs.last()) + "</Event>"@
    }
}

/// The filter element of a configuration (none without a rule).
pub open spec fn filter_xml(prefix: Option<Seq<char>>, suffix: Option<Seq<char>>) -> Seq<char> {
    if prefix is None && suffix is None {
        Seq::empty()
    } else {
        "<Filter><S3Key>"@ + (match prefix {
            Some(p) => "<FilterRule><Name>prefix</Name><Value>"@ + escape_xml_spec(p) + "</Value></FilterRule>"@,
            None => Seq::empty(),
        }) + (match suffix {
            Some(s) => "<FilterRule><Name>suffix</Name><Value>"@ + escape_xml_spec(s) + "</Value></FilterRule>"@,
            None => Seq::empty(),
        }) + "</S3Key></Filter>"@
    }
}

/// One configuration, written out.
pub open spec fn config_xml(c: NotificationConfig) -> Seq<char> {
    let (tag, arn_tag) = config_tags(c.destination_type@);
    "<"@ + tag + "><Id>"@ + escape_xml_spec(c.id@) + "</Id><"@ + arn_tag + ">"@ + escape_xml_spec(c.destination_arn@)
        + "</"@ + arn_tag + ">"@ + events_xml(string_views(c.events@)) + filter_xml(
        opt_view(c.prefix_filter),
        opt_view(c.suffix_filter),
    ) + "</"@ + tag + ">"@
}

pub open spec fn configs_xml(cs: Seq<NotificationConfig>) -> Seq<char>
    decreases cs.len(),
{
    if cs.len() == 0 {
        Seq::empty()
    } else {
        configs_xml(cs.drop_last()) + config_xml(cs.last())
    }
}

/// What GetBucketNotificationConfiguration answers.
pub open spec fn get_notification_outcome(s: S3StoreView, ctx: RequestContext, r: ResponseView) -> bool {
    match req_bucket(ctx) {
        None => r == no_bucket_name(),
        Some(b) => r == if !s.buckets.contains_key(b) {
            no_such_bucket()
        } else {
            s3_ok_view(
                s3_doc_open("NotificationConfiguration"@) + configs_xml(s.buckets[b].notifications)
                    + "</NotificationConfiguration>"@,
            )
        },
    }
}

fn push_events(out: &mut String, events: &Vec<String>)
    ensures
        final(out)@ == old(out)@ + events_xml(string_views(events@)),
{
    let ghost mid = out@;
    let mut i: usize = 0;
    let ghost evs = string_views(events@);
    proof {
        assert(evs.take(0) =~= Seq::<Seq<char>>::empty());
    }
    while i < events.len()
        invariant
            i <= events@.len(),
            evs == string_views(events@),
            out@ == mid + events_xml(evs.take(i as int)),
        decreases events@.len() - i,
    {
        let ghost before = out@;
        push_str(out, "<Event>");
        push_escaped(out, events[i].as_str());
        push_str(out, "</Event>");
        proof {
            assert(evs.take(i + 1).drop_last() =~= evs.take(i as int));
            assert(evs.take(i + 1).last() == events@[i as int]@);
            assert(out@ =~= before + "<Event>"@ + escape_xml_spec(events@[i as int]@) + "</Event>"@);
        }
        i = i + 1;
    }
    proof {
        assert(evs.take(events@.len() as int) =~= evs);
    }
}

fn push_filter(out: &mut String, prefix: &Option<String>, suffix: &Option<String>)
    ensures
        final(out)@ == old(out)@ + filter_xml(opt_view(*prefix), opt_view(*suffix)),
{
    let ghost start = out@;
    if prefix.is_some() || suffix.is_some() {
        push_str(out, "<Filter><S3Key>");
        let ghost a = out@;
        match prefix {
            Some(p) => {
                push_str(out, "<FilterRule><Name>prefix</Name><Value>");
                push_escaped(out, p.as_str());
                push_str(out, "</Value></FilterRule>");
            },
            None => {},
        }
        let ghost b = out@;
        proof {
            assert(b =~= a + match opt_view(*prefix) {
                Some(p) => "<FilterRule><Name>prefix</Name><Value>"@ + escape_xml_spec(p) + "</Value></FilterRule>"@,
                None => Seq::<char>::empty(),
            });
        }
        match suffix {
            Some(x) => {
                push_str(out, "<FilterRule><Name>suffix</Name><Value>");
                push_escaped(out, x.as_str());
                push_str(out, "</Value></FilterRule>");
            },
            None => {},
        }
        let ghost c = out@;
        proof {
            assert(c =~= b + match opt_view(*suffix) {
                Some(x) => "<FilterRule><Name>suffix</Name><Value>"@ + escape_xml_spec(x) + "</Value></FilterRule>"@,
                None => Seq::<char>::empty(),
            });
        }
        push_str(out, "</S3Key></Filter>");
    }
    proof {
        assert(out@ =~= start + filter_xml(opt_view(*prefix), opt_view(*suffix)));
    }
}

fn config_tags_exec(dest_type: &str) -> (r: (&'static str, &'static str))
    ensures
        (r.0@, r.1@) == config_tags(dest_type@),
{
    proof {
        reveal_strlit("sns");
        reveal_strlit("lambda");
    }
    if dest_type.eq("sns") {
        ("TopicConfiguration", "Topic")
    } else if dest_type.eq("lambda") {
        ("CloudFunctionConfiguration", "CloudFunction")
    } else {
        ("QueueConfiguration", "Queue")
    }
}

fn push_config(out: &mut String, c: &NotificationConfig)
    ensures
        final(out)@ == old(out)@ + config_xml(*c),
{
    let ghost start = out@;
    let (tag, arn_tag) = config_tags_exec(c.destination_type.as_str());
    push_str(out, "<");
    push_str(out, tag);
    push_str(out, "><Id>");
    push_escaped(out, c.id.as_str());
    push_str(out, "</Id><");
    push_str(out, arn_tag);
    push_str(out, ">");
    push_escaped(out, c.destination_arn.as_str());
    push_str(out, "</");
    push_str(out, arn_tag);
    push_str(out, ">");
    let ghost mid = out@;
    push_events(out, &c.events);
    push_filter(out, &c.prefix_filter, &c.suffix_filter);
    push_str(out, "</");
    push_str(out, tag);
    push_str(out, ">");
    proof {
        assert(out@ =~= start + config_xml(*c));
    }
}

/// GetBucketNotificationConfiguration.
pub fn get_bucket_notification(store: &S3Store, ctx: &RequestContext) -> (r: DispatchResponse)
    requires
        store.wf(),
        ctx.wf(),
    ensures
        get_notification_outcome(store@, *ctx, r@),
{
    let bucket = match bucket_from_path(ctx.path.as_str()) {
        Some(b) => b,
        None => return invalid_bucket_name(),
    };
    let b = match store.get_bucket(bucket.as_str()) {
        Some(b) => b,
        None => return missing_bucket(),
    };
    let ghost cs = b.notifications@;
    let mut body = String::new();
    push_doc_open(&mut body, "NotificationConfiguration");
    let ghost mid = body@;
    let mut i: usize = 0;
    proof {
        assert(cs.take(0) =~= Seq::<NotificationConfig>::empty());
    }
    while i < b.notifications.len()
        invariant
            i <= b.notifications@.len(),
            cs == b.notifications@,
            body@ == mid + configs_xml(cs.take(i as int)),
        decreases b.notifications@.len() - i,
    {
        push_config(&mut body, &b.notifications[i]);
        proof {
            assert(cs.take(i + 1).drop_last() =~= cs.take(i as int));
            assert(cs.take(i + 1).last() == cs[i as int]);
        }
        i = i + 1;
    }
    proof {
        assert(cs.take(b.notifications@.len() as int) =~= cs);
    }
    push_str(&mut body, "</NotificationConfiguration>");
    s3_ok(body)
}

// ---------------------------------------------------------------------------
// Which configurations an event reaches
// ---------------------------------------------------------------------------

/// An event pattern covers the event: the same name, `s3:*`, or a name
/// ending in `*` whose part before it starts the event's name.
pub open spec fn pattern_covers(e: Seq<char>, name: Seq<char>) -> bool {
    e == name || e == "s3:*"@ || (e.len() > 0 && e.last() == '*' && e.drop_last().len() <= name.len()
        && name.subrange(0, e.drop_last().len() as int) == e.drop_last())
}

/// A configuration applies to an event on a key: one of its patterns
/// covers the event, and the key has its prefix and suffix filters.
pub open spec fn config_applies(c: NotificationConfig, name: Seq<char>, key: Seq<char>) -> bool {
    &&& exists|i: int| 0 <= i < c.events@.len() && pattern_covers(#[trigger] c.events@[i]@, name)
    &&& match c.prefix_filter {
        Some(p) => p@.len() <= key.len() && key.subrange(0, p@.len() as int) == p@,
        None => true,
    }
    &&& match c.suffix_filter {
        Some(x) => x@.len() <= key.len() && key.subrange(key.len() - x@.len(), key.len() as int) == x@,
        None => true,
    }
}

fn pattern_covers_exec(e: &str, name: &[char]) -> (r: bool)
    ensures
        r == pattern_covers(e@, name@),
{
    let ec = chars_of(e);
    proof {
        reveal_strlit("s3:*");
    }
    if crate::text::chars_eq(ec.as_slice(), name) || e.eq("s3:*") {
        return true;
    }
    if ec.len() > 0 && ec[ec.len() - 1] == '*' {
        let head = slice_chars(ec.as_slice(), 0, ec.len() - 1);
        proof {
            assert(head@ =~= ec@.drop_last());
        }
        crate::text::starts_with_chars(name, head.as_slice())
    } else {
        false
    }
}

fn config_applies_exec(c: &NotificationConfig, name: &[char], key: &[char]) -> (r: bool)
    ensures
        r == config_applies(*c, name@, key@),
{
    let mut found = false;
    let mut i: usize = 0;
    while i < c.events.len()
        invariant
            i <= c.events@.len(),
            found == exists|j: int| 0 <= j < i && pattern_covers(#[trigger] c.events@[j]@, name@),
        decreases c.events@.len() - i,
    {
        if pattern_covers_exec(c.events[i].as_str(), name) {
            found = true;
        }
        i = i + 1;
    }
    if !found {
        return false;
    }
    let prefix_ok = match &c.prefix_filter {
        Some(p) => {
            let pc = chars_of(p.as_str());
            crate::text::starts_with_chars(key, pc.as_slice())
        },
        None => true,
    };
    let suffix_ok = match &c.suffix_filter {
        Some(x) => {
            let xc = chars_of(x.as_str());
            crate::text::ends_with_chars(key, xc.as_slice())
        },
        None => true,
    };
    prefix_ok && suffix_ok
}

/// An event's name as a record gives it: without a leading `s3:`, and
/// with `:*` read as `:Put`.
pub open spec fn record_event_name(name: Seq<char>) -> Seq<char> {
    let n = if name.len() >= 3 && name.subrange(0, 3) == "s3:"@ {
        name.subrange(3, name.len() as int)
    } else {
        name
    };
    colon_star_as_put(n)
}

/// `s` with each `:*` replaced by `:Put`.
pub open spec fn colon_star_as_put(s: Seq<char>) -> Seq<char>
    decreases s.len(),
{
    if s.len() == 0 {
        Seq::empty()
    } else if s.len() >= 2 && s[0] == ':' && s[1] == '*' {
        ":Put"@ + colon_star_as_put(s.subrange(2, s.len() as int))
    } else {
        seq![s[0]] + colon_star_as_put(s.subrange(1, s.len() as int))
    }
}

fn record_event_name_exec(name: &str) -> (r: String)
    ensures
        r@ == record_event_name(name@),
{
    let c = chars_of(name);
    proof {
        reveal_strlit("s3:");
    }
    let s3p = chars_of("s3:");
    let n = if crate::text::starts_with_chars(c.as_slice(), s3p.as_slice()) {
        slice_chars(c.as_slice(), 3, c.len())
    } else {
        c
    };
    let mut out = String::new();
    let mut i: usize = 0;
    proof {
        assert(n@.subrange(0, n@.len() as int) =~= n@);
        assert(out@ + colon_star_as_put(n@) =~= colon_star_as_put(n@));
    }
    while i < n.len()
        invariant
            i <= n@.len(),
            out@ + colon_star_as_put(n@.subrange(i as int, n@.len() as int)) == colon_star_as_put(n@),
        decreases n@.len() - i,
    {
        let ghost t = n@.subrange(i as int, n@.len() as int);
        if n.len() - i >= 2 && n[i] == ':' && n[i + 1] == '*' {
            push_str(&mut out, ":Put");
            proof {
                reveal_strlit(":Put");
                assert(t.subrange(2, t.len() as int) =~= n@.subrange(i + 2, n@.len() as int));
                assert(t[0] == ':' && t[1] == '*');
            }
            i = i + 2;
        } else {
            let ghost before = out@;
            out.push(n[i]);
            proof {
                assert(t.subrange(1, t.len() as int) =~= n@.subrange(i + 1, n@.len() as int));
                assert(out@ =~= before + seq![t[0]]);
            }
            i = i + 1;
        }
    }
    proof {
        assert(n@.subrange(n@.len() as int, n@.len() as int) =~= Seq::<char>::empty());
        assert(out@ + Seq::<char>::empty() =~= out@);
    }
    out
}

// ---------------------------------------------------------------------------
// Event records and where they go
// ---------------------------------------------------------------------------

/// The event document for an object event (object keys in sorted order,
/// as serde_json writes its maps).
pub open spec fn event_payload(region: Seq<char>, time: Seq<char>, name: Seq<char>, bucket: Seq<char>, key: Seq<char>) -> Seq<char> {
    "{\"Records\":[{\"awsRegion\":"@ + crate::json::json_string(region) + ",\"eventName\":"@ + crate::json::json_string(
        record_event_name(name),
    ) + ",\"eventSource\":\"aws:s3\",\"eventTime\":"@ + crate::json::json_string(time)
        + ",\"eventVersion\":\"2.1\",\"s3\":{\"bucket\":{\"arn\":"@ + crate::json::json_string("arn:aws:s3:::"@ + bucket)
        + ",\"name\":"@ + crate::json::json_string(bucket) + "},\"object\":{\"key\":"@ + crate::json::json_string(key)
        + "},\"s3SchemaVersion\":\"1.0\"}}]}"@
}

pub fn event_payload_exec(region: &str, time: &str, name: &str, bucket: &str, key: &str) -> (r: String)
    ensures
        r@ == event_payload(region@, time@, name@, bucket@, key@),
{
    let rn = record_event_name_exec(name);
    let mut arn = String::new();
    push_str(&mut arn, "arn:aws:s3:::");
    push_str(&mut arn, bucket);
    let mut o = String::new();
    push_str(&mut o, "{\"Records\":[{\"awsRegion\":");
    crate::json::push_json_string(&mut o, region);
    push_str(&mut o, ",\"eventName\":");
    crate::json::push_json_string(&mut o, rn.as_str());
    push_str(&mut o, ",\"eventSource\":\"aws:s3\",\"eventTime\":");
    crate::json::push_json_string(&mut o, time);
    push_str(&mut o, ",\"eventVersion\":\"2.1\",\"s3\":{\"bucket\":{\"arn\":");
    crate::json::push_json_string(&mut o, arn.as_str());
    push_str(&mut o, ",\"name\":");
    crate::json::push_json_string(&mut o, bucket);
    push_str(&mut o, "},\"object\":{\"key\":");
    crate::json::push_json_string(&mut o, key);
    push_str(&mut o, "},\"s3SchemaVersion\":\"1.0\"}}]}");
    proof {
        assert(arn@ =~= "arn:aws:s3:::"@ + bucket@);
        assert(o@ =~= event_payload(region@, time@, name@, bucket@, key@));
    }
    o
}

/// A byte kept as it is by URL encoding: a letter, a digit, `-`, `_`,
/// `.` or `~`.
pub open spec fn unreserved(b: u8) -> bool {
    (0x41 <= b <= 0x5a) || (0x61 <= b <= 0x7a) || (0x30 <= b <= 0x39) || b == 0x2d || b == 0x5f || b == 0x2e || b == 0x7e
}

/// The uppercase hex digit for `n < 16`.
pub open spec fn hex_upper(n: int) -> char {
    if n < 10 {
        ((n + 48) as u32) as char
    } else {
        ((n - 10 + 65) as u32) as char
    }
}

/// URL encoding of bytes: unreserved bytes stay, every other byte becomes
/// `%` and two uppercase hex digits.
pub open spec fn url_encode_spec(b: Seq<u8>) -> Seq<char>
    decreases b.len(),
{
    if b.len() == 0 {
        Seq::empty()
    } else {
        let x = b.last();
        url_encode_spec(b.drop_last()) + if unreserved(x) {
            seq![(x as u32) as char]
        } else {
            seq!['%', hex_upper(x as int / 16), hex_upper(x as int % 16)]
        }
    }
}

fn hex_upper_exec(n: u8) -> (c: char)
    requires
        n < 16,
    ensures
        c == hex_upper(n as int),
{
    if n < 10 {
        ((n + 48) as char)
    } else {
        ((n - 10 + 65) as char)
    }
}

/// URL-encodes the UTF-8 bytes of `s`.
pub fn url_encode(s: &str) -> (r: String)
    ensures
        r@ == url_encode_spec(s.spec_bytes()),
{
    let b = s.as_bytes();
    let mut out = String::new();
    let mut i: usize = 0;
    proof {
        assert(b@.take(0) =~= Seq::<u8>::empty());
    }
    while i < b.len()
        invariant
            i <= b@.len(),
            b@ == s.spec_bytes(),
            out@ == url_encode_spec(b@.take(i as int)),
        decreases b@.len() - i,
    {
        let x = b[i];
        let ghost before = out@;
        let keep = (0x41 <= x && x <= 0x5a) || (0x61 <= x && x <= 0x7a) || (0x30 <= x && x <= 0x39) || x == 0x2d || x == 0x5f
            || x == 0x2e || x == 0x7e;
        if keep {
            out.push(x as char);
        } else {
            out.push('%');
            out.push(hex_upper_exec(x / 16));
            out.push(hex_upper_exec(x % 16));
        }
        proof {
            assert(b@.take(i + 1).drop_last() =~= b@.take(i as int));
            assert(b@.take(i + 1).last() == x);
            if keep {
                assert(out@ =~= before + seq![(x as u32) as char]);
            } else {
                assert(out@ =~= before + seq!['%', hex_upper(x as int / 16), hex_upper(x as int % 16)]);
            }
        }
        i = i + 1;
    }
    proof {
        assert(b@.take(b@.len() as int) =~= b@);
    }
    out
}

/// The last `:`-separated segment of an ARN.
pub open spec fn arn_tail(arn: Seq<char>) -> Seq<char> {
    crate::http::split_spec(arn, ':').last()
}

/// The request that delivers `payload` to a destination: SendMessage to
/// a queue, Publish to a topic, Invoke for a function, and `Notify` to
/// anything else.
pub open spec fn delivery_request_ok(
    account: Seq<char>,
    region: Seq<char>,
    dest_type: Seq<char>,
    dest_arn: Seq<char>,
    payload: Seq<char>,
    r: RequestContext,
) -> bool {
    &&& r.region@ == region
    &&& r.account_id@ == account
    &&& r.headers@ == Map::<Seq<char>, Seq<char>>::empty()
    &&& r.query_params@ == Map::<Seq<char>, Seq<char>>::empty()
    &&& r.request_body@ == Map::<Seq<char>, crate::http::BodyValueView>::empty()
    &&& r.wf()
    &&& if dest_type == "sqs"@ {
        let q = arn_tail(dest_arn);
        &&& r.service@ == "sqs"@ && r.operation@ == "SendMessage"@ && r.method@ == "POST"@
        &&& r.path@ == "/"@ + account + "/"@ + q
        &&& vstd::utf8::decode_utf8(r.raw_body@) == "Action=SendMessage&QueueUrl=http%3A%2F%2Flocalhost%3A4566%2F"@ + account
            + "%2F"@ + q + "&MessageBody="@ + url_encode_spec(vstd::utf8::encode_utf8(payload))
        &&& vstd::utf8::valid_utf8(r.raw_body@)
    } else if dest_type == "sns"@ {
        &&& r.service@ == "sns"@ && r.operation@ == "Publish"@ && r.method@ == "POST"@ && r.path@ == "/"@
        &&& vstd::utf8::decode_utf8(r.raw_body@) == "Action=Publish&TopicArn="@ + url_encode_spec(
            vstd::utf8::encode_utf8(dest_arn),
        ) + "&Message="@ + url_encode_spec(vstd::utf8::encode_utf8(payload))
        &&& vstd::utf8::valid_utf8(r.raw_body@)
    } else if dest_type == "lambda"@ {
        &&& r.service@ == "lambda"@ && r.operation@ == "Invoke"@ && r.method@ == "POST"@
        &&& r.path@ == "/2015-03-31/functions/"@ + arn_tail(dest_arn) + "/invocations"@
        &&& vstd::utf8::decode_utf8(r.raw_body@) == payload && vstd::utf8::valid_utf8(r.raw_body@)
    } else {
        &&& r.service@ == dest_type && r.operation@ == "Notify"@ && r.method@ == "POST"@ && r.path@ == "/"@
        &&& vstd::utf8::decode_utf8(r.raw_body@) == payload && vstd::utf8::valid_utf8(r.raw_body@)
    }
}

fn arn_tail_exec(arn: &str) -> (r: String)
    ensures
        r@ == arn_tail(arn@),
{
    let c = chars_of(arn);
    let parts = crate::http::split_chars(c.as_slice(), ':');
    proof {
        crate::http::lemma_split_nonempty(arn@, ':');
        assert(parts@.map_values(|v: Vec<char>| v@)[parts@.len() - 1] == parts@[parts@.len() - 1]@);
    }
    string_of(parts[parts.len() - 1].as_slice())
}

fn text_request(service: &str, operation: &str, region: &str, account: &str, path: String, body: String) -> (r: RequestContext)
    ensures
        r.service@ == service@,
        r.operation@ == operation@,
        r.region@ == region@,
        r.account_id@ == account@,
        r.method@ == "POST"@,
        r.path@ == path@,
        r.headers@ == Map::<Seq<char>, Seq<char>>::empty(),
        r.query_params@ == Map::<Seq<char>, Seq<char>>::empty(),
        r.request_body@ == Map::<Seq<char>, crate::http::BodyValueView>::empty(),
        r.wf(),
        vstd::utf8::valid_utf8(r.raw_body@),
        vstd::utf8::decode_utf8(r.raw_body@) == body@,
{
    let raw = body.as_str().as_bytes_vec();
    proof {
        vstd::utf8::encode_utf8_decode_utf8(body@);
        vstd::utf8::encode_utf8_valid_utf8(body@);
    }
    RequestContext {
        service: service.to_string(),
        operation: operation.to_string(),
        region: region.to_string(),
        account_id: account.to_string(),
        method: "POST".to_string(),
        path,
        headers: crate::strmap::StrMap::new(),
        query_params: crate::strmap::StrMap::new(),
        raw_body: raw,
        request_body: crate::strmap::StrMap::new(),
    }
}

/// The request that delivers `payload` to a destination (see
/// `delivery_request_ok`).
pub fn build_notification_dispatch_ctx(account: &str, region: &str, dest_type: &str, dest_arn: &str, payload: &str) -> (r: RequestContext)
    ensures
        delivery_request_ok(account@, region@, dest_type@, dest_arn@, payload@, r),
{
    proof {
        reveal_strlit("sqs");
        reveal_strlit("sns");
        reveal_strlit("lambda");
    }
    if dest_type.eq("sqs") {
        let q = arn_tail_exec(dest_arn);
        let mut path = String::new();
        push_str(&mut path, "/");
        push_str(&mut path, account);
        push_str(&mut path, "/");
        push_str(&mut path, q.as_str());
        let mut body = String::new();
        push_str(&mut body, "Action=SendMessage&QueueUrl=http%3A%2F%2Flocalhost%3A4566%2F");
        push_str(&mut body, account);
        push_str(&mut body, "%2F");
        push_str(&mut body, q.as_str());
        push_str(&mut body, "&MessageBody=");
        let enc = url_encode(payload);
        push_str(&mut body, enc.as_str());
        proof {
            assert(path@ =~= "/"@ + account@ + "/"@ + q@);
            assert(body@ =~= "Action=SendMessage&QueueUrl=http%3A%2F%2Flocalhost%3A4566%2F"@ + account@ + "%2F"@ + q@
                + "&MessageBody="@ + url_encode_spec(vstd::utf8::encode_utf8(payload@)));
        }
        text_request("sqs", "SendMessage", region, account, path, body)
    } else if dest_type.eq("sns") {
        let mut body = String::new();
        push_str(&mut body, "Action=Publish&TopicArn=");
        let a = url_encode(dest_arn);
        push_str(&mut body, a.as_str());
        push_str(&mut body, "&Message=");
        let m = url_encode(payload);
        push_str(&mut body, m.as_str());
        proof {
            assert(body@ =~= "Action=Publish&TopicArn="@ + url_encode_spec(vstd::utf8::encode_utf8(dest_arn@)) + "&Message="@
                + url_encode_spec(vstd::utf8::encode_utf8(payload@)));
        }
        text_request("sns", "Publish", region, account, "/".to_string(), body)
    } else if dest_type.eq("lambda") {
        let f = arn_tail_exec(dest_arn);
        let mut path = String::new();
        push_str(&mut path, "/2015-03-31/functions/");
        push_str(&mut path, f.as_str());
        push_str(&mut path, "/invocations");
        proof {
            assert(path@ =~= "/2015-03-31/functions/"@ + f@ + "/invocations"@);
        }
        text_request("lambda", "Invoke", region, account, path, payload.to_string())
    } else {
        text_request(dest_type, "Notify", region, account, "/".to_string(), payload.to_string())
    }
}

/// The requests that announce an event on `key` in bucket `b` to the
/// configurations it applies to, in their order.
pub open spec fn deliveries_ok(
    cs: Seq<NotificationConfig>,
    account: Seq<char>,
    region: Seq<char>,
    time: Seq<char>,
    name: Seq<char>,
    b: Seq<char>,
    key: Seq<char>,
    r: Seq<RequestContext>,
) -> bool
    decreases cs.len(),
{
    if cs.len() == 0 {
        r.len() == 0
    } else {
        let c = cs.last();
        if config_applies(c, name, key) {
            r.len() > 0 && deliveries_ok(cs.drop_last(), account, region, time, name, b, key, r.drop_last())
                && delivery_request_ok(
                account,
                region,
                c.destination_type@,
                c.destination_arn@,
                event_payload(region, time, name, b, key),
                r.last(),
            )
        } else {
            deliveries_ok(cs.drop_last(), account, region, time, name, b, key, r)
        }
    }
}

/// The requests that announce an event (named `event`, at time `time`) on
/// `key` in `bucket`: one per configuration of the bucket that applies;
/// none when the bucket does not exist.
pub fn notification_dispatches(
    store: &S3Store,
    account: &str,
    region: &str,
    bucket: &str,
    key: &str,
    event: &str,
    time: &str,
) -> (r: Vec<RequestContext>)
    requires
        store.wf(),
    ensures
        store@.buckets.contains_key(bucket@) ==> deliveries_ok(
            store@.buckets[bucket@].notifications,
            account@,
            region@,
            time@,
            event@,
            bucket@,
            key@,
            r@,
        ),
        !store@.buckets.contains_key(bucket@) ==> r@.len() == 0,
{
    let b = match store.get_bucket(bucket) {
        Some(b) => b,
        None => return Vec::new(),
    };
    let name = chars_of(event);
    let kc = chars_of(key);
    let payload = event_payload_exec(region, time, event, bucket, key);
    let ghost cs = b.notifications@;
    let mut out: Vec<RequestContext> = Vec::new();
    let mut i: usize = 0;
    proof {
        assert(cs.take(0) =~= Seq::<NotificationConfig>::empty());
    }
    while i < b.notifications.len()
        invariant
            i <= b.notifications@.len(),
            cs == b.notifications@,
            name@ == event@,
            kc@ == key@,
            payload@ == event_payload(region@, time@, event@, bucket@, key@),
            deliveries_ok(cs.take(i as int), account@, region@, time@, event@, bucket@, key@, out@),
        decreases b.notifications@.len() - i,
    {
        let c = &b.notifications[i];
        proof {
            assert(cs.take(i + 1).drop_last() =~= cs.take(i as int));
            assert(cs.take(i + 1).last() == *c);
        }
        if config_applies_exec(c, name.as_slice(), kc.as_slice()) {
            let ghost before = out@;
            let req = build_notification_dispatch_ctx(
                account,
                region,
                c.destination_type.as_str(),
                c.destination_arn.as_str(),
                payload.as_str(),
            );
            out.push(req);
            proof {
                assert(out@.drop_last() =~= before);
            }
        }
        i = i + 1;
    }
    proof {
        assert(cs.take(b.notifications@.len() as int) =~= cs);
    }
    out
}

/// The requests that announce an event on `key` in `bucket` now (see
/// `notification_dispatches`; the event time is the current time).
pub fn emit_s3_notification(store: &S3Store, account: &str, region: &str, bucket: &str, key: &str, event: &str) -> (r: Vec<
    RequestContext,
>)
    requires
        store.wf(),
    ensures
        store@.buckets.contains_key(bucket@) ==> exists|time: Seq<char>|
            deliveries_ok(
                store@.buckets[bucket@].notifications,
                account@,
                region@,
                time,
                event@,
                bucket@,
                key@,
                r@,
            ),
        !store@.buckets.contains_key(bucket@) ==> r@.len() == 0,
{
    let time = crate::deps::now_rfc3339();
    notification_dispatches(store, account, region, bucket, key, event, time.as_str())
}

} // verus!
