//! Properties that hold across the operations of the stores: what a read
//! gives back after a write, what a delete leaves, what a receive hides,
//! and that escaping for XML can be undone.
use vstd::prelude::*;

use crate::s3::{
    bucket_contents, delete_marker_spec, delete_object_spec, object_current, put_object_spec, put_version_spec,
    version_id_spec, versioning_on, DataView, S3StoreView,
};
use crate::deps::clock_bound;
use crate::sqs::{
    by_receive_count, admitted_spec, count_visible, is_duplicate, is_selected, receive_outcome, visible_at, without_handle,
    SqsMessageView, SqsQueueView,
};
use crate::text::{entity_at, escape_xml_char, escape_xml_spec, unescape_xml_spec};
use crate::http::{body_str, lossy_text, plain_response, RequestContext, ResponseView};
use crate::s3_buckets::{
    create_bucket_outcome, get_policy_outcome, head_bucket_outcome, put_versioning_outcome, requested_versioning,
    set_policy_outcome,
};
use crate::s3_objects::{
    built_version, delete_object_outcome, enumerates, get_object_outcome, object_headers_spec, put_commit_outcome,
    requested_version, PutTarget,
};
use crate::s3_rest::{empty_view, no_such_key, req_bucket, req_key};
use crate::ses::{IdentityView, SesStoreView};
use crate::ses_api::{
    delete_identity_outcome, exact_float_limit, forwarding_requested, send_email_outcome, send_quota_outcome,
    set_forwarding_outcome, settings_of, ses_ok, verification_entry, verify_email_outcome,
};
use crate::text::decimal_spec;
use crate::route53_api::{list_records_outcome, record_xml, segment_after, zone_records_xml, RecordView};
use crate::route53::Route53StoreView;
use crate::route53_api::{
    body_of, create_zone_outcome, outside_zone, delete_zone_outcome, get_zone_outcome, last_path_segment, new_zone_spec, no_zone,
    r53_ok, document, zone_xml,
};
use crate::route53::xml_text_spec;
use crate::redshift::RedshiftStoreView;
use crate::redshift_api::{
    cluster_doc, create_cluster_outcome, delete_cluster_outcome, dispatch_outcome as redshift_dispatch_outcome,
    new_cluster_spec, rs_error, rs_ok,
};
use crate::redshift::RedshiftStore;
use crate::http::{service_params, DispatchError, DispatchResponse};
use crate::sns::{topic_arn_spec, topic_attribute_set, without_topic, SnsStore, SnsStoreView, TopicView};
use crate::sns_api::{
    create_topic_outcome, delete_topic_outcome, entry_xml, get_topic_attributes_outcome, param_or_empty,
    set_topic_attributes_outcome, sns_ok,
};
use crate::sqs::attributes_applied;
use crate::sqs_api::{attribute_xml, attributes_xml, queue_attribute_list};
use crate::s3_buckets::location_outcome;
use crate::query::xml_decl;
use crate::query::element;
use crate::secretsmanager::{current_index, current_pred, is_current, SecretVersionView, SecretView, SecretsManagerStore};
use crate::secretsmanager_api::{
    current_version_spec, delete_secret_outcome, demoted, dispatch_outcome as secrets_dispatch_outcome,
    get_secret_value_outcome, keeps_stage, lookup, not_current_stage, put_secret_value_outcome, put_target,
    restore_secret_outcome, secret_value_json, sm_ok, without_current,
};
use crate::http::body_bool;

verus! {

/// After an object is stored, reading it back gives the version just
/// stored (its data, type and metadata), whether or not the bucket keeps
/// versions.
pub proof fn lemma_put_then_get(
    s: S3StoreView,
    bucket: Seq<char>,
    key: Seq<char>,
    data: DataView,
    content_type: Seq<char>,
    metadata: Map<Seq<char>, Seq<char>>,
    fresh_id: Seq<char>,
    now: i64,
)
    ensures
        object_current(put_object_spec(s, bucket, key, data, content_type, metadata, fresh_id, now), bucket, key)
            == Some(put_version_spec(data, content_type, metadata, version_id_spec(versioning_on(s, bucket), fresh_id), now)),
{
    let s2 = put_object_spec(s, bucket, key, data, content_type, metadata, fresh_id, now);
    assert(bucket_contents(s2, bucket).contains_key(key));
}

/// Without versioning, storing an object leaves it exactly one version.
pub proof fn lemma_unversioned_put_keeps_one_version(
    s: S3StoreView,
    bucket: Seq<char>,
    key: Seq<char>,
    data: DataView,
    content_type: Seq<char>,
    metadata: Map<Seq<char>, Seq<char>>,
    fresh_id: Seq<char>,
    now: i64,
)
    requires
        !versioning_on(s, bucket),
    ensures
        bucket_contents(put_object_spec(s, bucket, key, data, content_type, metadata, fresh_id, now), bucket)[key].len() == 1,
{
    reveal_strlit("null");
}

/// With versioning, storing an object (under an id other than `null`)
/// puts the new version in front of all the versions it had.
pub proof fn lemma_versioned_put_keeps_history(
    s: S3StoreView,
    bucket: Seq<char>,
    key: Seq<char>,
    data: DataView,
    content_type: Seq<char>,
    metadata: Map<Seq<char>, Seq<char>>,
    fresh_id: Seq<char>,
    now: i64,
)
    requires
        versioning_on(s, bucket),
        fresh_id != "null"@,
        bucket_contents(s, bucket).contains_key(key),
    ensures
        bucket_contents(put_object_spec(s, bucket, key, data, content_type, metadata, fresh_id, now), bucket)[key]
            == seq![put_version_spec(data, content_type, metadata, fresh_id, now)] + bucket_contents(s, bucket)[key],
{
}

/// After a delete the key reads as absent: its versions are gone, or,
/// with versioning, a delete marker is in front of them.
pub proof fn lemma_delete_then_get(s: S3StoreView, bucket: Seq<char>, key: Seq<char>, fresh_id: Seq<char>, now: i64)
    ensures
        object_current(delete_object_spec(s, bucket, key, fresh_id, now).0, bucket, key) is None,
{
    let s2 = delete_object_spec(s, bucket, key, fresh_id, now).0;
    if s.objects.contains_key(bucket) && versioning_on(s, bucket) {
        assert(bucket_contents(s2, bucket).contains_key(key));
        assert(bucket_contents(s2, bucket)[key][0] == delete_marker_spec(fresh_id, now));
    } else if s.objects.contains_key(bucket) && s.objects[bucket].contains_key(key) {
        assert(!bucket_contents(s2, bucket).contains_key(key));
    }
}

/// Every message a receive takes with a positive visibility timeout is
/// hidden at the time of the receive.
pub proof fn lemma_received_messages_hidden(
    q: SqsQueueView,
    q2: SqsQueueView,
    r: Seq<SqsMessageView>,
    max: nat,
    vt: u32,
    now: i64,
    handles: Seq<Seq<char>>,
)
    requires
        receive_outcome(q, q2, r, max, Some(vt), now, handles),
        vt > 0,
        -clock_bound() <= now <= clock_bound(),
    ensures
        forall|i: int| 0 <= i < r.len() ==> !visible_at(#[trigger] r[i].visible_after, now),
{
    let msgs = q.messages;
    assert forall|i: int| 0 <= i < r.len() implies !visible_at(#[trigger] r[i].visible_after, now) by {
        lemma_rank_exists(msgs, now, i as nat);
        let j = choose|j: int|
            0 <= j < msgs.len() && visible_at(msgs[j].visible_after, now) && count_visible(msgs.take(j), now) == i;
        assert(is_selected(msgs, now, max, j));
        assert(r[i] == q2.messages[j]);
    }
}

/// The `k`-th visible message (counting from 0) is somewhere in `msgs`.
proof fn lemma_rank_exists(msgs: Seq<SqsMessageView>, now: i64, k: nat)
    requires
        k < count_visible(msgs, now),
    ensures
        exists|i: int|
            0 <= i < msgs.len() && visible_at(msgs[i].visible_after, now) && count_visible(msgs.take(i), now) == k,
    decreases msgs.len(),
{
    let p = msgs.drop_last();
    if k < count_visible(p, now) {
        lemma_rank_exists(p, now, k);
        let i = choose|i: int| 0 <= i < p.len() && visible_at(p[i].visible_after, now) && count_visible(p.take(i), now) == k;
        assert(p.take(i) =~= msgs.take(i));
        assert(msgs[i] == p[i]);
    } else {
        let i = msgs.len() - 1;
        assert(msgs.take(i) =~= p);
    }
}

/// Once a FIFO queue has admitted a message with a deduplication id, a
/// later send with that id is a duplicate.
pub proof fn lemma_admitted_id_is_duplicate(q: SqsQueueView, m: SqsMessageView)
    requires
        q.fifo,
        m.message_deduplication_id is Some,
    ensures
        is_duplicate(admitted_spec(q, m), m.message_deduplication_id),
{
}

/// Deleting by receipt handle leaves no message with that handle and
/// keeps every other message.
pub proof fn lemma_without_handle(msgs: Seq<SqsMessageView>, h: Seq<char>)
    ensures
        forall|i: int| 0 <= i < without_handle(msgs, h).len() ==> (#[trigger] without_handle(msgs, h)[i]).receipt_handle != h,
        forall|i: int| 0 <= i < msgs.len() && (#[trigger] msgs[i]).receipt_handle != h ==> without_handle(msgs, h).contains(msgs[i]),
    decreases msgs.len(),
{
    if msgs.len() > 0 {
        lemma_without_handle(msgs.drop_last(), h);
        let w = without_handle(msgs.drop_last(), h);
        assert forall|i: int| 0 <= i < msgs.len() && (#[trigger] msgs[i]).receipt_handle != h implies without_handle(msgs, h).contains(msgs[i]) by {
            if i < msgs.len() - 1 {
                assert(msgs.drop_last()[i] == msgs[i]);
                let j = choose|j: int| 0 <= j < w.len() && w[j] == msgs[i];
                if msgs.last().receipt_handle != h {
                    assert(without_handle(msgs, h)[j] == msgs[i]);
                }
            } else {
                assert(without_handle(msgs, h)[w.len() as int] == msgs[i]);
            }
        }
    }
}

proof fn lemma_unescape_char(c: char, rest: Seq<char>)
    ensures
        unescape_xml_spec(escape_xml_char(c) + escape_xml_spec(rest)) == seq![c] + unescape_xml_spec(escape_xml_spec(rest)),
{
    let t = escape_xml_char(c) + escape_xml_spec(rest);
    let n = escape_xml_char(c).len() as int;
    assert(t.subrange(n, t.len() as int) =~= escape_xml_spec(rest));
    if c == '&' {
        assert(t.subrange(0, 4) =~= seq!['&', 'a', 'm', 'p']);
        assert(t.subrange(0, 5) =~= seq!['&', 'a', 'm', 'p', ';']);
        assert(t.subrange(0, 4) != seq!['&', 'l', 't', ';']);
        assert(t.subrange(0, 4) != seq!['&', 'g', 't', ';']);
        assert(t.len() < 6 || t.subrange(0, 6)[1] != 'q');
        assert(t.len() < 6 || t.subrange(0, 6)[2] != 'p');
        assert(entity_at(t) == Some((5int, '&')));
    } else if c == '<' {
        assert(t.subrange(0, 4) =~= seq!['&', 'l', 't', ';']);
        assert(entity_at(t) == Some((4int, '<')));
    } else if c == '>' {
        assert(t.subrange(0, 4) =~= seq!['&', 'g', 't', ';']);
        assert(t.subrange(0, 4) != seq!['&', 'l', 't', ';']);
        assert(entity_at(t) == Some((4int, '>')));
    } else if c == '"' {
        assert(t.subrange(0, 6) =~= seq!['&', 'q', 'u', 'o', 't', ';']);
        assert(t.subrange(0, 4)[1] == 'q');
        assert(t.subrange(0, 6)[1] == 'q');
        assert(entity_at(t) == Some((6int, '"')));
    } else {
        assert(t[0] == c);
        assert(t.len() < 4 || t.subrange(0, 4)[0] != '&');
        assert(t.len() < 5 || t.subrange(0, 5)[0] != '&');
        assert(t.len() < 6 || t.subrange(0, 6)[0] != '&');
        assert(entity_at(t) is None);
    }
}

/// Unescaping what escaping wrote gives the text back.
pub proof fn lemma_escape_round_trip(s: Seq<char>)
    ensures
        unescape_xml_spec(escape_xml_spec(s)) == s,
    decreases s.len(),
{
    if s.len() > 0 {
        let rest = s.drop_first();
        assert(s =~= seq![s[0]] + rest);
        crate::text::lemma_escape_xml_append(seq![s[0]], rest);
        let one = seq![s[0]];
        assert(escape_xml_spec(one) == escape_xml_char(s[0])) by {
            assert(one.drop_last() =~= Seq::<char>::empty());
            assert(one.last() == s[0]);
            assert(escape_xml_spec(one) == escape_xml_spec(one.drop_last()) + escape_xml_char(one.last()));
            assert(escape_xml_spec(Seq::<char>::empty()) == Seq::<char>::empty());
            assert(Seq::<char>::empty() + escape_xml_char(s[0]) =~= escape_xml_char(s[0]));
        }
        lemma_unescape_char(s[0], rest);
        lemma_escape_round_trip(rest);
    }
}

// ---------------------------------------------------------------------------
// S3 requests
// ---------------------------------------------------------------------------

/// A PutObject recorded into an existing bucket, followed by a GetObject of
/// the same bucket and key (without a version id), answers 200 with the
/// data just written, its content type and its ETag.
pub proof fn law_put_object_then_get_object(
    s0: S3StoreView,
    s1: S3StoreView,
    t: PutTarget,
    version_id: Seq<char>,
    etag: Seq<char>,
    size: u64,
    data: DataView,
    now: i64,
    put: (ResponseView, Option<Seq<char>>),
    get_ctx: RequestContext,
    got: (ResponseView, Option<DataView>),
)
    requires
        put_commit_outcome(s0, s1, t, version_id, etag, size, data, now, put),
        s0.buckets.contains_key(t.bucket@),
        req_bucket(get_ctx) == Some(t.bucket@),
        req_key(get_ctx) == t.key@,
        !get_ctx.query_params@.contains_key("versionId"@),
        get_object_outcome(s1, get_ctx, got),
    ensures
        put.0.status_code == 200,
        got.0.status_code == 200,
        got.1 == Some(data),
        got.0.content_type == t.content_type@,
        got.0.headers[0] == ("ETag"@, etag),
{
    let b = t.bucket@;
    let k = t.key@;
    let v = built_version(data, size, etag, t.content_type@, t.metadata@, version_id, now);
    assert(s1.buckets == s0.buckets);
    assert(bucket_contents(s1, b).contains_key(k));
    assert(bucket_contents(s1, b)[k][0] == v);
    assert(object_current(s1, b, k) == Some(v));
    assert(requested_version(s1, get_ctx, b) == Some(v));
    let ks = choose|ks: Seq<Seq<char>>| enumerates(ks, v.metadata) && got.0.headers == object_headers_spec(v, ks, true);
    assert(object_headers_spec(v, ks, true)[0] == ("ETag"@, etag));
}

/// A DeleteObject (without a version id) in an existing bucket, followed
/// by a GetObject of the same key, answers NoSuchKey.
pub proof fn law_delete_object_then_get_object(
    s0: S3StoreView,
    s1: S3StoreView,
    del_ctx: RequestContext,
    fresh_id: Seq<char>,
    now: i64,
    del: (ResponseView, Option<Seq<char>>),
    get_ctx: RequestContext,
    got: (ResponseView, Option<DataView>),
)
    requires
        delete_object_outcome(s0, s1, del_ctx, fresh_id, now, del),
        req_bucket(del_ctx) matches Some(b) && s0.buckets.contains_key(b),
        !del_ctx.query_params@.contains_key("versionId"@),
        req_bucket(get_ctx) == req_bucket(del_ctx),
        req_key(get_ctx) == req_key(del_ctx),
        !get_ctx.query_params@.contains_key("versionId"@),
        get_object_outcome(s1, get_ctx, got),
    ensures
        del.0.status_code == 204,
        got.0 == no_such_key(),
        got.1 is None,
{
    let b = req_bucket(del_ctx)->Some_0;
    let k = req_key(del_ctx);
    lemma_delete_then_get(s0, b, k, fresh_id, now);
    assert(s1.buckets == s0.buckets);
}

/// A bucket that CreateBucket made answers HeadBucket with 200.
pub proof fn law_create_bucket_then_head(
    s0: S3StoreView,
    s1: S3StoreView,
    ctx: RequestContext,
    now: i64,
    created: ResponseView,
    head_ctx: RequestContext,
    head: ResponseView,
)
    requires
        create_bucket_outcome(s0, s1, ctx, now, created),
        created.status_code == 200,
        req_bucket(head_ctx) == req_bucket(ctx),
        head_bucket_outcome(s1, head_ctx, head),
    ensures
        head == empty_view(200),
{
}

/// What PutBucketPolicy stored, GetBucketPolicy gives back as JSON.
pub proof fn law_put_policy_then_get(
    s0: S3StoreView,
    s1: S3StoreView,
    ctx: RequestContext,
    put: ResponseView,
    get_ctx: RequestContext,
    got: ResponseView,
)
    requires
        set_policy_outcome(s0, s1, ctx, true, put),
        put.status_code == 204,
        req_bucket(get_ctx) == req_bucket(ctx),
        get_policy_outcome(s1, get_ctx, got),
    ensures
        got == plain_response(200, lossy_text(ctx.raw_body@), "application/json"@),
{
}

/// A bucket whose versioning PutBucketVersioning set to `Enabled` keeps
/// versions: the next stored object gets the fresh id rather than `null`.
pub proof fn law_enable_versioning(s0: S3StoreView, s1: S3StoreView, ctx: RequestContext, r: ResponseView)
    requires
        put_versioning_outcome(s0, s1, ctx, r),
        r.status_code == 200,
        requested_versioning(ctx) == "Enabled"@,
    ensures
        req_bucket(ctx) matches Some(b) && versioning_on(s1, b),
{
}

// ---------------------------------------------------------------------------
// Secrets Manager requests
// ---------------------------------------------------------------------------

proof fn lemma_demoted_not_current(v: SecretVersionView)
    ensures
        !is_current(demoted(v)),
{
    reveal_strlit("AWSCURRENT");
    reveal_strlit("AWSPREVIOUS");
    if is_current(v) {
        let f = v.version_stages.filter(keeps_stage());
        assert forall|j: int| 0 <= j < f.len() implies f[j] != "AWSCURRENT"@ by {
            v.version_stages.lemma_filter_pred(keeps_stage(), j);
            assert((keeps_stage())(f[j]));
        }
        let d = demoted(v).version_stages;
        assert(d == f.push("AWSPREVIOUS"@));
        assert forall|j: int| 0 <= j < d.len() implies d[j] != "AWSCURRENT"@ by {
            if j < f.len() {
                assert(d[j] == f[j]);
            } else {
                assert(d[j] == "AWSPREVIOUS"@);
                assert("AWSPREVIOUS"@.len() != "AWSCURRENT"@.len());
            }
        }
    }
}

/// After PutSecretValue on a secret that is not scheduled for deletion,
/// GetSecretValue by its name gives the value just written.
pub proof fn law_put_then_get_secret_value(
    s0: SecretsManagerStore,
    s1: SecretsManagerStore,
    put: RequestContext,
    version_id: Seq<char>,
    now: i64,
    r: ResponseView,
    get: RequestContext,
    g: ResponseView,
)
    requires
        put_secret_value_outcome(s0, s1, put, version_id, now, r),
        body_str(put.request_body@, "SecretId"@) matches Some(n) && s0@.contains_key(n) && !s0@[n].deleted,
        body_str(get.request_body@, "SecretId"@) == body_str(put.request_body@, "SecretId"@),
        get_secret_value_outcome(s1, get, g),
    ensures
        ({
            let n = body_str(put.request_body@, "SecretId"@)->Some_0;
            g == sm_ok(
                secret_value_json(
                    s1@[n],
                    current_version_spec(version_id, body_str(put.request_body@, "SecretString"@), now),
                ),
            )
        }),
{
    let n = body_str(put.request_body@, "SecretId"@)->Some_0;
    assert(put_target(s0, n) == Some(n));
    let s = s1@[n];
    let vs = s.versions;
    let nv = current_version_spec(version_id, body_str(put.request_body@, "SecretString"@), now);
    let last = vs.len() - 1;
    assert(vs[last] == nv);
    reveal_strlit("AWSCURRENT");
    assert(nv.version_stages[0] == "AWSCURRENT"@);
    assert(is_current(nv));
    assert forall|j: int| 0 <= j < last implies !(current_pred())(#[trigger] vs[j]) by {
        lemma_demoted_not_current(s0@[n].versions[j]);
    }
    crate::seqs::lemma_first_where(vs, current_pred(), last);
    assert(current_index(s) == Some(last));
    assert(lookup(s1, n) == Some(s));
}

/// After VerifyEmailIdentity records an address, its verification status
/// reads `Success`.
pub proof fn law_verify_email_then_status(
    s0: SesStoreView,
    s1: SesStoreView,
    p: Map<Seq<char>, Seq<char>>,
    rid: Seq<char>,
    r: ResponseView,
)
    requires
        verify_email_outcome(s0, s1, p, rid, r),
        p.contains_key("EmailAddress"@),
    ensures
        verification_entry(s1, p["EmailAddress"@]) == "<entry><key>"@ + p["EmailAddress"@]
            + "</key><value><VerificationStatus>"@ + "Success"@ + "</VerificationStatus></value></entry>"@,
{
}

/// After DeleteIdentity an identity has no verification status, and
/// deleting what VerifyEmailIdentity just added leaves the identities as
/// they were.
pub proof fn law_delete_identity_then_status(
    s0: SesStoreView,
    s1: SesStoreView,
    s2: SesStoreView,
    p: Map<Seq<char>, Seq<char>>,
    q: Map<Seq<char>, Seq<char>>,
    rid: Seq<char>,
    rid2: Seq<char>,
    r: ResponseView,
    r2: ResponseView,
)
    requires
        verify_email_outcome(s0, s1, p, rid, r),
        delete_identity_outcome(s1, s2, q, rid2, r2),
        q.contains_key("Identity"@),
    ensures
        verification_entry(s2, q["Identity"@]) == Seq::<char>::empty(),
        p.contains_key("EmailAddress"@) && q["Identity"@] == p["EmailAddress"@] && !s0.identities.contains_key(
            p["EmailAddress"@],
        ) ==> s2.identities == s0.identities,
{
    if p.contains_key("EmailAddress"@) && q["Identity"@] == p["EmailAddress"@] && !s0.identities.contains_key(
        p["EmailAddress"@],
    ) {
        let e = p["EmailAddress"@];
        assert(s0.identities.insert(e, IdentityView { identity: e, verified: true }).remove(e) =~= s0.identities);
    }
}

/// A zone CreateHostedZone made is what GetHostedZone of its id answers
/// with.
pub proof fn law_create_zone_then_get(
    s0: Route53StoreView,
    s1: Route53StoreView,
    ctx: RequestContext,
    rid: Seq<char>,
    id: Seq<char>,
    r: ResponseView,
    get: RequestContext,
    r2: ResponseView,
)
    requires
        create_zone_outcome(s0, s1, ctx, rid, id, r),
        xml_text_spec(body_of(ctx), "CallerReference"@) is Some,
        get_zone_outcome(s1, get, r2),
        last_path_segment(get.path@) == id,
    ensures
        r2 == r53_ok(document("GetHostedZoneResponse"@, zone_xml(new_zone_spec(body_of(ctx), id)))),
{
}

/// After DeleteHostedZone, GetHostedZone of the same id answers
/// NoSuchHostedZone, and none of the zone's record sets is left.
pub proof fn law_delete_zone_then_get(
    s0: Route53StoreView,
    s1: Route53StoreView,
    ctx: RequestContext,
    rid: Seq<char>,
    r: ResponseView,
    get: RequestContext,
    r2: ResponseView,
)
    requires
        delete_zone_outcome(s0, s1, ctx, rid, r),
        get_zone_outcome(s1, get, r2),
        last_path_segment(get.path@) == last_path_segment(ctx.path@),
    ensures
        r2 == no_zone(last_path_segment(ctx.path@)),
        forall|i: int| 0 <= i < s1.records.len() ==> (#[trigger] s1.records[i]).0.0 != last_path_segment(ctx.path@),
{
    let id = last_path_segment(ctx.path@);
    assert forall|i: int| 0 <= i < s1.records.len() implies (#[trigger] s1.records[i]).0.0 != id by {
        s0.records.lemma_filter_pred(outside_zone(id), i);
    }
}

/// Creating a cluster under an identifier that CreateCluster already used
/// answers ClusterAlreadyExists and changes nothing.
pub proof fn law_create_cluster_twice(
    s0: RedshiftStoreView,
    s1: RedshiftStoreView,
    s2: RedshiftStoreView,
    p: Map<Seq<char>, Seq<char>>,
    q: Map<Seq<char>, Seq<char>>,
    region: Seq<char>,
    region2: Seq<char>,
    rid: Seq<char>,
    rid2: Seq<char>,
    now: i64,
    now2: i64,
    r: ResponseView,
    r2: ResponseView,
)
    requires
        create_cluster_outcome(s0, s1, p, region, rid, now, r),
        create_cluster_outcome(s1, s2, q, region2, rid2, now2, r2),
        p.contains_key("ClusterIdentifier"@),
        q.contains_key("ClusterIdentifier"@),
        q["ClusterIdentifier"@] == p["ClusterIdentifier"@],
    ensures
        r2 == rs_error("ClusterAlreadyExists"@, "Cluster "@ + p["ClusterIdentifier"@] + " already exists"@),
        s2 == s1,
{
}

/// DeleteCluster after CreateCluster answers with the cluster just created
/// and leaves the clusters as they were before.
pub proof fn law_create_then_delete_cluster(
    s0: RedshiftStoreView,
    s1: RedshiftStoreView,
    s2: RedshiftStoreView,
    p: Map<Seq<char>, Seq<char>>,
    q: Map<Seq<char>, Seq<char>>,
    region: Seq<char>,
    rid: Seq<char>,
    rid2: Seq<char>,
    now: i64,
    r: ResponseView,
    r2: ResponseView,
)
    requires
        create_cluster_outcome(s0, s1, p, region, rid, now, r),
        delete_cluster_outcome(s1, s2, q, rid2, r2),
        p.contains_key("ClusterIdentifier"@),
        !s0.clusters.contains_key(p["ClusterIdentifier"@]),
        q.contains_key("ClusterIdentifier"@),
        q["ClusterIdentifier"@] == p["ClusterIdentifier"@],
    ensures
        r2 == rs_ok("DeleteCluster"@, rid2, cluster_doc(new_cluster_spec(p, region, now))),
        s2.clusters == s0.clusters,
{
    let id = p["ClusterIdentifier"@];
    assert(s0.clusters.insert(id, new_cluster_spec(p, region, now)).remove(id) =~= s0.clusters);
}

/// CreateTopic is idempotent: a second CreateTopic of the same name in the
/// same account and region changes nothing and answers with the same ARN.
pub proof fn law_create_topic_idempotent(
    s0: SnsStoreView,
    s1: SnsStoreView,
    s2: SnsStoreView,
    ctx: RequestContext,
    p: Map<Seq<char>, Seq<char>>,
    rid: Seq<char>,
    rid2: Seq<char>,
    now: i64,
    now2: i64,
    r: ResponseView,
    r2: ResponseView,
)
    requires
        create_topic_outcome(s0, s1, ctx, p, rid, now, r),
        create_topic_outcome(s1, s2, ctx, p, rid2, now2, r2),
        p.contains_key("Name"@),
    ensures
        s2 == s1,
        s1.topics.contains_key(topic_arn_spec(ctx.region@, ctx.account_id@, p["Name"@])),
        r == sns_ok(
            "CreateTopic"@,
            rid,
            element("TopicArn"@, s1.topics[topic_arn_spec(ctx.region@, ctx.account_id@, p["Name"@])].topic_arn),
        ),
        r2 == sns_ok(
            "CreateTopic"@,
            rid2,
            element("TopicArn"@, s1.topics[topic_arn_spec(ctx.region@, ctx.account_id@, p["Name"@])].topic_arn),
        ),
{
}

/// DeleteTopic of an existing topic removes it and every subscription to
/// it, and keeps the other subscriptions.
pub proof fn law_delete_topic_drops_subscriptions(
    s0: SnsStoreView,
    s1: SnsStoreView,
    p: Map<Seq<char>, Seq<char>>,
    rid: Seq<char>,
    r: ResponseView,
)
    requires
        delete_topic_outcome(s0, s1, p, rid, r),
        p.contains_key("TopicArn"@),
        s0.topics.contains_key(p["TopicArn"@]),
    ensures
        !s1.topics.contains_key(p["TopicArn"@]),
        forall|k: Seq<char>| #[trigger] s1.subscriptions.contains_key(k) ==> s1.subscriptions[k].topic_arn != p["TopicArn"@],
        forall|k: Seq<char>|
            #[trigger] s0.subscriptions.contains_key(k) && s0.subscriptions[k].topic_arn != p["TopicArn"@]
                ==> s1.subscriptions.contains_key(k) && s1.subscriptions[k] == s0.subscriptions[k],
{
    let arn = p["TopicArn"@];
    assert(s0.topics.contains_key(arn) ==> s1.subscriptions == without_topic(s0.subscriptions, arn));
    assert forall|k: Seq<char>| #[trigger] s1.subscriptions.contains_key(k) implies s1.subscriptions[k].topic_arn != arn by {
        if s0.topics.contains_key(arn) {
            assert(s1.subscriptions.dom().contains(k));
        }
    }
    assert forall|k: Seq<char>|
        #[trigger] s0.subscriptions.contains_key(k) && s0.subscriptions[k].topic_arn != arn implies s1.subscriptions.contains_key(k)
            && s1.subscriptions[k] == s0.subscriptions[k] by {
        if s0.topics.contains_key(arn) {
            assert(s1.subscriptions.dom().contains(k));
        }
    }
}

/// The dead-letter split: the messages a queue keeps (received fewer than
/// `max` times) and the messages it hands to the dead-letter queue (the
/// others) together are the messages it had, neither more nor fewer, each
/// side in its old order.
pub proof fn law_dlq_partition(msgs: Seq<SqsMessageView>, max: u32)
    ensures
        by_receive_count(msgs, max, true).len() + by_receive_count(msgs, max, false).len() == msgs.len(),
        by_receive_count(msgs, max, true).to_multiset().add(by_receive_count(msgs, max, false).to_multiset())
            =~= msgs.to_multiset(),
        forall|i: int|
            0 <= i < by_receive_count(msgs, max, true).len() ==> (#[trigger] by_receive_count(msgs, max, true)[i]).receive_count
                < max,
        forall|i: int|
            0 <= i < by_receive_count(msgs, max, false).len() ==> (#[trigger] by_receive_count(
                msgs,
                max,
                false,
            )[i]).receive_count >= max,
    decreases msgs.len(),
{
    broadcast use vstd::seq_lib::group_to_multiset_ensures;

    if msgs.len() > 0 {
        let init = msgs.drop_last();
        let x = msgs.last();
        law_dlq_partition(init, max);
        assert(msgs =~= init.push(x));
        let k0 = by_receive_count(init, max, true);
        let r0 = by_receive_count(init, max, false);
        if x.receive_count < max {
            assert(by_receive_count(msgs, max, true) == k0.push(x));
            assert(by_receive_count(msgs, max, false) == r0);
            assert(k0.push(x).to_multiset() =~= k0.to_multiset().insert(x));
            assert forall|i: int| 0 <= i < k0.push(x).len() implies (#[trigger] k0.push(x)[i]).receive_count < max by {
                if i < k0.len() {
                    assert(k0.push(x)[i] == k0[i]);
                }
            }
        } else {
            assert(by_receive_count(msgs, max, true) == k0);
            assert(by_receive_count(msgs, max, false) == r0.push(x));
            assert(r0.push(x).to_multiset() =~= r0.to_multiset().insert(x));
            assert forall|i: int| 0 <= i < r0.push(x).len() implies (#[trigger] r0.push(x)[i]).receive_count >= max by {
                if i < r0.len() {
                    assert(r0.push(x)[i] == r0[i]);
                }
            }
        }
        assert(init.push(x).to_multiset() =~= init.to_multiset().insert(x));
    } else {
        assert(by_receive_count(msgs, max, true) =~= Seq::<SqsMessageView>::empty());
        assert(by_receive_count(msgs, max, false) =~= Seq::<SqsMessageView>::empty());
        assert(msgs =~= Seq::<SqsMessageView>::empty());
    }
}

/// No two of `vs` carry `AWSCURRENT`.
pub open spec fn one_current_in(vs: Seq<SecretVersionView>) -> bool {
    forall|i: int, j: int|
        0 <= i < vs.len() && 0 <= j < vs.len() && is_current(#[trigger] vs[i]) && is_current(#[trigger] vs[j]) ==> i == j
}

/// No two versions of `s` carry `AWSCURRENT`.
pub open spec fn at_most_one_current(s: SecretView) -> bool {
    one_current_in(s.versions)
}

/// Every stored secret has at most one `AWSCURRENT` version.
pub open spec fn secrets_one_current(m: Map<Seq<char>, SecretView>) -> bool {
    forall|n: Seq<char>| #[trigger] m.contains_key(n) ==> at_most_one_current(m[n])
}

proof fn lemma_without_current_not_current(v: SecretVersionView)
    ensures
        !is_current(without_current(v)),
{
    reveal_strlit("AWSCURRENT");
    let f = v.version_stages.filter(keeps_stage());
    if f.contains("AWSCURRENT"@) {
        let j = choose|j: int| 0 <= j < f.len() && f[j] == "AWSCURRENT"@;
        v.version_stages.lemma_filter_pred(keeps_stage(), j);
        assert((keeps_stage())(f[j]));
    }
}

/// Versions that all lack `AWSCURRENT`, followed by one that has it, have
/// exactly one current version: the last.
proof fn lemma_one_current_after_push(vs: Seq<SecretVersionView>, v: SecretVersionView)
    requires
        forall|i: int| 0 <= i < vs.len() ==> !is_current(#[trigger] vs[i]),
        is_current(v),
    ensures
        one_current_in(vs.push(v)),
{
    let w = vs.push(v);
    assert forall|i: int, j: int|
        0 <= i < w.len() && 0 <= j < w.len() && is_current(#[trigger] w[i]) && is_current(#[trigger] w[j]) implies i == j by {
        if i < vs.len() {
            assert(w[i] == vs[i]);
        }
        if j < vs.len() {
            assert(w[j] == vs[j]);
        }
    }
}

/// Every request keeps each secret at no more than one `AWSCURRENT`
/// version, and a PutSecretValue that succeeds leaves the new version, the
/// last, as the current one.
pub proof fn law_at_most_one_current_version(
    s0: SecretsManagerStore,
    s1: SecretsManagerStore,
    ctx: RequestContext,
    now: i64,
    suffix: Seq<char>,
    version_id: Seq<char>,
    r: ResponseView,
)
    requires
        secrets_dispatch_outcome(s0, s1, ctx, now, suffix, version_id, r),
        secrets_one_current(s0@),
    ensures
        secrets_one_current(s1@),
        ({
            &&& ctx.operation@ == "PutSecretValue"@
            &&& body_str(ctx.request_body@, "SecretId"@) is Some
            &&& put_target(s0, body_str(ctx.request_body@, "SecretId"@)->Some_0) is Some
        }) ==> is_current(s1@[put_target(s0, body_str(ctx.request_body@, "SecretId"@)->Some_0)->Some_0].versions.last()),
{
    reveal_strlit("AWSCURRENT");
    reveal_strlit("CreateSecret");
    reveal_strlit("GetSecretValue");
    reveal_strlit("PutSecretValue");
    reveal_strlit("UpdateSecret");
    reveal_strlit("DescribeSecret");
    reveal_strlit("ListSecrets");
    reveal_strlit("DeleteSecret");
    reveal_strlit("RestoreSecret");
    let op = ctx.operation@;
    let body = ctx.request_body@;
    assert forall|n: Seq<char>| #[trigger] s1@.contains_key(n) implies at_most_one_current(s1@[n]) by {
        if s0@.contains_key(n) && s1@[n].versions == s0@[n].versions {
            assert(at_most_one_current(s0@[n]));
        } else if op == "CreateSecret"@ {
            let w = s1@[n].versions;
            assert forall|i: int, j: int|
                0 <= i < w.len() && 0 <= j < w.len() && is_current(#[trigger] w[i]) && is_current(#[trigger] w[j]) implies i
                == j by {}
        } else if op == "PutSecretValue"@ {
            let id = body_str(body, "SecretId"@)->Some_0;
            let t = put_target(s0, id)->Some_0;
            let old_vs = s0@[t].versions;
            let vs = old_vs.map_values(|v: SecretVersionView| demoted(v));
            assert forall|i: int| 0 <= i < vs.len() implies !is_current(#[trigger] vs[i]) by {
                lemma_demoted_not_current(old_vs[i]);
            }
            let v = current_version_spec(version_id, body_str(body, "SecretString"@), now);
            assert(is_current(v)) by {
                assert(v.version_stages[0] == "AWSCURRENT"@);
            }
            lemma_one_current_after_push(vs, v);
            assert(s1@[n].versions == vs.push(v));
        } else if op == "UpdateSecret"@ {
            let old_vs = s0@[n].versions;
            let vs = old_vs.map_values(|v: SecretVersionView| without_current(v));
            assert forall|i: int| 0 <= i < vs.len() implies !is_current(#[trigger] vs[i]) by {
                lemma_without_current_not_current(old_vs[i]);
            }
            let v = current_version_spec(version_id, body_str(body, "SecretString"@), now);
            assert(is_current(v)) by {
                assert(v.version_stages[0] == "AWSCURRENT"@);
            }
            lemma_one_current_after_push(vs, v);
            assert(s1@[n].versions == vs.push(v));
        }
    }
    if op == "PutSecretValue"@ && body_str(body, "SecretId"@) is Some && put_target(s0, body_str(body, "SecretId"@)->Some_0)
        is Some {
        let t = put_target(s0, body_str(body, "SecretId"@)->Some_0)->Some_0;
        let v = current_version_spec(version_id, body_str(body, "SecretString"@), now);
        assert("PutSecretValue"@[0] == 'P');
        assert("CreateSecret"@[0] == 'C');
        assert("GetSecretValue"@[0] == 'G');
        assert(put_secret_value_outcome(s0, s1, ctx, version_id, now, r));
        assert(s1@.contains_key(t));
        let w = s1@[t].versions;
        assert(w.len() == s0@[t].versions.len() + 1);
        assert(w[w.len() - 1] == v);
        assert(v.version_stages[0] == "AWSCURRENT"@);
    }
}

/// DeleteSecret (with a recovery window) and then RestoreSecret of the same
/// secret gives back the secret as it was, when it was not scheduled for
/// deletion before.
pub proof fn law_delete_then_restore_secret(
    s0: Map<Seq<char>, SecretView>,
    s1: Map<Seq<char>, SecretView>,
    s2: Map<Seq<char>, SecretView>,
    del: RequestContext,
    res: RequestContext,
    now: i64,
    r1: ResponseView,
    r2: ResponseView,
)
    requires
        delete_secret_outcome(s0, s1, del, now, r1),
        restore_secret_outcome(s1, s2, res, r2),
        body_str(del.request_body@, "SecretId"@) is Some,
        s0.contains_key(body_str(del.request_body@, "SecretId"@)->Some_0),
        !s0[body_str(del.request_body@, "SecretId"@)->Some_0].deleted,
        s0[body_str(del.request_body@, "SecretId"@)->Some_0].deletion_date is None,
        body_bool(del.request_body@, "ForceDeleteWithoutRecovery"@) != Some(true),
        body_str(res.request_body@, "SecretId"@) == body_str(del.request_body@, "SecretId"@),
    ensures
        s1[body_str(del.request_body@, "SecretId"@)->Some_0].deleted,
        s2 == s0,
{
    let id = body_str(del.request_body@, "SecretId"@)->Some_0;
    assert(s2 =~= s0) by {
        assert(s2[id] == s0[id]);
    }
}

/// Each SendEmail under a message id not used before adds one to the
/// count GetSendQuota reports.
pub proof fn law_send_email_counts_once(
    s0: SesStoreView,
    s1: SesStoreView,
    ctx: RequestContext,
    p: Map<Seq<char>, Seq<char>>,
    rid: Seq<char>,
    id: Seq<char>,
    now: i64,
    r: ResponseView,
    rid2: Seq<char>,
    r2: ResponseView,
)
    requires
        send_email_outcome(s0, s1, ctx, p, rid, id, now, r),
        p.contains_key("Source"@),
        !s0.emails.contains_key(id),
        s0.emails.dom().finite(),
        send_quota_outcome(s1, rid2, r2),
        s0.emails.dom().len() + 1 < exact_float_limit(),
    ensures
        s1.emails.dom().len() == s0.emails.dom().len() + 1,
        r2 == ses_ok(
            "GetSendQuota"@,
            rid2,
            "<Max24HourSend>50000.0</Max24HourSend><MaxSendRate>14.0</MaxSendRate><SentLast24Hours>"@ + decimal_spec(
                s0.emails.dom().len() + 1,
            ) + "</SentLast24Hours>"@,
        ),
{
    assert(s1.emails.dom() =~= s0.emails.dom().insert(id));
}

/// After SetIdentityFeedbackForwardingEnabled, GetIdentityNotificationAttributes
/// reports for that identity the forwarding flag the request asked for
/// (`true` in any case, or no value); an identity never configured reports
/// forwarding on.
pub proof fn law_set_forwarding_then_get(
    s0: SesStoreView,
    s1: SesStoreView,
    p: Map<Seq<char>, Seq<char>>,
    rid: Seq<char>,
    r: ResponseView,
    other: Seq<char>,
)
    requires
        set_forwarding_outcome(s0, s1, p, rid, r),
        p.contains_key("Identity"@),
    ensures
        settings_of(s1, p["Identity"@]).forwarding_enabled == forwarding_requested(p),
        !s1.notification_attrs.contains_key(other) ==> settings_of(s1, other).forwarding_enabled,
{
}

/// Through the service's dispatch: a CreateCluster of a new identifier and
/// then a DeleteCluster of it answer 200 with the cluster, and leave the
/// clusters as they were before.
pub proof fn law_dispatch_create_then_delete_cluster(
    s0: RedshiftStore,
    s1: RedshiftStore,
    s2: RedshiftStore,
    c1: RequestContext,
    c2: RequestContext,
    rid1: Seq<char>,
    rid2: Seq<char>,
    now1: i64,
    now2: i64,
    r1: Result<DispatchResponse, DispatchError>,
    r2: Result<DispatchResponse, DispatchError>,
)
    requires
        redshift_dispatch_outcome(s0, s1, c1, rid1, now1, r1),
        redshift_dispatch_outcome(s1, s2, c2, rid2, now2, r2),
        c1.operation@ == "CreateCluster"@,
        c2.operation@ == "DeleteCluster"@,
        service_params(c1).contains_key("ClusterIdentifier"@),
        !s0@.clusters.contains_key(service_params(c1)["ClusterIdentifier"@]),
        service_params(c2).contains_key("ClusterIdentifier"@),
        service_params(c2)["ClusterIdentifier"@] == service_params(c1)["ClusterIdentifier"@],
    ensures
        r1 is Ok,
        r2 matches Ok(resp) && resp@ == rs_ok(
            "DeleteCluster"@,
            rid2,
            cluster_doc(new_cluster_spec(service_params(c1), c1.region@, now1)),
        ),
        s2@.clusters == s0@.clusters,
{
    reveal_strlit("CreateCluster");
    reveal_strlit("DeleteCluster");
    assert("CreateCluster"@[0] == 'C');
    assert("DeleteCluster"@[0] == 'D');
    assert("CreateCluster"@.len() == 13);
    assert("DeleteCluster"@.len() == 13);
    let r1v = r1->Ok_0@;
    let r2v = r2->Ok_0@;
    law_create_then_delete_cluster(
        s0@,
        s1@,
        s2@,
        service_params(c1),
        service_params(c2),
        c1.region@,
        rid1,
        rid2,
        now1,
        r1v,
        r2v,
    );
}

/// In a bucket that keeps versions, the version `put_object` stores (whose
/// id is a fresh UUID) is never the version `null`, so it does not replace
/// an earlier version.
pub proof fn law_versioned_put_id_is_not_null(
    s: S3StoreView,
    bucket: Seq<char>,
    key: Seq<char>,
    data: DataView,
    content_type: Seq<char>,
    metadata: Map<Seq<char>, Seq<char>>,
    fresh_id: Seq<char>,
    now: i64,
)
    requires
        crate::deps::is_uuid_text(fresh_id),
        versioning_on(s, bucket),
    ensures
        object_current(put_object_spec(s, bucket, key, data, content_type, metadata, fresh_id, now), bucket, key)->Some_0.version_id
            != "null"@,
{
    lemma_put_then_get(s, bucket, key, data, content_type, metadata, fresh_id, now);
    crate::deps::lemma_uuid_text_is_not_null(fresh_id);
}

/// A receive counts itself on every message it takes: the message's
/// receive count grows by one (below the top of its range) and its
/// `ApproximateReceiveCount` attribute reads that count; the messages it
/// does not take are left as they were.
#[verifier::spinoff_prover]
#[verifier::rlimit(60)]
pub proof fn law_receive_counts_each_taken_message(
    q: SqsQueueView,
    q2: SqsQueueView,
    r: Seq<SqsMessageView>,
    max: nat,
    visibility_timeout: Option<u32>,
    now: i64,
    handles: Seq<Seq<char>>,
)
    requires
        receive_outcome(q, q2, r, max, visibility_timeout, now, handles),
    ensures
        forall|i: int|
            0 <= i < q.messages.len() && is_selected(q.messages, now, max, i) && q.messages[i].receive_count < u32::MAX
                ==> {
                &&& (#[trigger] q2.messages[i]).receive_count == q.messages[i].receive_count + 1
                &&& q2.messages[i].attributes.contains_key("ApproximateReceiveCount"@)
                &&& q2.messages[i].attributes["ApproximateReceiveCount"@] == decimal_spec(
                    (q.messages[i].receive_count + 1) as nat,
                )
            },
        forall|i: int|
            0 <= i < q.messages.len() && !is_selected(q.messages, now, max, i) ==> #[trigger] q2.messages[i]
                == q.messages[i],
{
    reveal_strlit("ApproximateReceiveCount");
    assert forall|i: int|
        0 <= i < q.messages.len() && is_selected(q.messages, now, max, i) && q.messages[i].receive_count < u32::MAX implies {
        &&& (#[trigger] q2.messages[i]).receive_count == q.messages[i].receive_count + 1
        &&& q2.messages[i].attributes.contains_key("ApproximateReceiveCount"@)
        &&& q2.messages[i].attributes["ApproximateReceiveCount"@] == decimal_spec((q.messages[i].receive_count + 1) as nat)
    } by {
        assert(crate::sqs::str_approx_receive_count() =~= "ApproximateReceiveCount"@);
    }
}

/// The record elements of `records`, one after another.
pub open spec fn records_xml(records: Seq<RecordView>) -> Seq<char>
    decreases records.len(),
{
    if records.len() == 0 {
        Seq::empty()
    } else {
        records_xml(records.drop_last()) + record_xml(records.last())
    }
}

/// A record set lies in zone `zone`.
pub open spec fn in_zone(zone: Seq<char>) -> spec_fn(RecordView) -> bool {
    |e: RecordView| e.0.0 == zone
}

/// The record elements listed for a zone are those of the stored record
/// sets whose zone id is that zone, in the order they are stored, and no
/// others.
pub proof fn law_zone_records_are_the_zone_filter(records: Seq<RecordView>, zone: Seq<char>)
    ensures
        zone_records_xml(records, zone) == records_xml(records.filter(in_zone(zone))),
    decreases records.len(),
{
    reveal(Seq::filter);
    if records.len() > 0 {
        law_zone_records_are_the_zone_filter(records.drop_last(), zone);
        let f = records.drop_last().filter(in_zone(zone));
        if records.last().0.0 == zone {
            assert(records.filter(in_zone(zone)) == f.push(records.last()));
            assert(f.push(records.last()).drop_last() =~= f);
        } else {
            assert(records.filter(in_zone(zone)) == f);
        }
    } else {
        assert(records.filter(in_zone(zone)) =~= Seq::<RecordView>::empty());
    }
}

proof fn lemma_filter_none(records: Seq<RecordView>, zone: Seq<char>)
    requires
        forall|i: int| 0 <= i < records.len() ==> (#[trigger] records[i]).0.0 != zone,
    ensures
        records.filter(in_zone(zone)).len() == 0,
    decreases records.len(),
{
    reveal(Seq::filter);
    if records.len() > 0 {
        let init = records.drop_last();
        assert forall|i: int| 0 <= i < init.len() implies (#[trigger] init[i]).0.0 != zone by {
            assert(init[i] == records[i]);
        }
        lemma_filter_none(init, zone);
        assert(records.last() == records[records.len() - 1]);
    }
}

/// ListResourceRecordSets of a zone lists exactly the stored record sets of
/// that zone, in stored order; a zone with none of the stored record sets
/// lists none, whatever other zones hold.
#[verifier::spinoff_prover]
#[verifier::rlimit(60)]
pub proof fn law_list_records_only_that_zone(s0: Route53StoreView, ctx: RequestContext, r: ResponseView)
    requires
        list_records_outcome(s0, ctx, r),
        s0.zones.contains_key(segment_after(ctx.path@, "hostedzone"@, 1)),
    ensures
        ({
            let zone = segment_after(ctx.path@, "hostedzone"@, 1);
            &&& r == r53_ok(
                document(
                    "ListResourceRecordSetsResponse"@,
                    "<ResourceRecordSets>"@ + records_xml(s0.records.filter(in_zone(zone)))
                        + "</ResourceRecordSets><IsTruncated>false</IsTruncated><MaxItems>100</MaxItems>"@,
                ),
            )
            &&& (forall|i: int| 0 <= i < s0.records.len() ==> (#[trigger] s0.records[i]).0.0 != zone)
                ==> r == r53_ok(
                document(
                    "ListResourceRecordSetsResponse"@,
                    "<ResourceRecordSets>"@ + "</ResourceRecordSets><IsTruncated>false</IsTruncated><MaxItems>100</MaxItems>"@,
                ),
            )
        }),
{
    let zone = segment_after(ctx.path@, "hostedzone"@, 1);
    law_zone_records_are_the_zone_filter(s0.records, zone);
    if forall|i: int| 0 <= i < s0.records.len() ==> (#[trigger] s0.records[i]).0.0 != zone {
        let f = s0.records.filter(in_zone(zone));
        lemma_filter_none(s0.records, zone);
        assert(f.len() == 0);
        assert(records_xml(f) == Seq::<char>::empty());
        assert("<ResourceRecordSets>"@ + records_xml(f) =~= "<ResourceRecordSets>"@);
    }
}

/// Each numeric queue attribute that is given and reads as a `u32` takes
/// that value; one that is not given keeps its value; so do the queue's
/// name, address and messages.
#[verifier::spinoff_prover]
#[verifier::rlimit(60)]
pub proof fn law_numeric_queue_attributes_take_their_values(
    q: SqsQueueView,
    attrs: Map<Seq<char>, Seq<char>>,
    now: i64,
    redrive: Option<(Option<Seq<char>>, Option<u64>)>,
)
    ensures
        ({
            let q2 = attributes_applied(q, attrs, now, redrive);
            let num = |k: Seq<char>| crate::text::parse_unsigned_spec(attrs[k], u32::MAX as nat);
            &&& attrs.contains_key("VisibilityTimeout"@) && num("VisibilityTimeout"@) is Some ==> q2.visibility_timeout
                == num("VisibilityTimeout"@)->0
            &&& attrs.contains_key("MessageRetentionPeriod"@) && num("MessageRetentionPeriod"@) is Some
                ==> q2.message_retention_period == num("MessageRetentionPeriod"@)->0
            &&& attrs.contains_key("MaximumMessageSize"@) && num("MaximumMessageSize"@) is Some
                ==> q2.maximum_message_size == num("MaximumMessageSize"@)->0
            &&& attrs.contains_key("DelaySeconds"@) && num("DelaySeconds"@) is Some ==> q2.delay_seconds == num(
                "DelaySeconds"@,
            )->0
            &&& attrs.contains_key("ReceiveMessageWaitTimeSeconds"@) && num("ReceiveMessageWaitTimeSeconds"@) is Some
                ==> q2.receive_message_wait_time_seconds == num("ReceiveMessageWaitTimeSeconds"@)->0
            &&& !attrs.contains_key("VisibilityTimeout"@) ==> q2.visibility_timeout == q.visibility_timeout
            &&& !attrs.contains_key("MessageRetentionPeriod"@) ==> q2.message_retention_period
                == q.message_retention_period
            &&& !attrs.contains_key("MaximumMessageSize"@) ==> q2.maximum_message_size == q.maximum_message_size
            &&& !attrs.contains_key("DelaySeconds"@) ==> q2.delay_seconds == q.delay_seconds
            &&& !attrs.contains_key("ReceiveMessageWaitTimeSeconds"@) ==> q2.receive_message_wait_time_seconds
                == q.receive_message_wait_time_seconds
            &&& attrs.contains_key("ContentBasedDeduplication"@) ==> q2.content_based_deduplication == (
            attrs["ContentBasedDeduplication"@] == "true"@)
            &&& q2.name == q.name && q2.url == q.url && q2.arn == q.arn && q2.messages == q.messages
        }),
{
    let num = |k: Seq<char>| crate::text::parse_unsigned_spec(attrs[k], u32::MAX as nat);
    assert(num("MessageRetentionPeriod"@) == crate::text::parse_unsigned_spec(attrs["MessageRetentionPeriod"@], u32::MAX as nat));
    assert(num("VisibilityTimeout"@) == crate::text::parse_unsigned_spec(attrs["VisibilityTimeout"@], u32::MAX as nat));
    assert(num("MaximumMessageSize"@) == crate::text::parse_unsigned_spec(attrs["MaximumMessageSize"@], u32::MAX as nat));
    assert(num("DelaySeconds"@) == crate::text::parse_unsigned_spec(attrs["DelaySeconds"@], u32::MAX as nat));
    assert(num("ReceiveMessageWaitTimeSeconds"@) == crate::text::parse_unsigned_spec(
        attrs["ReceiveMessageWaitTimeSeconds"@],
        u32::MAX as nat,
    ));
}

/// SetTopicAttributes stores what it is given: the display name, policy,
/// delivery policy and KMS key read back as the value set, content-based
/// deduplication as whether it is `true`; whatever is set, the topic keeps
/// its ARN, name, owner, region and kind.
#[verifier::spinoff_prover]
#[verifier::rlimit(60)]
pub proof fn law_topic_attribute_reads_back(t: TopicView, name: Seq<char>, value: Seq<char>)
    ensures
        name == "DisplayName"@ ==> topic_attribute_set(t, name, value).display_name == value,
        name == "Policy"@ ==> topic_attribute_set(t, name, value).policy == Some(value),
        name == "DeliveryPolicy"@ ==> topic_attribute_set(t, name, value).delivery_policy == Some(value),
        name == "KmsMasterKeyId"@ ==> topic_attribute_set(t, name, value).kms_master_key_id == Some(value),
        name == "ContentBasedDeduplication"@ ==> topic_attribute_set(t, name, value).content_based_deduplication == (value
            == "true"@),
        topic_attribute_set(t, name, value).topic_arn == t.topic_arn,
        topic_attribute_set(t, name, value).name == t.name,
        topic_attribute_set(t, name, value).owner == t.owner,
        topic_attribute_set(t, name, value).region == t.region,
        topic_attribute_set(t, name, value).fifo == t.fifo,
{
    reveal_strlit("DisplayName");
    reveal_strlit("Policy");
    reveal_strlit("DeliveryPolicy");
    reveal_strlit("KmsMasterKeyId");
    reveal_strlit("ContentBasedDeduplication");
    assert("DisplayName"@[0] == 'D' && "Policy"@[0] == 'P' && "DeliveryPolicy"@[0] == 'D' && "KmsMasterKeyId"@[0]
        == 'K' && "ContentBasedDeduplication"@[0] == 'C');
    assert("DisplayName"@[1] == 'i' && "DeliveryPolicy"@[1] == 'e');
}

/// After SetTopicAttributes sets `Policy` to `v` on a topic,
/// GetTopicAttributes of that topic answers 200 with a `Policy` entry
/// holding `v`.
#[verifier::spinoff_prover]
#[verifier::rlimit(60)]
pub proof fn law_set_policy_then_get(
    s0: SnsStore,
    s1: SnsStore,
    p: Map<Seq<char>, Seq<char>>,
    rid: Seq<char>,
    r: ResponseView,
    q: Map<Seq<char>, Seq<char>>,
    rid2: Seq<char>,
    r2: ResponseView,
)
    requires
        set_topic_attributes_outcome(s0@, s1@, p, rid, r),
        p.contains_key("TopicArn"@),
        p.contains_key("AttributeName"@),
        p["AttributeName"@] == "Policy"@,
        s0@.topics.contains_key(p["TopicArn"@]),
        get_topic_attributes_outcome(s1, q, rid2, r2),
        q.contains_key("TopicArn"@),
        q["TopicArn"@] == p["TopicArn"@],
    ensures
        r2.status_code == 200,
        exists|a: Seq<char>, b: Seq<char>| r2.body == a + entry_xml("Policy"@, param_or_empty(p, "AttributeValue"@)) + b,
{
    let arn = p["TopicArn"@];
    let v = param_or_empty(p, "AttributeValue"@);
    law_topic_attribute_reads_back(s0@.topics[arn], "Policy"@, v);
    let t = s1@.topics[arn];
    assert(t.policy == Some(v));
    let n = crate::sns_api::topic_subscriptions(s1, arn).len();
    let head = "<Attributes>"@ + entry_xml("TopicArn"@, t.topic_arn) + entry_xml("DisplayName"@, t.display_name)
        + entry_xml("Owner"@, t.owner) + entry_xml("SubscriptionsConfirmed"@, decimal_spec(n)) + entry_xml(
        "SubscriptionsPending"@,
        "0"@,
    ) + entry_xml("SubscriptionsDeleted"@, "0"@) + entry_xml("FifoTopic"@, crate::text::bool_spec(t.fifo)) + entry_xml(
        "ContentBasedDeduplication"@,
        crate::text::bool_spec(t.content_based_deduplication),
    );
    let inner = crate::sns_api::topic_attributes_xml(t, n);
    assert(inner == head + entry_xml("Policy"@, v) + "</Attributes>"@);
    let act = "GetTopicAttributes"@;
    let ns = crate::sns_api::sns_ns();
    let pre = xml_decl() + "<"@ + act + "Response xmlns=\""@ + ns + "\"><"@ + act + "Result>"@;
    let post = "</"@ + act + "Result><ResponseMetadata><RequestId>"@ + rid2 + "</RequestId></ResponseMetadata></"@ + act
        + "Response>"@;
    assert(r2.body == pre + inner + post);
    let a = pre + head;
    let b = "</Attributes>"@ + post;
    assert(r2.body =~= a + entry_xml("Policy"@, v) + b);
}

/// GetBucketLocation of a bucket CreateBucket made reports the region the
/// request was made in, except `us-east-1`, which it reports as empty.
pub proof fn law_create_bucket_then_location(
    s0: S3StoreView,
    s1: S3StoreView,
    ctx: RequestContext,
    now: i64,
    r: ResponseView,
    get: RequestContext,
    r2: ResponseView,
)
    requires
        create_bucket_outcome(s0, s1, ctx, now, r),
        req_bucket(ctx) is Some,
        !s0.buckets.contains_key(req_bucket(ctx)->Some_0),
        location_outcome(s1, get, r2),
        req_bucket(get) == req_bucket(ctx),
    ensures
        r2.status_code == 200,
        ctx.region@ != "us-east-1"@ ==> r2.body == xml_decl()
            + "<LocationConstraint xmlns=\"http://s3.amazonaws.com/doc/2006-03-01/\">"@ + ctx.region@
            + "</LocationConstraint>"@,
        ctx.region@ == "us-east-1"@ ==> r2.body == xml_decl()
            + "<LocationConstraint xmlns=\"http://s3.amazonaws.com/doc/2006-03-01/\">"@ + "</LocationConstraint>"@,
{
    let b = req_bucket(ctx)->Some_0;
    assert(s1.buckets[b].region == ctx.region@);
    assert(xml_decl() + "<LocationConstraint xmlns=\"http://s3.amazonaws.com/doc/2006-03-01/\">"@ + Seq::<char>::empty()
        =~= xml_decl() + "<LocationConstraint xmlns=\"http://s3.amazonaws.com/doc/2006-03-01/\">"@);
}

/// GetBucketLocation of any stored bucket whose region is not `us-east-1`
/// reports that region, so two buckets in different regions report
/// different locations.
pub proof fn law_location_reports_region(s: S3StoreView, ctx: RequestContext, r: ResponseView)
    requires
        location_outcome(s, ctx, r),
        req_bucket(ctx) is Some,
        s.buckets.contains_key(req_bucket(ctx)->Some_0),
        s.buckets[req_bucket(ctx)->Some_0].region != "us-east-1"@,
    ensures
        r.status_code == 200,
        r.body == xml_decl() + "<LocationConstraint xmlns=\"http://s3.amazonaws.com/doc/2006-03-01/\">"@
            + s.buckets[req_bucket(ctx)->Some_0].region + "</LocationConstraint>"@,
{
}

proof fn lemma_only_requested(l: Seq<(Seq<char>, Seq<char>)>, req: Seq<Seq<char>>, j: int)
    requires
        0 <= j <= l.len(),
        l.len() > 2,
        forall|k: int| 0 <= k < l.len() && k != 2 ==> !req.contains(#[trigger] l[k].0),
        req.contains(l[2].0),
    ensures
        attributes_xml(l.take(j), false, req) == if j > 2 {
            attribute_xml(l[2].0, l[2].1)
        } else {
            Seq::<char>::empty()
        },
    decreases j,
{
    if j > 0 {
        lemma_only_requested(l, req, j - 1);
        assert(l.take(j).drop_last() =~= l.take(j - 1));
        assert(l.take(j).last() == l[j - 1]);
        if j - 1 == 2 {
            assert(Seq::<char>::empty() + attribute_xml(l[2].0, l[2].1) =~= attribute_xml(l[2].0, l[2].1));
        } else {
            assert(attributes_xml(l.take(j - 1), false, req) + Seq::<char>::empty() =~= attributes_xml(
                l.take(j - 1),
                false,
                req,
            ));
        }
    } else {
        assert(l.take(0) =~= Seq::<(Seq<char>, Seq<char>)>::empty());
    }
}

/// GetQueueAttributes asking for `MessageRetentionPeriod` alone reports
/// exactly that attribute, with the queue's retention period.
#[verifier::spinoff_prover]
#[verifier::rlimit(60)]
pub proof fn law_retention_period_is_reported(q: SqsQueueView, now: i64)
    ensures
        attributes_xml(queue_attribute_list(q, now), false, seq!["MessageRetentionPeriod"@]) == attribute_xml(
            "MessageRetentionPeriod"@,
            decimal_spec(q.message_retention_period as nat),
        ),
{
    reveal_strlit("QueueArn");
    reveal_strlit("VisibilityTimeout");
    reveal_strlit("MessageRetentionPeriod");
    reveal_strlit("MaximumMessageSize");
    reveal_strlit("DelaySeconds");
    reveal_strlit("ReceiveMessageWaitTimeSeconds");
    reveal_strlit("ApproximateNumberOfMessages");
    reveal_strlit("ApproximateNumberOfMessagesNotVisible");
    reveal_strlit("CreatedTimestamp");
    reveal_strlit("LastModifiedTimestamp");
    reveal_strlit("FifoQueue");
    reveal_strlit("ContentBasedDeduplication");
    let req = seq!["MessageRetentionPeriod"@];
    let l = queue_attribute_list(q, now);
    assert forall|k: int| 0 <= k < l.len() && k != 2 implies !req.contains(#[trigger] l[k].0) by {
        assert(l[k].0.len() != "MessageRetentionPeriod"@.len());
        if req.contains(l[k].0) {
            assert(req[0] == l[k].0);
        }
    }
    assert(req.contains(l[2].0)) by {
        assert(req[0] == l[2].0);
    }
    lemma_only_requested(l, req, l.len() as int);
    assert(l.take(l.len() as int) =~= l);
}

} // verus!
