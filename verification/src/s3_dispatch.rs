//! Routing S3 requests to their operations.
//!
//! Most operations finish here.  Those that move object data through the
//! file store stop after their checks with a plan; the caller puts the
//! data in place and records it with the matching `finish_*` function.
//! Either way the caller gets the answer together with the files to
//! remove, the object data to send and the object events to announce.
use vstd::prelude::*;

use crate::http::{DispatchError, DispatchResponse, RequestContext, ResponseView};
use crate::s3::{DataView, ObjectDataRef, S3Store};
use crate::s3_api::{bucket_from_path, bucket_from_path_spec, key_from_path};
use crate::s3_buckets::{
    create_bucket_at, create_bucket_outcome, delete_bucket, delete_bucket_outcome, delete_bucket_policy, get_bucket_acl,
    get_bucket_acl_outcome, get_bucket_location, get_bucket_policy, get_bucket_versioning, get_object_acl,
    get_policy_outcome, get_versioning_outcome, head_bucket, head_bucket_outcome, list_buckets, list_buckets_outcome,
    list_multipart_uploads, list_uploads_outcome, location_outcome, object_acl_outcome, put_bucket_acl,
    put_bucket_acl_outcome, put_bucket_policy, put_bucket_versioning, put_object_acl, put_versioning_outcome,
    set_policy_outcome,
};
use crate::s3_listing::{list_object_versions, list_objects_v1, list_objects_v2, list_v1_outcome, list_v2_outcome, list_versions_outcome};
use crate::s3_notify::{get_bucket_notification, get_notification_outcome, put_bucket_notification, put_notification_outcome};
use crate::s3_objects::{
    abort_multipart_upload, abort_upload_outcome, complete_commit_outcome, complete_multipart_commit_at,
    complete_multipart_plan, complete_plan_outcome, copy_commit_outcome, copy_object_commit_at, copy_object_plan,
    copy_plan_outcome, create_multipart_upload_at, create_upload_outcome, data_opt_view, delete_object_at,
    delete_object_outcome, delete_objects, delete_objects_outcome, get_object, get_object_outcome, head_object,
    head_object_outcome, part_commit_outcome, part_target_outcome, put_commit_outcome, put_object_commit_at,
    put_object_target, put_target_outcome, string_views_of, upload_part_commit_at, upload_part_target, CompletePlan,
    CopyPlan, PartTarget, PutTarget,
};
use crate::s3_rest::{derive_s3_operation, req_bucket, req_key, s3_bucket_error, s3_bucket_error_view, s3_operation_spec};
use crate::text::opt_view;

verus! {

/// A finished answer and what goes with it.
pub struct S3Reply {
    pub response: DispatchResponse,
    /// Files to remove once the answer is given.
    pub remove_files: Vec<String>,
    /// The bucket whose directory goes with it.
    pub remove_bucket_dir: Option<String>,
    /// Object data to send as the body.
    pub data: Option<ObjectDataRef>,
    /// Object events to announce: bucket, key and event name.
    pub events: Vec<(String, String, String)>,
}

/// Where handling a request stands after routing.
pub enum S3Step {
    Reply(S3Reply),
    /// A PutObject passed its checks; the body is to be put in place.
    Put(PutTarget),
    /// An UploadPart passed its checks; the part is to be put in place.
    UploadPart(PartTarget),
    /// A CompleteMultipartUpload passed its checks; the parts are to be
    /// joined.
    Complete(CompletePlan),
    /// A CopyObject passed its checks; the source data is to be copied.
    Copy(CopyPlan),
}

pub open spec fn event_views(v: Seq<(String, String, String)>) -> Seq<(Seq<char>, Seq<char>, Seq<char>)> {
    v.map_values(|e: (String, String, String)| (e.0@, e.1@, e.2@))
}

pub open spec fn file_views(v: Seq<String>) -> Seq<Seq<char>> {
    v.map_values(|s: String| s@)
}

/// A reply with nothing besides its answer.
pub open spec fn bare(rep: S3Reply, v: ResponseView) -> bool {
    &&& rep.response@ == v
    &&& rep.remove_files@.len() == 0
    &&& rep.remove_bucket_dir is None
    &&& rep.data is None
    &&& rep.events@.len() == 0
}

fn reply(response: DispatchResponse) -> (r: S3Reply)
    ensures
        bare(r, response@),
{
    S3Reply { response, remove_files: Vec::new(), remove_bucket_dir: None, data: None, events: Vec::new() }
}

/// The first of the files, if any.
pub open spec fn first_file(fs: Seq<Seq<char>>) -> Option<Seq<char>> {
    if fs.len() == 0 {
        None
    } else {
        Some(fs[0])
    }
}

/// The files of an optional path.
pub open spec fn opt_files(p: Option<Seq<char>>) -> Seq<Seq<char>> {
    match p {
        Some(x) => seq![x],
        None => Seq::empty(),
    }
}

fn opt_file_vec(p: Option<String>) -> (r: Vec<String>)
    ensures
        file_views(r@) == opt_files(opt_view(p)),
{
    let mut v: Vec<String> = Vec::new();
    match p {
        Some(x) => {
            v.push(x);
            proof {
                assert(file_views(v@) =~= seq![v@[0]@]);
            }
        },
        None => {
            proof {
                assert(file_views(v@) =~= Seq::<Seq<char>>::empty());
            }
        },
    }
    v
}

/// The event a write announces when it succeeds (status 200).
pub open spec fn write_events(r: ResponseView, bucket: Seq<char>, key: Seq<char>, event: Seq<char>) -> Seq<
    (Seq<char>, Seq<char>, Seq<char>),
> {
    if r.status_code == 200 {
        seq![(bucket, key, event)]
    } else {
        Seq::empty()
    }
}

fn write_event_vec(status: u16, ok: u16, bucket: String, key: String, event: &str) -> (r: Vec<(String, String, String)>)
    ensures
        event_views(r@) == if status == ok {
            seq![(bucket@, key@, event@)]
        } else {
            Seq::empty()
        },
{
    let mut v: Vec<(String, String, String)> = Vec::new();
    if status == ok {
        v.push((bucket, key, event.to_string()));
        proof {
            assert(event_views(v@) =~= seq![(bucket@, key@, event@)]);
        }
    } else {
        proof {
            assert(event_views(v@) =~= Seq::<(Seq<char>, Seq<char>, Seq<char>)>::empty());
        }
    }
    v
}

/// The bucket a request names, empty when it names none.
pub open spec fn bucket_or_empty(ctx: RequestContext) -> Seq<char> {
    match bucket_from_path_spec(ctx.path@) {
        Some(b) => b,
        None => Seq::empty(),
    }
}

fn bucket_or_empty_exec(ctx: &RequestContext) -> (r: String)
    ensures
        r@ == bucket_or_empty(*ctx),
{
    match bucket_from_path(ctx.path.as_str()) {
        Some(b) => b,
        None => String::new(),
    }
}

// ---------------------------------------------------------------------------
// Finishing the operations that move data
// ---------------------------------------------------------------------------

/// What finishing a PutObject gives: the commit's answer, its stale file,
/// and the creation event when it succeeded.
pub open spec fn finish_put_outcome(
    s0: crate::s3::S3StoreView,
    s1: crate::s3::S3StoreView,
    t: PutTarget,
    version_id: Seq<char>,
    etag: Seq<char>,
    size: u64,
    data: DataView,
    now: i64,
    rep: S3Reply,
) -> bool {
    &&& put_commit_outcome(s0, s1, t, version_id, etag, size, data, now, (rep.response@, first_file(file_views(rep.remove_files@))))
    &&& file_views(rep.remove_files@).len() <= 1
    &&& rep.remove_bucket_dir is None
    &&& rep.data is None
    &&& event_views(rep.events@) == write_events(rep.response@, t.bucket@, t.key@, "s3:ObjectCreated:Put"@)
}

/// Records a PutObject whose data is in place (see `put_object_commit_at`).
pub fn finish_put_at(
    store: &mut S3Store,
    t: PutTarget,
    version_id: String,
    etag: String,
    size: u64,
    data: ObjectDataRef,
    now: i64,
) -> (r: S3Reply)
    requires
        old(store).wf(),
        t.metadata.wf(),
    ensures
        final(store).wf(),
        finish_put_outcome(old(store)@, final(store)@, t, version_id@, etag@, size, data@, now, r),
{
    let bucket = t.bucket.clone();
    let key = t.key.clone();
    let (resp, stale) = put_object_commit_at(store, t, version_id, etag, size, data, now);
    let files = opt_file_vec(stale);
    let events = write_event_vec(resp.status_code, 200, bucket, key, "s3:ObjectCreated:Put");
    S3Reply { response: resp, remove_files: files, remove_bucket_dir: None, data: None, events }
}

/// Records a part whose data is in place (see `upload_part_commit_at`).
pub fn finish_upload_part_at(
    store: &mut S3Store,
    t: &PartTarget,
    etag: String,
    size: u64,
    data: ObjectDataRef,
    now: i64,
) -> (r: S3Reply)
    requires
        old(store).wf(),
    ensures
        final(store).wf(),
        part_commit_outcome(old(store)@, final(store)@, *t, etag@, size, data@, now, r.response@),
        bare(r, r.response@),
{
    reply(upload_part_commit_at(store, t, etag, size, data, now))
}

/// What finishing a completed upload gives.
pub open spec fn finish_complete_outcome(
    s0: crate::s3::S3StoreView,
    s1: crate::s3::S3StoreView,
    p: CompletePlan,
    version_id: Seq<char>,
    content_etag: Seq<char>,
    size: u64,
    data: DataView,
    now: i64,
    rep: S3Reply,
) -> bool {
    &&& complete_commit_outcome(s0, s1, p, version_id, content_etag, size, data, now, (rep.response@, first_file(file_views(rep.remove_files@))))
    &&& file_views(rep.remove_files@).len() <= 1
    &&& rep.remove_bucket_dir is None
    &&& rep.data is None
    &&& event_views(rep.events@) == write_events(rep.response@, p.bucket@, p.key@, "s3:ObjectCreated:CompleteMultipartUpload"@)
}

/// Records a completed upload (see `complete_multipart_commit_at`).
pub fn finish_complete_at(
    store: &mut S3Store,
    p: CompletePlan,
    version_id: String,
    content_etag: String,
    size: u64,
    data: ObjectDataRef,
    now: i64,
) -> (r: S3Reply)
    requires
        old(store).wf(),
        p.metadata.wf(),
    ensures
        final(store).wf(),
        finish_complete_outcome(old(store)@, final(store)@, p, version_id@, content_etag@, size, data@, now, r),
{
    let bucket = p.bucket.clone();
    let key = p.key.clone();
    let (resp, stale) = complete_multipart_commit_at(store, p, version_id, content_etag, size, data, now);
    let files = opt_file_vec(stale);
    let events = write_event_vec(resp.status_code, 200, bucket, key, "s3:ObjectCreated:CompleteMultipartUpload");
    S3Reply { response: resp, remove_files: files, remove_bucket_dir: None, data: None, events }
}

/// What finishing a copy gives.
pub open spec fn finish_copy_outcome(
    s0: crate::s3::S3StoreView,
    s1: crate::s3::S3StoreView,
    p: CopyPlan,
    version_id: Seq<char>,
    data: DataView,
    now: i64,
    rep: S3Reply,
) -> bool {
    &&& copy_commit_outcome(s0, s1, p, version_id, data, now, (rep.response@, first_file(file_views(rep.remove_files@))))
    &&& file_views(rep.remove_files@).len() <= 1
    &&& rep.remove_bucket_dir is None
    &&& rep.data is None
    &&& event_views(rep.events@) == write_events(rep.response@, p.dest_bucket@, p.dest_key@, "s3:ObjectCreated:Copy"@)
}

/// Records a copy (see `copy_object_commit_at`).
pub fn finish_copy_at(store: &mut S3Store, p: CopyPlan, version_id: String, data: ObjectDataRef, now: i64) -> (r: S3Reply)
    requires
        old(store).wf(),
        p.source.wf(),
    ensures
        final(store).wf(),
        finish_copy_outcome(old(store)@, final(store)@, p, version_id@, data@, now, r),
{
    let bucket = p.dest_bucket.clone();
    let key = p.dest_key.clone();
    let (resp, stale) = copy_object_commit_at(store, p, version_id, data, now);
    let files = opt_file_vec(stale);
    let events = write_event_vec(resp.status_code, 200, bucket, key, "s3:ObjectCreated:Copy");
    S3Reply { response: resp, remove_files: files, remove_bucket_dir: None, data: None, events }
}

// ---------------------------------------------------------------------------
// Routing
// ---------------------------------------------------------------------------

/// The operations S3 handles.
pub open spec fn s3_supported(op: Seq<char>) -> bool {
    op == "ListBuckets"@ || op == "CreateBucket"@ || op == "DeleteBucket"@ || op == "HeadBucket"@ || op
        == "GetBucketLocation"@ || op == "PutObject"@ || op == "GetObject"@ || op == "PresignedGetObject"@ || op
        == "HeadObject"@ || op == "DeleteObject"@ || op == "DeleteObjects"@ || op == "CopyObject"@ || op
        == "ListObjectsV2"@ || op == "ListObjects"@ || op == "CreateMultipartUpload"@ || op == "UploadPart"@ || op
        == "CompleteMultipartUpload"@ || op == "AbortMultipartUpload"@ || op == "ListMultipartUploads"@ || op
        == "GetBucketAcl"@ || op == "PutBucketAcl"@ || op == "GetObjectAcl"@ || op == "PutObjectAcl"@ || op
        == "GetBucketPolicy"@ || op == "PutBucketPolicy"@ || op == "DeleteBucketPolicy"@ || op == "GetBucketVersioning"@
        || op == "PutBucketVersioning"@ || op == "ListObjectVersions"@ || op == "GetBucketNotificationConfiguration"@
        || op == "PutBucketNotificationConfiguration"@
}

/// The error for a bucket read when the account and region have no
/// state yet.
pub open spec fn stateless_bucket_error(ctx: RequestContext) -> ResponseView {
    s3_bucket_error_view("NoSuchBucket"@, "The specified bucket does not exist"@, bucket_or_empty(ctx), 404)
}

/// What routing a bucket-level operation does (those that name no key).
pub open spec fn bucket_step_outcome(
    op: Seq<char>,
    s0: S3Store,
    s1: S3Store,
    has_state: bool,
    ctx: RequestContext,
    now: i64,
    step: S3Step,
) -> bool {
    step matches S3Step::Reply(rep) && {
        let v = rep.response@;
        if op == "DeleteBucket"@ {
            &&& delete_bucket_outcome(s0@, s1@, ctx, (v, rep.remove_bucket_dir is Some))
            &&& match rep.remove_bucket_dir {
                Some(b) => req_bucket(ctx) == Some(b@),
                None => true,
            }
            &&& rep.remove_files@.len() == 0 && rep.data is None && rep.events@.len() == 0
        } else {
            bare(rep, v) && if op == "ListBuckets"@ {
                s1 == s0 && list_buckets_outcome(&s0, v)
            } else if op == "CreateBucket"@ {
                create_bucket_outcome(s0@, s1@, ctx, now, v)
            } else if op == "HeadBucket"@ {
                s1 == s0 && if has_state {
                    head_bucket_outcome(s0@, ctx, v)
                } else {
                    v == stateless_bucket_error(ctx)
                }
            } else if op == "GetBucketLocation"@ {
                s1 == s0 && if has_state {
                    location_outcome(s0@, ctx, v)
                } else {
                    v == stateless_bucket_error(ctx)
                }
            } else if op == "ListObjectsV2"@ {
                s1 == s0 && list_v2_outcome(&s0, ctx, v)
            } else if op == "ListObjects"@ {
                s1 == s0 && list_v1_outcome(&s0, ctx, v)
            } else if op == "ListMultipartUploads"@ {
                s1 == s0 && list_uploads_outcome(&s0, ctx, v)
            } else if op == "GetBucketAcl"@ {
                s1 == s0 && get_bucket_acl_outcome(s0@, ctx, v)
            } else if op == "PutBucketAcl"@ {
                put_bucket_acl_outcome(s0@, s1@, ctx, v)
            } else if op == "GetBucketPolicy"@ {
                s1 == s0 && get_policy_outcome(s0@, ctx, v)
            } else if op == "PutBucketPolicy"@ {
                set_policy_outcome(s0@, s1@, ctx, true, v)
            } else if op == "DeleteBucketPolicy"@ {
                set_policy_outcome(s0@, s1@, ctx, false, v)
            } else if op == "GetBucketVersioning"@ {
                s1 == s0 && get_versioning_outcome(s0@, ctx, v)
            } else if op == "PutBucketVersioning"@ {
                put_versioning_outcome(s0@, s1@, ctx, v)
            } else if op == "ListObjectVersions"@ {
                s1 == s0 && list_versions_outcome(&s0, ctx, v)
            } else if op == "GetBucketNotificationConfiguration"@ {
                s1 == s0 && get_notification_outcome(s0@, ctx, v)
            } else {
                put_notification_outcome(s0@, s1@, ctx, v)
            }
        }
    }
}

/// The operations `bucket_step_outcome` covers.
pub open spec fn bucket_operation(op: Seq<char>) -> bool {
    op == "ListBuckets"@ || op == "CreateBucket"@ || op == "DeleteBucket"@ || op == "HeadBucket"@ || op
        == "GetBucketLocation"@ || op == "ListObjectsV2"@ || op == "ListObjects"@ || op == "ListMultipartUploads"@ || op
        == "GetBucketAcl"@ || op == "PutBucketAcl"@ || op == "GetBucketPolicy"@ || op == "PutBucketPolicy"@ || op
        == "DeleteBucketPolicy"@ || op == "GetBucketVersioning"@ || op == "PutBucketVersioning"@ || op
        == "ListObjectVersions"@ || op == "GetBucketNotificationConfiguration"@ || op
        == "PutBucketNotificationConfiguration"@
}

fn dispatch_bucket_op(store: &mut S3Store, has_state: bool, ctx: &RequestContext, op: &str, now: i64) -> (r: S3Step)
    requires
        old(store).wf(),
        ctx.wf(),
        bucket_operation(op@),
    ensures
        final(store).wf(),
        bucket_step_outcome(op@, *old(store), *final(store), has_state, *ctx, now, r),
{
    if op.eq("DeleteBucket") {
        let (resp, removed) = delete_bucket(store, ctx);
        let dir = if removed {
            Some(bucket_or_empty_exec(ctx))
        } else {
            None
        };
        return S3Step::Reply(
            S3Reply { response: resp, remove_files: Vec::new(), remove_bucket_dir: dir, data: None, events: Vec::new() },
        );
    }
    let resp = if op.eq("ListBuckets") {
        list_buckets(store)
    } else if op.eq("CreateBucket") {
        create_bucket_at(store, ctx, now)
    } else if op.eq("HeadBucket") {
        if has_state {
            head_bucket(store, ctx)
        } else {
            let b = bucket_or_empty_exec(ctx);
            s3_bucket_error("NoSuchBucket", "The specified bucket does not exist", b.as_str(), 404)
        }
    } else if op.eq("GetBucketLocation") {
        if has_state {
            get_bucket_location(store, ctx)
        } else {
            let b = bucket_or_empty_exec(ctx);
            s3_bucket_error("NoSuchBucket", "The specified bucket does not exist", b.as_str(), 404)
        }
    } else if op.eq("ListObjectsV2") {
        list_objects_v2(store, ctx)
    } else if op.eq("ListObjects") {
        list_objects_v1(store, ctx)
    } else if op.eq("ListMultipartUploads") {
        list_multipart_uploads(store, ctx)
    } else if op.eq("GetBucketAcl") {
        get_bucket_acl(store, ctx)
    } else if op.eq("PutBucketAcl") {
        put_bucket_acl(store, ctx)
    } else if op.eq("GetBucketPolicy") {
        get_bucket_policy(store, ctx)
    } else if op.eq("PutBucketPolicy") {
        put_bucket_policy(store, ctx)
    } else if op.eq("DeleteBucketPolicy") {
        delete_bucket_policy(store, ctx)
    } else if op.eq("GetBucketVersioning") {
        get_bucket_versioning(store, ctx)
    } else if op.eq("PutBucketVersioning") {
        put_bucket_versioning(store, ctx)
    } else if op.eq("ListObjectVersions") {
        list_object_versions(store, ctx)
    } else if op.eq("GetBucketNotificationConfiguration") {
        get_bucket_notification(store, ctx)
    } else {
        put_bucket_notification(store, ctx)
    };
    S3Step::Reply(reply(resp))
}

/// What routing an object-level operation does.
pub open spec fn object_step_outcome(
    op: Seq<char>,
    s0: S3Store,
    s1: S3Store,
    ctx: RequestContext,
    fresh_id: Seq<char>,
    now: i64,
    step: S3Step,
) -> bool {
    if op == "PutObject"@ {
        s1 == s0 && match step {
            S3Step::Put(t) => put_target_outcome(s0@, ctx, Ok(t)),
            S3Step::Reply(rep) => bare(rep, rep.response@) && put_target_outcome(s0@, ctx, Err(rep.response)),
            _ => false,
        }
    } else if op == "UploadPart"@ {
        s1 == s0 && match step {
            S3Step::UploadPart(t) => part_target_outcome(s0@, ctx, Ok(t)),
            S3Step::Reply(rep) => bare(rep, rep.response@) && part_target_outcome(s0@, ctx, Err(rep.response)),
            _ => false,
        }
    } else if op == "CompleteMultipartUpload"@ {
        s1 == s0 && match step {
            S3Step::Complete(p) => complete_plan_outcome(s0@, ctx, Ok(p)),
            S3Step::Reply(rep) => bare(rep, rep.response@) && complete_plan_outcome(s0@, ctx, Err(rep.response)),
            _ => false,
        }
    } else if op == "CopyObject"@ {
        s1 == s0 && match step {
            S3Step::Copy(p) => copy_plan_outcome(s0@, ctx, Ok(p)),
            S3Step::Reply(rep) => bare(rep, rep.response@) && copy_plan_outcome(s0@, ctx, Err(rep.response)),
            _ => false,
        }
    } else {
        step matches S3Step::Reply(rep) && {
            let v = rep.response@;
            &&& rep.remove_bucket_dir is None
            &&& if op == "GetObject"@ || op == "PresignedGetObject"@ {
                s1 == s0 && get_object_outcome(s0@, ctx, (v, data_opt_view(rep.data))) && rep.remove_files@.len() == 0
                    && rep.events@.len() == 0
            } else if op == "DeleteObject"@ {
                &&& delete_object_outcome(s0@, s1@, ctx, fresh_id, now, (v, first_file(file_views(rep.remove_files@))))
                &&& file_views(rep.remove_files@).len() <= 1
                &&& rep.data is None
                &&& event_views(rep.events@) == if v.status_code == 204 {
                    seq![(bucket_or_empty(ctx), req_key(ctx), "s3:ObjectRemoved:Delete"@)]
                } else {
                    Seq::empty()
                }
            } else if op == "DeleteObjects"@ {
                &&& delete_objects_outcome(
                    s0@,
                    s1@,
                    ctx,
                    (v, file_views(rep.remove_files@), string_views_of(rep.events@.map_values(|e: (String, String, String)| e.1))),
                )
                &&& rep.data is None
                &&& forall|i: int| 0 <= i < rep.events@.len() ==> (#[trigger] rep.events@[i]).0@ == bucket_or_empty(ctx)
                    && rep.events@[i].2@ == "s3:ObjectRemoved:Delete"@
            } else {
                bare(rep, v) && if op == "HeadObject"@ {
                    s1 == s0 && head_object_outcome(s0@, ctx, v)
                } else if op == "CreateMultipartUpload"@ {
                    create_upload_outcome(s0@, s1@, ctx, fresh_id, now, v)
                } else if op == "AbortMultipartUpload"@ {
                    abort_upload_outcome(s0@, s1@, ctx, v)
                } else if op == "GetObjectAcl"@ {
                    s1 == s0 && object_acl_outcome(s0@, ctx, true, v)
                } else {
                    s1 == s0 && object_acl_outcome(s0@, ctx, false, v)
                }
            }
        }
    }
}

fn key_events(bucket: &String, keys: Vec<String>) -> (r: Vec<(String, String, String)>)
    ensures
        r@.len() == keys@.len(),
        forall|i: int| 0 <= i < r@.len() ==> (#[trigger] r@[i]).1 == keys@[i] && r@[i].0@ == bucket@
            && r@[i].2@ == "s3:ObjectRemoved:Delete"@,
{
    let mut out: Vec<(String, String, String)> = Vec::new();
    let mut i: usize = 0;
    while i < keys.len()
        invariant
            i <= keys@.len(),
            out@.len() == i,
            forall|j: int| 0 <= j < i ==> (#[trigger] out@[j]).1 == keys@[j] && out@[j].0@ == bucket@
                && out@[j].2@ == "s3:ObjectRemoved:Delete"@,
        decreases keys@.len() - i,
    {
        out.push((bucket.clone(), keys[i].clone(), "s3:ObjectRemoved:Delete".to_string()));
        i = i + 1;
    }
    out
}

fn dispatch_object_op(store: &mut S3Store, ctx: &RequestContext, op: &str, fresh_id: String, now: i64) -> (r: S3Step)
    requires
        old(store).wf(),
        ctx.wf(),
    ensures
        final(store).wf(),
        object_step_outcome(op@, *old(store), *final(store), *ctx, fresh_id@, now, r),
{
    if op.eq("PutObject") {
        return match put_object_target(store, ctx) {
            Ok(t) => S3Step::Put(t),
            Err(e) => S3Step::Reply(reply(e)),
        };
    }
    if op.eq("UploadPart") {
        return match upload_part_target(store, ctx) {
            Ok(t) => S3Step::UploadPart(t),
            Err(e) => S3Step::Reply(reply(e)),
        };
    }
    if op.eq("CompleteMultipartUpload") {
        return match complete_multipart_plan(store, ctx) {
            Ok(p) => S3Step::Complete(p),
            Err(e) => S3Step::Reply(reply(e)),
        };
    }
    if op.eq("CopyObject") {
        return match copy_object_plan(store, ctx) {
            Ok(p) => S3Step::Copy(p),
            Err(e) => S3Step::Reply(reply(e)),
        };
    }
    if op.eq("GetObject") || op.eq("PresignedGetObject") {
        let (resp, data) = get_object(store, ctx);
        return S3Step::Reply(S3Reply { response: resp, remove_files: Vec::new(), remove_bucket_dir: None, data, events: Vec::new() });
    }
    if op.eq("DeleteObject") {
        let bucket = bucket_or_empty_exec(ctx);
        let key = key_from_path(ctx.path.as_str());
        let (resp, file) = delete_object_at(store, ctx, fresh_id, now);
        let files = opt_file_vec(file);
        let events = write_event_vec(resp.status_code, 204, bucket, key, "s3:ObjectRemoved:Delete");
        return S3Step::Reply(S3Reply { response: resp, remove_files: files, remove_bucket_dir: None, data: None, events });
    }
    if op.eq("DeleteObjects") {
        let bucket = bucket_or_empty_exec(ctx);
        let (resp, files, keys) = delete_objects(store, ctx);
        let ghost kv = keys@;
        let events = key_events(&bucket, keys);
        proof {
            assert(events@.map_values(|e: (String, String, String)| e.1) =~= kv);
        }
        return S3Step::Reply(S3Reply { response: resp, remove_files: files, remove_bucket_dir: None, data: None, events });
    }
    let resp = if op.eq("HeadObject") {
        head_object(store, ctx)
    } else if op.eq("CreateMultipartUpload") {
        create_multipart_upload_at(store, ctx, fresh_id, now)
    } else if op.eq("AbortMultipartUpload") {
        abort_multipart_upload(store, ctx)
    } else if op.eq("GetObjectAcl") {
        get_object_acl(store, ctx)
    } else {
        put_object_acl(store, ctx)
    };
    S3Step::Reply(reply(resp))
}

/// What routing a request does, by the operation it names: an operation
/// S3 does not handle is refused and changes nothing.  `has_state` says
/// whether the account and region had any state; `fresh_id` and `now` are
/// what a delete marker or a new upload takes.
pub open spec fn s3_dispatch_outcome(
    s0: S3Store,
    s1: S3Store,
    has_state: bool,
    ctx: RequestContext,
    fresh_id: Seq<char>,
    now: i64,
    r: Result<S3Step, DispatchError>,
) -> bool {
    let op = s3_operation_spec(ctx.method@, ctx.path@, ctx.query_params@, ctx.headers@);
    match r {
        Err(DispatchError::NotImplemented(a)) => a@ == op && s1 == s0 && !s3_supported(op),
        Ok(step) => s3_supported(op) && if bucket_operation(op) {
            bucket_step_outcome(op, s0, s1, has_state, ctx, now, step)
        } else {
            object_step_outcome(op, s0, s1, ctx, fresh_id, now, step)
        },
    }
}

/// Routes a request to its operation.
pub fn dispatch_at(store: &mut S3Store, has_state: bool, ctx: &RequestContext, fresh_id: String, now: i64) -> (r: Result<
    S3Step,
    DispatchError,
>)
    requires
        old(store).wf(),
        ctx.wf(),
    ensures
        final(store).wf(),
        s3_dispatch_outcome(*old(store), *final(store), has_state, *ctx, fresh_id@, now, r),
{
    let op = derive_s3_operation(ctx);
    let o = op.as_str();
    let bucket_op = o.eq("ListBuckets") || o.eq("CreateBucket") || o.eq("DeleteBucket") || o.eq("HeadBucket") || o.eq(
        "GetBucketLocation",
    ) || o.eq("ListObjectsV2") || o.eq("ListObjects") || o.eq("ListMultipartUploads") || o.eq("GetBucketAcl") || o.eq(
        "PutBucketAcl",
    ) || o.eq("GetBucketPolicy") || o.eq("PutBucketPolicy") || o.eq("DeleteBucketPolicy") || o.eq("GetBucketVersioning")
        || o.eq("PutBucketVersioning") || o.eq("ListObjectVersions") || o.eq("GetBucketNotificationConfiguration") || o.eq(
        "PutBucketNotificationConfiguration",
    );
    if bucket_op {
        return Ok(dispatch_bucket_op(store, has_state, ctx, o, now));
    }
    let object_op = o.eq("PutObject") || o.eq("GetObject") || o.eq("PresignedGetObject") || o.eq("HeadObject") || o.eq(
        "DeleteObject",
    ) || o.eq("DeleteObjects") || o.eq("CopyObject") || o.eq("CreateMultipartUpload") || o.eq("UploadPart") || o.eq(
        "CompleteMultipartUpload",
    ) || o.eq("AbortMultipartUpload") || o.eq("GetObjectAcl") || o.eq("PutObjectAcl");
    if object_op {
        return Ok(dispatch_object_op(store, ctx, o, fresh_id, now));
    }
    Err(DispatchError::NotImplemented(op))
}

/// Routes a request with a fresh id and the current time; gives back the
/// outcome with the id and the time it used, which the steps that put data
/// in place need again.
pub fn dispatch(store: &mut S3Store, has_state: bool, ctx: &RequestContext) -> (r: (Result<S3Step, DispatchError>, String, i64))
    requires
        old(store).wf(),
        ctx.wf(),
    ensures
        final(store).wf(),
        crate::deps::is_uuid_text(r.1@),
        s3_dispatch_outcome(*old(store), *final(store), has_state, *ctx, r.1@, r.2, r.0),
{
    let fresh_id = crate::deps::new_uuid();
    let now = crate::deps::now_millis();
    let out = dispatch_at(store, has_state, ctx, fresh_id.clone(), now);
    (out, fresh_id, now)
}

/// The operations for which an account without a store gets one; the
/// others answer from an empty view and leave the account without one.
pub open spec fn opens_account_state_spec(op: Seq<char>) -> bool {
    op == "CreateBucket"@ || op == "DeleteBucket"@ || op == "PutObject"@ || op == "DeleteObject"@ || op
        == "DeleteObjects"@ || op == "CopyObject"@ || op == "CreateMultipartUpload"@ || op == "UploadPart"@ || op
        == "CompleteMultipartUpload"@ || op == "AbortMultipartUpload"@ || op == "PutBucketAcl"@ || op
        == "PutBucketPolicy"@ || op == "DeleteBucketPolicy"@ || op == "PutBucketVersioning"@ || op
        == "PutBucketNotificationConfiguration"@
}

/// Whether operation `op` opens the account's store when it has none.
pub fn opens_account_state(op: &str) -> (b: bool)
    ensures
        b == opens_account_state_spec(op@),
{
    op.eq("CreateBucket") || op.eq("DeleteBucket") || op.eq("PutObject") || op.eq("DeleteObject") || op.eq(
        "DeleteObjects",
    ) || op.eq("CopyObject") || op.eq("CreateMultipartUpload") || op.eq("UploadPart") || op.eq(
        "CompleteMultipartUpload",
    ) || op.eq("AbortMultipartUpload") || op.eq("PutBucketAcl") || op.eq("PutBucketPolicy") || op.eq(
        "DeleteBucketPolicy",
    ) || op.eq("PutBucketVersioning") || op.eq("PutBucketNotificationConfiguration")
}

} // verus!
