//! The S3 bucket operations: creating, listing and deleting buckets, and
//! their location, ACL, policy, versioning and uploads in progress.
use vstd::prelude::*;

use crate::deps::{format_utc_millis, utc_millis_text};
use crate::http::{body_text, body_text_exec, lossy_text, plain, plain_response, utf8_lossy, DispatchResponse, RequestContext, ResponseView};
use crate::query::xml_decl;
use crate::s3::{
    bucket_contents, new_bucket_spec, object_current, with_bucket, Bucket, BucketView, MultipartUpload, S3Store,
    S3StoreView, UploadView,
};
use crate::s3_api::{
    bucket_from_path, default_acl_xml, default_acl_xml_spec, extract_xml_text_spec, key_from_path, trim_ws,
    trim_ws_exec,
};
use crate::s3_rest::{
    empty_response, empty_view, invalid_bucket_name, missing_bucket, missing_key, no_bucket_name, no_such_bucket,
    no_such_key, push_doc_open, req_bucket, req_key, s3_bucket_error, s3_bucket_error_view, s3_doc_open, s3_error,
    s3_error_view, s3_ok, s3_ok_view,
};
use crate::seqs::{first_where, lemma_first_where, lemma_first_where_none};
use crate::text::{chars_of, escape_xml_spec, opt_view, push_escaped, push_str, string_of};

verus! {

// ---------------------------------------------------------------------------
// CreateBucket, DeleteBucket, HeadBucket
// ---------------------------------------------------------------------------

/// What CreateBucket does: a new bucket in the request's region, created
/// at `now`, unless the name is taken.
pub open spec fn create_bucket_outcome(s0: S3StoreView, s1: S3StoreView, ctx: RequestContext, now: i64, r: ResponseView) -> bool {
    match req_bucket(ctx) {
        None => s1 == s0 && r == no_bucket_name(),
        Some(b) => if s0.buckets.contains_key(b) {
            s1 == s0 && r == s3_error_view("BucketAlreadyOwnedByYou"@, "Bucket already owned by you"@, 409)
        } else {
            &&& s1 == (S3StoreView {
                buckets: s0.buckets.insert(b, new_bucket_spec(b, ctx.region@, now)),
                objects: if s0.objects.contains_key(b) {
                    s0.objects
                } else {
                    s0.objects.insert(b, Map::empty())
                },
                uploads: s0.uploads,
            })
            &&& r == (ResponseView {
                status_code: 200,
                body: Seq::empty(),
                content_type: Seq::empty(),
                headers: seq![("Location"@, "/"@ + b)],
            })
        },
    }
}

/// CreateBucket at time `now`.
pub fn create_bucket_at(store: &mut S3Store, ctx: &RequestContext, now: i64) -> (r: DispatchResponse)
    requires
        old(store).wf(),
        ctx.wf(),
    ensures
        final(store).wf(),
        create_bucket_outcome(old(store)@, final(store)@, *ctx, now, r@),
{
    let bucket = match bucket_from_path(ctx.path.as_str()) {
        Some(b) => b,
        None => return invalid_bucket_name(),
    };
    if store.bucket_exists(bucket.as_str()) {
        return s3_error("BucketAlreadyOwnedByYou", "Bucket already owned by you", 409);
    }
    let _ = store.create_bucket_at(bucket.as_str(), ctx.region.as_str(), now);
    let mut loc = String::new();
    push_str(&mut loc, "/");
    push_str(&mut loc, bucket.as_str());
    let mut h: Vec<(String, String)> = Vec::new();
    h.push(("Location".to_string(), loc));
    let r = DispatchResponse { status_code: 200, body: String::new(), content_type: String::new(), headers: h };
    proof {
        assert(r@.headers =~= seq![("Location"@, "/"@ + bucket@)]);
        assert(r@.body =~= Seq::<char>::empty());
        assert(r@.content_type =~= Seq::<char>::empty());
    }
    r
}

/// What DeleteBucket does: an existing bucket with no objects and no
/// upload in progress goes, with its object list.
pub open spec fn delete_bucket_outcome(s0: S3StoreView, s1: S3StoreView, ctx: RequestContext, r: (ResponseView, bool)) -> bool {
    match req_bucket(ctx) {
        None => s1 == s0 && r.0 == no_bucket_name() && !r.1,
        Some(b) => if !s0.buckets.contains_key(b) {
            s1 == s0 && r.0 == no_such_bucket() && !r.1
        } else if !bucket_contents(s0, b).is_empty() || exists|u: Seq<char>| #[trigger]
            s0.uploads.contains_key(u) && s0.uploads[u].bucket == b {
            s1 == s0 && r.0 == s3_error_view("BucketNotEmpty"@, "The bucket is not empty"@, 409) && !r.1
        } else {
            &&& s1 == (S3StoreView { buckets: s0.buckets.remove(b), objects: s0.objects.remove(b), uploads: s0.uploads })
            &&& r.0 == empty_view(204)
            &&& r.1
        },
    }
}

/// DeleteBucket; the answer and whether the bucket went (its directory
/// then goes too).
pub fn delete_bucket(store: &mut S3Store, ctx: &RequestContext) -> (r: (DispatchResponse, bool))
    requires
        old(store).wf(),
        ctx.wf(),
    ensures
        final(store).wf(),
        delete_bucket_outcome(old(store)@, final(store)@, *ctx, (r.0@, r.1)),
{
    let bucket = match bucket_from_path(ctx.path.as_str()) {
        Some(b) => b,
        None => return (invalid_bucket_name(), false),
    };
    if !store.bucket_exists(bucket.as_str()) {
        return (missing_bucket(), false);
    }
    if !(store.is_bucket_empty(bucket.as_str()) && !store.has_incomplete_multipart_uploads(bucket.as_str())) {
        return (s3_error("BucketNotEmpty", "The bucket is not empty", 409), false);
    }
    let _ = store.delete_bucket(bucket.as_str());
    (empty_response(204), true)
}

/// What HeadBucket answers.
pub open spec fn head_bucket_outcome(s: S3StoreView, ctx: RequestContext, r: ResponseView) -> bool {
    match req_bucket(ctx) {
        None => r == no_bucket_name(),
        Some(b) => r == if s.buckets.contains_key(b) {
            empty_view(200)
        } else {
            no_such_bucket()
        },
    }
}

/// HeadBucket.
pub fn head_bucket(store: &S3Store, ctx: &RequestContext) -> (r: DispatchResponse)
    requires
        store.wf(),
        ctx.wf(),
    ensures
        head_bucket_outcome(store@, *ctx, r@),
{
    let bucket = match bucket_from_path(ctx.path.as_str()) {
        Some(b) => b,
        None => return invalid_bucket_name(),
    };
    if store.bucket_exists(bucket.as_str()) {
        empty_response(200)
    } else {
        missing_bucket()
    }
}

// ---------------------------------------------------------------------------
// ListBuckets
// ---------------------------------------------------------------------------

/// `x` placed into `sorted` after every bucket whose name does not sort
/// after its own.
pub open spec fn insert_bucket(sorted: Seq<BucketView>, x: BucketView) -> Seq<BucketView> {
    match first_where(sorted, name_after(x.name)) {
        Some(i) => sorted.insert(i, x),
        None => sorted.push(x),
    }
}

/// The bucket's name sorts after `n`.
pub open spec fn name_after(n: Seq<char>) -> spec_fn(BucketView) -> bool {
    |b: BucketView| crate::order::seq_lt(n, b.name)
}

/// The buckets sorted by name (a stable sort).
pub open spec fn sorted_buckets(bs: Seq<BucketView>) -> Seq<BucketView>
    decreases bs.len(),
{
    if bs.len() == 0 {
        Seq::empty()
    } else {
        insert_bucket(sorted_buckets(bs.drop_last()), bs.last())
    }
}

/// One `<Bucket>` entry.
pub open spec fn bucket_entry(b: BucketView) -> Seq<char> {
    "<Bucket><Name>"@ + escape_xml_spec(b.name) + "</Name><CreationDate>"@ + utc_millis_text(b.creation_date)
        + "</CreationDate></Bucket>"@
}

pub open spec fn bucket_entries(bs: Seq<BucketView>) -> Seq<char>
    decreases bs.len(),
{
    if bs.len() == 0 {
        Seq::empty()
    } else {
        bucket_entries(bs.drop_last()) + bucket_entry(bs.last())
    }
}

/// The ListAllMyBucketsResult document for the buckets given.
pub open spec fn list_buckets_body(bs: Seq<BucketView>) -> Seq<char> {
    xml_decl()
        + "<ListAllMyBucketsResult xmlns=\"http://s3.amazonaws.com/doc/2006-03-01/\"><Owner><ID>000000000000</ID><DisplayName>localstack</DisplayName></Owner><Buckets>"@
        + bucket_entries(bs) + "</Buckets></ListAllMyBucketsResult>"@
}

/// The buckets of a store in its storage order.
pub open spec fn bucket_views(s: &S3Store) -> Seq<BucketView> {
    s.buckets.vals_seq().map_values(|b: Bucket| b@)
}

/// What ListBuckets answers: every bucket, sorted by name.
pub open spec fn list_buckets_outcome(s: &S3Store, r: ResponseView) -> bool {
    r == s3_ok_view(list_buckets_body(sorted_buckets(bucket_views(s))))
}

fn insert_bucket_sorted<'a>(sorted: &mut Vec<&'a Bucket>, x: &'a Bucket)
    ensures
        final(sorted)@.map_values(|b: &Bucket| b@) == insert_bucket(old(sorted)@.map_values(|b: &Bucket| b@), x@),
{
    let ghost sv = sorted@.map_values(|b: &Bucket| b@);
    let ghost p = name_after(x@.name);
    let xn = chars_of(x.name.as_str());
    let mut i: usize = 0;
    while i < sorted.len()
        invariant
            i <= sorted@.len(),
            sorted@ == old(sorted)@,
            sv == sorted@.map_values(|b: &Bucket| b@),
            xn@ == x@.name,
            p == name_after(x@.name),
            forall|j: int| 0 <= j < i ==> !p(#[trigger] sv[j]),
        decreases sorted@.len() - i,
    {
        let bn = chars_of(sorted[i].name.as_str());
        if crate::order::str_lt(xn.as_slice(), bn.as_slice()) {
            proof {
                assert(sv[i as int] == sorted@[i as int]@);
                lemma_first_where(sv, p, i as int);
            }
            sorted.insert(i, x);
            proof {
                assert(sorted@.map_values(|b: &Bucket| b@) =~= sv.insert(i as int, x@));
            }
            return;
        }
        proof {
            assert(sv[i as int] == sorted@[i as int]@);
        }
        i = i + 1;
    }
    proof {
        lemma_first_where_none(sv, p);
    }
    sorted.push(x);
    proof {
        assert(sorted@.map_values(|b: &Bucket| b@) =~= sv.push(x@));
    }
}

/// ListBuckets.
pub fn list_buckets(store: &S3Store) -> (r: DispatchResponse)
    requires
        store.wf(),
    ensures
        list_buckets_outcome(store, r@),
{
    let n = store.buckets.len();
    proof {
        store.buckets.lemma_enumeration();
    }
    let ghost all = bucket_views(store);
    let mut sorted: Vec<&Bucket> = Vec::new();
    let mut i: usize = 0;
    proof {
        assert(all.take(0) =~= Seq::<BucketView>::empty());
        assert(sorted@.map_values(|b: &Bucket| b@) =~= Seq::<BucketView>::empty());
    }
    while i < n
        invariant
            i <= n,
            n == all.len(),
            all == bucket_views(store),
            store.wf(),
            sorted@.map_values(|b: &Bucket| b@) == sorted_buckets(all.take(i as int)),
        decreases n - i,
    {
        proof {
            store.buckets.lemma_enumeration();
        }
        let b = store.buckets.value_at_index(i);
        proof {
            assert(all.take(i + 1).drop_last() =~= all.take(i as int));
            assert(all.take(i + 1).last() == b@);
        }
        insert_bucket_sorted(&mut sorted, b);
        i = i + 1;
    }
    proof {
        assert(all.take(n as int) =~= all);
    }
    let ghost sv = sorted@.map_values(|b: &Bucket| b@);
    let mut entries = String::new();
    let mut j: usize = 0;
    proof {
        assert(sv.take(0) =~= Seq::<BucketView>::empty());
    }
    while j < sorted.len()
        invariant
            j <= sorted@.len(),
            sv == sorted@.map_values(|b: &Bucket| b@),
            entries@ == bucket_entries(sv.take(j as int)),
        decreases sorted@.len() - j,
    {
        let b = sorted[j];
        let ghost before = entries@;
        push_str(&mut entries, "<Bucket><Name>");
        push_escaped(&mut entries, b.name.as_str());
        push_str(&mut entries, "</Name><CreationDate>");
        let d = format_utc_millis(b.creation_date);
        push_str(&mut entries, d.as_str());
        push_str(&mut entries, "</CreationDate></Bucket>");
        proof {
            assert(sv.take(j + 1).drop_last() =~= sv.take(j as int));
            assert(sv.take(j + 1).last() == b@);
            assert(entries@ =~= before + bucket_entry(b@));
        }
        j = j + 1;
    }
    proof {
        assert(sv.take(sorted@.len() as int) =~= sv);
    }
    let mut body = String::new();
    push_str(&mut body, "<?xml version=\"1.0\" encoding=\"UTF-8\"?>");
    push_str(
        &mut body,
        "<ListAllMyBucketsResult xmlns=\"http://s3.amazonaws.com/doc/2006-03-01/\"><Owner><ID>000000000000</ID><DisplayName>localstack</DisplayName></Owner><Buckets>",
    );
    push_str(&mut body, entries.as_str());
    push_str(&mut body, "</Buckets></ListAllMyBucketsResult>");
    proof {
        assert(body@ =~= list_buckets_body(sv));
    }
    s3_ok(body)
}

/// The ListBuckets answer for an account and region without any state.
pub open spec fn empty_bucket_list() -> ResponseView {
    s3_ok_view(list_buckets_body(Seq::empty()))
}

pub fn list_no_buckets() -> (r: DispatchResponse)
    ensures
        r@ == empty_bucket_list(),
{
    let mut body = String::new();
    push_str(&mut body, "<?xml version=\"1.0\" encoding=\"UTF-8\"?>");
    push_str(
        &mut body,
        "<ListAllMyBucketsResult xmlns=\"http://s3.amazonaws.com/doc/2006-03-01/\"><Owner><ID>000000000000</ID><DisplayName>localstack</DisplayName></Owner><Buckets>",
    );
    push_str(&mut body, "</Buckets></ListAllMyBucketsResult>");
    proof {
        assert(bucket_entries(Seq::<BucketView>::empty()) =~= Seq::<char>::empty());
        assert(body@ =~= list_buckets_body(Seq::empty()));
    }
    s3_ok(body)
}

// ---------------------------------------------------------------------------
// GetBucketLocation
// ---------------------------------------------------------------------------

/// The location a bucket reports: empty for `us-east-1`, its region
/// otherwise.
pub open spec fn location_of(region: Seq<char>) -> Seq<char> {
    if region == "us-east-1"@ {
        Seq::empty()
    } else {
        region
    }
}

/// What GetBucketLocation answers.
pub open spec fn location_outcome(s: S3StoreView, ctx: RequestContext, r: ResponseView) -> bool {
    match req_bucket(ctx) {
        None => r == no_bucket_name(),
        Some(b) => if !s.buckets.contains_key(b) {
            r == s3_bucket_error_view("NoSuchBucket"@, "The specified bucket does not exist"@, b, 404)
        } else {
            r == s3_ok_view(
                xml_decl() + "<LocationConstraint xmlns=\"http://s3.amazonaws.com/doc/2006-03-01/\">"@ + location_of(
                    s.buckets[b].region,
                ) + "</LocationConstraint>"@,
            )
        },
    }
}

/// GetBucketLocation.
pub fn get_bucket_location(store: &S3Store, ctx: &RequestContext) -> (r: DispatchResponse)
    requires
        store.wf(),
        ctx.wf(),
    ensures
        location_outcome(store@, *ctx, r@),
{
    let bucket = match bucket_from_path(ctx.path.as_str()) {
        Some(b) => b,
        None => return invalid_bucket_name(),
    };
    let b = match store.get_bucket(bucket.as_str()) {
        Some(b) => b,
        None => return s3_bucket_error("NoSuchBucket", "The specified bucket does not exist", bucket.as_str(), 404),
    };
    proof {
        reveal_strlit("us-east-1");
    }
    let east = b.region.as_str().eq("us-east-1");
    let mut body = String::new();
    push_str(&mut body, "<?xml version=\"1.0\" encoding=\"UTF-8\"?>");
    push_str(&mut body, "<LocationConstraint xmlns=\"http://s3.amazonaws.com/doc/2006-03-01/\">");
    if !east {
        push_str(&mut body, b.region.as_str());
    }
    push_str(&mut body, "</LocationConstraint>");
    proof {
        assert(body@ =~= xml_decl() + "<LocationConstraint xmlns=\"http://s3.amazonaws.com/doc/2006-03-01/\">"@
            + location_of(b@.region) + "</LocationConstraint>"@);
    }
    s3_ok(body)
}

// ---------------------------------------------------------------------------
// ACLs
// ---------------------------------------------------------------------------

/// What GetBucketAcl answers: the default policy for the account.
pub open spec fn get_bucket_acl_outcome(s: S3StoreView, ctx: RequestContext, r: ResponseView) -> bool {
    match req_bucket(ctx) {
        None => r == no_bucket_name(),
        Some(b) => r == if s.buckets.contains_key(b) {
            s3_ok_view(default_acl_xml_spec(ctx.account_id@))
        } else {
            no_such_bucket()
        },
    }
}

/// GetBucketAcl.
pub fn get_bucket_acl(store: &S3Store, ctx: &RequestContext) -> (r: DispatchResponse)
    requires
        store.wf(),
        ctx.wf(),
    ensures
        get_bucket_acl_outcome(store@, *ctx, r@),
{
    let bucket = match bucket_from_path(ctx.path.as_str()) {
        Some(b) => b,
        None => return invalid_bucket_name(),
    };
    if !store.bucket_exists(bucket.as_str()) {
        return missing_bucket();
    }
    s3_ok(default_acl_xml(ctx.account_id.as_str()))
}

/// The canned ACL a request asks for: `x-amz-acl`, `private` by default.
pub open spec fn requested_acl(headers: Map<Seq<char>, Seq<char>>) -> Seq<char> {
    if headers.contains_key("x-amz-acl"@) {
        headers["x-amz-acl"@]
    } else {
        "private"@
    }
}

/// What PutBucketAcl does: the bucket takes the requested canned ACL.
pub open spec fn put_bucket_acl_outcome(s0: S3StoreView, s1: S3StoreView, ctx: RequestContext, r: ResponseView) -> bool {
    match req_bucket(ctx) {
        None => s1 == s0 && r == no_bucket_name(),
        Some(b) => if !s0.buckets.contains_key(b) {
            s1 == s0 && r == no_such_bucket()
        } else {
            &&& s1 == with_bucket(s0, b, BucketView { acl: requested_acl(ctx.headers@), ..s0.buckets[b] })
            &&& r == empty_view(200)
        },
    }
}

/// PutBucketAcl.
pub fn put_bucket_acl(store: &mut S3Store, ctx: &RequestContext) -> (r: DispatchResponse)
    requires
        old(store).wf(),
        ctx.wf(),
    ensures
        final(store).wf(),
        put_bucket_acl_outcome(old(store)@, final(store)@, *ctx, r@),
{
    let bucket = match bucket_from_path(ctx.path.as_str()) {
        Some(b) => b,
        None => return invalid_bucket_name(),
    };
    if !store.bucket_exists(bucket.as_str()) {
        return missing_bucket();
    }
    let acl = match ctx.headers.get("x-amz-acl") {
        Some(a) => a.clone(),
        None => "private".to_string(),
    };
    let _ = store.set_bucket_acl(bucket.as_str(), acl);
    empty_response(200)
}

/// What GetObjectAcl and PutObjectAcl answer: the default policy (for a
/// read) or an empty 200 (for a write, which changes nothing), once the
/// bucket and the object exist.
pub open spec fn object_acl_outcome(s: S3StoreView, ctx: RequestContext, read: bool, r: ResponseView) -> bool {
    match req_bucket(ctx) {
        None => r == no_bucket_name(),
        Some(b) => if !s.buckets.contains_key(b) {
            r == no_such_bucket()
        } else if object_current(s, b, req_key(ctx)) is None {
            r == no_such_key()
        } else if read {
            r == s3_ok_view(default_acl_xml_spec(ctx.account_id@))
        } else {
            r == empty_view(200)
        },
    }
}

fn object_acl(store: &S3Store, ctx: &RequestContext, read: bool) -> (r: DispatchResponse)
    requires
        store.wf(),
        ctx.wf(),
    ensures
        object_acl_outcome(store@, *ctx, read, r@),
{
    let bucket = match bucket_from_path(ctx.path.as_str()) {
        Some(b) => b,
        None => return invalid_bucket_name(),
    };
    let key = key_from_path(ctx.path.as_str());
    if !store.bucket_exists(bucket.as_str()) {
        return missing_bucket();
    }
    if store.get_object(bucket.as_str(), key.as_str()).is_none() {
        return missing_key();
    }
    if read {
        s3_ok(default_acl_xml(ctx.account_id.as_str()))
    } else {
        empty_response(200)
    }
}

/// GetObjectAcl.
pub fn get_object_acl(store: &S3Store, ctx: &RequestContext) -> (r: DispatchResponse)
    requires
        store.wf(),
        ctx.wf(),
    ensures
        object_acl_outcome(store@, *ctx, true, r@),
{
    object_acl(store, ctx, true)
}

/// PutObjectAcl.
pub fn put_object_acl(store: &S3Store, ctx: &RequestContext) -> (r: DispatchResponse)
    requires
        store.wf(),
        ctx.wf(),
    ensures
        object_acl_outcome(store@, *ctx, false, r@),
{
    object_acl(store, ctx, false)
}

// ---------------------------------------------------------------------------
// Bucket policy
// ---------------------------------------------------------------------------

/// What GetBucketPolicy answers: the stored policy as JSON.
pub open spec fn get_policy_outcome(s: S3StoreView, ctx: RequestContext, r: ResponseView) -> bool {
    match req_bucket(ctx) {
        None => r == no_bucket_name(),
        Some(b) => if !s.buckets.contains_key(b) {
            r == no_such_bucket()
        } else {
            match s.buckets[b].policy {
                None => r == s3_error_view("NoSuchBucketPolicy"@, "The bucket policy does not exist"@, 404),
                Some(p) => r == plain_response(200, p, "application/json"@),
            }
        },
    }
}

/// GetBucketPolicy.
pub fn get_bucket_policy(store: &S3Store, ctx: &RequestContext) -> (r: DispatchResponse)
    requires
        store.wf(),
        ctx.wf(),
    ensures
        get_policy_outcome(store@, *ctx, r@),
{
    let bucket = match bucket_from_path(ctx.path.as_str()) {
        Some(b) => b,
        None => return invalid_bucket_name(),
    };
    match store.get_bucket(bucket.as_str()) {
        None => missing_bucket(),
        Some(b) => match &b.policy {
            None => s3_error("NoSuchBucketPolicy", "The bucket policy does not exist", 404),
            Some(p) => plain(200, p.clone(), "application/json"),
        },
    }
}

/// What PutBucketPolicy and DeleteBucketPolicy do: the bucket's policy
/// becomes the request body's text (read lossily as UTF-8), or none.
pub open spec fn set_policy_outcome(
    s0: S3StoreView,
    s1: S3StoreView,
    ctx: RequestContext,
    put: bool,
    r: ResponseView,
) -> bool {
    match req_bucket(ctx) {
        None => s1 == s0 && r == no_bucket_name(),
        Some(b) => if !s0.buckets.contains_key(b) {
            s1 == s0 && r == no_such_bucket()
        } else {
            &&& s1 == with_bucket(
                s0,
                b,
                BucketView {
                    policy: if put {
                        Some(lossy_text(ctx.raw_body@))
                    } else {
                        None
                    },
                    ..s0.buckets[b]
                },
            )
            &&& r == empty_view(204)
        },
    }
}

fn set_policy(store: &mut S3Store, ctx: &RequestContext, put: bool) -> (r: DispatchResponse)
    requires
        old(store).wf(),
        ctx.wf(),
    ensures
        final(store).wf(),
        set_policy_outcome(old(store)@, final(store)@, *ctx, put, r@),
{
    let bucket = match bucket_from_path(ctx.path.as_str()) {
        Some(b) => b,
        None => return invalid_bucket_name(),
    };
    let policy = if put {
        Some(utf8_lossy(ctx.raw_body.as_slice()))
    } else {
        None
    };
    if store.set_bucket_policy(bucket.as_str(), policy) {
        empty_response(204)
    } else {
        missing_bucket()
    }
}

/// PutBucketPolicy.
pub fn put_bucket_policy(store: &mut S3Store, ctx: &RequestContext) -> (r: DispatchResponse)
    requires
        old(store).wf(),
        ctx.wf(),
    ensures
        final(store).wf(),
        set_policy_outcome(old(store)@, final(store)@, *ctx, true, r@),
{
    set_policy(store, ctx, true)
}

/// DeleteBucketPolicy.
pub fn delete_bucket_policy(store: &mut S3Store, ctx: &RequestContext) -> (r: DispatchResponse)
    requires
        old(store).wf(),
        ctx.wf(),
    ensures
        final(store).wf(),
        set_policy_outcome(old(store)@, final(store)@, *ctx, false, r@),
{
    set_policy(store, ctx, false)
}

// ---------------------------------------------------------------------------
// Versioning
// ---------------------------------------------------------------------------

/// The VersioningConfiguration document for a state (no `Status` element
/// when it was never set).
pub open spec fn versioning_body(state: Seq<char>) -> Seq<char> {
    s3_doc_open("VersioningConfiguration"@) + (if state.len() == 0 {
        Seq::empty()
    } else {
        "<Status>"@ + state + "</Status>"@
    }) + "</VersioningConfiguration>"@
}

/// What GetBucketVersioning answers.
pub open spec fn get_versioning_outcome(s: S3StoreView, ctx: RequestContext, r: ResponseView) -> bool {
    match req_bucket(ctx) {
        None => r == no_bucket_name(),
        Some(b) => r == if !s.buckets.contains_key(b) {
            no_such_bucket()
        } else {
            s3_ok_view(versioning_body(s.buckets[b].versioning))
        },
    }
}

/// GetBucketVersioning.
pub fn get_bucket_versioning(store: &S3Store, ctx: &RequestContext) -> (r: DispatchResponse)
    requires
        store.wf(),
        ctx.wf(),
    ensures
        get_versioning_outcome(store@, *ctx, r@),
{
    let bucket = match bucket_from_path(ctx.path.as_str()) {
        Some(b) => b,
        None => return invalid_bucket_name(),
    };
    match store.get_bucket(bucket.as_str()) {
        None => missing_bucket(),
        Some(b) => {
            proof {
                reveal_strlit("");
            }
            let never = b.versioning.as_str().eq("");
            let mut body = String::new();
            push_doc_open(&mut body, "VersioningConfiguration");
            if !never {
                push_str(&mut body, "<Status>");
                push_str(&mut body, b.versioning.as_str());
                push_str(&mut body, "</Status>");
            }
            push_str(&mut body, "</VersioningConfiguration>");
            proof {
                if b@.versioning.len() == 0 {
                    assert(b@.versioning =~= ""@);
                }
                assert(body@ =~= versioning_body(b@.versioning));
            }
            s3_ok(body)
        },
    }
}

/// The state a PutBucketVersioning body asks for: its trimmed `Status`,
/// empty when it has none.
pub open spec fn requested_versioning(ctx: RequestContext) -> Seq<char> {
    match extract_xml_text_spec(body_text(ctx.raw_body@), "Status"@) {
        Some(t) => trim_ws(t),
        None => Seq::empty(),
    }
}

/// What PutBucketVersioning does.
pub open spec fn put_versioning_outcome(s0: S3StoreView, s1: S3StoreView, ctx: RequestContext, r: ResponseView) -> bool {
    match req_bucket(ctx) {
        None => s1 == s0 && r == no_bucket_name(),
        Some(b) => if !s0.buckets.contains_key(b) {
            s1 == s0 && r == no_such_bucket()
        } else {
            &&& s1 == with_bucket(s0, b, BucketView { versioning: requested_versioning(ctx), ..s0.buckets[b] })
            &&& r == empty_view(200)
        },
    }
}

/// PutBucketVersioning.
pub fn put_bucket_versioning(store: &mut S3Store, ctx: &RequestContext) -> (r: DispatchResponse)
    requires
        old(store).wf(),
        ctx.wf(),
    ensures
        final(store).wf(),
        put_versioning_outcome(old(store)@, final(store)@, *ctx, r@),
{
    let bucket = match bucket_from_path(ctx.path.as_str()) {
        Some(b) => b,
        None => return invalid_bucket_name(),
    };
    let text = body_text_exec(ctx.raw_body.as_slice());
    let c = chars_of(text.as_str());
    let tag = chars_of("Status");
    let status = match crate::s3_api::extract_xml_text_chars(c.as_slice(), tag.as_slice()) {
        Some(t) => {
            let tt = trim_ws_exec(t.as_slice());
            string_of(tt.as_slice())
        },
        None => String::new(),
    };
    proof {
        reveal_strlit("");
    }
    if store.set_bucket_versioning(bucket.as_str(), status) {
        empty_response(200)
    } else {
        missing_bucket()
    }
}

// ---------------------------------------------------------------------------
// ListMultipartUploads
// ---------------------------------------------------------------------------

/// One `<Upload>` entry.
pub open spec fn upload_entry(u: UploadView) -> Seq<char> {
    "<Upload><Key>"@ + escape_xml_spec(u.key) + "</Key><UploadId>"@ + escape_xml_spec(u.upload_id) + "</UploadId><Initiated>"@
        + utc_millis_text(u.initiated) + "</Initiated></Upload>"@
}

pub open spec fn upload_entries(us: Seq<UploadView>) -> Seq<char>
    decreases us.len(),
{
    if us.len() == 0 {
        Seq::empty()
    } else {
        upload_entries(us.drop_last()) + upload_entry(us.last())
    }
}

/// The uploads into `bucket`, in the store's order.
pub open spec fn uploads_into(s: &S3Store, bucket: Seq<char>) -> Seq<UploadView> {
    s.multipart_uploads.vals_seq().filter(|u: MultipartUpload| u.bucket@ == bucket).map_values(
        |u: MultipartUpload| u@,
    )
}

/// The ListMultipartUploadsResult document.
pub open spec fn list_uploads_body(bucket: Seq<char>, us: Seq<UploadView>) -> Seq<char> {
    s3_doc_open("ListMultipartUploadsResult"@) + "<Bucket>"@ + escape_xml_spec(bucket)
        + "</Bucket><KeyMarker></KeyMarker><UploadIdMarker></UploadIdMarker><IsTruncated>false</IsTruncated>"@
        + upload_entries(us) + "</ListMultipartUploadsResult>"@
}

/// What ListMultipartUploads answers.
pub open spec fn list_uploads_outcome(s: &S3Store, ctx: RequestContext, r: ResponseView) -> bool {
    match req_bucket(ctx) {
        None => r == no_bucket_name(),
        Some(b) => r == if !s@.buckets.contains_key(b) {
            no_such_bucket()
        } else {
            s3_ok_view(list_uploads_body(b, uploads_into(s, b)))
        },
    }
}

/// ListMultipartUploads.
pub fn list_multipart_uploads(store: &S3Store, ctx: &RequestContext) -> (r: DispatchResponse)
    requires
        store.wf(),
        ctx.wf(),
    ensures
        list_uploads_outcome(store, *ctx, r@),
{
    let bucket = match bucket_from_path(ctx.path.as_str()) {
        Some(b) => b,
        None => return invalid_bucket_name(),
    };
    if !store.bucket_exists(bucket.as_str()) {
        return missing_bucket();
    }
    let uploads = store.list_multipart_uploads(bucket.as_str());
    let ghost uv = uploads@.map_values(|u: &MultipartUpload| u@);
    proof {
        assert(uv =~= uploads_into(store, bucket@)) by {
            let a = uploads@.map_values(|u: &MultipartUpload| *u);
            assert(uv =~= a.map_values(|u: MultipartUpload| u@));
        }
    }
    let mut entries = String::new();
    let mut i: usize = 0;
    proof {
        assert(uv.take(0) =~= Seq::<UploadView>::empty());
    }
    while i < uploads.len()
        invariant
            i <= uploads@.len(),
            uv == uploads@.map_values(|u: &MultipartUpload| u@),
            entries@ == upload_entries(uv.take(i as int)),
        decreases uploads@.len() - i,
    {
        let u = uploads[i];
        let ghost before = entries@;
        push_str(&mut entries, "<Upload><Key>");
        push_escaped(&mut entries, u.key.as_str());
        push_str(&mut entries, "</Key><UploadId>");
        push_escaped(&mut entries, u.upload_id.as_str());
        push_str(&mut entries, "</UploadId><Initiated>");
        let d = format_utc_millis(u.initiated);
        push_str(&mut entries, d.as_str());
        push_str(&mut entries, "</Initiated></Upload>");
        proof {
            assert(uv.take(i + 1).drop_last() =~= uv.take(i as int));
            assert(uv.take(i + 1).last() == u@);
            assert(entries@ =~= before + upload_entry(u@));
        }
        i = i + 1;
    }
    proof {
        assert(uv.take(uploads@.len() as int) =~= uv);
    }
    let mut body = String::new();
    push_doc_open(&mut body, "ListMultipartUploadsResult");
    push_str(&mut body, "<Bucket>");
    push_escaped(&mut body, bucket.as_str());
    push_str(&mut body, "</Bucket><KeyMarker></KeyMarker><UploadIdMarker></UploadIdMarker><IsTruncated>false</IsTruncated>");
    push_str(&mut body, entries.as_str());
    push_str(&mut body, "</ListMultipartUploadsResult>");
    proof {
        assert(body@ =~= list_uploads_body(bucket@, uv));
    }
    s3_ok(body)
}

} // verus!
