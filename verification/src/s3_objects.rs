//! The S3 object operations: writing, reading and deleting objects and
//! the parts of multipart uploads.
//!
//! Operations whose body may have to go through the file store come in
//! two steps: one that checks the request and says where the data goes,
//! and one that records the data once it is in place.  Each step's
//! contract is exact; the clock and fresh ids are arguments.
use vstd::prelude::*;

use crate::deps::{format_http_date, http_date_text, md5, md5_spec, hex_encode_spec};
use crate::http::{utf8_text, DispatchResponse, RequestContext, ResponseView};
use crate::s3::{
    bucket_contents, delete_object_spec, delete_version_spec, etag_spec, object_current, object_version_spec,
    quoted, replaced_data, stored_spec, versioning_on, version_id_spec, DataView, ObjectDataRef, ObjectVersion,
    S3Store, S3StoreView, VersionView,
};
use crate::s3_api::{bucket_from_path, key_from_path, parse_copy_source, parse_copy_source_spec, urlencoding_decode};
use crate::text::percent_decode_spec;
use crate::s3_rest::{
    content_type_of, empty_view, headers_view, header_views, invalid_bucket_name, metadata_from_headers,
    missing_bucket, missing_key, missing_upload, no_bucket_name, no_such_bucket, no_such_key, no_such_upload,
    req_bucket, req_key, request_content_type, s3_error, s3_error_view, user_metadata, with_headers,
};
use crate::strmap::{DeepCopy, StrMap};
use crate::deps::hex_decode_spec;
use crate::http::{body_text, body_text_exec};
use crate::s3::{trim_quotes, u32_le, PartView};
use crate::s3_api::{extract_xml_text_chars, extract_xml_text_spec, trim_ws, trim_ws_exec};
use crate::s3_rest::{char_vec_views, xml_blocks, xml_blocks_exec};
use crate::seqs::{first_where, lemma_first_where, lemma_first_where_none};
use crate::text::{escape_xml_spec, string_of, opt_view, chars_of, decimal_spec, parse_u32, parse_unsigned_spec, push_decimal, push_str};

verus! {

// ---------------------------------------------------------------------------
// Common pieces
// ---------------------------------------------------------------------------

/// Whether an object of `size` bytes is kept in memory rather than in a
/// file: at or below the threshold.
pub fn fits_inline(size: u64, threshold: u64) -> (b: bool)
    ensures
        b == (size <= threshold),
{
    size <= threshold
}

/// The version id a new version gets: the fresh id under versioning,
/// `null` otherwise.
pub fn version_id_for(versioning_enabled: bool, fresh_id: &str) -> (r: String)
    ensures
        r@ == version_id_spec(versioning_enabled, fresh_id@),
{
    if versioning_enabled {
        fresh_id.to_string()
    } else {
        "null".to_string()
    }
}

/// The quoted MD5 ETag and size of a body held in memory, with the data.
pub fn inline_body(body: Vec<u8>) -> (r: (String, u64, ObjectDataRef))
    ensures
        r.0@ == etag_spec(body@),
        r.1 == body@.len(),
        r.2@ == DataView::Inline(body@),
{
    let digest = md5(body.as_slice());
    let etag = crate::s3_api::format_etag(digest.as_slice());
    let size = body.len() as u64;
    (etag, size, ObjectDataRef::Inline(body))
}

/// A new version with the data, size and ETag given.
pub open spec fn built_version(
    data: DataView,
    size: u64,
    etag: Seq<char>,
    content_type: Seq<char>,
    metadata: Map<Seq<char>, Seq<char>>,
    version_id: Seq<char>,
    now: i64,
) -> VersionView {
    VersionView {
        version_id,
        last_modified: now,
        etag,
        content_type,
        content_encoding: None,
        content_disposition: None,
        cache_control: None,
        size,
        metadata,
        acl: "private"@,
        data,
        delete_marker: false,
    }
}

fn build_version(
    data: ObjectDataRef,
    size: u64,
    etag: String,
    content_type: String,
    metadata: StrMap<String>,
    version_id: String,
    now: i64,
) -> (v: ObjectVersion)
    requires
        metadata.wf(),
    ensures
        v.wf(),
        v@ == built_version(data@, size, etag@, content_type@, metadata@, version_id@, now),
{
    ObjectVersion {
        version_id,
        last_modified: now,
        etag,
        content_type,
        content_encoding: None,
        content_disposition: None,
        cache_control: None,
        size,
        metadata,
        acl: "private".to_string(),
        data,
        delete_marker: false,
    }
}

/// The file a non-versioned write leaves behind: the file of the version
/// it replaced, unless that is the file just written.
pub open spec fn stale_file(version_id: Seq<char>, prev: Option<DataView>, new_data: DataView) -> Option<Seq<char>> {
    if version_id == "null"@ {
        match prev {
            Some(DataView::FileRef(p)) => if new_data == DataView::FileRef(p) {
                None
            } else {
                Some(p)
            },
            _ => None,
        }
    } else {
        None
    }
}

pub open spec fn data_opt_view(d: Option<ObjectDataRef>) -> Option<DataView> {
    match d {
        Some(x) => Some(x@),
        None => None,
    }
}

fn stale_file_exec(version_id: &str, prev: Option<ObjectDataRef>, new_data: &ObjectDataRef) -> (r: Option<String>)
    ensures
        opt_view(r) == stale_file(version_id@, data_opt_view(prev), new_data@),
{
    proof {
        reveal_strlit("null");
    }
    if !version_id.eq("null") {
        return None;
    }
    match prev {
        Some(ObjectDataRef::FileRef(p)) => {
            let same = match new_data {
                ObjectDataRef::FileRef(q) => q.as_str().eq(p.as_str()),
                ObjectDataRef::Inline(_) => false,
            };
            if same {
                None
            } else {
                Some(p)
            }
        },
        _ => None,
    }
}

// ---------------------------------------------------------------------------
// PutObject
// ---------------------------------------------------------------------------

/// Where a PutObject writes and what it records besides the data.
pub struct PutTarget {
    pub bucket: String,
    pub key: String,
    pub versioning_enabled: bool,
    pub content_type: String,
    pub metadata: StrMap<String>,
}

/// The checks of a PutObject: it names a bucket that exists.  On success
/// the target carries the key, whether the bucket keeps versions, and the
/// content type and user metadata of the request.
pub open spec fn put_target_outcome(s: S3StoreView, ctx: RequestContext, r: Result<PutTarget, DispatchResponse>) -> bool {
    match req_bucket(ctx) {
        None => r matches Err(e) && e@ == no_bucket_name(),
        Some(b) => if !s.buckets.contains_key(b) {
            r matches Err(e) && e@ == no_such_bucket()
        } else {
            r matches Ok(t) && {
                &&& t.bucket@ == b
                &&& t.key@ == req_key(ctx)
                &&& t.versioning_enabled == versioning_on(s, b)
                &&& t.content_type@ == request_content_type(ctx.headers@)
                &&& t.metadata@ == user_metadata(ctx.headers@)
                &&& t.metadata.wf()
            }
        },
    }
}

/// Checks a PutObject before its body is read.
pub fn put_object_target(store: &S3Store, ctx: &RequestContext) -> (r: Result<PutTarget, DispatchResponse>)
    requires
        store.wf(),
        ctx.wf(),
    ensures
        put_target_outcome(store@, *ctx, r),
{
    let bucket = match bucket_from_path(ctx.path.as_str()) {
        Some(b) => b,
        None => return Err(invalid_bucket_name()),
    };
    let key = key_from_path(ctx.path.as_str());
    let versioning_enabled = match store.get_bucket(bucket.as_str()) {
        Some(b) => b.versioning_enabled(),
        None => return Err(missing_bucket()),
    };
    let content_type = content_type_of(&ctx.headers);
    let metadata = metadata_from_headers(&ctx.headers);
    Ok(PutTarget { bucket, key, versioning_enabled, content_type, metadata })
}

/// The headers of a successful write: the ETag, and the version id when
/// it is not `null`.
pub open spec fn put_headers(etag: Seq<char>, version_id: Seq<char>) -> Seq<(Seq<char>, Seq<char>)> {
    if version_id == "null"@ {
        seq![("ETag"@, etag)]
    } else {
        seq![("ETag"@, etag), ("x-amz-version-id"@, version_id)]
    }
}

fn put_headers_exec(etag: String, version_id: String) -> (r: Vec<(String, String)>)
    ensures
        header_views(r@) == put_headers(etag@, version_id@),
{
    proof {
        reveal_strlit("null");
    }
    let mut h: Vec<(String, String)> = Vec::new();
    let null = version_id.as_str().eq("null");
    h.push(("ETag".to_string(), etag));
    if !null {
        h.push(("x-amz-version-id".to_string(), version_id));
    }
    proof {
        assert(header_views(h@) =~= put_headers(h@[0].1@, version_id@)) by {
            if !null {
                assert(h@[1].1@ == version_id@);
            }
        }
    }
    h
}

/// The path of the file data is in, if it is in one.
pub open spec fn data_file(d: DataView) -> Option<Seq<char>> {
    match d {
        DataView::FileRef(p) => Some(p),
        DataView::Inline(_) => None,
    }
}

/// What recording a PutObject does.  When the bucket has gone, nothing is
/// stored, the answer is NoSuchBucket and the new file (if any) is to be
/// removed.  Otherwise the version is stored under the key, the answer
/// carries its headers, and the file of a replaced non-versioned version
/// is to be removed.
pub open spec fn put_commit_outcome(
    s0: S3StoreView,
    s1: S3StoreView,
    t: PutTarget,
    version_id: Seq<char>,
    etag: Seq<char>,
    size: u64,
    data: DataView,
    now: i64,
    r: (ResponseView, Option<Seq<char>>),
) -> bool {
    let b = t.bucket@;
    let k = t.key@;
    if !s0.buckets.contains_key(b) {
        &&& s1 == s0
        &&& r.0 == no_such_bucket()
        &&& r.1 == data_file(data)
    } else {
        &&& s1 == stored_spec(s0, b, k, built_version(data, size, etag, t.content_type@, t.metadata@, version_id, now), false)
        &&& r.0 == headers_view(200, put_headers(etag, version_id))
        &&& r.1 == stale_file(version_id, replaced_data(bucket_contents(s0, b).get(k)), data)
    }
}

/// Records a PutObject whose data is in place, at time `now`.
pub fn put_object_commit_at(
    store: &mut S3Store,
    t: PutTarget,
    version_id: String,
    etag: String,
    size: u64,
    data: ObjectDataRef,
    now: i64,
) -> (r: (DispatchResponse, Option<String>))
    requires
        old(store).wf(),
        t.metadata.wf(),
    ensures
        final(store).wf(),
        put_commit_outcome(old(store)@, final(store)@, t, version_id@, etag@, size, data@, now, (r.0@, opt_view(r.1))),
{
    let ghost tv = t;
    if !store.bucket_exists(t.bucket.as_str()) {
        let f = match data.as_file_ref() {
            Some(p) => Some(p.clone()),
            None => None,
        };
        return (missing_bucket(), f);
    }
    let new_data = data.copy();
    let version = build_version(data, size, etag.clone(), t.content_type, t.metadata, version_id.clone(), now);
    let prev = store.put_object_version(t.bucket.as_str(), t.key.as_str(), version);
    let stale = stale_file_exec(version_id.as_str(), prev, &new_data);
    let h = put_headers_exec(etag, version_id);
    (with_headers(200, h), stale)
}

// ---------------------------------------------------------------------------
// GetObject and HeadObject
// ---------------------------------------------------------------------------

/// `ks` lists the keys of `m`, each once.
pub open spec fn enumerates(ks: Seq<Seq<char>>, m: Map<Seq<char>, Seq<char>>) -> bool {
    ks.no_duplicates() && ks.to_set() == m.dom()
}

/// One `x-amz-meta-` header for each key of `ks`, with its value in `m`.
pub open spec fn meta_headers(ks: Seq<Seq<char>>, m: Map<Seq<char>, Seq<char>>) -> Seq<(Seq<char>, Seq<char>)> {
    ks.map_values(|k: Seq<char>| (crate::s3_rest::meta_prefix() + k, m[k]))
}

/// The headers that describe a version: ETag, Last-Modified as an HTTP
/// date, Content-Length, the version id unless it is `null`, the user
/// metadata (in the order `ks` gives), and with `with_encoding` the
/// content encoding (`identity` when it has none).
pub open spec fn object_headers_spec(v: VersionView, ks: Seq<Seq<char>>, with_encoding: bool) -> Seq<
    (Seq<char>, Seq<char>),
> {
    seq![
        ("ETag"@, v.etag),
        ("Last-Modified"@, http_date_text(v.last_modified)),
        ("Content-Length"@, decimal_spec(v.size as nat)),
    ] + (if v.version_id == "null"@ {
        Seq::empty()
    } else {
        seq![("x-amz-version-id"@, v.version_id)]
    }) + meta_headers(ks, v.metadata) + (if with_encoding {
        seq![
            ("Content-Encoding"@, match v.content_encoding {
                Some(e) => e,
                None => "identity"@,
            }),
        ]
    } else {
        Seq::empty()
    })
}

fn decimal_string(n: u64) -> (r: String)
    ensures
        r@ == decimal_spec(n as nat),
{
    let mut s = String::new();
    push_decimal(&mut s, n);
    proof {
        assert(s@ =~= decimal_spec(n as nat));
    }
    s
}

fn push_meta_headers(h: &mut Vec<(String, String)>, m: &StrMap<String>)
    requires
        m.wf(),
    ensures
        header_views(final(h)@) == header_views(old(h)@) + meta_headers(m.keys_seq(), m@),
        enumerates(m.keys_seq(), m@),
{
    let n = m.len();
    proof {
        m.lemma_enumeration();
    }
    let ghost ks = m.keys_seq();
    let ghost start = header_views(h@);
    let mut i: usize = 0;
    while i < n
        invariant
            i <= n,
            n == ks.len(),
            ks == m.keys_seq(),
            m.wf(),
            header_views(h@) == start + meta_headers(ks.take(i as int), m@),
        decreases n - i,
    {
        proof {
            m.lemma_enumeration();
        }
        let k = m.key_at_index(i);
        let v = m.value_at_index(i);
        let mut name = String::new();
        push_str(&mut name, "x-amz-meta-");
        push_str(&mut name, k.as_str());
        let ghost before = header_views(h@);
        h.push((name, v.clone()));
        proof {
            assert(m@[ks[i as int]] == v@);
            assert(ks.take(i + 1) =~= ks.take(i as int).push(ks[i as int]));
            assert(meta_headers(ks.take(i + 1), m@) =~= meta_headers(ks.take(i as int), m@).push(
                (crate::s3_rest::meta_prefix() + ks[i as int], m@[ks[i as int]]),
            ));
            assert(header_views(h@) =~= before.push((name@, v@)));
        }
        i = i + 1;
    }
    proof {
        assert(ks.take(n as int) =~= ks);
        m.lemma_enumeration();
        assert(ks.to_set() =~= m@.dom()) by {
            assert forall|k: Seq<char>| ks.to_set().contains(k) implies m@.dom().contains(k) by {
                let j = choose|j: int| 0 <= j < ks.len() && ks[j] == k;
                assert(m@.contains_key(ks[j]));
            }
        }
    }
}

fn object_headers(v: &ObjectVersion, with_encoding: bool) -> (r: Vec<(String, String)>)
    requires
        v.wf(),
    ensures
        exists|ks: Seq<Seq<char>>| enumerates(ks, v@.metadata) && header_views(r@) == object_headers_spec(v@, ks, with_encoding),
{
    proof {
        reveal_strlit("null");
    }
    let mut h: Vec<(String, String)> = Vec::new();
    let d = format_http_date(v.last_modified);
    let n = decimal_string(v.size);
    h.push(("ETag".to_string(), v.etag.clone()));
    h.push(("Last-Modified".to_string(), d));
    h.push(("Content-Length".to_string(), n));
    proof {
        assert(header_views(h@) =~= seq![
            ("ETag"@, v@.etag),
            ("Last-Modified"@, http_date_text(v@.last_modified)),
            ("Content-Length"@, decimal_spec(v@.size as nat)),
        ]);
    }
    let ghost part1 = header_views(h@);
    if !v.version_id.as_str().eq("null") {
        h.push(("x-amz-version-id".to_string(), v.version_id.clone()));
    }
    let ghost part2 = header_views(h@);
    proof {
        assert(part2 =~= part1 + (if v@.version_id == "null"@ {
            Seq::<(Seq<char>, Seq<char>)>::empty()
        } else {
            seq![("x-amz-version-id"@, v@.version_id)]
        }));
    }
    push_meta_headers(&mut h, &v.metadata);
    let ghost part3 = header_views(h@);
    if with_encoding {
        let enc = match &v.content_encoding {
            Some(e) => e.clone(),
            None => "identity".to_string(),
        };
        h.push(("Content-Encoding".to_string(), enc));
    }
    proof {
        let ks = v.metadata.keys_seq();
        let enc_part = if with_encoding {
            seq![
                ("Content-Encoding"@, match v@.content_encoding {
                    Some(e) => e,
                    None => "identity"@,
                }),
            ]
        } else {
            Seq::<(Seq<char>, Seq<char>)>::empty()
        };
        assert(header_views(h@) =~= part3 + enc_part);
        assert(header_views(h@) =~= object_headers_spec(v@, ks, with_encoding));
    }
    h
}

/// The version a GetObject reads: the one named by `versionId`, or the
/// current one.
pub open spec fn requested_version(s: S3StoreView, ctx: RequestContext, b: Seq<char>) -> Option<VersionView> {
    if ctx.query_params@.contains_key("versionId"@) {
        object_version_spec(s, b, req_key(ctx), ctx.query_params@["versionId"@])
    } else {
        object_current(s, b, req_key(ctx))
    }
}

/// A successful read of `v`: status 200, its content type, its headers,
/// no body text (the data goes with the answer).
pub open spec fn object_found(v: VersionView, r: ResponseView, with_encoding: bool) -> bool {
    &&& r.status_code == 200
    &&& r.body == Seq::<char>::empty()
    &&& r.content_type == v.content_type
    &&& exists|ks: Seq<Seq<char>>| enumerates(ks, v.metadata) && r.headers == object_headers_spec(v, ks, with_encoding)
}

/// The answer to a GetObject, and the data to send with it.
pub open spec fn get_object_outcome(s: S3StoreView, ctx: RequestContext, r: (ResponseView, Option<DataView>)) -> bool {
    match req_bucket(ctx) {
        None => r.0 == no_bucket_name() && r.1 is None,
        Some(b) => if !s.buckets.contains_key(b) {
            r.0 == no_such_bucket() && r.1 is None
        } else {
            match requested_version(s, ctx, b) {
                None => r.0 == no_such_key() && r.1 is None,
                Some(v) => object_found(v, r.0, true) && r.1 == Some(v.data),
            }
        },
    }
}

/// GetObject: the answer and the data of the version read.
pub fn get_object(store: &S3Store, ctx: &RequestContext) -> (r: (DispatchResponse, Option<ObjectDataRef>))
    requires
        store.wf(),
        ctx.wf(),
    ensures
        get_object_outcome(store@, *ctx, (r.0@, data_opt_view(r.1))),
{
    let bucket = match bucket_from_path(ctx.path.as_str()) {
        Some(b) => b,
        None => return (invalid_bucket_name(), None),
    };
    let key = key_from_path(ctx.path.as_str());
    if !store.bucket_exists(bucket.as_str()) {
        return (missing_bucket(), None);
    }
    let found = match ctx.query_params.get("versionId") {
        Some(vid) => store.get_object_version(bucket.as_str(), key.as_str(), vid.as_str()),
        None => store.get_object(bucket.as_str(), key.as_str()),
    };
    match found {
        None => (missing_key(), None),
        Some(v) => {
            let headers = object_headers(v, true);
            let r = DispatchResponse {
                status_code: 200,
                body: String::new(),
                content_type: v.content_type.clone(),
                headers,
            };
            (r, Some(v.data.copy()))
        },
    }
}

/// The answer to a HeadObject.
pub open spec fn head_object_outcome(s: S3StoreView, ctx: RequestContext, r: ResponseView) -> bool {
    match req_bucket(ctx) {
        None => r == no_bucket_name(),
        Some(b) => if !s.buckets.contains_key(b) {
            r == no_such_bucket()
        } else {
            match object_current(s, b, req_key(ctx)) {
                None => r == no_such_key(),
                Some(v) => object_found(v, r, false),
            }
        },
    }
}

/// HeadObject: the headers of the current version, without its data.
pub fn head_object(store: &S3Store, ctx: &RequestContext) -> (r: DispatchResponse)
    requires
        store.wf(),
        ctx.wf(),
    ensures
        head_object_outcome(store@, *ctx, r@),
{
    let bucket = match bucket_from_path(ctx.path.as_str()) {
        Some(b) => b,
        None => return invalid_bucket_name(),
    };
    let key = key_from_path(ctx.path.as_str());
    if !store.bucket_exists(bucket.as_str()) {
        return missing_bucket();
    }
    match store.get_object(bucket.as_str(), key.as_str()) {
        None => missing_key(),
        Some(v) => {
            let headers = object_headers(v, false);
            DispatchResponse { status_code: 200, body: String::new(), content_type: v.content_type.clone(), headers }
        },
    }
}

// ---------------------------------------------------------------------------
// DeleteObject
// ---------------------------------------------------------------------------

/// The file to remove once `removed` is gone: its file, unless it is a
/// delete marker.
pub open spec fn removed_file(removed: Option<VersionView>) -> Option<Seq<char>> {
    match removed {
        Some(v) => if v.delete_marker {
            None
        } else {
            data_file(v.data)
        },
        None => None,
    }
}

/// The headers that report a delete marker.
pub open spec fn marker_headers(removed: Option<VersionView>) -> Seq<(Seq<char>, Seq<char>)> {
    match removed {
        Some(v) => if v.delete_marker {
            seq![("x-amz-delete-marker"@, "true"@), ("x-amz-version-id"@, v.version_id)]
        } else {
            Seq::empty()
        },
        None => Seq::empty(),
    }
}

/// What a DeleteObject does: with `versionId` that version goes (and its
/// file); otherwise the key is deleted (a delete marker under versioning,
/// with the marker reported in the headers).  The answer is 204 whether or
/// not there was anything to delete.
pub open spec fn delete_object_outcome(
    s0: S3StoreView,
    s1: S3StoreView,
    ctx: RequestContext,
    fresh_id: Seq<char>,
    now: i64,
    r: (ResponseView, Option<Seq<char>>),
) -> bool {
    let k = req_key(ctx);
    match req_bucket(ctx) {
        None => s1 == s0 && r.0 == no_bucket_name() && r.1 is None,
        Some(b) => if !s0.buckets.contains_key(b) {
            s1 == s0 && r.0 == no_such_bucket() && r.1 is None
        } else if ctx.query_params@.contains_key("versionId"@) {
            let vid = ctx.query_params@["versionId"@];
            let d = delete_version_spec(s0, b, k, vid);
            &&& s1 == d.0
            &&& r.0 == headers_view(204, seq![("x-amz-version-id"@, vid)])
            &&& r.1 == match d.1 {
                Some(v) => data_file(v.data),
                None => None,
            }
        } else {
            let d = delete_object_spec(s0, b, k, fresh_id, now);
            &&& s1 == d.0
            &&& r.0 == headers_view(204, marker_headers(d.1))
            &&& r.1 == removed_file(d.1)
        },
    }
}

fn file_of(d: &ObjectDataRef) -> (r: Option<String>)
    ensures
        opt_view(r) == data_file(d@),
{
    match d {
        ObjectDataRef::FileRef(p) => Some(p.clone()),
        ObjectDataRef::Inline(_) => None,
    }
}

/// DeleteObject with the fresh id and time a delete marker would take;
/// the answer and the file to remove.
pub fn delete_object_at(store: &mut S3Store, ctx: &RequestContext, fresh_id: String, now: i64) -> (r: (
    DispatchResponse,
    Option<String>,
))
    requires
        old(store).wf(),
        ctx.wf(),
    ensures
        final(store).wf(),
        delete_object_outcome(old(store)@, final(store)@, *ctx, fresh_id@, now, (r.0@, opt_view(r.1))),
{
    let bucket = match bucket_from_path(ctx.path.as_str()) {
        Some(b) => b,
        None => return (invalid_bucket_name(), None),
    };
    let key = key_from_path(ctx.path.as_str());
    if !store.bucket_exists(bucket.as_str()) {
        return (missing_bucket(), None);
    }
    match ctx.query_params.get("versionId") {
        Some(vid) => {
            let removed = store.delete_object_version(bucket.as_str(), key.as_str(), vid.as_str());
            let f = match &removed {
                Some(v) => file_of(&v.data),
                None => None,
            };
            let mut h: Vec<(String, String)> = Vec::new();
            h.push(("x-amz-version-id".to_string(), vid.clone()));
            proof {
                assert(header_views(h@) =~= seq![("x-amz-version-id"@, vid@)]);
            }
            (with_headers(204, h), f)
        },
        None => {
            let ghost fid = fresh_id@;
            let deleted = store.delete_object_at(bucket.as_str(), key.as_str(), fresh_id, now);
            let mut h: Vec<(String, String)> = Vec::new();
            let mut f: Option<String> = None;
            match &deleted {
                Some(v) => {
                    if v.delete_marker {
                        h.push(("x-amz-delete-marker".to_string(), "true".to_string()));
                        h.push(("x-amz-version-id".to_string(), v.version_id.clone()));
                    } else {
                        f = file_of(&v.data);
                    }
                },
                None => {},
            }
            proof {
                let d = delete_object_spec(old(store)@, bucket@, key@, fid, now);
                assert(header_views(h@) =~= marker_headers(d.1));
            }
            (with_headers(204, h), f)
        },
    }
}

// ---------------------------------------------------------------------------
// Multipart uploads: start and abandon
// ---------------------------------------------------------------------------

/// The document that answers CreateMultipartUpload.
pub open spec fn initiate_body(bucket: Seq<char>, key: Seq<char>, upload_id: Seq<char>) -> Seq<char> {
    crate::s3_rest::s3_doc_open("InitiateMultipartUploadResult"@) + "<Bucket>"@ + crate::text::escape_xml_spec(bucket)
        + "</Bucket><Key>"@ + crate::text::escape_xml_spec(key) + "</Key><UploadId>"@
        + crate::text::escape_xml_spec(upload_id) + "</UploadId></InitiateMultipartUploadResult>"@
}

/// What CreateMultipartUpload does: with a bucket that exists, an upload
/// with the given id, the request's content type and metadata and time
/// `now` starts.
pub open spec fn create_upload_outcome(
    s0: S3StoreView,
    s1: S3StoreView,
    ctx: RequestContext,
    upload_id: Seq<char>,
    now: i64,
    r: ResponseView,
) -> bool {
    match req_bucket(ctx) {
        None => s1 == s0 && r == no_bucket_name(),
        Some(b) => if !s0.buckets.contains_key(b) {
            s1 == s0 && r == no_such_bucket()
        } else {
            &&& s1 == (S3StoreView {
                uploads: s0.uploads.insert(
                    upload_id,
                    crate::s3::new_upload_spec(
                        upload_id,
                        b,
                        req_key(ctx),
                        request_content_type(ctx.headers@),
                        user_metadata(ctx.headers@),
                        now,
                    ),
                ),
                ..s0
            })
            &&& r == crate::s3_rest::s3_ok_view(initiate_body(b, req_key(ctx), upload_id))
        },
    }
}

/// CreateMultipartUpload with the given upload id and time.
pub fn create_multipart_upload_at(store: &mut S3Store, ctx: &RequestContext, upload_id: String, now: i64) -> (r: DispatchResponse)
    requires
        old(store).wf(),
        ctx.wf(),
    ensures
        final(store).wf(),
        create_upload_outcome(old(store)@, final(store)@, *ctx, upload_id@, now, r@),
{
    let bucket = match bucket_from_path(ctx.path.as_str()) {
        Some(b) => b,
        None => return invalid_bucket_name(),
    };
    let key = key_from_path(ctx.path.as_str());
    if !store.bucket_exists(bucket.as_str()) {
        return missing_bucket();
    }
    let content_type = content_type_of(&ctx.headers);
    let metadata = metadata_from_headers(&ctx.headers);
    let id = store.create_multipart_upload_at(bucket.as_str(), key.as_str(), content_type.as_str(), metadata, upload_id, now);
    let mut b = String::new();
    crate::s3_rest::push_doc_open(&mut b, "InitiateMultipartUploadResult");
    push_str(&mut b, "<Bucket>");
    crate::text::push_escaped(&mut b, bucket.as_str());
    push_str(&mut b, "</Bucket><Key>");
    crate::text::push_escaped(&mut b, key.as_str());
    push_str(&mut b, "</Key><UploadId>");
    crate::text::push_escaped(&mut b, id.as_str());
    push_str(&mut b, "</UploadId></InitiateMultipartUploadResult>");
    proof {
        assert(b@ =~= initiate_body(bucket@, key@, id@));
    }
    crate::s3_rest::s3_ok(b)
}

/// The error for a request without a required parameter.
pub open spec fn invalid_request(message: Seq<char>) -> ResponseView {
    s3_error_view("InvalidRequest"@, message, 400)
}

/// What AbortMultipartUpload does: the upload named by `uploadId` goes.
pub open spec fn abort_upload_outcome(s0: S3StoreView, s1: S3StoreView, ctx: RequestContext, r: ResponseView) -> bool {
    if !ctx.query_params@.contains_key("uploadId"@) {
        s1 == s0 && r == invalid_request("uploadId required"@)
    } else {
        let id = ctx.query_params@["uploadId"@];
        &&& s1 == (S3StoreView { uploads: s0.uploads.remove(id), ..s0 })
        &&& r == if s0.uploads.contains_key(id) {
            empty_view(204)
        } else {
            no_such_upload()
        }
    }
}

/// AbortMultipartUpload.
pub fn abort_multipart_upload(store: &mut S3Store, ctx: &RequestContext) -> (r: DispatchResponse)
    requires
        old(store).wf(),
        ctx.wf(),
    ensures
        final(store).wf(),
        abort_upload_outcome(old(store)@, final(store)@, *ctx, r@),
{
    let id = match ctx.query_params.get("uploadId") {
        Some(id) => id,
        None => return s3_error("InvalidRequest", "uploadId required", 400),
    };
    if store.abort_multipart_upload(id.as_str()) {
        crate::s3_rest::empty_response(204)
    } else {
        missing_upload()
    }
}

// ---------------------------------------------------------------------------
// UploadPart
// ---------------------------------------------------------------------------

/// The part a request's `partNumber` names, read as a `u32`.
pub open spec fn part_number_param(ctx: RequestContext) -> Option<nat> {
    if ctx.query_params@.contains_key("partNumber"@) {
        parse_unsigned_spec(ctx.query_params@["partNumber"@], u32::MAX as nat)
    } else {
        None
    }
}

/// The upload and part an UploadPart writes.
pub struct PartTarget {
    pub upload_id: String,
    pub part_number: u32,
    pub bucket: String,
    pub key: String,
}

/// The checks of an UploadPart: a bucket in the path, an `uploadId`, a
/// `partNumber` that is a `u32`, and an upload with that id into the same
/// bucket and key.
pub open spec fn part_target_outcome(s: S3StoreView, ctx: RequestContext, r: Result<PartTarget, DispatchResponse>) -> bool {
    match req_bucket(ctx) {
        None => r matches Err(e) && e@ == no_bucket_name(),
        Some(b) => if !ctx.query_params@.contains_key("uploadId"@) {
            r matches Err(e) && e@ == invalid_request("uploadId required"@)
        } else if part_number_param(ctx) is None {
            r matches Err(e) && e@ == invalid_request("partNumber required"@)
        } else {
            let id = ctx.query_params@["uploadId"@];
            if !s.uploads.contains_key(id) || s.uploads[id].bucket != b || s.uploads[id].key != req_key(ctx) {
                r matches Err(e) && e@ == no_such_upload()
            } else {
                r matches Ok(t) && t.upload_id@ == id && t.part_number == part_number_param(ctx).unwrap()
                    && t.bucket@ == b && t.key@ == req_key(ctx)
            }
        },
    }
}

/// Checks an UploadPart before its body is read.
pub fn upload_part_target(store: &S3Store, ctx: &RequestContext) -> (r: Result<PartTarget, DispatchResponse>)
    requires
        store.wf(),
        ctx.wf(),
    ensures
        part_target_outcome(store@, *ctx, r),
{
    let bucket = match bucket_from_path(ctx.path.as_str()) {
        Some(b) => b,
        None => return Err(invalid_bucket_name()),
    };
    let key = key_from_path(ctx.path.as_str());
    let upload_id = match ctx.query_params.get("uploadId") {
        Some(id) => id.clone(),
        None => return Err(s3_error("InvalidRequest", "uploadId required", 400)),
    };
    let part_number = match ctx.query_params.get("partNumber") {
        Some(v) => {
            let c = chars_of(v.as_str());
            match parse_u32(c.as_slice()) {
                Some(n) => n,
                None => return Err(s3_error("InvalidRequest", "partNumber required", 400)),
            }
        },
        None => return Err(s3_error("InvalidRequest", "partNumber required", 400)),
    };
    match store.get_multipart_upload(upload_id.as_str()) {
        None => Err(missing_upload()),
        Some(u) => {
            if !u.bucket.as_str().eq(bucket.as_str()) || !u.key.as_str().eq(key.as_str()) {
                return Err(missing_upload());
            }
            Ok(PartTarget { upload_id, part_number, bucket, key })
        },
    }
}

/// The key under which a part's file is kept: `__multipart/{id}/{key}`.
pub open spec fn part_file_key(upload_id: Seq<char>, key: Seq<char>) -> Seq<char> {
    "__multipart/"@ + upload_id + "/"@ + key
}

/// The version name of a part's file: `part-{n}`.
pub open spec fn part_file_version(n: u32) -> Seq<char> {
    "part-"@ + decimal_spec(n as nat)
}

/// Where a part's file goes: its key and version name.
pub fn part_file_location(t: &PartTarget) -> (r: (String, String))
    ensures
        r.0@ == part_file_key(t.upload_id@, t.key@),
        r.1@ == part_file_version(t.part_number),
{
    let mut k = String::new();
    push_str(&mut k, "__multipart/");
    push_str(&mut k, t.upload_id.as_str());
    push_str(&mut k, "/");
    push_str(&mut k, t.key.as_str());
    let mut v = String::new();
    push_str(&mut v, "part-");
    push_decimal(&mut v, t.part_number as u64);
    proof {
        assert(k@ =~= part_file_key(t.upload_id@, t.key@));
        assert(v@ =~= part_file_version(t.part_number));
    }
    (k, v)
}

/// What recording a part does: the part is stored in its upload (nothing
/// changes if the upload has gone) and the answer carries its ETag.
pub open spec fn part_commit_outcome(
    s0: S3StoreView,
    s1: S3StoreView,
    t: PartTarget,
    etag: Seq<char>,
    size: u64,
    data: DataView,
    now: i64,
    r: ResponseView,
) -> bool {
    &&& if s0.uploads.contains_key(t.upload_id@) {
        s1 == crate::s3::part_stored_spec(
            s0,
            t.upload_id@,
            crate::s3::given_part_spec(t.part_number, etag, size, data, now),
        )
    } else {
        s1 == s0
    }
    &&& r == headers_view(200, seq![("ETag"@, etag)])
}

/// Records a part whose data is in place, at time `now`.
pub fn upload_part_commit_at(
    store: &mut S3Store,
    t: &PartTarget,
    etag: String,
    size: u64,
    data: ObjectDataRef,
    now: i64,
) -> (r: DispatchResponse)
    requires
        old(store).wf(),
    ensures
        final(store).wf(),
        part_commit_outcome(old(store)@, final(store)@, *t, etag@, size, data@, now, r@),
{
    let _ = store.upload_part_with_etag_at(t.upload_id.as_str(), t.part_number, data, etag.clone(), size, now);
    let mut h: Vec<(String, String)> = Vec::new();
    h.push(("ETag".to_string(), etag));
    proof {
        assert(header_views(h@) =~= seq![("ETag"@, h@[0].1@)]);
    }
    with_headers(200, h)
}

// ---------------------------------------------------------------------------
// CompleteMultipartUpload
// ---------------------------------------------------------------------------

/// The part number a `<Part>` element gives (trimmed), 0 when it gives
/// none that is a `u32`.
pub open spec fn part_number_of(px: Seq<char>) -> nat {
    match extract_xml_text_spec(px, "PartNumber"@) {
        Some(t) => match parse_unsigned_spec(trim_ws(t), u32::MAX as nat) {
            Some(n) => n,
            None => 0,
        },
        None => 0,
    }
}

/// The ETag a `<Part>` element gives, trimmed; empty when it has none.
pub open spec fn etag_of_block(px: Seq<char>) -> Seq<char> {
    match extract_xml_text_spec(px, "ETag"@) {
        Some(t) => trim_ws(t),
        None => Seq::empty(),
    }
}

/// The parts the elements list, those with a part number above 0.
pub open spec fn parts_of_blocks(bs: Seq<Seq<char>>) -> Seq<(u32, Seq<char>)>
    decreases bs.len(),
{
    if bs.len() == 0 {
        Seq::empty()
    } else {
        let init = parts_of_blocks(bs.drop_last());
        let n = part_number_of(bs.last());
        if n > 0 {
            init.push((n as u32, etag_of_block(bs.last())))
        } else {
            init
        }
    }
}

/// The parts a CompleteMultipartUpload body lists, in order.
pub open spec fn listed_parts(ctx: RequestContext) -> Seq<(u32, Seq<char>)> {
    parts_of_blocks(xml_blocks(body_text(ctx.raw_body@), "<Part>"@, "</Part>"@, false))
}

pub open spec fn listed_views(v: Seq<(u32, String)>) -> Seq<(u32, Seq<char>)> {
    v.map_values(|p: (u32, String)| (p.0, p.1@))
}

fn parse_listed_parts(ctx: &RequestContext) -> (r: Vec<(u32, String)>)
    ensures
        listed_views(r@) == listed_parts(*ctx),
{
    let text = body_text_exec(ctx.raw_body.as_slice());
    let c = chars_of(text.as_str());
    let open = chars_of("<Part>");
    let close = chars_of("</Part>");
    let pn_tag = chars_of("PartNumber");
    let etag_tag = chars_of("ETag");
    proof {
        reveal_strlit("<Part>");
        reveal_strlit("</Part>");
    }
    let blocks = xml_blocks_exec(c.as_slice(), open.as_slice(), close.as_slice(), false);
    let ghost bs = char_vec_views(blocks@);
    let mut out: Vec<(u32, String)> = Vec::new();
    let mut i: usize = 0;
    proof {
        assert(bs.take(0) =~= Seq::<Seq<char>>::empty());
        assert(listed_views(out@) =~= Seq::<(u32, Seq<char>)>::empty());
    }
    while i < blocks.len()
        invariant
            i <= blocks@.len(),
            bs == char_vec_views(blocks@),
            pn_tag@ == "PartNumber"@,
            etag_tag@ == "ETag"@,
            listed_views(out@) == parts_of_blocks(bs.take(i as int)),
        decreases blocks@.len() - i,
    {
        let px = &blocks[i];
        let n: u32 = match extract_xml_text_chars(px.as_slice(), pn_tag.as_slice()) {
            Some(t) => {
                let tt = trim_ws_exec(t.as_slice());
                match parse_u32(tt.as_slice()) {
                    Some(n) => n,
                    None => 0,
                }
            },
            None => 0,
        };
        proof {
            assert(bs.take(i + 1).drop_last() =~= bs.take(i as int));
            assert(bs.take(i + 1).last() == px@);
            assert(n == part_number_of(px@));
        }
        if n > 0 {
            let etag = match extract_xml_text_chars(px.as_slice(), etag_tag.as_slice()) {
                Some(t) => {
                    let tt = trim_ws_exec(t.as_slice());
                    string_of(tt.as_slice())
                },
                None => String::new(),
            };
            let ghost before = listed_views(out@);
            out.push((n, etag));
            proof {
                assert(listed_views(out@) =~= before.push((n, etag_of_block(px@))));
            }
        }
        i = i + 1;
    }
    proof {
        assert(bs.take(blocks@.len() as int) =~= bs);
    }
    out
}

/// The part numbers listed, ascending.
pub open spec fn sorted_listed(listed: Seq<(u32, Seq<char>)>) -> Seq<u32> {
    listed.map_values(|p: (u32, Seq<char>)| p.0).sort_by(u32_le())
}

/// The numbers of `nums` that name a part of the upload, in order.
pub open spec fn present_parts(parts: Map<u32, PartView>, nums: Seq<u32>) -> Seq<u32>
    decreases nums.len(),
{
    if nums.len() == 0 {
        Seq::empty()
    } else {
        let init = present_parts(parts, nums.drop_last());
        if parts.contains_key(nums.last()) {
            init.push(nums.last())
        } else {
            init
        }
    }
}

/// The sizes of the parts numbered `nums`, added up.
pub open spec fn sum_sizes(parts: Map<u32, PartView>, nums: Seq<u32>) -> int
    decreases nums.len(),
{
    if nums.len() == 0 {
        0
    } else {
        sum_sizes(parts, nums.drop_last()) + parts[nums.last()].size
    }
}

/// The entry of `p` is for part `n`.
pub open spec fn number_is(n: u32) -> spec_fn((u32, Seq<char>)) -> bool {
    |p: (u32, Seq<char>)| p.0 == n
}

/// The MD5 digest that the first ETag listed for part `n` spells, when it
/// spells one of 16 bytes.
pub open spec fn supplied_digest(listed: Seq<(u32, Seq<char>)>, n: u32) -> Option<Seq<u8>> {
    match first_where(listed, number_is(n)) {
        Some(i) => match hex_decode_spec(vstd::utf8::encode_utf8(trim_quotes(listed[i].1))) {
            Some(d) => if d.len() == 16 {
                Some(d)
            } else {
                None
            },
            None => None,
        },
        None => None,
    }
}

/// The supplied digests of the parts numbered `nums`, concatenated.
pub open spec fn supplied_concat(listed: Seq<(u32, Seq<char>)>, nums: Seq<u32>) -> Seq<u8>
    decreases nums.len(),
{
    if nums.len() == 0 {
        Seq::empty()
    } else {
        supplied_concat(listed, nums.drop_last()) + match supplied_digest(listed, nums.last()) {
            Some(d) => d,
            None => Seq::empty(),
        }
    }
}

/// The ETag of a completed upload when every part's listed ETag spells
/// its digest: the MD5 of the digests, a hyphen and the number of parts,
/// in quotes; empty otherwise.
pub open spec fn listed_etag(listed: Seq<(u32, Seq<char>)>, nums: Seq<u32>) -> Seq<char> {
    let c = supplied_concat(listed, nums);
    if c.len() == nums.len() * 16 {
        quoted(hex_encode_spec(md5_spec(c)) + seq!['-'] + decimal_spec(nums.len()))
    } else {
        Seq::empty()
    }
}

/// What completing an upload assembles, once its checks pass.
pub struct CompletePlan {
    pub upload_id: String,
    pub bucket: String,
    pub key: String,
    pub content_type: String,
    pub metadata: StrMap<String>,
    /// Number, data and size of each part to join, in order.
    pub parts: Vec<(u32, ObjectDataRef, u64)>,
    pub versioning_enabled: bool,
    pub total_size: u128,
    /// The ETag from the listed part ETags; empty when they do not all
    /// spell a digest.
    pub multipart_etag: String,
}

pub open spec fn plan_parts_view(v: Seq<(u32, ObjectDataRef, u64)>) -> Seq<(u32, DataView, u64)> {
    v.map_values(|p: (u32, ObjectDataRef, u64)| (p.0, p.1@, p.2))
}

/// The parts to join: each listed number (ascending, repeats kept) that
/// names a part of the upload, with that part's data and size.
pub open spec fn joined_parts(parts: Map<u32, PartView>, nums: Seq<u32>) -> Seq<(u32, DataView, u64)> {
    nums.map_values(|n: u32| (n, parts[n].data, parts[n].size))
}

/// The checks of a CompleteMultipartUpload, and on success its plan.
pub open spec fn complete_plan_outcome(s: S3StoreView, ctx: RequestContext, r: Result<CompletePlan, DispatchResponse>) -> bool {
    match req_bucket(ctx) {
        None => r matches Err(e) && e@ == no_bucket_name(),
        Some(b) => if !ctx.query_params@.contains_key("uploadId"@) {
            r matches Err(e) && e@ == invalid_request("uploadId required"@)
        } else {
            let id = ctx.query_params@["uploadId"@];
            if !s.uploads.contains_key(id) || s.uploads[id].bucket != b || s.uploads[id].key != req_key(ctx) {
                r matches Err(e) && e@ == no_such_upload()
            } else {
                let u = s.uploads[id];
                let listed = listed_parts(ctx);
                let nums = present_parts(u.parts, sorted_listed(listed));
                r matches Ok(p) && {
                    &&& p.upload_id@ == id
                    &&& p.bucket@ == b
                    &&& p.key@ == req_key(ctx)
                    &&& p.content_type@ == u.content_type
                    &&& p.metadata@ == u.metadata
                    &&& p.metadata.wf()
                    &&& plan_parts_view(p.parts@) == joined_parts(u.parts, nums)
                    &&& p.versioning_enabled == versioning_on(s, b)
                    &&& p.total_size == sum_sizes(u.parts, nums)
                    &&& p.multipart_etag@ == listed_etag(listed, nums)
                }
            }
        },
    }
}

/// The first listed entry for part `n`.
fn first_listed(listed: &Vec<(u32, String)>, n: u32) -> (r: Option<usize>)
    ensures
        match r {
            Some(i) => first_where(listed_views(listed@), number_is(n)) == Some(i as int) && i < listed@.len(),
            None => first_where(listed_views(listed@), number_is(n)) is None,
        },
{
    let ghost lv = listed_views(listed@);
    let mut j: usize = 0;
    while j < listed.len()
        invariant
            j <= listed@.len(),
            lv == listed_views(listed@),
            forall|k: int| 0 <= k < j ==> !(number_is(n))(#[trigger] lv[k]),
        decreases listed@.len() - j,
    {
        if listed[j].0 == n {
            proof {
                assert((number_is(n))(lv[j as int]));
                lemma_first_where(lv, number_is(n), j as int);
            }
            return Some(j);
        }
        proof {
            assert(!(number_is(n))(lv[j as int]));
        }
        j = j + 1;
    }
    proof {
        lemma_first_where_none(lv, number_is(n));
    }
    None
}

/// Joins the parts of `u` numbered `nums`: the plan's parts, their total
/// size, and the listed ETag.
fn join_parts(
    u: &crate::s3::MultipartUpload,
    nums: &Vec<u32>,
    listed: &Vec<(u32, String)>,
) -> (r: (Vec<(u32, ObjectDataRef, u64)>, u128, String))
    requires
        u.wf(),
    ensures
        plan_parts_view(r.0@) == joined_parts(u@.parts, present_parts(u@.parts, nums@)),
        r.1 == sum_sizes(u@.parts, present_parts(u@.parts, nums@)),
        r.2@ == listed_etag(listed_views(listed@), present_parts(u@.parts, nums@)),
{
    let ghost pm = u@.parts;
    let ghost lv = listed_views(listed@);
    let mut out: Vec<(u32, ObjectDataRef, u64)> = Vec::new();
    let mut total: u128 = 0;
    let mut concat: Vec<u8> = Vec::new();
    let mut valid: usize = 0;
    let mut i: usize = 0;
    proof {
        assert(nums@.take(0) =~= Seq::<u32>::empty());
        assert(plan_parts_view(out@) =~= Seq::<(u32, DataView, u64)>::empty());
    }
    while i < nums.len()
        invariant
            i <= nums@.len(),
            u.wf(),
            pm == u@.parts,
            lv == listed_views(listed@),
            plan_parts_view(out@) == joined_parts(pm, present_parts(pm, nums@.take(i as int))),
            out@.len() == present_parts(pm, nums@.take(i as int)).len(),
            out@.len() <= i,
            total == sum_sizes(pm, present_parts(pm, nums@.take(i as int))),
            total <= out@.len() * (u64::MAX as int),
            concat@ == supplied_concat(lv, present_parts(pm, nums@.take(i as int))),
            concat@.len() == valid * 16,
            valid <= out@.len(),
        decreases nums@.len() - i,
    {
        let n = nums[i];
        let ghost before = present_parts(pm, nums@.take(i as int));
        proof {
            assert(nums@.take(i + 1).drop_last() =~= nums@.take(i as int));
            assert(nums@.take(i + 1).last() == n);
        }
        match crate::s3::find_part(&u.parts, n) {
            Some(j) => {
                let part = &u.parts[j];
                let ghost pv = part@;
                let ghost outv = plan_parts_view(out@);
                out.push((n, part.data.copy(), part.size));
                proof {
                    let after = before.push(n);
                    assert(present_parts(pm, nums@.take(i + 1)) == after);
                    assert(plan_parts_view(out@) =~= outv.push((n, pv.data, pv.size)));
                    assert(joined_parts(pm, after) =~= joined_parts(pm, before).push((n, pm[n].data, pm[n].size)));
                    assert(after.drop_last() =~= before);
                    assert(total + part.size <= (out@.len()) * (u64::MAX as int)) by (nonlinear_arith)
                        requires
                            total <= (out@.len() - 1) * (u64::MAX as int),
                            part.size <= u64::MAX,
                            out@.len() >= 1,
                    ;
                    assert(out@.len() <= nums@.len());
                    assert((out@.len() as int) * (u64::MAX as int) < u128::MAX) by (nonlinear_arith)
                        requires
                            out@.len() <= usize::MAX,
                    ;
                }
                total = total + part.size as u128;
                let k = first_listed(listed, n);
                let dig = match k {
                    Some(k) => crate::s3::etag_digest(listed[k].1.as_str()),
                    None => None,
                };
                match dig {
                    Some(d) => {
                        crate::s3::append_bytes(&mut concat, d.as_slice());
                        valid = valid + 1;
                    },
                    None => {
                        proof {
                            assert(concat@ + Seq::<u8>::empty() =~= concat@);
                        }
                    },
                }
                proof {
                    let after = before.push(n);
                    assert(after.drop_last() =~= before);
                    assert(after.last() == n);
                    assert(concat@ == supplied_concat(lv, after));
                }
            },
            None => {
                proof {
                    assert(present_parts(pm, nums@.take(i + 1)) == before);
                }
            },
        }
        i = i + 1;
    }
    proof {
        assert(nums@.take(nums@.len() as int) =~= nums@);
    }
    let count = out.len();
    let mut etag = String::new();
    if valid == count {
        let digest = md5(concat.as_slice());
        let hex = crate::deps::hex_encode(digest.as_slice());
        etag.push('"');
        push_str(&mut etag, hex.as_str());
        etag.push('-');
        push_decimal(&mut etag, count as u64);
        etag.push('"');
        proof {
            assert(etag@ =~= quoted(hex@ + seq!['-'] + decimal_spec(count as nat)));
        }
    } else {
        proof {
            assert(concat@.len() != count * 16);
            assert(etag@ =~= Seq::<char>::empty());
        }
    }
    (out, total, etag)
}

/// Checks a CompleteMultipartUpload and plans the object it assembles.
pub fn complete_multipart_plan(store: &S3Store, ctx: &RequestContext) -> (r: Result<CompletePlan, DispatchResponse>)
    requires
        store.wf(),
        ctx.wf(),
    ensures
        complete_plan_outcome(store@, *ctx, r),
{
    let bucket = match bucket_from_path(ctx.path.as_str()) {
        Some(b) => b,
        None => return Err(invalid_bucket_name()),
    };
    let key = key_from_path(ctx.path.as_str());
    let upload_id = match ctx.query_params.get("uploadId") {
        Some(id) => id.clone(),
        None => return Err(s3_error("InvalidRequest", "uploadId required", 400)),
    };
    let listed = parse_listed_parts(ctx);
    let u = match store.get_multipart_upload(upload_id.as_str()) {
        None => return Err(missing_upload()),
        Some(u) => u,
    };
    if !u.bucket.as_str().eq(bucket.as_str()) || !u.key.as_str().eq(key.as_str()) {
        return Err(missing_upload());
    }
    let nums = crate::s3::sorted_numbers(listed.as_slice());
    proof {
        assert(listed@.map_values(|p: (u32, String)| p.0) =~= listed_views(listed@).map_values(
            |p: (u32, Seq<char>)| p.0,
        ));
    }
    let (parts, total_size, multipart_etag) = join_parts(u, &nums, &listed);
    let versioning_enabled = match store.get_bucket(bucket.as_str()) {
        Some(b) => b.versioning_enabled(),
        None => false,
    };
    Ok(CompletePlan {
        upload_id,
        bucket,
        key,
        content_type: u.content_type.clone(),
        metadata: u.metadata.deep_copy(),
        parts,
        versioning_enabled,
        total_size,
        multipart_etag,
    })
}

/// The files among a plan's parts, to remove once the object is assembled.
pub fn part_files(p: &CompletePlan) -> (r: Vec<String>)
    ensures
        r@.map_values(|s: String| s@) == part_files_spec(plan_parts_view(p.parts@)),
{
    let mut out: Vec<String> = Vec::new();
    let mut i: usize = 0;
    let ghost pv = plan_parts_view(p.parts@);
    proof {
        assert(pv.take(0) =~= Seq::<(u32, DataView, u64)>::empty());
        assert(out@.map_values(|s: String| s@) =~= Seq::<Seq<char>>::empty());
    }
    while i < p.parts.len()
        invariant
            i <= p.parts@.len(),
            pv == plan_parts_view(p.parts@),
            out@.map_values(|s: String| s@) == part_files_spec(pv.take(i as int)),
        decreases p.parts@.len() - i,
    {
        let ghost before = out@.map_values(|s: String| s@);
        proof {
            assert(pv.take(i + 1).drop_last() =~= pv.take(i as int));
        }
        match &p.parts[i].1 {
            ObjectDataRef::FileRef(path) => {
                out.push(path.clone());
                proof {
                    assert(out@.map_values(|s: String| s@) =~= before.push(path@));
                }
            },
            ObjectDataRef::Inline(_) => {},
        }
        i = i + 1;
    }
    proof {
        assert(pv.take(p.parts@.len() as int) =~= pv);
    }
    out
}

/// The paths of the file-backed parts, in order.
pub open spec fn part_files_spec(parts: Seq<(u32, DataView, u64)>) -> Seq<Seq<char>>
    decreases parts.len(),
{
    if parts.len() == 0 {
        Seq::empty()
    } else {
        let init = part_files_spec(parts.drop_last());
        match parts.last().1 {
            DataView::FileRef(p) => init.push(p),
            DataView::Inline(_) => init,
        }
    }
}

/// The document that answers a completed upload.
pub open spec fn complete_body(bucket: Seq<char>, key: Seq<char>, etag: Seq<char>) -> Seq<char> {
    crate::s3_rest::s3_doc_open("CompleteMultipartUploadResult"@) + "<Location>"@ + escape_xml_spec(
        "http://localhost:4566/"@ + bucket + "/"@ + key,
    ) + "</Location><Bucket>"@ + escape_xml_spec(bucket) + "</Bucket><Key>"@ + escape_xml_spec(key) + "</Key><ETag>"@
        + escape_xml_spec(etag) + "</ETag></CompleteMultipartUploadResult>"@
}

/// The ETag a completed object gets: the listed ETag, or the one of its
/// assembled content when there is none.
pub open spec fn completed_etag(multipart_etag: Seq<char>, content_etag: Seq<char>) -> Seq<char> {
    if multipart_etag.len() == 0 {
        content_etag
    } else {
        multipart_etag
    }
}

/// What recording a completed upload does: the upload goes and the
/// assembled version is stored under its key (nothing changes when the
/// upload has gone meanwhile); the answer names the object and its ETag,
/// and the file of a replaced non-versioned version is to be removed.
pub open spec fn complete_commit_outcome(
    s0: S3StoreView,
    s1: S3StoreView,
    p: CompletePlan,
    version_id: Seq<char>,
    content_etag: Seq<char>,
    size: u64,
    data: DataView,
    now: i64,
    r: (ResponseView, Option<Seq<char>>),
) -> bool {
    let id = p.upload_id@;
    let etag = completed_etag(p.multipart_etag@, content_etag);
    let v = built_version(data, size, etag, p.content_type@, p.metadata@, version_id, now);
    &&& if s0.uploads.contains_key(id) {
        let u = s0.uploads[id];
        let rest = S3StoreView { uploads: s0.uploads.remove(id), ..s0 };
        &&& s1 == stored_spec(rest, u.bucket, u.key, v, false)
        &&& r.1 == stale_file(version_id, replaced_data(bucket_contents(rest, u.bucket).get(u.key)), data)
    } else {
        s1 == s0 && r.1 is None
    }
    &&& r.0 == crate::s3_rest::s3_ok_view(complete_body(p.bucket@, p.key@, etag))
}

/// Records a completed upload whose assembled data is in place.
pub fn complete_multipart_commit_at(
    store: &mut S3Store,
    p: CompletePlan,
    version_id: String,
    content_etag: String,
    size: u64,
    data: ObjectDataRef,
    now: i64,
) -> (r: (DispatchResponse, Option<String>))
    requires
        old(store).wf(),
        p.metadata.wf(),
    ensures
        final(store).wf(),
        complete_commit_outcome(old(store)@, final(store)@, p, version_id@, content_etag@, size, data@, now, (r.0@, opt_view(r.1))),
{
    let ghost pv = p;
    proof {
        reveal_strlit("");
    }
    let etag = if p.multipart_etag.as_str().eq("") {
        content_etag
    } else {
        p.multipart_etag
    };
    proof {
        if pv.multipart_etag@.len() == 0 {
            assert(pv.multipart_etag@ =~= ""@);
        }
        assert(etag@ == completed_etag(pv.multipart_etag@, content_etag@));
    }
    let new_data = data.copy();
    let version = build_version(data, size, etag.clone(), p.content_type, p.metadata, version_id.clone(), now);
    let prev = store.complete_multipart_upload_with_version(p.upload_id.as_str(), version);
    let stale = stale_file_exec(version_id.as_str(), prev, &new_data);
    let mut b = String::new();
    crate::s3_rest::push_doc_open(&mut b, "CompleteMultipartUploadResult");
    push_str(&mut b, "<Location>");
    let mut loc = String::new();
    push_str(&mut loc, "http://localhost:4566/");
    push_str(&mut loc, p.bucket.as_str());
    push_str(&mut loc, "/");
    push_str(&mut loc, p.key.as_str());
    crate::text::push_escaped(&mut b, loc.as_str());
    push_str(&mut b, "</Location><Bucket>");
    crate::text::push_escaped(&mut b, p.bucket.as_str());
    push_str(&mut b, "</Bucket><Key>");
    crate::text::push_escaped(&mut b, p.key.as_str());
    push_str(&mut b, "</Key><ETag>");
    crate::text::push_escaped(&mut b, etag.as_str());
    push_str(&mut b, "</ETag></CompleteMultipartUploadResult>");
    proof {
        assert(loc@ =~= "http://localhost:4566/"@ + pv.bucket@ + "/"@ + pv.key@);
        assert(b@ =~= complete_body(pv.bucket@, pv.key@, etag@));
    }
    (crate::s3_rest::s3_ok(b), stale)
}

// ---------------------------------------------------------------------------
// CopyObject
// ---------------------------------------------------------------------------

/// The source a copy request names: its `x-amz-copy-source` header,
/// percent-decoded and split into bucket and key.
pub open spec fn copy_source_of(headers: Map<Seq<char>, Seq<char>>) -> (Seq<char>, Seq<char>) {
    parse_copy_source_spec(percent_decode_spec(vstd::utf8::encode_utf8(headers["x-amz-copy-source"@]), false))
}

/// What a CopyObject copies, once its checks pass.
pub struct CopyPlan {
    pub dest_bucket: String,
    pub dest_key: String,
    pub src_bucket: String,
    pub src_key: String,
    /// The source's current version.
    pub source: ObjectVersion,
    pub versioning_enabled: bool,
}

/// The checks of a CopyObject: a destination bucket in the path, a copy
/// source header, a destination bucket that exists and a source object
/// with a current version.
pub open spec fn copy_plan_outcome(s: S3StoreView, ctx: RequestContext, r: Result<CopyPlan, DispatchResponse>) -> bool {
    match req_bucket(ctx) {
        None => r matches Err(e) && e@ == s3_error_view("InvalidBucketName"@, "Destination bucket required"@, 400),
        Some(db) => if !ctx.headers@.contains_key("x-amz-copy-source"@) {
            r matches Err(e) && e@ == invalid_request("Missing x-amz-copy-source header"@)
        } else {
            let src = copy_source_of(ctx.headers@);
            if !s.buckets.contains_key(db) {
                r matches Err(e) && e@ == s3_error_view("NoSuchBucket"@, "Destination bucket does not exist"@, 404)
            } else {
                match object_current(s, src.0, src.1) {
                    None => r matches Err(e) && e@ == s3_error_view("NoSuchKey"@, "Source key does not exist"@, 404),
                    Some(v) => r matches Ok(p) && {
                        &&& p.dest_bucket@ == db
                        &&& p.dest_key@ == req_key(ctx)
                        &&& p.src_bucket@ == src.0
                        &&& p.src_key@ == src.1
                        &&& p.source@ == v
                        &&& p.source.wf()
                        &&& p.versioning_enabled == versioning_on(s, db)
                    },
                }
            }
        },
    }
}

/// Checks a CopyObject and reads its source.
pub fn copy_object_plan(store: &S3Store, ctx: &RequestContext) -> (r: Result<CopyPlan, DispatchResponse>)
    requires
        store.wf(),
        ctx.wf(),
    ensures
        copy_plan_outcome(store@, *ctx, r),
{
    let dest_bucket = match bucket_from_path(ctx.path.as_str()) {
        Some(b) => b,
        None => return Err(s3_error("InvalidBucketName", "Destination bucket required", 400)),
    };
    let dest_key = key_from_path(ctx.path.as_str());
    let source = match ctx.headers.get("x-amz-copy-source") {
        Some(s) => s,
        None => return Err(s3_error("InvalidRequest", "Missing x-amz-copy-source header", 400)),
    };
    let decoded = urlencoding_decode(source.as_str());
    let (src_bucket, src_key) = parse_copy_source(decoded.as_str());
    let versioning_enabled = match store.get_bucket(dest_bucket.as_str()) {
        Some(b) => b.versioning_enabled(),
        None => return Err(s3_error("NoSuchBucket", "Destination bucket does not exist", 404)),
    };
    match store.get_object(src_bucket.as_str(), src_key.as_str()) {
        None => Err(s3_error("NoSuchKey", "Source key does not exist", 404)),
        Some(v) => Ok(CopyPlan { dest_bucket, dest_key, src_bucket, src_key, source: v.copy(), versioning_enabled }),
    }
}

/// The document that answers a copy.
pub open spec fn copy_body(last_modified: Seq<char>, etag: Seq<char>) -> Seq<char> {
    crate::s3_rest::s3_doc_open("CopyObjectResult"@) + "<LastModified>"@ + last_modified + "</LastModified><ETag>"@
        + escape_xml_spec(etag) + "</ETag></CopyObjectResult>"@
}

/// What recording a copy does: a version with the source's ETag, content
/// type, size and metadata, the destination data and time `now` is stored
/// under the destination key; the answer gives its time and ETag, and the
/// file of a replaced non-versioned version is to be removed.
pub open spec fn copy_commit_outcome(
    s0: S3StoreView,
    s1: S3StoreView,
    p: CopyPlan,
    version_id: Seq<char>,
    data: DataView,
    now: i64,
    r: (ResponseView, Option<Seq<char>>),
) -> bool {
    let src = p.source@;
    let v = built_version(data, src.size, src.etag, src.content_type, src.metadata, version_id, now);
    &&& s1 == stored_spec(s0, p.dest_bucket@, p.dest_key@, v, false)
    &&& r.1 == stale_file(version_id, replaced_data(bucket_contents(s0, p.dest_bucket@).get(p.dest_key@)), data)
    &&& r.0 == crate::s3_rest::s3_ok_view(copy_body(crate::deps::utc_millis_text(now), src.etag))
}

/// Records a copy whose destination data is in place.
pub fn copy_object_commit_at(store: &mut S3Store, p: CopyPlan, version_id: String, data: ObjectDataRef, now: i64) -> (r: (
    DispatchResponse,
    Option<String>,
))
    requires
        old(store).wf(),
        p.source.wf(),
    ensures
        final(store).wf(),
        copy_commit_outcome(old(store)@, final(store)@, p, version_id@, data@, now, (r.0@, opt_view(r.1))),
{
    let ghost pv = p;
    let new_data = data.copy();
    let src = p.source;
    let version = build_version(data, src.size, src.etag.clone(), src.content_type, src.metadata, version_id.clone(), now);
    let ghost vv = version@;
    let prev = store.put_object_version(p.dest_bucket.as_str(), p.dest_key.as_str(), version);
    let stale = stale_file_exec(version_id.as_str(), prev, &new_data);
    let (etag, last_modified) = match store.get_object(p.dest_bucket.as_str(), p.dest_key.as_str()) {
        Some(v) => (v.etag.clone(), v.last_modified),
        None => {
            proof {
                assert(crate::s3::object_current(store@, pv.dest_bucket@, pv.dest_key@) == Some(vv));
            }
            (src.etag, now)
        },
    };
    proof {
        assert(crate::s3::object_current(store@, pv.dest_bucket@, pv.dest_key@) == Some(vv));
    }
    let lm = crate::deps::format_utc_millis(last_modified);
    let mut b = String::new();
    crate::s3_rest::push_doc_open(&mut b, "CopyObjectResult");
    push_str(&mut b, "<LastModified>");
    push_str(&mut b, lm.as_str());
    push_str(&mut b, "</LastModified><ETag>");
    crate::text::push_escaped(&mut b, etag.as_str());
    push_str(&mut b, "</ETag></CopyObjectResult>");
    proof {
        assert(b@ =~= copy_body(crate::deps::utc_millis_text(now), pv.source@.etag));
    }
    (crate::s3_rest::s3_ok(b), stale)
}

// ---------------------------------------------------------------------------
// DeleteObjects
// ---------------------------------------------------------------------------

/// The key and version an `<Object>` element names: its `Key` (empty when
/// absent) and its trimmed `VersionId` when that is present and not empty.
pub open spec fn delete_entry(ox: Seq<char>) -> (Seq<char>, Option<Seq<char>>) {
    let key = match extract_xml_text_spec(ox, "Key"@) {
        Some(k) => k,
        None => Seq::empty(),
    };
    let vid = match extract_xml_text_spec(ox, "VersionId"@) {
        Some(v) => if trim_ws(v).len() > 0 {
            Some(trim_ws(v))
        } else {
            None
        },
        None => None,
    };
    (key, vid)
}

/// The entries of the elements, those with a key.
pub open spec fn entries_of_blocks(bs: Seq<Seq<char>>) -> Seq<(Seq<char>, Option<Seq<char>>)>
    decreases bs.len(),
{
    if bs.len() == 0 {
        Seq::empty()
    } else {
        let init = entries_of_blocks(bs.drop_last());
        let e = delete_entry(bs.last());
        if e.0.len() > 0 {
            init.push(e)
        } else {
            init
        }
    }
}

/// The objects a DeleteObjects body names, in order.
pub open spec fn delete_entries(ctx: RequestContext) -> Seq<(Seq<char>, Option<Seq<char>>)> {
    entries_of_blocks(xml_blocks(body_text(ctx.raw_body@), "<Object>"@, "</Object>"@, true))
}

pub open spec fn entry_views(v: Seq<(String, Option<String>)>) -> Seq<(Seq<char>, Option<Seq<char>>)> {
    v.map_values(|e: (String, Option<String>)| (e.0@, opt_view(e.1)))
}

fn parse_delete_entries(ctx: &RequestContext) -> (r: Vec<(String, Option<String>)>)
    ensures
        entry_views(r@) == delete_entries(*ctx),
{
    let text = body_text_exec(ctx.raw_body.as_slice());
    let c = chars_of(text.as_str());
    let open = chars_of("<Object>");
    let close = chars_of("</Object>");
    let key_tag = chars_of("Key");
    let vid_tag = chars_of("VersionId");
    proof {
        reveal_strlit("<Object>");
        reveal_strlit("</Object>");
    }
    let blocks = xml_blocks_exec(c.as_slice(), open.as_slice(), close.as_slice(), true);
    let ghost bs = char_vec_views(blocks@);
    let mut out: Vec<(String, Option<String>)> = Vec::new();
    let mut i: usize = 0;
    proof {
        assert(bs.take(0) =~= Seq::<Seq<char>>::empty());
        assert(entry_views(out@) =~= Seq::<(Seq<char>, Option<Seq<char>>)>::empty());
    }
    while i < blocks.len()
        invariant
            i <= blocks@.len(),
            bs == char_vec_views(blocks@),
            key_tag@ == "Key"@,
            vid_tag@ == "VersionId"@,
            entry_views(out@) == entries_of_blocks(bs.take(i as int)),
        decreases blocks@.len() - i,
    {
        let ox = &blocks[i];
        let key: Vec<char> = match extract_xml_text_chars(ox.as_slice(), key_tag.as_slice()) {
            Some(k) => k,
            None => Vec::new(),
        };
        let vid: Option<String> = match extract_xml_text_chars(ox.as_slice(), vid_tag.as_slice()) {
            Some(v) => {
                let t = trim_ws_exec(v.as_slice());
                if t.len() > 0 {
                    Some(string_of(t.as_slice()))
                } else {
                    None
                }
            },
            None => None,
        };
        proof {
            assert(bs.take(i + 1).drop_last() =~= bs.take(i as int));
            assert(bs.take(i + 1).last() == ox@);
            assert((key@, opt_view(vid)) == delete_entry(ox@));
        }
        if key.len() > 0 {
            let ghost before = entry_views(out@);
            let ks = string_of(key.as_slice());
            let ghost e = (ks@, opt_view(vid));
            out.push((ks, vid));
            proof {
                assert(entry_views(out@) =~= before.push(e));
            }
        }
        i = i + 1;
    }
    proof {
        assert(bs.take(blocks@.len() as int) =~= bs);
    }
    out
}

/// The store and the files to remove after deleting the entries in turn;
/// entry `i` without a version id takes `ids[i]` and `times[i]` for a
/// delete marker.
pub open spec fn batch_delete(
    s: S3StoreView,
    b: Seq<char>,
    es: Seq<(Seq<char>, Option<Seq<char>>)>,
    ids: Seq<Seq<char>>,
    times: Seq<i64>,
) -> (S3StoreView, Seq<Seq<char>>)
    decreases es.len(),
{
    if es.len() == 0 {
        (s, Seq::empty())
    } else {
        let prev = batch_delete(s, b, es.drop_last(), ids.drop_last(), times.drop_last());
        let e = es.last();
        match e.1 {
            Some(vid) => {
                let d = delete_version_spec(prev.0, b, e.0, vid);
                let f = match d.1 {
                    Some(v) => data_file(v.data),
                    None => None,
                };
                (d.0, match f {
                    Some(p) => prev.1.push(p),
                    None => prev.1,
                })
            },
            None => {
                let d = delete_object_spec(prev.0, b, e.0, ids.last(), times.last());
                (d.0, match removed_file(d.1) {
                    Some(p) => prev.1.push(p),
                    None => prev.1,
                })
            },
        }
    }
}

/// The `<Deleted>` elements that report the entries.
pub open spec fn deleted_xml(es: Seq<(Seq<char>, Option<Seq<char>>)>) -> Seq<char>
    decreases es.len(),
{
    if es.len() == 0 {
        Seq::empty()
    } else {
        let e = es.last();
        deleted_xml(es.drop_last()) + match e.1 {
            Some(vid) => "<Deleted><Key>"@ + escape_xml_spec(e.0) + "</Key><VersionId>"@ + escape_xml_spec(vid)
                + "</VersionId></Deleted>"@,
            None => "<Deleted><Key>"@ + escape_xml_spec(e.0) + "</Key></Deleted>"@,
        }
    }
}

/// What DeleteObjects does: each listed object is deleted in turn (as
/// DeleteObject would, with some fresh id and time for each marker), the
/// answer reports every entry, and the files of removed versions are to be
/// removed; the keys are given back for notifications.
pub open spec fn delete_objects_outcome(
    s0: S3StoreView,
    s1: S3StoreView,
    ctx: RequestContext,
    r: (ResponseView, Seq<Seq<char>>, Seq<Seq<char>>),
) -> bool {
    match req_bucket(ctx) {
        None => s1 == s0 && r.0 == no_bucket_name() && r.1.len() == 0 && r.2.len() == 0,
        Some(b) => if !s0.buckets.contains_key(b) {
            s1 == s0 && r.0 == no_such_bucket() && r.1.len() == 0 && r.2.len() == 0
        } else {
            let es = delete_entries(ctx);
            &&& exists|ids: Seq<Seq<char>>, times: Seq<i64>|
                ids.len() == es.len() && times.len() == es.len() && (forall|k: int|
                    0 <= k < ids.len() ==> crate::deps::is_uuid_text(#[trigger] ids[k])) && #[trigger] batch_delete(s0, b, es, ids, times) == (
                s1,
                r.1,
            )
            &&& r.0 == crate::s3_rest::s3_ok_view(
                crate::s3_rest::s3_doc_open("DeleteResult"@) + deleted_xml(es) + "</DeleteResult>"@,
            )
            &&& r.2 == es.map_values(|e: (Seq<char>, Option<Seq<char>>)| e.0)
        },
    }
}

pub open spec fn string_views_of(v: Seq<String>) -> Seq<Seq<char>> {
    v.map_values(|s: String| s@)
}

/// DeleteObjects: the answer, the files to remove and the keys deleted.
pub fn delete_objects(store: &mut S3Store, ctx: &RequestContext) -> (r: (DispatchResponse, Vec<String>, Vec<String>))
    requires
        old(store).wf(),
        ctx.wf(),
    ensures
        final(store).wf(),
        delete_objects_outcome(old(store)@, final(store)@, *ctx, (r.0@, string_views_of(r.1@), string_views_of(r.2@))),
{
    let bucket = match bucket_from_path(ctx.path.as_str()) {
        Some(b) => b,
        None => {
            let r = (invalid_bucket_name(), Vec::new(), Vec::new());
            proof {
                assert(string_views_of(r.1@).len() == 0);
            }
            return r;
        },
    };
    if !store.bucket_exists(bucket.as_str()) {
        return (missing_bucket(), Vec::new(), Vec::new());
    }
    let entries = parse_delete_entries(ctx);
    let ghost es = entry_views(entries@);
    let ghost s0 = store@;
    let ghost mut ids: Seq<Seq<char>> = Seq::empty();
    let ghost mut times: Seq<i64> = Seq::empty();
    let mut xml = String::new();
    let mut files: Vec<String> = Vec::new();
    let mut keys: Vec<String> = Vec::new();
    let mut i: usize = 0;
    proof {
        assert(es.take(0) =~= Seq::<(Seq<char>, Option<Seq<char>>)>::empty());
        assert(string_views_of(files@) =~= Seq::<Seq<char>>::empty());
        assert(string_views_of(keys@) =~= Seq::<Seq<char>>::empty());
    }
    while i < entries.len()
        invariant
            i <= entries@.len(),
            es == entry_views(entries@),
            store.wf(),
            ids.len() == i,
            times.len() == i,
            forall|k: int| 0 <= k < ids.len() ==> crate::deps::is_uuid_text(#[trigger] ids[k]),
            batch_delete(s0, bucket@, es.take(i as int), ids, times) == (store@, string_views_of(files@)),
            xml@ == deleted_xml(es.take(i as int)),
            string_views_of(keys@) == es.take(i as int).map_values(|e: (Seq<char>, Option<Seq<char>>)| e.0),
        decreases entries@.len() - i,
    {
        let ghost sb = store@;
        let ghost fb = string_views_of(files@);
        let ghost xb = xml@;
        let ghost kb = string_views_of(keys@);
        let ghost ids0 = ids;
        let ghost times0 = times;
        let e = &entries[i];
        proof {
            assert(es.take(i + 1).drop_last() =~= es.take(i as int));
            assert(es.take(i + 1).last() == es[i as int]);
            assert(es[i as int] == (e.0@, opt_view(e.1)));
        }
        let id = crate::deps::new_uuid();
        let now = crate::deps::now_millis();
        proof {
            ids = ids.push(id@);
            times = times.push(now);
            assert(ids.drop_last() =~= ids0);
            assert(times.drop_last() =~= times0);
        }
        match &e.1 {
            Some(vid) => {
                let removed = store.delete_object_version(bucket.as_str(), e.0.as_str(), vid.as_str());
                match &removed {
                    Some(v) => match file_of(&v.data) {
                        Some(p) => {
                            files.push(p);
                        },
                        None => {},
                    },
                    None => {},
                }
                push_str(&mut xml, "<Deleted><Key>");
                crate::text::push_escaped(&mut xml, e.0.as_str());
                push_str(&mut xml, "</Key><VersionId>");
                crate::text::push_escaped(&mut xml, vid.as_str());
                push_str(&mut xml, "</VersionId></Deleted>");
            },
            None => {
                let removed = store.delete_object_at(bucket.as_str(), e.0.as_str(), id, now);
                match &removed {
                    Some(v) => if !v.delete_marker {
                        match file_of(&v.data) {
                            Some(p) => {
                                files.push(p);
                            },
                            None => {},
                        }
                    },
                    None => {},
                }
                push_str(&mut xml, "<Deleted><Key>");
                crate::text::push_escaped(&mut xml, e.0.as_str());
                push_str(&mut xml, "</Key></Deleted>");
            },
        }
        keys.push(e.0.clone());
        proof {
            let ei = es[i as int];
            assert(batch_delete(s0, bucket@, es.take(i as int), ids.drop_last(), times.drop_last()) == (sb, fb));
            assert(string_views_of(keys@) =~= kb.push(ei.0));
            assert(es.take(i + 1).map_values(|e: (Seq<char>, Option<Seq<char>>)| e.0) =~= es.take(i as int).map_values(
                |e: (Seq<char>, Option<Seq<char>>)| e.0,
            ).push(ei.0));
            match ei.1 {
                Some(vid) => {
                    assert(xml@ =~= xb + ("<Deleted><Key>"@ + escape_xml_spec(ei.0) + "</Key><VersionId>"@
                        + escape_xml_spec(vid) + "</VersionId></Deleted>"@));
                },
                None => {
                    assert(xml@ =~= xb + ("<Deleted><Key>"@ + escape_xml_spec(ei.0) + "</Key></Deleted>"@));
                },
            }
        }
        i = i + 1;
    }
    proof {
        assert(es.take(entries@.len() as int) =~= es);
    }
    let mut b = String::new();
    crate::s3_rest::push_doc_open(&mut b, "DeleteResult");
    push_str(&mut b, xml.as_str());
    push_str(&mut b, "</DeleteResult>");
    proof {
        assert(b@ =~= crate::s3_rest::s3_doc_open("DeleteResult"@) + deleted_xml(es) + "</DeleteResult>"@);
    }
    (crate::s3_rest::s3_ok(b), files, keys)
}

} // verus!
