//! The REST side of the S3 service: which operation a request names, the
//! error and success documents, and the object headers a request carries.
use vstd::prelude::*;

use crate::http::{plain, plain_response, DispatchResponse, RequestContext, ResponseView};
use crate::query::xml_decl;
use crate::s3_api::{bucket_from_path_spec, key_from_path_spec, path_has_bucket, path_has_key};
use crate::strmap::StrMap;
use crate::text::{find_from, occurs_at, find_chars, find_spec, lemma_find_from, chars_of, escape_xml_spec, push_escaped, push_str, slice_chars, starts_with_chars, string_of};

verus! {

// ---------------------------------------------------------------------------
// Responses
// ---------------------------------------------------------------------------

/// The XML namespace of S3 documents.
pub open spec fn s3_ns() -> Seq<char> {
    "http://s3.amazonaws.com/doc/2006-03-01/"@
}

/// The body of an error document; code and message are written as given.
pub open spec fn s3_error_body(code: Seq<char>, message: Seq<char>) -> Seq<char> {
    xml_decl() + "<Error><Code>"@ + code + "</Code><Message>"@ + message + "</Message></Error>"@
}

/// An `application/xml` error response.
pub open spec fn s3_error_view(code: Seq<char>, message: Seq<char>, status: u16) -> ResponseView {
    plain_response(status, s3_error_body(code, message), "application/xml"@)
}

/// An error document that also names the bucket (escaped) and a zero
/// request id.
pub open spec fn s3_bucket_error_view(code: Seq<char>, message: Seq<char>, bucket: Seq<char>, status: u16) -> ResponseView {
    plain_response(
        status,
        xml_decl() + "<Error><Code>"@ + code + "</Code><Message>"@ + message
            + "</Message><RequestId>00000000-0000-0000-0000-000000000000</RequestId><BucketName>"@
            + escape_xml_spec(bucket) + "</BucketName></Error>"@,
        "application/xml"@,
    )
}

/// A 200 `application/xml` response.
pub open spec fn s3_ok_view(body: Seq<char>) -> ResponseView {
    plain_response(200, body, "application/xml"@)
}

/// A response with no body and no content type.
pub open spec fn empty_view(status: u16) -> ResponseView {
    plain_response(status, Seq::empty(), Seq::empty())
}

pub fn s3_error(code: &str, message: &str, status: u16) -> (r: DispatchResponse)
    ensures
        r@ == s3_error_view(code@, message@, status),
{
    let mut b = String::new();
    push_str(&mut b, "<?xml version=\"1.0\" encoding=\"UTF-8\"?>");
    push_str(&mut b, "<Error><Code>");
    push_str(&mut b, code);
    push_str(&mut b, "</Code><Message>");
    push_str(&mut b, message);
    push_str(&mut b, "</Message></Error>");
    proof {
        assert(b@ =~= s3_error_body(code@, message@));
    }
    plain(status, b, "application/xml")
}

pub fn s3_bucket_error(code: &str, message: &str, bucket: &str, status: u16) -> (r: DispatchResponse)
    ensures
        r@ == s3_bucket_error_view(code@, message@, bucket@, status),
{
    let mut b = String::new();
    push_str(&mut b, "<?xml version=\"1.0\" encoding=\"UTF-8\"?>");
    push_str(&mut b, "<Error><Code>");
    push_str(&mut b, code);
    push_str(&mut b, "</Code><Message>");
    push_str(&mut b, message);
    push_str(&mut b, "</Message><RequestId>00000000-0000-0000-0000-000000000000</RequestId><BucketName>");
    push_escaped(&mut b, bucket);
    push_str(&mut b, "</BucketName></Error>");
    proof {
        assert(b@ =~= s3_bucket_error_view(code@, message@, bucket@, status).body);
    }
    plain(status, b, "application/xml")
}

pub fn s3_ok(body: String) -> (r: DispatchResponse)
    ensures
        r@ == s3_ok_view(body@),
{
    plain(200, body, "application/xml")
}

pub fn empty_response(status: u16) -> (r: DispatchResponse)
    ensures
        r@ == empty_view(status),
{
    let r = plain(status, String::new(), "");
    proof {
        reveal_strlit("");
        assert(r@.content_type =~= Seq::<char>::empty());
    }
    r
}

/// A response with no body, no content type and the given headers.
pub open spec fn headers_view(status: u16, headers: Seq<(Seq<char>, Seq<char>)>) -> ResponseView {
    ResponseView { status_code: status, body: Seq::empty(), content_type: Seq::empty(), headers }
}

pub open spec fn header_views(h: Seq<(String, String)>) -> Seq<(Seq<char>, Seq<char>)> {
    h.map_values(|p: (String, String)| (p.0@, p.1@))
}

pub fn with_headers(status: u16, headers: Vec<(String, String)>) -> (r: DispatchResponse)
    ensures
        r@ == headers_view(status, header_views(headers@)),
{
    let r = DispatchResponse { status_code: status, body: String::new(), content_type: String::new(), headers };
    proof {
        assert(r@.content_type =~= Seq::<char>::empty());
        assert(r@.body =~= Seq::<char>::empty());
    }
    r
}

/// `<?xml ...?><{name} xmlns="...">`.
pub open spec fn s3_doc_open(name: Seq<char>) -> Seq<char> {
    xml_decl() + "<"@ + name + " xmlns=\""@ + s3_ns() + "\">"@
}

pub fn push_doc_open(out: &mut String, name: &str)
    ensures
        final(out)@ == old(out)@ + s3_doc_open(name@),
{
    let ghost start = out@;
    push_str(out, "<?xml version=\"1.0\" encoding=\"UTF-8\"?>");
    push_str(out, "<");
    push_str(out, name);
    push_str(out, " xmlns=\"");
    push_str(out, "http://s3.amazonaws.com/doc/2006-03-01/");
    push_str(out, "\">");
    proof {
        assert(out@ =~= start + s3_doc_open(name@));
    }
}

// ---------------------------------------------------------------------------
// What a request names
// ---------------------------------------------------------------------------

/// The bucket a request's path names.
pub open spec fn req_bucket(ctx: RequestContext) -> Option<Seq<char>> {
    bucket_from_path_spec(ctx.path@)
}

/// The key a request's path names.
pub open spec fn req_key(ctx: RequestContext) -> Seq<char> {
    key_from_path_spec(ctx.path@)
}

/// The error for a path without a bucket.
pub open spec fn no_bucket_name() -> ResponseView {
    s3_error_view("InvalidBucketName"@, "Bucket name is required"@, 400)
}

/// The error for a bucket that does not exist.
pub open spec fn no_such_bucket() -> ResponseView {
    s3_error_view("NoSuchBucket"@, "The specified bucket does not exist"@, 404)
}

/// The error for a key that does not exist.
pub open spec fn no_such_key() -> ResponseView {
    s3_error_view("NoSuchKey"@, "The specified key does not exist"@, 404)
}

/// The error for an upload that does not exist.
pub open spec fn no_such_upload() -> ResponseView {
    s3_error_view("NoSuchUpload"@, "The specified upload does not exist"@, 404)
}

pub fn invalid_bucket_name() -> (r: DispatchResponse)
    ensures
        r@ == no_bucket_name(),
{
    s3_error("InvalidBucketName", "Bucket name is required", 400)
}

pub fn missing_bucket() -> (r: DispatchResponse)
    ensures
        r@ == no_such_bucket(),
{
    s3_error("NoSuchBucket", "The specified bucket does not exist", 404)
}

pub fn missing_key() -> (r: DispatchResponse)
    ensures
        r@ == no_such_key(),
{
    s3_error("NoSuchKey", "The specified key does not exist", 404)
}

pub fn missing_upload() -> (r: DispatchResponse)
    ensures
        r@ == no_such_upload(),
{
    s3_error("NoSuchUpload", "The specified upload does not exist", 404)
}

// ---------------------------------------------------------------------------
// Operations
// ---------------------------------------------------------------------------

/// The operation a request names, from its method, whether its path names
/// a bucket and a key, the query parameters present and whether it has a
/// copy source header; `Unknown({method})` when none fits.
pub open spec fn s3_operation_spec(
    method: Seq<char>,
    path: Seq<char>,
    q: Map<Seq<char>, Seq<char>>,
    headers: Map<Seq<char>, Seq<char>>,
) -> Seq<char> {
    let has_bucket = bucket_from_path_spec(path) is Some;
    let has_key = key_from_path_spec(path).len() > 0;
    let list_v2 = q.contains_key("list-type"@) && q["list-type"@] == "2"@;
    let signed = q.contains_key("X-Amz-Signature"@) || q.contains_key("x-amz-signature"@);
    if method == "GET"@ && !has_bucket {
        "ListBuckets"@
    } else if method == "GET"@ && !has_key {
        if q.contains_key("location"@) {
            "GetBucketLocation"@
        } else if q.contains_key("acl"@) {
            "GetBucketAcl"@
        } else if q.contains_key("policy"@) {
            "GetBucketPolicy"@
        } else if q.contains_key("versioning"@) {
            "GetBucketVersioning"@
        } else if q.contains_key("versions"@) {
            "ListObjectVersions"@
        } else if q.contains_key("notification"@) {
            "GetBucketNotificationConfiguration"@
        } else if q.contains_key("uploads"@) {
            "ListMultipartUploads"@
        } else if list_v2 {
            "ListObjectsV2"@
        } else {
            "ListObjects"@
        }
    } else if method == "GET"@ {
        if q.contains_key("acl"@) {
            "GetObjectAcl"@
        } else if signed {
            "PresignedGetObject"@
        } else {
            "GetObject"@
        }
    } else if method == "HEAD"@ && has_bucket && !has_key {
        "HeadBucket"@
    } else if method == "HEAD"@ && has_bucket {
        "HeadObject"@
    } else if method == "PUT"@ && has_bucket && !has_key {
        if q.contains_key("acl"@) {
            "PutBucketAcl"@
        } else if q.contains_key("policy"@) {
            "PutBucketPolicy"@
        } else if q.contains_key("versioning"@) {
            "PutBucketVersioning"@
        } else if q.contains_key("notification"@) {
            "PutBucketNotificationConfiguration"@
        } else {
            "CreateBucket"@
        }
    } else if method == "PUT"@ && has_bucket {
        if headers.contains_key("x-amz-copy-source"@) {
            "CopyObject"@
        } else if q.contains_key("uploadId"@) && q.contains_key("partNumber"@) {
            "UploadPart"@
        } else if q.contains_key("acl"@) {
            "PutObjectAcl"@
        } else {
            "PutObject"@
        }
    } else if method == "DELETE"@ && has_bucket && !has_key {
        if q.contains_key("policy"@) {
            "DeleteBucketPolicy"@
        } else {
            "DeleteBucket"@
        }
    } else if method == "DELETE"@ && has_bucket {
        if q.contains_key("uploadId"@) {
            "AbortMultipartUpload"@
        } else {
            "DeleteObject"@
        }
    } else if method == "POST"@ && has_bucket && !has_key {
        if q.contains_key("delete"@) {
            "DeleteObjects"@
        } else if q.contains_key("uploads"@) {
            "CreateMultipartUpload"@
        } else {
            "PostObject"@
        }
    } else if method == "POST"@ && has_bucket {
        if q.contains_key("uploadId"@) {
            "CompleteMultipartUpload"@
        } else if q.contains_key("uploads"@) {
            "CreateMultipartUpload"@
        } else {
            "PostObject"@
        }
    } else {
        "Unknown("@ + method + ")"@
    }
}

fn has(q: &StrMap<String>, k: &str) -> (b: bool)
    requires
        q.wf(),
    ensures
        b == q@.contains_key(k@),
{
    q.contains_key(k)
}

fn unknown_operation(method: &str) -> (r: String)
    ensures
        r@ == "Unknown("@ + method@ + ")"@,
{
    let mut r = String::new();
    push_str(&mut r, "Unknown(");
    push_str(&mut r, method);
    push_str(&mut r, ")");
    proof {
        assert(r@ =~= "Unknown("@ + method@ + ")"@);
    }
    r
}

fn bucket_get_operation(q: &StrMap<String>) -> (r: &'static str)
    requires
        q.wf(),
    ensures
        r@ == (if q@.contains_key("location"@) {
            "GetBucketLocation"@
        } else if q@.contains_key("acl"@) {
            "GetBucketAcl"@
        } else if q@.contains_key("policy"@) {
            "GetBucketPolicy"@
        } else if q@.contains_key("versioning"@) {
            "GetBucketVersioning"@
        } else if q@.contains_key("versions"@) {
            "ListObjectVersions"@
        } else if q@.contains_key("notification"@) {
            "GetBucketNotificationConfiguration"@
        } else if q@.contains_key("uploads"@) {
            "ListMultipartUploads"@
        } else if q@.contains_key("list-type"@) && q@["list-type"@] == "2"@ {
            "ListObjectsV2"@
        } else {
            "ListObjects"@
        }),
{
    if has(q, "location") {
        "GetBucketLocation"
    } else if has(q, "acl") {
        "GetBucketAcl"
    } else if has(q, "policy") {
        "GetBucketPolicy"
    } else if has(q, "versioning") {
        "GetBucketVersioning"
    } else if has(q, "versions") {
        "ListObjectVersions"
    } else if has(q, "notification") {
        "GetBucketNotificationConfiguration"
    } else if has(q, "uploads") {
        "ListMultipartUploads"
    } else {
        let v2 = match q.get("list-type") {
            Some(v) => v.as_str().eq("2"),
            None => false,
        };
        if v2 {
            "ListObjectsV2"
        } else {
            "ListObjects"
        }
    }
}

/// The operation a request names (see `s3_operation_spec`).
pub fn derive_s3_operation(ctx: &RequestContext) -> (r: String)
    requires
        ctx.wf(),
    ensures
        r@ == s3_operation_spec(ctx.method@, ctx.path@, ctx.query_params@, ctx.headers@),
{
    let method = ctx.method.as_str();
    let has_key = path_has_key(ctx.path.as_str());
    let has_bucket = path_has_bucket(ctx.path.as_str());
    let q = &ctx.query_params;
    let op: &str = if method.eq("GET") && !has_bucket {
        "ListBuckets"
    } else if method.eq("GET") && !has_key {
        bucket_get_operation(q)
    } else if method.eq("GET") {
        if has(q, "acl") {
            "GetObjectAcl"
        } else if has(q, "X-Amz-Signature") || has(q, "x-amz-signature") {
            "PresignedGetObject"
        } else {
            "GetObject"
        }
    } else if method.eq("HEAD") && has_bucket && !has_key {
        "HeadBucket"
    } else if method.eq("HEAD") && has_bucket {
        "HeadObject"
    } else if method.eq("PUT") && has_bucket && !has_key {
        if has(q, "acl") {
            "PutBucketAcl"
        } else if has(q, "policy") {
            "PutBucketPolicy"
        } else if has(q, "versioning") {
            "PutBucketVersioning"
        } else if has(q, "notification") {
            "PutBucketNotificationConfiguration"
        } else {
            "CreateBucket"
        }
    } else if method.eq("PUT") && has_bucket {
        if ctx.headers.contains_key("x-amz-copy-source") {
            "CopyObject"
        } else if has(q, "uploadId") && has(q, "partNumber") {
            "UploadPart"
        } else if has(q, "acl") {
            "PutObjectAcl"
        } else {
            "PutObject"
        }
    } else if method.eq("DELETE") && has_bucket && !has_key {
        if has(q, "policy") {
            "DeleteBucketPolicy"
        } else {
            "DeleteBucket"
        }
    } else if method.eq("DELETE") && has_bucket {
        if has(q, "uploadId") {
            "AbortMultipartUpload"
        } else {
            "DeleteObject"
        }
    } else if method.eq("POST") && has_bucket && !has_key {
        if has(q, "delete") {
            "DeleteObjects"
        } else if has(q, "uploads") {
            "CreateMultipartUpload"
        } else {
            "PostObject"
        }
    } else if method.eq("POST") && has_bucket {
        if has(q, "uploadId") {
            "CompleteMultipartUpload"
        } else if has(q, "uploads") {
            "CreateMultipartUpload"
        } else {
            "PostObject"
        }
    } else {
        return unknown_operation(method);
    };
    op.to_string()
}

/// The operation name with a fixed lifetime: unrecognised requests give
/// `Unknown`.
pub open spec fn s3_operation_static_spec(op: Seq<char>) -> Seq<char> {
    if op.len() >= 8 && op.subrange(0, 8) == "Unknown("@ {
        "Unknown"@
    } else {
        op
    }
}

/// The operation a request names, `Unknown` when none fits.
pub fn derive_s3_operation_static(ctx: &RequestContext) -> (r: String)
    requires
        ctx.wf(),
    ensures
        r@ == s3_operation_static_spec(s3_operation_spec(ctx.method@, ctx.path@, ctx.query_params@, ctx.headers@)),
{
    let op = derive_s3_operation(ctx);
    let c = chars_of(op.as_str());
    let u = chars_of("Unknown(");
    proof {
        reveal_strlit("Unknown(");
    }
    if starts_with_chars(c.as_slice(), u.as_slice()) {
        "Unknown".to_string()
    } else {
        op
    }
}

// ---------------------------------------------------------------------------
// Object headers
// ---------------------------------------------------------------------------

/// The prefix of user metadata headers.
pub open spec fn meta_prefix() -> Seq<char> {
    "x-amz-meta-"@
}

/// The user metadata a request carries: each `x-amz-meta-{name}` header
/// as `name` with its value.
pub open spec fn user_metadata(headers: Map<Seq<char>, Seq<char>>) -> Map<Seq<char>, Seq<char>> {
    Map::new(|k: Seq<char>| headers.contains_key(meta_prefix() + k), |k: Seq<char>| headers[meta_prefix() + k])
}

proof fn lemma_prefix_injective(a: Seq<char>, b: Seq<char>)
    requires
        meta_prefix() + a == meta_prefix() + b,
    ensures
        a == b,
{
    let p = meta_prefix();
    assert(a =~= (p + a).subrange(p.len() as int, (p + a).len() as int));
    assert(b =~= (p + b).subrange(p.len() as int, (p + b).len() as int));
}

/// The user metadata of a request's headers.
pub fn metadata_from_headers(headers: &StrMap<String>) -> (r: StrMap<String>)
    requires
        headers.wf(),
    ensures
        r.wf(),
        r@ == user_metadata(headers@),
{
    let n = headers.len();
    proof {
        headers.lemma_enumeration();
    }
    let ghost ks = headers.keys_seq();
    let ghost h = headers@;
    let prefix = chars_of("x-amz-meta-");
    proof {
        reveal_strlit("x-amz-meta-");
    }
    let mut r: StrMap<String> = StrMap::new();
    let mut i: usize = 0;
    proof {
        assert(ks.take(0).to_set() =~= Set::<Seq<char>>::empty());
        assert(r@ =~= user_metadata(h.restrict(ks.take(0).to_set())));
    }
    while i < n
        invariant
            i <= n,
            n == ks.len(),
            ks == headers.keys_seq(),
            headers.wf(),
            h == headers@,
            prefix@ == meta_prefix(),
            meta_prefix().len() == 11,
            r.wf(),
            r@ == user_metadata(h.restrict(ks.take(i as int).to_set())),
        decreases n - i,
    {
        proof {
            headers.lemma_enumeration();
        }
        let k = headers.key_at_index(i);
        let v = headers.value_at_index(i);
        let ghost before = ks.take(i as int).to_set();
        let ghost after = ks.take(i + 1).to_set();
        proof {
            assert(h.contains_key(k@));
            assert(h[k@] == v@);
            assert(after =~= before.insert(ks[i as int])) by {
                assert(ks.take(i + 1) =~= ks.take(i as int).push(ks[i as int]));
                ks.take(i as int).lemma_push_to_set_commute(ks[i as int]);
            }
        }
        let kc = chars_of(k.as_str());
        if starts_with_chars(kc.as_slice(), prefix.as_slice()) {
            let rest = slice_chars(kc.as_slice(), prefix.len(), kc.len());
            let name = string_of(rest.as_slice());
            proof {
                assert(k@ =~= meta_prefix() + name@);
            }
            r.insert(name, v.clone());
            proof {
                assert forall|x: Seq<char>| #[trigger] r@.contains_key(x) == user_metadata(h.restrict(after)).contains_key(x) by {
                    if x == name@ {
                    } else if h.restrict(after).contains_key(meta_prefix() + x) {
                        if meta_prefix() + x == k@ {
                            lemma_prefix_injective(x, name@);
                        }
                    }
                }
                assert(r@ =~= user_metadata(h.restrict(after)));
            }
        } else {
            proof {
                assert forall|x: Seq<char>| meta_prefix() + x != k@ by {
                    if meta_prefix() + x == k@ {
                        assert((meta_prefix() + x).subrange(0, 11) =~= meta_prefix());
                    }
                }
                assert(r@ =~= user_metadata(h.restrict(after)));
            }
        }
        i = i + 1;
    }
    proof {
        assert(ks.take(n as int) =~= ks);
        assert(h.restrict(ks.to_set()) =~= h) by {
            assert forall|k: Seq<char>| h.contains_key(k) implies ks.to_set().contains(k) by {
                assert(ks.contains(k));
            }
        }
    }
    r
}

/// The content type a request declares, `application/octet-stream` when
/// it declares none.
pub open spec fn request_content_type(headers: Map<Seq<char>, Seq<char>>) -> Seq<char> {
    if headers.contains_key("content-type"@) {
        headers["content-type"@]
    } else {
        "application/octet-stream"@
    }
}

pub fn content_type_of(headers: &StrMap<String>) -> (r: String)
    requires
        headers.wf(),
    ensures
        r@ == request_content_type(headers@),
{
    match headers.get("content-type") {
        Some(v) => v.clone(),
        None => "application/octet-stream".to_string(),
    }
}

// ---------------------------------------------------------------------------
// Repeated XML elements
// ---------------------------------------------------------------------------

/// The texts of the elements opened by `open` in `rem`, in order: each
/// from just after an `open` to the first `close` after it (or the end).
/// The search for the next element resumes after that `close` position
/// when `skip` holds, and right after the `open` otherwise.
pub open spec fn xml_blocks(rem: Seq<char>, open: Seq<char>, close: Seq<char>, skip: bool) -> Seq<Seq<char>>
    decreases rem.len(),
{
    match find_spec(rem, open) {
        None => Seq::empty(),
        Some(i) => {
            let rest = rem.subrange(i + open.len(), rem.len() as int);
            let end = match find_spec(rest, close) {
                Some(e) => e,
                None => rest.len() as int,
            };
            if 0 <= i && open.len() > 0 && i + open.len() <= rem.len() && 0 <= end <= rest.len() {
                let next = if skip {
                    rest.subrange(end, rest.len() as int)
                } else {
                    rest
                };
                seq![rest.subrange(0, end)] + xml_blocks(next, open, close, skip)
            } else {
                Seq::empty()
            }
        },
    }
}

pub open spec fn char_vec_views(v: Seq<Vec<char>>) -> Seq<Seq<char>> {
    v.map_values(|c: Vec<char>| c@)
}

/// The element texts of `text` (see `xml_blocks`).
pub fn xml_blocks_exec(text: &[char], open: &[char], close: &[char], skip: bool) -> (r: Vec<Vec<char>>)
    requires
        open@.len() > 0,
    ensures
        char_vec_views(r@) == xml_blocks(text@, open@, close@, skip),
{
    let mut out: Vec<Vec<char>> = Vec::new();
    let mut rem: Vec<char> = slice_chars(text, 0, text.len());
    proof {
        assert(rem@ =~= text@);
        assert(char_vec_views(out@) =~= Seq::<Seq<char>>::empty());
    }
    loop
        invariant
            open@.len() > 0,
            xml_blocks(text@, open@, close@, skip) == char_vec_views(out@) + xml_blocks(rem@, open@, close@, skip),
        decreases rem@.len(),
    {
        proof {
            lemma_find_from(rem@, open@, 0);
        }
        let rl = rem.len();
        let ol = open.len();
        match find_chars(rem.as_slice(), open) {
            None => {
                proof {
                    assert(char_vec_views(out@) + Seq::<Seq<char>>::empty() =~= char_vec_views(out@));
                }
                return out;
            },
            Some(i) => {
                proof {
                    assert(find_from(rem@, open@, 0) == Some(i as int));
                    assert(occurs_at(rem@, open@, i as int));
                    assert(i + open@.len() <= rem@.len());
                }
                let start = i + ol;
                let rest = slice_chars(rem.as_slice(), start, rl);
                proof {
                    lemma_find_from(rest@, close@, 0);
                }
                let end = match find_chars(rest.as_slice(), close) {
                    Some(e) => e,
                    None => rest.len(),
                };
                let block = slice_chars(rest.as_slice(), 0, end);
                let ghost before = char_vec_views(out@);
                let ghost bv = block@;
                out.push(block);
                let next = if skip {
                    slice_chars(rest.as_slice(), end, rest.len())
                } else {
                    rest
                };
                proof {
                    assert(char_vec_views(out@) =~= before.push(bv));
                    assert(xml_blocks(rem@, open@, close@, skip) == seq![bv] + xml_blocks(next@, open@, close@, skip));
                    assert(before.push(bv) + xml_blocks(next@, open@, close@, skip) =~= before + (seq![bv]
                        + xml_blocks(next@, open@, close@, skip)));
                }
                rem = next;
            },
        }
    }
}

} // verus!
