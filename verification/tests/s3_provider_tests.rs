use std::collections::HashMap;

use openstack_services::http::RequestContext;
use openstack_services::s3::{etag_of, ObjectDataRef, S3Store};
use openstack_services::s3_dispatch::{
    dispatch_at, finish_complete_at, finish_copy_at, finish_put_at, finish_upload_part_at, S3Reply, S3Step,
};
use openstack_services::s3_objects::{fits_inline, inline_body, part_file_location, part_files, version_id_for};
use openstack_services::strmap::StrMap;

/// The request layer with the file store kept in memory: file paths name
/// entries of `files`.
struct Harness {
    store: S3Store,
    has_state: bool,
    files: HashMap<String, Vec<u8>>,
    threshold: u64,
    counter: u64,
}

struct Resp {
    status: u16,
    body: Vec<u8>,
    content_type: String,
    headers: Vec<(String, String)>,
    events: Vec<(String, String, String)>,
}

impl Resp {
    fn text(&self) -> String {
        String::from_utf8(self.body.clone()).unwrap()
    }

    fn header(&self, name: &str) -> Option<String> {
        self.headers.iter().find(|(k, _)| k == name).map(|(_, v)| v.clone())
    }
}

fn make_ctx(method: &str, path: &str, body: &[u8], headers: &[(&str, &str)], query: &[(&str, &str)]) -> RequestContext {
    let mut h = StrMap::new();
    for (k, v) in headers {
        h.insert(k.to_string(), v.to_string());
    }
    let mut q = StrMap::new();
    for (k, v) in query {
        q.insert(k.to_string(), v.to_string());
    }
    RequestContext {
        service: "s3".to_string(),
        operation: String::new(),
        region: "us-east-1".to_string(),
        account_id: "000000000000".to_string(),
        method: method.to_string(),
        path: path.to_string(),
        headers: h,
        query_params: q,
        raw_body: body.to_vec(),
        request_body: StrMap::new(),
    }
}

impl Harness {
    fn new(threshold: u64) -> Harness {
        Harness { store: S3Store::new(), has_state: false, files: HashMap::new(), threshold, counter: 0 }
    }

    fn fresh(&mut self) -> (String, i64) {
        self.counter += 1;
        (format!("id-{}", self.counter), 1_700_000_000_000 + self.counter as i64)
    }

    fn read(&self, d: &ObjectDataRef) -> Vec<u8> {
        match d {
            ObjectDataRef::Inline(b) => b.clone(),
            ObjectDataRef::FileRef(p) => self.files.get(p).cloned().unwrap_or_default(),
        }
    }

    fn place(&mut self, path: String, bytes: Vec<u8>) -> (String, u64, ObjectDataRef) {
        if fits_inline(bytes.len() as u64, self.threshold) {
            inline_body(bytes)
        } else {
            let etag = etag_of(&bytes);
            let size = bytes.len() as u64;
            self.files.insert(path.clone(), bytes);
            (etag, size, ObjectDataRef::FileRef(path))
        }
    }

    fn call(&mut self, method: &str, path: &str, body: &[u8], headers: &[(&str, &str)], query: &[(&str, &str)]) -> Resp {
        let ctx = make_ctx(method, path, body, headers, query);
        let (id, now) = self.fresh();
        let step = match dispatch_at(&mut self.store, self.has_state, &ctx, id.clone(), now) {
            Ok(s) => s,
            Err(_) => panic!("operation refused"),
        };
        self.has_state = true;
        let reply: S3Reply = match step {
            S3Step::Reply(r) => r,
            S3Step::Put(t) => {
                let vid = version_id_for(t.versioning_enabled, &id);
                let (etag, size, data) = self.place(format!("{}/{}/{}", t.bucket, t.key, vid), body.to_vec());
                finish_put_at(&mut self.store, t, vid, etag, size, data, now)
            },
            S3Step::UploadPart(t) => {
                let (k, v) = part_file_location(&t);
                let (etag, size, data) = self.place(format!("{}/{}/{}", t.bucket, k, v), body.to_vec());
                finish_upload_part_at(&mut self.store, &t, etag, size, data, now)
            },
            S3Step::Complete(p) => {
                let vid = version_id_for(p.versioning_enabled, &id);
                let mut joined = Vec::new();
                for (_, d, _) in &p.parts {
                    joined.extend_from_slice(&self.read(d));
                }
                let content_etag = etag_of(&joined);
                let inline = p.total_size <= self.threshold as u128;
                for f in part_files(&p) {
                    self.files.remove(&f);
                }
                let (size, data) = if inline {
                    (joined.len() as u64, ObjectDataRef::Inline(joined))
                } else {
                    let path = format!("{}/{}/{}", p.bucket, p.key, vid);
                    let size = joined.len() as u64;
                    self.files.insert(path.clone(), joined);
                    (size, ObjectDataRef::FileRef(path))
                };
                finish_complete_at(&mut self.store, p, vid, content_etag, size, data, now)
            },
            S3Step::Copy(p) => {
                let vid = version_id_for(p.versioning_enabled, &id);
                let bytes = self.read(&p.source.data);
                let data = if fits_inline(p.source.size, self.threshold) {
                    ObjectDataRef::Inline(bytes)
                } else {
                    let path = format!("{}/{}/{}", p.dest_bucket, p.dest_key, vid);
                    self.files.insert(path.clone(), bytes);
                    ObjectDataRef::FileRef(path)
                };
                finish_copy_at(&mut self.store, p, vid, data, now)
            },
        };
        for f in &reply.remove_files {
            self.files.remove(f);
        }
        let body = match &reply.data {
            Some(d) => self.read(d),
            None => reply.response.body.clone().into_bytes(),
        };
        Resp {
            status: reply.response.status_code,
            body,
            content_type: reply.response.content_type.clone(),
            headers: reply.response.headers.clone(),
            events: reply.events,
        }
    }

    fn simple(&mut self, method: &str, path: &str, body: &[u8]) -> Resp {
        self.call(method, path, body, &[], &[])
    }
}

fn upload_id_of(body: &str) -> String {
    let start = body.find("<UploadId>").unwrap() + 10;
    let end = body.find("</UploadId>").unwrap();
    body[start..end].to_string()
}

#[test]
fn test_create_and_list_buckets() {
    let mut h = Harness::new(1024 * 1024);
    let r = h.simple("GET", "/", b"");
    assert_eq!(r.status, 200);
    assert!(r.text().contains("ListAllMyBucketsResult"));
    assert!(!r.text().contains("my-bucket"));
    let r = h.simple("PUT", "/my-bucket", b"");
    assert_eq!(r.status, 200);
    assert_eq!(r.header("Location"), Some("/my-bucket".to_string()));
    let r = h.simple("GET", "/", b"");
    assert!(r.text().contains("<Bucket><Name>my-bucket</Name><CreationDate>"));
}

#[test]
fn test_create_bucket_already_exists() {
    let mut h = Harness::new(1024 * 1024);
    h.simple("PUT", "/test-bucket", b"");
    let r = h.simple("PUT", "/test-bucket", b"");
    assert_eq!(r.status, 409);
    assert!(r.text().contains("BucketAlreadyOwnedByYou"));
}

#[test]
fn test_delete_bucket() {
    let mut h = Harness::new(1024 * 1024);
    h.simple("PUT", "/del-bucket", b"");
    let r = h.simple("DELETE", "/del-bucket", b"");
    assert_eq!(r.status, 204);
    let r = h.simple("HEAD", "/del-bucket", b"");
    assert_eq!(r.status, 404);
}

#[test]
fn test_delete_non_empty_bucket_fails() {
    let mut h = Harness::new(1024 * 1024);
    h.simple("PUT", "/ne-bucket", b"");
    h.call("PUT", "/ne-bucket/obj.txt", b"data", &[("content-type", "text/plain")], &[]);
    let r = h.simple("DELETE", "/ne-bucket", b"");
    assert_eq!(r.status, 409);
}

#[test]
fn test_head_bucket() {
    let mut h = Harness::new(1024 * 1024);
    h.simple("PUT", "/hb-bucket", b"");
    let r = h.simple("HEAD", "/hb-bucket", b"");
    assert_eq!(r.status, 200);
}

#[test]
fn test_get_bucket_location() {
    let mut h = Harness::new(1024 * 1024);
    h.simple("PUT", "/loc-bucket", b"");
    let r = h.call("GET", "/loc-bucket", b"", &[], &[("location", "")]);
    assert_eq!(r.status, 200);
    assert!(r.text().contains("LocationConstraint"));
    assert!(r.text().ends_with("<LocationConstraint xmlns=\"http://s3.amazonaws.com/doc/2006-03-01/\"></LocationConstraint>"));
}

#[test]
fn test_get_bucket_location_missing_bucket_matches_localstack_shape() {
    let mut h = Harness::new(1024 * 1024);
    let r = h.call("GET", "/missing-bucket", b"", &[], &[("location", "")]);
    assert_eq!(r.status, 404);
    assert_eq!(r.content_type, "application/xml");
    let body = r.text();
    assert!(body.contains("<Code>NoSuchBucket</Code>"));
    assert!(body.contains("<Message>The specified bucket does not exist</Message>"));
    assert!(body.contains("<BucketName>missing-bucket</BucketName>"));
}

#[test]
fn test_put_and_get_object() {
    let mut h = Harness::new(1024 * 1024);
    h.simple("PUT", "/obj-bucket", b"");
    let r = h.call("PUT", "/obj-bucket/hello.txt", b"hello world", &[("content-type", "text/plain")], &[]);
    assert_eq!(r.status, 200);
    assert_eq!(r.header("ETag"), Some("\"5eb63bbbe01eeed093cb22bb8f5acdc3\"".to_string()));
    assert_eq!(r.events, vec![("obj-bucket".to_string(), "hello.txt".to_string(), "s3:ObjectCreated:Put".to_string())]);
    let r = h.simple("GET", "/obj-bucket/hello.txt", b"");
    assert_eq!(r.status, 200);
    assert_eq!(&r.body[..], b"hello world");
    assert_eq!(r.content_type, "text/plain");
    assert_eq!(r.header("Content-Length"), Some("11".to_string()));
    assert_eq!(r.header("Content-Encoding"), Some("identity".to_string()));
    assert_eq!(r.header("x-amz-version-id"), None);
}

#[test]
fn test_get_nonexistent_object() {
    let mut h = Harness::new(1024 * 1024);
    h.simple("PUT", "/miss-bucket", b"");
    let r = h.simple("GET", "/miss-bucket/no-such-key", b"");
    assert_eq!(r.status, 404);
    assert!(r.text().contains("NoSuchKey"));
}

#[test]
fn test_head_object() {
    let mut h = Harness::new(1024 * 1024);
    h.simple("PUT", "/ho-bucket", b"");
    h.call("PUT", "/ho-bucket/data.json", b"{}", &[("content-type", "application/json"), ("x-amz-meta-owner", "me")], &[]);
    let r = h.simple("HEAD", "/ho-bucket/data.json", b"");
    assert_eq!(r.status, 200);
    assert!(r.body.is_empty());
    assert_eq!(r.content_type, "application/json");
    assert_eq!(r.header("x-amz-meta-owner"), Some("me".to_string()));
    assert_eq!(r.header("Content-Encoding"), None);
}

#[test]
fn test_delete_object() {
    let mut h = Harness::new(1024 * 1024);
    h.simple("PUT", "/do-bucket", b"");
    h.simple("PUT", "/do-bucket/key.txt", b"data");
    let r = h.simple("DELETE", "/do-bucket/key.txt", b"");
    assert_eq!(r.status, 204);
    assert_eq!(r.events[0].2, "s3:ObjectRemoved:Delete");
    let r = h.simple("GET", "/do-bucket/key.txt", b"");
    assert_eq!(r.status, 404);
}

#[test]
fn test_delete_objects_bulk() {
    let mut h = Harness::new(1024 * 1024);
    h.simple("PUT", "/bulk-bucket", b"");
    for key in ["a.txt", "b.txt", "c.txt"] {
        h.simple("PUT", &format!("/bulk-bucket/{key}"), b"data");
    }
    let body = b"<?xml version=\"1.0\"?><Delete><Object><Key>a.txt</Key></Object><Object><Key>b.txt</Key></Object></Delete>";
    let r = h.call("POST", "/bulk-bucket", body, &[], &[("delete", "")]);
    assert_eq!(r.status, 200);
    assert!(r.text().contains("<Deleted><Key>a.txt</Key></Deleted><Deleted><Key>b.txt</Key></Deleted>"));
    assert_eq!(r.events.len(), 2);
    let r = h.simple("GET", "/bulk-bucket/c.txt", b"");
    assert_eq!(r.status, 200);
    let r = h.simple("GET", "/bulk-bucket/a.txt", b"");
    assert_eq!(r.status, 404);
}

#[test]
fn test_copy_object() {
    let mut h = Harness::new(1024 * 1024);
    h.simple("PUT", "/src-bucket", b"");
    h.simple("PUT", "/dst-bucket", b"");
    h.call("PUT", "/src-bucket/original.txt", b"original content", &[("content-type", "text/plain")], &[]);
    let r = h.call("PUT", "/dst-bucket/copy.txt", b"", &[("x-amz-copy-source", "/src-bucket/original.txt")], &[]);
    assert_eq!(r.status, 200);
    assert!(r.text().contains("CopyObjectResult"));
    assert!(r.text().contains("<ETag>&quot;"));
    let r = h.simple("GET", "/dst-bucket/copy.txt", b"");
    assert_eq!(&r.body[..], b"original content");
    assert_eq!(r.content_type, "text/plain");
}

#[test]
fn test_non_versioned_large_copy_overwrite_keeps_data() {
    let mut h = Harness::new(256 * 1024);
    h.simple("PUT", "/src-large-bucket", b"");
    h.simple("PUT", "/dst-large-bucket", b"");
    let src_a: Vec<u8> = (0u8..=250).cycle().take(300 * 1024).collect();
    let src_b: Vec<u8> = (0..(300 * 1024)).map(|i| ((i * 7) % 251) as u8).collect();
    assert_eq!(h.simple("PUT", "/src-large-bucket/a.bin", &src_a).status, 200);
    assert_eq!(h.simple("PUT", "/src-large-bucket/b.bin", &src_b).status, 200);
    let r = h.call("PUT", "/dst-large-bucket/target.bin", b"", &[("x-amz-copy-source", "/src-large-bucket/a.bin")], &[]);
    assert_eq!(r.status, 200);
    let r = h.call("PUT", "/dst-large-bucket/target.bin", b"", &[("x-amz-copy-source", "/src-large-bucket/b.bin")], &[]);
    assert_eq!(r.status, 200);
    let r = h.simple("GET", "/dst-large-bucket/target.bin", b"");
    assert_eq!(r.status, 200);
    assert_eq!(&r.body[..], &src_b[..]);
}

#[test]
fn test_list_objects_v2_prefix() {
    let mut h = Harness::new(1024 * 1024);
    h.simple("PUT", "/list-bucket", b"");
    for key in ["a/1.txt", "a/2.txt", "b/1.txt"] {
        h.simple("PUT", &format!("/list-bucket/{key}"), b"x");
    }
    let r = h.call("GET", "/list-bucket", b"", &[], &[("list-type", "2"), ("prefix", "a/")]);
    assert_eq!(r.status, 200);
    let body = r.text();
    assert!(body.contains("a/1.txt"));
    assert!(body.contains("a/2.txt"));
    assert!(!body.contains("b/1.txt"));
    assert!(body.contains("<KeyCount>2</KeyCount><IsTruncated>false</IsTruncated>"));
}

#[test]
fn test_list_objects_v2_delimiter() {
    let mut h = Harness::new(1024 * 1024);
    h.simple("PUT", "/delim-bucket", b"");
    for key in ["a/1.txt", "a/2.txt", "b/1.txt", "root.txt"] {
        h.simple("PUT", &format!("/delim-bucket/{key}"), b"x");
    }
    let r = h.call("GET", "/delim-bucket", b"", &[], &[("list-type", "2"), ("delimiter", "/")]);
    let body = r.text();
    assert!(body.contains("CommonPrefixes"));
    assert!(body.contains("root.txt"));
    assert!(body.contains(
        "<CommonPrefixes><Prefix>a/</Prefix></CommonPrefixes><CommonPrefixes><Prefix>b/</Prefix></CommonPrefixes></ListBucketResult>"
    ));
}

#[test]
fn test_list_objects_v2_max_keys() {
    let mut h = Harness::new(1024 * 1024);
    h.simple("PUT", "/maxk-bucket", b"");
    for i in 0..5 {
        h.simple("PUT", &format!("/maxk-bucket/key-{i:02}.txt"), b"x");
    }
    let r = h.call("GET", "/maxk-bucket", b"", &[], &[("list-type", "2"), ("max-keys", "2")]);
    let body = r.text();
    assert!(body.contains("<IsTruncated>true</IsTruncated>"));
    assert!(body.contains("<NextContinuationToken>key-01.txt</NextContinuationToken>"));
    let r = h.call(
        "GET",
        "/maxk-bucket",
        b"",
        &[],
        &[("list-type", "2"), ("max-keys", "2"), ("continuation-token", "key-01.txt")],
    );
    let body = r.text();
    assert!(body.contains("<Key>key-02.txt</Key>"));
    assert!(body.contains("<Key>key-03.txt</Key>"));
    assert!(!body.contains("<Key>key-01.txt</Key>"));
}

#[test]
fn list_objects_v2_continues_after_token() {
    let mut h = Harness::new(1024 * 1024);
    h.simple("PUT", "/page-bucket", b"");
    for key in ["a.txt", "d/1", "d/2", "d/3", "e.txt"] {
        h.simple("PUT", &format!("/page-bucket/{key}"), b"x");
    }
    let q = [("list-type", "2"), ("max-keys", "2"), ("delimiter", "/")];
    let r = h.call("GET", "/page-bucket", b"", &[], &q);
    let body = r.text();
    assert!(body.contains("<KeyCount>2</KeyCount><IsTruncated>true</IsTruncated>"));
    assert!(body.contains("<NextContinuationToken>a.txt</NextContinuationToken>"));
    assert!(body.contains("<Key>a.txt</Key>"));
    assert!(body.contains("<CommonPrefixes><Prefix>d/</Prefix></CommonPrefixes>"));
    let r = h.call(
        "GET",
        "/page-bucket",
        b"",
        &[],
        &[("list-type", "2"), ("max-keys", "2"), ("delimiter", "/"), ("continuation-token", "a.txt")],
    );
    let body = r.text();
    assert!(body.contains("<Key>e.txt</Key>"));
    assert!(!body.contains("<Key>a.txt</Key>"));
    assert!(body.contains("<IsTruncated>false</IsTruncated>"));
}

#[test]
fn list_objects_v1_marker_and_delimiter() {
    let mut h = Harness::new(1024 * 1024);
    h.simple("PUT", "/v1-bucket", b"");
    for key in ["a.txt", "b/1", "b/2", "c.txt"] {
        h.simple("PUT", &format!("/v1-bucket/{key}"), b"x");
    }
    let r = h.call("GET", "/v1-bucket", b"", &[], &[("delimiter", "/"), ("max-keys", "1")]);
    let body = r.text();
    assert!(body.contains("<MaxKeys>1</MaxKeys><IsTruncated>true</IsTruncated><NextMarker>b/2</NextMarker>"));
    assert!(body.contains("<CommonPrefixes><Prefix>b/</Prefix></CommonPrefixes>"));
    assert!(!body.contains("<Contents>"));
    let r = h.call("GET", "/v1-bucket", b"", &[], &[("marker", "b/2")]);
    let body = r.text();
    assert!(body.contains("<Key>c.txt</Key>"));
    assert!(!body.contains("<Key>a.txt</Key>"));
}

fn run_multipart(h: &mut Harness, bucket: &str, key: &str, part1: &[u8], part2: &[u8]) -> Resp {
    let path = format!("/{bucket}/{key}");
    let r = h.call("POST", &path, b"", &[], &[("uploads", "")]);
    assert_eq!(r.status, 200);
    assert!(r.text().contains("InitiateMultipartUploadResult"));
    let upload_id = upload_id_of(&r.text());
    let r1 = h.call("PUT", &path, part1, &[], &[("uploadId", &upload_id), ("partNumber", "1")]);
    assert_eq!(r1.status, 200);
    let etag1 = r1.header("ETag").unwrap();
    let r2 = h.call("PUT", &path, part2, &[], &[("uploadId", &upload_id), ("partNumber", "2")]);
    assert_eq!(r2.status, 200);
    let etag2 = r2.header("ETag").unwrap();
    let body = format!(
        "<CompleteMultipartUpload><Part><PartNumber>1</PartNumber><ETag>{etag1}</ETag></Part>\
<Part><PartNumber>2</PartNumber><ETag>{etag2}</ETag></Part></CompleteMultipartUpload>"
    );
    h.call("POST", &path, body.as_bytes(), &[], &[("uploadId", &upload_id)])
}

#[test]
fn test_multipart_upload() {
    let mut h = Harness::new(1024 * 1024);
    h.simple("PUT", "/mp-bucket", b"");
    let r = run_multipart(&mut h, "mp-bucket", "large.bin", b"part-one-data", b"-part-two-data");
    assert_eq!(r.status, 200);
    let body = r.text();
    assert!(body.contains("CompleteMultipartUploadResult"));
    assert!(body.contains("<ETag>&quot;c1863f721cc0c27dc4f7316053f28451-2&quot;</ETag>"));
    assert!(body.contains("<Location>http://localhost:4566/mp-bucket/large.bin</Location>"));
    let r = h.simple("GET", "/mp-bucket/large.bin", b"");
    assert_eq!(r.status, 200);
    assert_eq!(&r.body[..], b"part-one-data-part-two-data");
}

#[test]
fn test_non_versioned_large_multipart_overwrite_keeps_data() {
    let mut h = Harness::new(256 * 1024);
    h.simple("PUT", "/mp-overwrite-bucket", b"");
    let first_p1: Vec<u8> = (0u8..=255).cycle().take(180 * 1024).collect();
    let first_p2: Vec<u8> = (0u8..=200).cycle().take(140 * 1024).collect();
    let r = run_multipart(&mut h, "mp-overwrite-bucket", "large.bin", &first_p1, &first_p2);
    assert!(r.text().contains("-2&quot;</ETag>"));
    let second_p1: Vec<u8> = (0..(170 * 1024)).map(|i| ((i * 11) % 251) as u8).collect();
    let second_p2: Vec<u8> = (0..(150 * 1024)).map(|i| ((i * 13) % 247) as u8).collect();
    let r = run_multipart(&mut h, "mp-overwrite-bucket", "large.bin", &second_p1, &second_p2);
    assert!(r.text().contains("-2&quot;</ETag>"));
    let r = h.simple("GET", "/mp-overwrite-bucket/large.bin", b"");
    assert_eq!(r.status, 200);
    let mut expected = second_p1.clone();
    expected.extend_from_slice(&second_p2);
    assert_eq!(&r.body[..], &expected[..]);
}

#[test]
fn test_abort_multipart_upload() {
    let mut h = Harness::new(1024 * 1024);
    h.simple("PUT", "/abort-bucket", b"");
    let r = h.call("POST", "/abort-bucket/file.bin", b"", &[], &[("uploads", "")]);
    let upload_id = upload_id_of(&r.text());
    let r = h.call("DELETE", "/abort-bucket/file.bin", b"", &[], &[("uploadId", &upload_id)]);
    assert_eq!(r.status, 204);
    let r = h.call("DELETE", "/abort-bucket/file.bin", b"", &[], &[("uploadId", &upload_id)]);
    assert_eq!(r.status, 404);
    assert!(r.text().contains("NoSuchUpload"));
}

#[test]
fn test_versioning() {
    let mut h = Harness::new(1024 * 1024);
    h.simple("PUT", "/ver-bucket", b"");
    let r = h.call(
        "PUT",
        "/ver-bucket",
        b"<VersioningConfiguration><Status>Enabled</Status></VersioningConfiguration>",
        &[],
        &[("versioning", "")],
    );
    assert_eq!(r.status, 200);
    let r1 = h.simple("PUT", "/ver-bucket/key.txt", b"version-1");
    assert!(r1.header("x-amz-version-id").is_some());
    h.simple("PUT", "/ver-bucket/key.txt", b"version-2");
    let r = h.simple("GET", "/ver-bucket/key.txt", b"");
    assert_eq!(&r.body[..], b"version-2");
    let r = h.call("GET", "/ver-bucket", b"", &[], &[("versions", "")]);
    let body = r.text();
    assert!(body.contains("ListVersionsResult"));
    assert_eq!(body.matches("<Version>").count(), 2);
    assert_eq!(body.matches("<IsLatest>true</IsLatest>").count(), 1);
    let r = h.call("GET", "/ver-bucket", b"", &[], &[("versioning", "")]);
    assert!(r.text().contains("<Status>Enabled</Status>"));
}

#[test]
fn test_bucket_policy() {
    let mut h = Harness::new(1024 * 1024);
    h.simple("PUT", "/pol-bucket", b"");
    let r = h.call("GET", "/pol-bucket", b"", &[], &[("policy", "")]);
    assert_eq!(r.status, 404);
    let policy = r#"{"Version":"2012-10-17","Statement":[]}"#;
    let r = h.call("PUT", "/pol-bucket", policy.as_bytes(), &[], &[("policy", "")]);
    assert_eq!(r.status, 204);
    let r = h.call("GET", "/pol-bucket", b"", &[], &[("policy", "")]);
    assert_eq!(r.status, 200);
    assert_eq!(r.text(), policy);
    assert_eq!(r.content_type, "application/json");
    let r = h.call("DELETE", "/pol-bucket", b"", &[], &[("policy", "")]);
    assert_eq!(r.status, 204);
    let r = h.call("GET", "/pol-bucket", b"", &[], &[("policy", "")]);
    assert_eq!(r.status, 404);
}

#[test]
fn test_acl_bucket() {
    let mut h = Harness::new(1024 * 1024);
    h.simple("PUT", "/acl-bucket", b"");
    let r = h.call("GET", "/acl-bucket", b"", &[], &[("acl", "")]);
    assert_eq!(r.status, 200);
    assert!(r.text().contains("AccessControlPolicy"));
    assert!(r.text().contains("<ID>000000000000</ID>"));
}

#[test]
fn test_put_object_spooled_inline_and_disk() {
    let mut h = Harness::new(256 * 1024);
    h.simple("PUT", "/threshold-bucket", b"");
    let inline_data: Vec<u8> = (0u8..100).collect();
    let r = h.simple("PUT", "/threshold-bucket/inline.bin", &inline_data);
    assert_eq!(r.status, 200);
    assert_eq!(r.header("ETag"), Some(etag_of(&inline_data)));
    let r = h.simple("GET", "/threshold-bucket/inline.bin", b"");
    assert_eq!(&r.body[..], &inline_data[..]);
    let large_data: Vec<u8> = (0u8..255).cycle().take(300 * 1024).collect();
    let r = h.simple("PUT", "/threshold-bucket/large.bin", &large_data);
    assert_eq!(r.status, 200);
    assert_eq!(r.header("ETag"), Some(etag_of(&large_data)));
    assert_eq!(h.files.len(), 1);
    let r = h.simple("GET", "/threshold-bucket/large.bin", b"");
    assert_eq!(&r.body[..], &large_data[..]);
}

#[test]
fn test_non_versioned_large_put_overwrite_keeps_data() {
    let mut h = Harness::new(256 * 1024);
    h.simple("PUT", "/overwrite-bucket", b"");
    let first: Vec<u8> = (0u8..=250).cycle().take(300 * 1024).collect();
    let second: Vec<u8> = (0..(300 * 1024)).map(|i| ((i * 5) % 251) as u8).collect();
    assert_eq!(h.simple("PUT", "/overwrite-bucket/blob.bin", &first).status, 200);
    assert_eq!(h.simple("PUT", "/overwrite-bucket/blob.bin", &second).status, 200);
    let r = h.simple("GET", "/overwrite-bucket/blob.bin", b"");
    assert_eq!(r.status, 200);
    assert_eq!(&r.body[..], &second[..]);
}

#[test]
fn large_object_replaced_by_small_one_leaves_no_file() {
    let mut h = Harness::new(1024);
    h.simple("PUT", "/swap-bucket", b"");
    let big = vec![7u8; 4096];
    h.simple("PUT", "/swap-bucket/k", &big);
    assert_eq!(h.files.len(), 1);
    h.simple("PUT", "/swap-bucket/k", b"small");
    assert_eq!(h.files.len(), 0);
    let r = h.simple("GET", "/swap-bucket/k", b"");
    assert_eq!(&r.body[..], b"small");
}

#[test]
fn operations_and_errors() {
    let mut h = Harness::new(1024 * 1024);
    let r = h.simple("HEAD", "/nothing", b"");
    assert_eq!(r.status, 404);
    assert!(r.text().contains("<BucketName>nothing</BucketName>"));
    let r = h.simple("PUT", "/x/k", b"data");
    assert_eq!(r.status, 404);
    assert!(r.text().contains("NoSuchBucket"));
    h.simple("PUT", "/x", b"");
    let r = h.call("PUT", "/x/k", b"", &[("x-amz-copy-source", "/x/none")], &[]);
    assert_eq!(r.status, 404);
    assert!(r.text().contains("<Message>Source key does not exist</Message>"));
    let r = h.call("PUT", "/x/k", b"p", &[], &[("uploadId", "u"), ("partNumber", "abc")]);
    assert!(r.text().contains("partNumber required"));
    let ctx = make_ctx("POST", "/x", b"", &[], &[]);
    assert!(dispatch_at(&mut h.store, true, &ctx, "i".to_string(), 0).is_err());
    let ctx = make_ctx("PATCH", "/x", b"", &[], &[]);
    match dispatch_at(&mut h.store, true, &ctx, "i".to_string(), 0) {
        Err(openstack_services::http::DispatchError::NotImplemented(op)) => assert_eq!(op, "Unknown(PATCH)"),
        Ok(_) => panic!("PATCH must be refused"),
    }
}

#[test]
fn notification_configuration_round_trip() {
    let mut h = Harness::new(1024 * 1024);
    h.simple("PUT", "/n-bucket", b"");
    let body = "<NotificationConfiguration><QueueConfiguration><Id>q1</Id><Queue>arn:aws:sqs:us-east-1:000000000000:jobs</Queue>\
<Event>s3:ObjectCreated:*</Event><Filter><S3Key><FilterRule><Name>prefix</Name><Value>in/</Value></FilterRule></S3Key></Filter>\
</QueueConfiguration></NotificationConfiguration>";
    let r = h.call("PUT", "/n-bucket", body.as_bytes(), &[], &[("notification", "")]);
    assert_eq!(r.status, 200);
    let r = h.call("GET", "/n-bucket", b"", &[], &[("notification", "")]);
    assert!(r.text().contains(
        "<QueueConfiguration><Id>q1</Id><Queue>arn:aws:sqs:us-east-1:000000000000:jobs</Queue><Event>s3:ObjectCreated:*</Event>\
<Filter><S3Key><FilterRule><Name>prefix</Name><Value>in/</Value></FilterRule></S3Key></Filter></QueueConfiguration>"
    ));
    let reqs = openstack_services::s3_notify::notification_dispatches(
        &h.store,
        "000000000000",
        "us-east-1",
        "n-bucket",
        "in/a.txt",
        "s3:ObjectCreated:Put",
        "T",
    );
    assert_eq!(reqs.len(), 1);
    assert_eq!(reqs[0].service, "sqs");
    assert_eq!(reqs[0].path, "/000000000000/jobs");
    let body = String::from_utf8(reqs[0].raw_body.clone()).unwrap();
    assert!(body.starts_with("Action=SendMessage&QueueUrl=http%3A%2F%2Flocalhost%3A4566%2F000000000000%2Fjobs&MessageBody=%7B%22Records%22"));
    let none = openstack_services::s3_notify::notification_dispatches(
        &h.store,
        "000000000000",
        "us-east-1",
        "n-bucket",
        "out/a.txt",
        "s3:ObjectCreated:Put",
        "T",
    );
    assert!(none.is_empty());
    let r = h.call("PUT", "/n-bucket", b"<QueueConfiguration></QueueConfiguration>", &[], &[("notification", "")]);
    assert_eq!(r.status, 400);
    assert!(r.text().contains("MalformedXML"));
}
