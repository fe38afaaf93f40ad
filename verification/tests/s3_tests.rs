use openstack_services::s3::{ObjectDataRef, S3Store};
use openstack_services::s3_api::{
    bucket_from_path, default_acl_xml, extract_xml_text, find_filter_rule, format_etag,
    get_object_stream_read_buf, key_from_path, key_hash, key_hash_legacy, parse_copy_source, path_has_bucket, path_has_key,
    urlencoding_decode, GET_OBJECT_STREAM_LARGE_CUTOFF, GET_OBJECT_STREAM_READ_BUF_LARGE,
    GET_OBJECT_STREAM_READ_BUF_SMALL,
};
use openstack_services::s3_paths::{relativize_data_ref, resolve_data_ref};
use openstack_services::strmap::StrMap;

#[test]
fn get_object_stream_read_buf_keeps_existing_size_through_cutoff() {
    assert_eq!(
        get_object_stream_read_buf(GET_OBJECT_STREAM_LARGE_CUTOFF),
        GET_OBJECT_STREAM_READ_BUF_SMALL
    );
}

#[test]
fn get_object_stream_read_buf_grows_above_cutoff() {
    assert_eq!(
        get_object_stream_read_buf(GET_OBJECT_STREAM_LARGE_CUTOFF + 1),
        GET_OBJECT_STREAM_READ_BUF_LARGE
    );
}

#[test]
fn test_store_put_get() {
    let mut store = S3Store::new();
    store.create_bucket("bucket", "us-east-1");
    store.put_object(
        "bucket",
        "key",
        ObjectDataRef::Inline(b"hello".to_vec()),
        "text/plain",
        StrMap::new(),
    );

    let v = store.get_object("bucket", "key").unwrap();
    assert_eq!(v.data, ObjectDataRef::Inline(b"hello".to_vec()));
    assert!(!v.etag.is_empty());
}

#[test]
fn test_store_delete_object() {
    let mut store = S3Store::new();
    store.create_bucket("bucket", "us-east-1");
    store.put_object(
        "bucket",
        "key",
        ObjectDataRef::Inline(b"data".to_vec()),
        "text/plain",
        StrMap::new(),
    );
    store.delete_object("bucket", "key");
    assert!(store.get_object("bucket", "key").is_none());
    assert!(store.is_bucket_empty("bucket"));
}

#[test]
fn test_store_versioning() {
    let mut store = S3Store::new();
    store.create_bucket("bucket", "us-east-1");
    store.buckets.get_mut("bucket").unwrap().versioning = "Enabled".to_string();

    store.put_object(
        "bucket",
        "k",
        ObjectDataRef::Inline(b"v1".to_vec()),
        "text/plain",
        StrMap::new(),
    );
    store.put_object(
        "bucket",
        "k",
        ObjectDataRef::Inline(b"v2".to_vec()),
        "text/plain",
        StrMap::new(),
    );

    let current = store.get_object("bucket", "k").unwrap();
    assert_eq!(current.data, ObjectDataRef::Inline(b"v2".to_vec()));

    let objs = store.list_objects("bucket");
    let obj = objs.into_iter().find(|o| o.key == "k").unwrap();
    assert_eq!(obj.versions.len(), 2);
}

#[test]
fn test_store_non_versioned_overwrite_keeps_single_version() {
    let mut store = S3Store::new();
    store.create_bucket("bucket", "us-east-1");

    store.put_object(
        "bucket",
        "k",
        ObjectDataRef::Inline(b"v1".to_vec()),
        "text/plain",
        StrMap::new(),
    );
    store.put_object(
        "bucket",
        "k",
        ObjectDataRef::Inline(b"v2".to_vec()),
        "text/plain",
        StrMap::new(),
    );

    let objs = store.list_objects("bucket");
    let obj = objs.into_iter().find(|o| o.key == "k").unwrap();
    assert_eq!(obj.versions.len(), 1);
    assert_eq!(obj.versions[0].version_id, "null");
    assert_eq!(obj.versions[0].data, ObjectDataRef::Inline(b"v2".to_vec()));
}

#[test]
fn test_store_multipart() {
    let mut store = S3Store::new();
    store.create_bucket("bucket", "us-east-1");
    let uid = store.create_multipart_upload("bucket", "key", "application/octet-stream", StrMap::new());
    store.upload_part(&uid, 1, ObjectDataRef::Inline(b"part1".to_vec()));
    store.upload_part(&uid, 2, ObjectDataRef::Inline(b"part2".to_vec()));
    let v = store
        .complete_multipart_upload(&uid, &[(1, String::new()), (2, String::new())])
        .unwrap();
    assert_eq!(v.data, ObjectDataRef::Inline(b"part1part2".to_vec()));
}

// ---------------------------------------------------------------------------
// Further store behaviour
// ---------------------------------------------------------------------------

#[test]
fn etag_of_hello_is_its_md5() {
    let mut store = S3Store::new();
    store.create_bucket("b", "us-east-1");
    store.put_object("b", "k", ObjectDataRef::Inline(b"hello".to_vec()), "text/plain", StrMap::new());
    let v = store.get_object("b", "k").unwrap();
    assert_eq!(v.etag, "\"5d41402abc4b2a76b9719d911017c592\"");
    assert_eq!(v.size, 5);
    assert_eq!(v.version_id, "null");
}

#[test]
fn listing_is_sorted_by_key() {
    let mut store = S3Store::new();
    store.create_bucket("b", "us-east-1");
    for k in ["zeta", "alpha", "mid", "Beta", "alpha2"] {
        store.put_object("b", k, ObjectDataRef::Inline(k.as_bytes().to_vec()), "text/plain", StrMap::new());
    }
    let keys: Vec<String> = store.list_objects("b").iter().map(|o| o.key.clone()).collect();
    assert_eq!(keys, vec!["Beta", "alpha", "alpha2", "mid", "zeta"]);
}

#[test]
fn versioned_delete_leaves_marker_and_older_versions() {
    let mut store = S3Store::new();
    store.create_bucket("b", "us-east-1");
    store.buckets.get_mut("b").unwrap().versioning = "Enabled".to_string();
    store.put_object("b", "k", ObjectDataRef::Inline(b"v1".to_vec()), "text/plain", StrMap::new());
    let marker = store.delete_object("b", "k").unwrap();
    assert!(marker.delete_marker);
    assert!(store.get_object("b", "k").is_none());
    let objs = store.list_objects("b");
    assert_eq!(objs[0].versions.len(), 2);
    let older = objs[0].versions[1].version_id.clone();
    assert_eq!(
        store.get_object_version("b", "k", &older).unwrap().data,
        ObjectDataRef::Inline(b"v1".to_vec())
    );
}

#[test]
fn delete_version_removes_key_when_last() {
    let mut store = S3Store::new();
    store.create_bucket("b", "us-east-1");
    store.put_object("b", "k", ObjectDataRef::Inline(b"v1".to_vec()), "text/plain", StrMap::new());
    let removed = store.delete_object_version("b", "k", "null").unwrap();
    assert_eq!(removed.data, ObjectDataRef::Inline(b"v1".to_vec()));
    assert!(store.is_bucket_empty("b"));
    assert!(store.delete_object_version("b", "k", "null").is_none());
}

#[test]
fn delete_bucket_reports_existence() {
    let mut store = S3Store::new();
    store.create_bucket("b", "us-east-1");
    assert!(store.bucket_exists("b"));
    assert!(store.delete_bucket("b"));
    assert!(!store.bucket_exists("b"));
    assert!(!store.delete_bucket("b"));
}

#[test]
fn put_returns_previous_data() {
    let mut store = S3Store::new();
    store.create_bucket("b", "us-east-1");
    assert!(store
        .put_object("b", "k", ObjectDataRef::Inline(b"one".to_vec()), "text/plain", StrMap::new())
        .is_none());
    let prev = store.put_object("b", "k", ObjectDataRef::Inline(b"two".to_vec()), "text/plain", StrMap::new());
    assert_eq!(prev, Some(ObjectDataRef::Inline(b"one".to_vec())));
}

#[test]
fn multipart_etag_counts_parts_and_sorts_them() {
    let mut store = S3Store::new();
    store.create_bucket("b", "us-east-1");
    let uid = store.create_multipart_upload("b", "k", "application/octet-stream", StrMap::new());
    let e2 = store.upload_part(&uid, 2, ObjectDataRef::Inline(b"world".to_vec())).unwrap();
    let e1 = store.upload_part(&uid, 1, ObjectDataRef::Inline(b"hello".to_vec())).unwrap();
    assert_eq!(e1, "\"5d41402abc4b2a76b9719d911017c592\"");
    assert!(store.has_incomplete_multipart_uploads("b"));
    let v = store
        .complete_multipart_upload(&uid, &[(2, e2.clone()), (1, e1.clone())])
        .unwrap();
    assert_eq!(v.data, ObjectDataRef::Inline(b"helloworld".to_vec()));
    assert!(v.etag.ends_with("-2\""));
    assert_eq!(v.etag.len(), 1 + 32 + 2 + 1);
    assert!(!store.has_incomplete_multipart_uploads("b"));
    assert!(store.complete_multipart_upload(&uid, &[]).is_none());
}

#[test]
fn abort_upload() {
    let mut store = S3Store::new();
    let uid = store.create_multipart_upload("b", "k", "text/plain", StrMap::new());
    assert_eq!(store.list_multipart_uploads("b").len(), 1);
    assert!(store.abort_multipart_upload(&uid));
    assert!(!store.abort_multipart_upload(&uid));
    assert!(store.upload_part(&uid, 1, ObjectDataRef::Inline(b"x".to_vec())).is_none());
}

// ---------------------------------------------------------------------------
// Request helpers
// ---------------------------------------------------------------------------

#[test]
fn paths_name_bucket_and_key() {
    assert_eq!(bucket_from_path("/my-bucket/some/key"), Some("my-bucket".to_string()));
    assert_eq!(bucket_from_path("//my-bucket"), Some("my-bucket".to_string()));
    assert_eq!(bucket_from_path("/"), None);
    assert_eq!(key_from_path("/my-bucket/some/key"), "some/key");
    assert_eq!(key_from_path("/my-bucket//key"), "key");
    assert_eq!(key_from_path("/my-bucket"), "");
    assert!(path_has_key("/b/k"));
    assert!(!path_has_key("/b/"));
    assert!(path_has_bucket("/b"));
    assert!(!path_has_bucket("///"));
}

#[test]
fn copy_source_splits() {
    assert_eq!(parse_copy_source("/src-bucket/dir/file.txt"), ("src-bucket".to_string(), "dir/file.txt".to_string()));
    assert_eq!(parse_copy_source("bucket"), ("bucket".to_string(), String::new()));
    assert_eq!(urlencoding_decode("a%20b%2Fc+d"), "a b/c+d");
    assert_eq!(urlencoding_decode("100%"), "100%");
}

#[test]
fn xml_text_is_extracted_and_unescaped() {
    assert_eq!(extract_xml_text("<a><Id>x&amp;y</Id></a>", "Id"), Some("x&y".to_string()));
    assert_eq!(extract_xml_text("<a><Id>x</a>", "Id"), None);
    assert_eq!(extract_xml_text("<a/>", "Id"), None);
}

#[test]
fn filter_rules_are_found_by_name() {
    let block = "<S3Key><FilterRule><Name>Prefix</Name><Value>images/</Value></FilterRule>\
<FilterRule><Name> suffix </Name><Value>.jpg</Value></FilterRule></S3Key>";
    assert_eq!(find_filter_rule(block, "prefix"), Some("images/".to_string()));
    assert_eq!(find_filter_rule(block, "suffix"), Some(".jpg".to_string()));
    assert_eq!(find_filter_rule(block, "other"), None);
}

#[test]
fn acl_names_owner_twice() {
    let x = default_acl_xml("owner-1");
    assert_eq!(x.matches("<ID>owner-1</ID>").count(), 2);
    assert!(x.starts_with("<?xml version=\"1.0\" encoding=\"UTF-8\"?><AccessControlPolicy"));
    assert!(x.ends_with("</AccessControlPolicy>"));
}

#[test]
fn etag_format_is_quoted_hex() {
    assert_eq!(format_etag(&[0x00, 0xab, 0x10]), "\"00ab10\"");
}

#[test]
fn key_hash_is_the_xxh3_digest_in_hex() {
    let h = key_hash("photos/2024/cat.jpg");
    assert_eq!(h, format!("{:032x}", xxhash_rust::xxh3::xxh3_128(b"photos/2024/cat.jpg")));
    assert_eq!(h.len(), 32);
    assert_ne!(key_hash("a"), key_hash("b"));
    assert_eq!(key_hash(""), format!("{:032x}", xxhash_rust::xxh3::xxh3_128(b"")));
}

#[test]
fn key_hash_legacy_is_the_sha256_digest_in_hex() {
    assert_eq!(key_hash_legacy("abc"), "ba7816bf8f01cfea414140de5dae2223b00361a396177a9cb410ff61f20015ad");
    assert_eq!(key_hash_legacy(""), "e3b0c44298fc1c149afbf4c8996fb92427ae41e4649b934ca495991b7852b855");
}

#[test]
fn file_refs_are_saved_relative_and_loaded_absolute() {
    let base = "/data/s3/objects";
    let d = ObjectDataRef::FileRef("/data/s3/objects/acct/us-east-1/mybucket/abc123/null".to_string());
    let rel = relativize_data_ref(d, base);
    assert!(matches!(&rel, ObjectDataRef::FileRef(p) if p == "acct/us-east-1/mybucket/abc123/null"));
    let back = resolve_data_ref(rel, base);
    assert!(matches!(&back, ObjectDataRef::FileRef(p) if p == "/data/s3/objects/acct/us-east-1/mybucket/abc123/null"));
    // A file outside the objects directory keeps its absolute path both ways.
    let other = relativize_data_ref(ObjectDataRef::FileRef("/elsewhere/f".to_string()), base);
    assert!(matches!(&other, ObjectDataRef::FileRef(p) if p == "/elsewhere/f"));
    let other = resolve_data_ref(other, base);
    assert!(matches!(&other, ObjectDataRef::FileRef(p) if p == "/elsewhere/f"));
    // A sibling directory sharing the prefix is not under the objects directory.
    let sib = relativize_data_ref(ObjectDataRef::FileRef("/data/s3/objects2/x".to_string()), base);
    assert!(matches!(&sib, ObjectDataRef::FileRef(p) if p == "/data/s3/objects2/x"));
}

#[test]
fn inline_refs_are_untouched_by_save_and_load() {
    let base = "/data/s3/objects";
    let d = relativize_data_ref(ObjectDataRef::Inline(b"hello".to_vec()), base);
    assert!(matches!(&d, ObjectDataRef::Inline(b) if b == b"hello"));
    let d = resolve_data_ref(d, base);
    assert!(matches!(&d, ObjectDataRef::Inline(b) if b == b"hello"));
}

#[test]
fn key_hash_is_deterministic() {
    let h1 = key_hash("photos/vacation/2024/img.jpg");
    let h2 = key_hash("photos/vacation/2024/img.jpg");
    assert_eq!(h1, h2);
    let h3 = key_hash("different/key");
    assert_ne!(h1, h3);
    assert_eq!(h1.len(), 32);
    assert!(h1.chars().all(|c| c.is_ascii_hexdigit()));
}
