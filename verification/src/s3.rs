//! The S3 data model: buckets, versioned objects and multipart uploads.
//!
//! Within a bucket the objects are kept in the order of their keys, as a
//! sorted map keeps them.  Operations that read the clock or draw a fresh
//! version or upload id have a companion ending in `_at` that takes those
//! values as arguments and whose contract is exact.
use vstd::prelude::*;
use vstd::relations::sorted_by;

use crate::deps::{
    clock_bound, hex_decode, hex_decode_spec, hex_encode, hex_encode_spec, md5, md5_spec,
    new_uuid, now_millis,
};
use crate::order::{lemma_lt_irreflexive, lemma_lt_total, lemma_lt_transitive, seq_lt, str_lt};
use crate::strmap::{DeepCopy, StrMap};
use crate::text::{chars_of, copy_bytes, copy_opt, decimal_spec, opt_view, push_decimal, push_str, slice_chars};

verus! {

// ---------------------------------------------------------------------------
// Object data
// ---------------------------------------------------------------------------

/// Where the bytes of an object or part live: in memory, or in a file
/// (named by its path) that the file store manages.
#[derive(Debug, PartialEq)]
pub enum ObjectDataRef {
    Inline(Vec<u8>),
    FileRef(String),
}

pub enum DataView {
    Inline(Seq<u8>),
    FileRef(Seq<char>),
}

impl View for ObjectDataRef {
    type V = DataView;

    open spec fn view(&self) -> DataView {
        match self {
            ObjectDataRef::Inline(b) => DataView::Inline(b@),
            ObjectDataRef::FileRef(p) => DataView::FileRef(p@),
        }
    }
}

impl ObjectDataRef {
    /// The inline bytes, if the data is held in memory.
    pub fn as_inline(&self) -> (r: Option<&Vec<u8>>)
        ensures
            match self@ {
                DataView::Inline(b) => r matches Some(v) && v@ == b,
                DataView::FileRef(_) => r is None,
            },
    {
        match self {
            ObjectDataRef::Inline(v) => Some(v),
            ObjectDataRef::FileRef(_) => None,
        }
    }

    /// The file path, if the data is file-backed.
    pub fn as_file_ref(&self) -> (r: Option<&String>)
        ensures
            match self@ {
                DataView::Inline(_) => r is None,
                DataView::FileRef(p) => r matches Some(s) && s@ == p,
            },
    {
        match self {
            ObjectDataRef::Inline(_) => None,
            ObjectDataRef::FileRef(p) => Some(p),
        }
    }

    /// Whether the data is file-backed.
    pub fn is_file_ref(&self) -> (b: bool)
        ensures
            b == (self@ is FileRef),
    {
        match self {
            ObjectDataRef::Inline(_) => false,
            ObjectDataRef::FileRef(_) => true,
        }
    }

    /// Empty inline data.
    pub fn empty() -> (r: Self)
        ensures
            r@ == DataView::Inline(Seq::empty()),
    {
        ObjectDataRef::Inline(Vec::new())
    }

    /// A copy with the same view.
    pub fn copy(&self) -> (r: Self)
        ensures
            r@ == self@,
    {
        match self {
            ObjectDataRef::Inline(b) => ObjectDataRef::Inline(copy_bytes(b)),
            ObjectDataRef::FileRef(p) => ObjectDataRef::FileRef(p.clone()),
        }
    }
}

// ---------------------------------------------------------------------------
// Notification configuration
// ---------------------------------------------------------------------------

pub struct NotificationConfig {
    pub id: String,
    pub destination_arn: String,
    /// The kind of destination: `queue`, `topic` or `lambda`.
    pub destination_type: String,
    pub events: Vec<String>,
    pub prefix_filter: Option<String>,
    pub suffix_filter: Option<String>,
}

// ---------------------------------------------------------------------------
// Bucket
// ---------------------------------------------------------------------------

pub struct Bucket {
    pub name: String,
    /// Milliseconds since the Unix epoch.
    pub creation_date: i64,
    pub region: String,
    /// Versioning state: `Enabled`, `Suspended`, or empty when never set.
    pub versioning: String,
    /// The bucket policy document, if one is set.
    pub policy: Option<String>,
    /// Canned ACL.
    pub acl: String,
    pub notifications: Vec<NotificationConfig>,
}

pub struct BucketView {
    pub name: Seq<char>,
    pub creation_date: i64,
    pub region: Seq<char>,
    pub versioning: Seq<char>,
    pub policy: Option<Seq<char>>,
    pub acl: Seq<char>,
    pub notifications: Seq<NotificationConfig>,
}

impl View for Bucket {
    type V = BucketView;

    open spec fn view(&self) -> BucketView {
        BucketView {
            name: self.name@,
            creation_date: self.creation_date,
            region: self.region@,
            versioning: self.versioning@,
            policy: opt_view(self.policy),
            acl: self.acl@,
            notifications: self.notifications@,
        }
    }
}

/// A new bucket: no versioning, no policy, `private`, no notifications.
pub open spec fn new_bucket_spec(name: Seq<char>, region: Seq<char>, now: i64) -> BucketView {
    BucketView {
        name,
        creation_date: now,
        region,
        versioning: Seq::empty(),
        policy: None,
        acl: "private"@,
        notifications: Seq::empty(),
    }
}

impl Bucket {
    /// A new bucket created at `now`.
    pub fn new_at(name: String, region: String, now: i64) -> (b: Self)
        ensures
            b@ == new_bucket_spec(name@, region@, now),
    {
        Bucket {
            name,
            creation_date: now,
            region,
            versioning: String::new(),
            policy: None,
            acl: "private".to_string(),
            notifications: Vec::new(),
        }
    }

    /// A new bucket created now.
    pub fn new(name: String, region: String) -> (b: Self)
        ensures
            exists|now: i64| b@ == #[trigger] new_bucket_spec(name@, region@, now),
    {
        let now = now_millis();
        Bucket::new_at(name, region, now)
    }

    /// Whether versioning is enabled.
    pub fn versioning_enabled(&self) -> (b: bool)
        ensures
            b == (self.versioning@ == "Enabled"@),
    {
        self.versioning.as_str().eq("Enabled")
    }
}

// ---------------------------------------------------------------------------
// Object versions
// ---------------------------------------------------------------------------

pub struct ObjectVersion {
    /// The version id; `null` when versioning is off.
    pub version_id: String,
    pub last_modified: i64,
    pub etag: String,
    pub content_type: String,
    pub content_encoding: Option<String>,
    pub content_disposition: Option<String>,
    pub cache_control: Option<String>,
    pub size: u64,
    /// User metadata (the `x-amz-meta-` headers without their prefix).
    pub metadata: StrMap<String>,
    pub acl: String,
    pub data: ObjectDataRef,
    pub delete_marker: bool,
}

pub struct VersionView {
    pub version_id: Seq<char>,
    pub last_modified: i64,
    pub etag: Seq<char>,
    pub content_type: Seq<char>,
    pub content_encoding: Option<Seq<char>>,
    pub content_disposition: Option<Seq<char>>,
    pub cache_control: Option<Seq<char>>,
    pub size: u64,
    pub metadata: Map<Seq<char>, Seq<char>>,
    pub acl: Seq<char>,
    pub data: DataView,
    pub delete_marker: bool,
}

impl View for ObjectVersion {
    type V = VersionView;

    open spec fn view(&self) -> VersionView {
        VersionView {
            version_id: self.version_id@,
            last_modified: self.last_modified,
            etag: self.etag@,
            content_type: self.content_type@,
            content_encoding: opt_view(self.content_encoding),
            content_disposition: opt_view(self.content_disposition),
            cache_control: opt_view(self.cache_control),
            size: self.size,
            metadata: self.metadata@,
            acl: self.acl@,
            data: self.data@,
            delete_marker: self.delete_marker,
        }
    }
}

/// `"` + `s` + `"`.
pub open spec fn quoted(s: Seq<char>) -> Seq<char> {
    seq!['"'] + s + seq!['"']
}

/// The ETag of a body: its MD5 digest in lowercase hex, in quotes.
pub open spec fn etag_spec(data: Seq<u8>) -> Seq<char> {
    quoted(hex_encode_spec(md5_spec(data)))
}

/// The version id of a new version: the fresh id when versioning is on,
/// `null` otherwise.
pub open spec fn version_id_spec(versioning_enabled: bool, fresh_id: Seq<char>) -> Seq<char> {
    if versioning_enabled {
        fresh_id
    } else {
        "null"@
    }
}

/// A version that holds `data` in memory.
pub open spec fn inline_version_spec(
    data: Seq<u8>,
    content_type: Seq<char>,
    metadata: Map<Seq<char>, Seq<char>>,
    version_id: Seq<char>,
    now: i64,
) -> VersionView {
    VersionView {
        version_id,
        last_modified: now,
        etag: etag_spec(data),
        content_type,
        content_encoding: None,
        content_disposition: None,
        cache_control: None,
        size: data.len() as u64,
        metadata,
        acl: "private"@,
        data: DataView::Inline(data),
        delete_marker: false,
    }
}

/// A version whose data is in a file, with its size and ETag given.
pub open spec fn file_version_spec(
    path: Seq<char>,
    size: u64,
    etag: Seq<char>,
    content_type: Seq<char>,
    metadata: Map<Seq<char>, Seq<char>>,
    version_id: Seq<char>,
    now: i64,
) -> VersionView {
    VersionView {
        version_id,
        last_modified: now,
        etag,
        content_type,
        content_encoding: None,
        content_disposition: None,
        cache_control: None,
        size,
        metadata,
        acl: "private"@,
        data: DataView::FileRef(path),
        delete_marker: false,
    }
}

/// A delete marker.
pub open spec fn delete_marker_spec(version_id: Seq<char>, now: i64) -> VersionView {
    VersionView {
        version_id,
        last_modified: now,
        etag: Seq::empty(),
        content_type: Seq::empty(),
        content_encoding: None,
        content_disposition: None,
        cache_control: None,
        size: 0,
        metadata: Map::empty(),
        acl: Seq::empty(),
        data: DataView::Inline(Seq::empty()),
        delete_marker: true,
    }
}

/// The quoted ETag of a body.
pub fn etag_of(data: &[u8]) -> (r: String)
    ensures
        r@ == etag_spec(data@),
{
    let digest = md5(data);
    let hex = hex_encode(digest.as_slice());
    let mut r = String::new();
    r.push('"');
    push_str(&mut r, hex.as_str());
    r.push('"');
    proof {
        assert(r@ =~= quoted(hex@));
    }
    r
}

impl ObjectVersion {
    /// The version's metadata is well formed.
    pub open spec fn wf(&self) -> bool {
        self.metadata.wf()
    }

    /// A version holding `data` in memory, with the given fresh id (used
    /// when versioning is on) and time.
    pub fn new_at(
        data: Vec<u8>,
        content_type: String,
        metadata: StrMap<String>,
        versioning_enabled: bool,
        fresh_id: String,
        now: i64,
    ) -> (v: Self)
        requires
            metadata.wf(),
        ensures
            v.wf(),
            v@ == inline_version_spec(
                data@,
                content_type@,
                metadata@,
                version_id_spec(versioning_enabled, fresh_id@),
                now,
            ),
    {
        let etag = etag_of(data.as_slice());
        let size = data.len() as u64;
        let version_id = if versioning_enabled {
            fresh_id
        } else {
            "null".to_string()
        };
        ObjectVersion {
            version_id,
            last_modified: now,
            etag,
            content_type,
            content_encoding: None,
            content_disposition: None,
            cache_control: None,
            size,
            metadata,
            acl: "private".to_string(),
            data: ObjectDataRef::Inline(data),
            delete_marker: false,
        }
    }

    /// A version holding `data` in memory, created now.
    pub fn new(data: Vec<u8>, content_type: String, metadata: StrMap<String>, versioning_enabled: bool) -> (v: Self)
        requires
            metadata.wf(),
        ensures
            v.wf(),
            exists|id: Seq<char>, now: i64|
                crate::deps::is_uuid_text(id) && v@ == #[trigger] inline_version_spec(
                    data@,
                    content_type@,
                    metadata@,
                    version_id_spec(versioning_enabled, id),
                    now,
                ),
    {
        let id = new_uuid();
        let now = now_millis();
        ObjectVersion::new_at(data, content_type, metadata, versioning_enabled, id, now)
    }

    /// A version whose data is the file at `file_path`, with its size and
    /// ETag given.
    pub fn new_with_file_ref_at(
        file_path: String,
        size: u64,
        etag: String,
        content_type: String,
        metadata: StrMap<String>,
        versioning_enabled: bool,
        fresh_id: String,
        now: i64,
    ) -> (v: Self)
        requires
            metadata.wf(),
        ensures
            v.wf(),
            v@ == file_version_spec(
                file_path@,
                size,
                etag@,
                content_type@,
                metadata@,
                version_id_spec(versioning_enabled, fresh_id@),
                now,
            ),
    {
        let version_id = if versioning_enabled {
            fresh_id
        } else {
            "null".to_string()
        };
        ObjectVersion {
            version_id,
            last_modified: now,
            etag,
            content_type,
            content_encoding: None,
            content_disposition: None,
            cache_control: None,
            size,
            metadata,
            acl: "private".to_string(),
            data: ObjectDataRef::FileRef(file_path),
            delete_marker: false,
        }
    }

    /// A file-backed version created now.
    pub fn new_with_file_ref(
        file_path: String,
        size: u64,
        etag: String,
        content_type: String,
        metadata: StrMap<String>,
        versioning_enabled: bool,
    ) -> (v: Self)
        requires
            metadata.wf(),
        ensures
            v.wf(),
            exists|id: Seq<char>, now: i64|
                crate::deps::is_uuid_text(id) && v@ == #[trigger] file_version_spec(
                    file_path@,
                    size,
                    etag@,
                    content_type@,
                    metadata@,
                    version_id_spec(versioning_enabled, id),
                    now,
                ),
    {
        let id = new_uuid();
        let now = now_millis();
        ObjectVersion::new_with_file_ref_at(file_path, size, etag, content_type, metadata, versioning_enabled, id, now)
    }

    /// A copy with the same view.
    pub fn copy(&self) -> (r: Self)
        requires
            self.wf(),
        ensures
            r.wf(),
            r@ == self@,
    {
        ObjectVersion {
            version_id: self.version_id.clone(),
            last_modified: self.last_modified,
            etag: self.etag.clone(),
            content_type: self.content_type.clone(),
            content_encoding: copy_opt(&self.content_encoding),
            content_disposition: copy_opt(&self.content_disposition),
            cache_control: copy_opt(&self.cache_control),
            size: self.size,
            metadata: self.metadata.deep_copy(),
            acl: self.acl.clone(),
            data: self.data.copy(),
            delete_marker: self.delete_marker,
        }
    }
}

// ---------------------------------------------------------------------------
// Objects
// ---------------------------------------------------------------------------

pub struct S3Object {
    pub key: String,
    /// Versions, newest first: the first is the current one.
    pub versions: Vec<ObjectVersion>,
}

pub open spec fn versions_view(vs: Seq<ObjectVersion>) -> Seq<VersionView> {
    vs.map_values(|v: ObjectVersion| v@)
}

pub open spec fn versions_wf(vs: Seq<ObjectVersion>) -> bool {
    forall|i: int| 0 <= i < vs.len() ==> (#[trigger] vs[i]).wf()
}

/// The current version of a version list: its first, unless that is a
/// delete marker.
pub open spec fn current_spec(vs: Seq<VersionView>) -> Option<VersionView> {
    if vs.len() > 0 && !vs[0].delete_marker {
        Some(vs[0])
    } else {
        None
    }
}

impl S3Object {
    /// An object with a single version.
    pub fn new(key: String, version: ObjectVersion) -> (o: Self)
        ensures
            o.key@ == key@,
            versions_view(o.versions@) == seq![version@],
            o.versions@ == seq![version],
    {
        let mut versions: Vec<ObjectVersion> = Vec::new();
        versions.push(version);
        proof {
            assert(versions_view(versions@) =~= seq![versions@[0]@]);
        }
        S3Object { key, versions }
    }

    /// The current version: the newest, unless it is a delete marker.
    pub fn current(&self) -> (r: Option<&ObjectVersion>)
        ensures
            match current_spec(versions_view(self.versions@)) {
                Some(v) => r matches Some(x) && x@ == v && *x == self.versions@[0],
                None => r is None,
            },
    {
        if self.versions.len() > 0 && !self.versions[0].delete_marker {
            Some(&self.versions[0])
        } else {
            None
        }
    }

    /// The newest version, delete marker or not.
    pub fn latest(&self) -> (r: Option<&ObjectVersion>)
        ensures
            self.versions@.len() > 0 ==> (r matches Some(x) && *x == self.versions@[0]),
            self.versions@.len() == 0 ==> r is None,
    {
        if self.versions.len() > 0 {
            Some(&self.versions[0])
        } else {
            None
        }
    }
}


// ---------------------------------------------------------------------------
// The objects of a bucket, sorted by key
// ---------------------------------------------------------------------------

/// The keys ascend strictly.
pub open spec fn keys_sorted(objs: Seq<S3Object>) -> bool {
    forall|i: int, j: int|
        #![trigger objs[i], objs[j]]
        0 <= i < j < objs.len() ==> seq_lt(objs[i].key@, objs[j].key@)
}

pub open spec fn objects_wf(objs: Seq<S3Object>) -> bool {
    &&& keys_sorted(objs)
    &&& forall|i: int| 0 <= i < objs.len() ==> versions_wf((#[trigger] objs[i]).versions@)
}

/// Some object of `objs` has the key `k`.
pub open spec fn has_key(objs: Seq<S3Object>, k: Seq<char>) -> bool {
    exists|i: int| 0 <= i < objs.len() && (#[trigger] objs[i]).key@ == k
}

/// What a bucket holds: each key with its versions, newest first.
pub open spec fn contents(objs: Seq<S3Object>) -> Map<Seq<char>, Seq<VersionView>> {
    Map::new(
        |k: Seq<char>| has_key(objs, k),
        |k: Seq<char>|
            versions_view(objs[choose|i: int| 0 <= i < objs.len() && (#[trigger] objs[i]).key@ == k].versions@),
    )
}

/// The keys of `objs` in order.
pub open spec fn key_seq(objs: Seq<S3Object>) -> Seq<Seq<char>> {
    objs.map_values(|o: S3Object| o.key@)
}

/// In sorted objects each key sits at one index, and `contents` gives the
/// versions stored there.
pub proof fn lemma_contents_at(objs: Seq<S3Object>, i: int)
    requires
        keys_sorted(objs),
        0 <= i < objs.len(),
    ensures
        contents(objs).contains_key(objs[i].key@),
        contents(objs)[objs[i].key@] == versions_view(objs[i].versions@),
        forall|j: int| 0 <= j < objs.len() && (#[trigger] objs[j]).key@ == objs[i].key@ ==> j == i,
{
    assert forall|j: int| 0 <= j < objs.len() && (#[trigger] objs[j]).key@ == objs[i].key@ implies j == i by {
        if j < i {
            assert(seq_lt(objs[j].key@, objs[i].key@));
            lemma_lt_irreflexive(objs[i].key@);
        } else if j > i {
            assert(seq_lt(objs[i].key@, objs[j].key@));
            lemma_lt_irreflexive(objs[i].key@);
        }
    }
    assert(has_key(objs, objs[i].key@));
}

/// Two sorted object lists hold the same when they agree key by key.
pub proof fn lemma_contents_ext(a: Seq<S3Object>, b: Seq<S3Object>, m: Map<Seq<char>, Seq<VersionView>>)
    requires
        keys_sorted(b),
        forall|k: Seq<char>| #[trigger] has_key(b, k) <==> m.contains_key(k),
        forall|i: int| 0 <= i < b.len() ==> m[(#[trigger] b[i]).key@] == versions_view(b[i].versions@),
        a == b,
    ensures
        contents(b) == m,
{
    assert forall|k: Seq<char>| #[trigger] contents(b).contains_key(k) implies contents(b)[k] == m[k] by {
        let i = choose|i: int| 0 <= i < b.len() && (#[trigger] b[i]).key@ == k;
        lemma_contents_at(b, i);
    }
    assert(contents(b) =~= m);
}

/// Finds `key` in sorted objects: its index when present; otherwise the
/// index at which it would be inserted.
pub fn locate(objs: &Vec<S3Object>, key: &str) -> (r: (bool, usize))
    requires
        keys_sorted(objs@),
    ensures
        r.1 <= objs@.len(),
        r.0 ==> r.1 < objs@.len() && objs@[r.1 as int].key@ == key@,
        !r.0 ==> !has_key(objs@, key@),
        !r.0 ==> forall|j: int| 0 <= j < r.1 ==> seq_lt((#[trigger] objs@[j]).key@, key@),
        !r.0 ==> forall|j: int| r.1 <= j < objs@.len() ==> seq_lt(key@, (#[trigger] objs@[j]).key@),
{
    let kc = chars_of(key);
    let mut i: usize = 0;
    while i < objs.len()
        invariant
            i <= objs@.len(),
            kc@ == key@,
            keys_sorted(objs@),
            forall|j: int| 0 <= j < i ==> seq_lt((#[trigger] objs@[j]).key@, key@),
        decreases objs@.len() - i,
    {
        if objs[i].key.as_str().eq(key) {
            return (true, i);
        }
        let oc = chars_of(objs[i].key.as_str());
        if str_lt(kc.as_slice(), oc.as_slice()) {
            proof {
                assert forall|j: int| i <= j < objs@.len() implies seq_lt(key@, (#[trigger] objs@[j]).key@) by {
                    if j > i {
                        assert(seq_lt(objs@[i as int].key@, objs@[j].key@));
                        lemma_lt_transitive(key@, objs@[i as int].key@, objs@[j].key@);
                    }
                }
                assert forall|j: int| 0 <= j < objs@.len() implies (#[trigger] objs@[j]).key@ != key@ by {
                    lemma_lt_irreflexive(key@);
                }
            }
            return (false, i);
        }
        proof {
            lemma_lt_total(key@, objs@[i as int].key@);
        }
        i = i + 1;
    }
    proof {
        assert forall|j: int| 0 <= j < objs@.len() implies (#[trigger] objs@[j]).key@ != key@ by {
            lemma_lt_irreflexive(key@);
        }
    }
    (false, i)
}

/// The versions of an object after a new version is stored: it replaces
/// them all when its id is `null`, and goes in front otherwise.
pub open spec fn stored_versions(old: Option<Seq<VersionView>>, v: VersionView) -> Seq<VersionView> {
    stored_versions_mode(old, v, false)
}

/// As `stored_versions`, but with `front` the new version always goes in
/// front, whatever its id.
pub open spec fn stored_versions_mode(old: Option<Seq<VersionView>>, v: VersionView, front: bool) -> Seq<VersionView> {
    match old {
        None => seq![v],
        Some(vs) => if !front && v.version_id == "null"@ {
            seq![v]
        } else {
            seq![v] + vs
        },
    }
}

/// The data of the newest version that a store replaced, if there was one.
pub open spec fn replaced_data(old: Option<Seq<VersionView>>) -> Option<DataView> {
    match old {
        Some(vs) => if vs.len() > 0 {
            Some(vs[0].data)
        } else {
            None
        },
        None => None,
    }
}

/// Stores `version` under `key` in sorted objects.
fn store_version(objs: &mut Vec<S3Object>, key: &str, version: ObjectVersion, front: bool) -> (prev: Option<ObjectDataRef>)
    requires
        objects_wf(old(objs)@),
        version.wf(),
    ensures
        objects_wf(final(objs)@),
        contents(final(objs)@) == contents(old(objs)@).insert(
            key@,
            stored_versions_mode(contents(old(objs)@).get(key@), version@, front),
        ),
        match prev {
            Some(d) => replaced_data(contents(old(objs)@).get(key@)) == Some(d@),
            None => replaced_data(contents(old(objs)@).get(key@)) is None,
        },
{
    let ghost old_objs = objs@;
    let ghost vv = version@;
    let (found, idx) = locate(objs, key);
    if found {
        proof {
            lemma_contents_at(old_objs, idx as int);
        }
        let ghost old_vs = versions_view(old_objs[idx as int].versions@);
        let obj = &mut objs[idx];
        let prev = if obj.versions.len() > 0 {
            Some(obj.versions[0].data.copy())
        } else {
            None
        };
        let ghost before = obj.versions@;
        if !front && version.version_id.as_str().eq("null") {
            obj.versions = Vec::new();
            obj.versions.push(version);
            proof {
                assert(versions_view(obj.versions@) =~= seq![vv]);
            }
        } else {
            obj.versions.insert(0, version);
            proof {
                assert(versions_view(obj.versions@) =~= seq![vv] + versions_view(before));
            }
        }
        proof {
            let new_objs = objs@;
            let m = contents(old_objs).insert(key@, stored_versions_mode(Some(old_vs), vv, front));
            assert(new_objs =~= old_objs.update(idx as int, new_objs[idx as int]));
            assert(keys_sorted(new_objs)) by {
                assert forall|i: int, j: int|
                    #![trigger new_objs[i], new_objs[j]]
                    0 <= i < j < new_objs.len() implies seq_lt(new_objs[i].key@, new_objs[j].key@) by {
                    assert(old_objs[i].key@ == new_objs[i].key@);
                    assert(old_objs[j].key@ == new_objs[j].key@);
                    assert(seq_lt(old_objs[i].key@, old_objs[j].key@));
                }
            }
            assert forall|k: Seq<char>| #[trigger] has_key(new_objs, k) <==> m.contains_key(k) by {
                if has_key(new_objs, k) {
                    let i = choose|i: int| 0 <= i < new_objs.len() && (#[trigger] new_objs[i]).key@ == k;
                    assert(old_objs[i].key@ == k);
                }
                if has_key(old_objs, k) {
                    let i = choose|i: int| 0 <= i < old_objs.len() && (#[trigger] old_objs[i]).key@ == k;
                    assert(new_objs[i].key@ == k);
                }
            }
            assert forall|i: int| 0 <= i < new_objs.len() implies m[(#[trigger] new_objs[i]).key@] == versions_view(new_objs[i].versions@) by {
                if i != idx {
                    lemma_contents_at(old_objs, i);
                    if old_objs[i].key@ == key@ {
                        assert(false);
                    }
                }
            }
            lemma_contents_ext(new_objs, new_objs, m);
            assert(objects_wf(new_objs)) by {
                assert forall|i: int| 0 <= i < new_objs.len() implies versions_wf((#[trigger] new_objs[i]).versions@) by {
                    if i != idx {
                        assert(new_objs[i] == old_objs[i]);
                    } else {
                        assert(versions_wf(old_objs[idx as int].versions@));
                    }
                }
            }
        }
        prev
    } else {
        let obj = S3Object::new(key.to_string(), version);
        objs.insert(idx, obj);
        proof {
            let new_objs = objs@;
            let m = contents(old_objs).insert(key@, seq![vv]);
            assert(new_objs =~= old_objs.insert(idx as int, new_objs[idx as int]));
            assert forall|i: int| 0 <= i < new_objs.len() && i != idx implies (#[trigger] new_objs[i]) == old_objs[if i < idx { i } else { i - 1 }] by {}
            assert(keys_sorted(new_objs)) by {
                assert forall|i: int, j: int|
                    #![trigger new_objs[i], new_objs[j]]
                    0 <= i < j < new_objs.len() implies seq_lt(new_objs[i].key@, new_objs[j].key@) by {
                    let i2 = if i < idx { i } else { i - 1 };
                    let j2 = if j < idx { j } else { j - 1 };
                    if i == idx {
                        assert(seq_lt(key@, old_objs[j2].key@));
                    } else if j == idx {
                        assert(seq_lt(old_objs[i2].key@, key@));
                    } else {
                        assert(seq_lt(old_objs[i2].key@, old_objs[j2].key@));
                    }
                }
            }
            assert forall|k: Seq<char>| #[trigger] has_key(new_objs, k) <==> m.contains_key(k) by {
                if has_key(new_objs, k) {
                    let i = choose|i: int| 0 <= i < new_objs.len() && (#[trigger] new_objs[i]).key@ == k;
                    if i != idx {
                        let i2 = if i < idx { i } else { i - 1 };
                        assert(old_objs[i2].key@ == k);
                    }
                }
                if has_key(old_objs, k) {
                    let i = choose|i: int| 0 <= i < old_objs.len() && (#[trigger] old_objs[i]).key@ == k;
                    let i3 = if i < idx { i } else { i + 1 };
                    assert(new_objs[i3].key@ == k);
                }
                if k == key@ {
                    assert(new_objs[idx as int].key@ == k);
                }
            }
            assert forall|i: int| 0 <= i < new_objs.len() implies m[(#[trigger] new_objs[i]).key@] == versions_view(new_objs[i].versions@) by {
                if i != idx {
                    let i2 = if i < idx { i } else { i - 1 };
                    lemma_contents_at(old_objs, i2);
                }
            }
            lemma_contents_ext(new_objs, new_objs, m);
            assert(objects_wf(new_objs)) by {
                assert forall|i: int| 0 <= i < new_objs.len() implies versions_wf((#[trigger] new_objs[i]).versions@) by {
                    if i != idx {
                        let i2 = if i < idx { i } else { i - 1 };
                        assert(versions_wf(old_objs[i2].versions@));
                    }
                }
            }
            assert(contents(old_objs).get(key@) is None);
        }
        None
    }
}

/// The index of the first version with id `vid`, searching from `from`.
pub open spec fn first_with_id(vs: Seq<VersionView>, vid: Seq<char>, from: int) -> Option<int>
    decreases vs.len() - from,
{
    if from < 0 || from >= vs.len() {
        None
    } else if vs[from].version_id == vid {
        Some(from)
    } else {
        first_with_id(vs, vid, from + 1)
    }
}

/// The first version of an object with id `vid`.
fn find_version(versions: &Vec<ObjectVersion>, vid: &str) -> (r: Option<usize>)
    ensures
        match first_with_id(versions_view(versions@), vid@, 0) {
            Some(i) => (r matches Some(k) && k == i) && 0 <= i < versions@.len(),
            None => r is None,
        },
{
    let ghost vs = versions_view(versions@);
    let mut i: usize = 0;
    while i < versions.len()
        invariant
            i <= versions@.len(),
            vs == versions_view(versions@),
            first_with_id(vs, vid@, 0) == first_with_id(vs, vid@, i as int),
        decreases versions@.len() - i,
    {
        if versions[i].version_id.as_str().eq(vid) {
            return Some(i);
        }
        i = i + 1;
    }
    None
}

/// Removes the object at `idx` from sorted objects.
fn remove_object(objs: &mut Vec<S3Object>, idx: usize) -> (o: S3Object)
    requires
        objects_wf(old(objs)@),
        idx < old(objs)@.len(),
    ensures
        objects_wf(final(objs)@),
        o == old(objs)@[idx as int],
        contents(final(objs)@) == contents(old(objs)@).remove(o.key@),
{
    let ghost old_objs = objs@;
    let o = objs.remove(idx);
    proof {
        let new_objs = objs@;
        let key = o.key@;
        let m = contents(old_objs).remove(key);
        lemma_contents_at(old_objs, idx as int);
        assert forall|i: int| 0 <= i < new_objs.len() implies (#[trigger] new_objs[i]) == old_objs[if i < idx { i } else { i + 1 }] by {}
        assert(keys_sorted(new_objs)) by {
            assert forall|i: int, j: int|
                #![trigger new_objs[i], new_objs[j]]
                0 <= i < j < new_objs.len() implies seq_lt(new_objs[i].key@, new_objs[j].key@) by {
                let i2 = if i < idx { i } else { i + 1 };
                let j2 = if j < idx { j } else { j + 1 };
                assert(seq_lt(old_objs[i2].key@, old_objs[j2].key@));
            }
        }
        assert forall|k: Seq<char>| #[trigger] has_key(new_objs, k) <==> m.contains_key(k) by {
            if has_key(new_objs, k) {
                let i = choose|i: int| 0 <= i < new_objs.len() && (#[trigger] new_objs[i]).key@ == k;
                let i2 = if i < idx { i } else { i + 1 };
                assert(old_objs[i2].key@ == k);
                assert(i2 != idx);
            }
            if m.contains_key(k) {
                let i = choose|i: int| 0 <= i < old_objs.len() && (#[trigger] old_objs[i]).key@ == k;
                assert(i != idx);
                let i3 = if i < idx { i } else { i - 1 };
                assert(new_objs[i3].key@ == k);
            }
        }
        assert forall|i: int| 0 <= i < new_objs.len() implies m[(#[trigger] new_objs[i]).key@] == versions_view(new_objs[i].versions@) by {
            let i2 = if i < idx { i } else { i + 1 };
            lemma_contents_at(old_objs, i2);
        }
        lemma_contents_ext(new_objs, new_objs, m);
        assert(objects_wf(new_objs)) by {
            assert forall|i: int| 0 <= i < new_objs.len() implies versions_wf((#[trigger] new_objs[i]).versions@) by {
                let i2 = if i < idx { i } else { i + 1 };
                assert(versions_wf(old_objs[i2].versions@));
            }
        }
    }
    o
}

// ---------------------------------------------------------------------------
// Multipart uploads
// ---------------------------------------------------------------------------

pub struct UploadPart {
    pub part_number: u32,
    pub etag: String,
    pub size: u64,
    pub data: ObjectDataRef,
    pub last_modified: i64,
}

pub struct PartView {
    pub part_number: u32,
    pub etag: Seq<char>,
    pub size: u64,
    pub data: DataView,
    pub last_modified: i64,
}

impl View for UploadPart {
    type V = PartView;

    open spec fn view(&self) -> PartView {
        PartView {
            part_number: self.part_number,
            etag: self.etag@,
            size: self.size,
            data: self.data@,
            last_modified: self.last_modified,
        }
    }
}

pub struct MultipartUpload {
    pub upload_id: String,
    pub bucket: String,
    pub key: String,
    pub initiated: i64,
    pub content_type: String,
    pub metadata: StrMap<String>,
    /// The parts uploaded so far, at most one per part number.
    pub parts: Vec<UploadPart>,
}

pub struct UploadView {
    pub upload_id: Seq<char>,
    pub bucket: Seq<char>,
    pub key: Seq<char>,
    pub initiated: i64,
    pub content_type: Seq<char>,
    pub metadata: Map<Seq<char>, Seq<char>>,
    /// Part number to part.
    pub parts: Map<u32, PartView>,
}

/// The parts of an upload by number.
pub open spec fn parts_map(parts: Seq<UploadPart>) -> Map<u32, PartView> {
    Map::new(
        |n: u32| exists|i: int| 0 <= i < parts.len() && (#[trigger] parts[i]).part_number == n,
        |n: u32| parts[choose|i: int| 0 <= i < parts.len() && (#[trigger] parts[i]).part_number == n]@,
    )
}

pub open spec fn parts_distinct(parts: Seq<UploadPart>) -> bool {
    forall|i: int, j: int|
        #![trigger parts[i], parts[j]]
        0 <= i < parts.len() && 0 <= j < parts.len() && i != j ==> parts[i].part_number
            != parts[j].part_number
}

impl View for MultipartUpload {
    type V = UploadView;

    open spec fn view(&self) -> UploadView {
        UploadView {
            upload_id: self.upload_id@,
            bucket: self.bucket@,
            key: self.key@,
            initiated: self.initiated,
            content_type: self.content_type@,
            metadata: self.metadata@,
            parts: parts_map(self.parts@),
        }
    }
}

impl MultipartUpload {
    pub open spec fn wf(&self) -> bool {
        &&& self.metadata.wf()
        &&& parts_distinct(self.parts@)
    }
}

/// A part stored in an upload's parts, replacing one of the same number.
fn put_part(parts: &mut Vec<UploadPart>, part: UploadPart)
    requires
        parts_distinct(old(parts)@),
    ensures
        parts_distinct(final(parts)@),
        parts_map(final(parts)@) == parts_map(old(parts)@).insert(part.part_number, part@),
{
    let ghost old_parts = parts@;
    let ghost pv = part@;
    let n = part.part_number;
    let found = find_part(parts, n);
    match found {
        Some(i) => {
            parts.set(i, part);
            proof {
                let np = parts@;
                assert forall|j: int| 0 <= j < np.len() && j != i implies (#[trigger] np[j]) == old_parts[j] by {}
                assert(parts_distinct(np)) by {
                    assert forall|a: int, b: int|
                        #![trigger np[a], np[b]]
                        0 <= a < np.len() && 0 <= b < np.len() && a != b implies np[a].part_number != np[b].part_number by {
                        assert(old_parts[a].part_number != old_parts[b].part_number);
                    }
                }
                let m = parts_map(old_parts).insert(n, pv);
                assert forall|k: u32| #[trigger] parts_map(np).contains_key(k) == m.contains_key(k) by {
                    if parts_map(np).contains_key(k) {
                        let a = choose|a: int| 0 <= a < np.len() && (#[trigger] np[a]).part_number == k;
                        if a != i {
                            assert(old_parts[a].part_number == k);
                        }
                    }
                    if parts_map(old_parts).contains_key(k) {
                        let a = choose|a: int| 0 <= a < old_parts.len() && (#[trigger] old_parts[a]).part_number == k;
                        assert(np[a].part_number == k);
                    }
                    if k == n {
                        assert(np[i as int].part_number == k);
                    }
                }
                assert forall|k: u32| #[trigger] parts_map(np).contains_key(k) implies parts_map(np)[k] == m[k] by {
                    let a = choose|a: int| 0 <= a < np.len() && (#[trigger] np[a]).part_number == k;
                    if a != i {
                        let b = choose|b: int| 0 <= b < old_parts.len() && (#[trigger] old_parts[b]).part_number == k;
                        assert(old_parts[a].part_number == k);
                        if a != b {
                            assert(old_parts[a].part_number != old_parts[b].part_number);
                        }
                    } else {
                        assert(np[a]@ == pv);
                    }
                }
                assert(parts_map(np) =~= m);
            }
        },
        None => {
            parts.push(part);
            proof {
                let np = parts@;
                assert forall|j: int| 0 <= j < old_parts.len() implies (#[trigger] old_parts[j]).part_number != n by {
                    if old_parts[j].part_number == n {
                        assert(parts_map(old_parts).contains_key(n));
                    }
                }
                assert(parts_distinct(np)) by {
                    assert forall|a: int, b: int|
                        #![trigger np[a], np[b]]
                        0 <= a < np.len() && 0 <= b < np.len() && a != b implies np[a].part_number != np[b].part_number by {
                        if a < old_parts.len() && b < old_parts.len() {
                            assert(old_parts[a].part_number != old_parts[b].part_number);
                        } else if a < old_parts.len() {
                            assert(old_parts[a].part_number != n);
                        } else {
                            assert(old_parts[b].part_number != n);
                        }
                    }
                }
                let m = parts_map(old_parts).insert(n, pv);
                assert forall|k: u32| #[trigger] parts_map(np).contains_key(k) == m.contains_key(k) by {
                    if parts_map(np).contains_key(k) {
                        let a = choose|a: int| 0 <= a < np.len() && (#[trigger] np[a]).part_number == k;
                        if a < old_parts.len() {
                            assert(old_parts[a].part_number == k);
                        }
                    }
                    if parts_map(old_parts).contains_key(k) {
                        let a = choose|a: int| 0 <= a < old_parts.len() && (#[trigger] old_parts[a]).part_number == k;
                        assert(np[a].part_number == k);
                    }
                    if k == n {
                        assert(np[old_parts.len() as int].part_number == k);
                    }
                }
                assert forall|k: u32| #[trigger] parts_map(np).contains_key(k) implies parts_map(np)[k] == m[k] by {
                    let a = choose|a: int| 0 <= a < np.len() && (#[trigger] np[a]).part_number == k;
                    if a < old_parts.len() {
                        let b = choose|b: int| 0 <= b < old_parts.len() && (#[trigger] old_parts[b]).part_number == k;
                        if a != b {
                            assert(old_parts[a].part_number != old_parts[b].part_number);
                        }
                    }
                }
                assert(parts_map(np) =~= m);
            }
        },
    }
}

/// The index of the part numbered `n`.
pub(crate) fn find_part(parts: &Vec<UploadPart>, n: u32) -> (r: Option<usize>)
    requires
        parts_distinct(parts@),
    ensures
        match r {
            Some(i) => i < parts@.len() && parts@[i as int].part_number == n && parts_map(parts@).contains_key(n)
                && parts_map(parts@)[n] == parts@[i as int]@,
            None => !parts_map(parts@).contains_key(n),
        },
{
    let mut i: usize = 0;
    while i < parts.len()
        invariant
            i <= parts@.len(),
            parts_distinct(parts@),
            forall|j: int| 0 <= j < i ==> (#[trigger] parts@[j]).part_number != n,
        decreases parts@.len() - i,
    {
        if parts[i].part_number == n {
            proof {
                assert(parts_map(parts@).contains_key(n));
                let b = choose|b: int| 0 <= b < parts@.len() && (#[trigger] parts@[b]).part_number == n;
                if b != i {
                    assert(parts@[b].part_number != parts@[i as int].part_number);
                }
            }
            return Some(i);
        }
        i = i + 1;
    }
    None
}

// ---------------------------------------------------------------------------
// The store
// ---------------------------------------------------------------------------

/// One account and region's buckets, objects and uploads.
pub struct S3Store {
    pub buckets: StrMap<Bucket>,
    /// Bucket name to its objects, sorted by key.
    pub objects: StrMap<Vec<S3Object>>,
    pub multipart_uploads: StrMap<MultipartUpload>,
}

pub struct S3StoreView {
    pub buckets: Map<Seq<char>, BucketView>,
    /// Bucket name to key to versions, newest first.
    pub objects: Map<Seq<char>, Map<Seq<char>, Seq<VersionView>>>,
    pub uploads: Map<Seq<char>, UploadView>,
}

pub open spec fn objects_view(m: Map<Seq<char>, Seq<S3Object>>) -> Map<Seq<char>, Map<Seq<char>, Seq<VersionView>>> {
    Map::new(|b: Seq<char>| m.contains_key(b), |b: Seq<char>| contents(m[b]))
}

impl View for S3Store {
    type V = S3StoreView;

    open spec fn view(&self) -> S3StoreView {
        S3StoreView {
            buckets: self.buckets@,
            objects: objects_view(self.objects@),
            uploads: self.multipart_uploads@,
        }
    }
}

/// What bucket `b` holds (nothing when it has no entry).
pub open spec fn bucket_contents(s: S3StoreView, b: Seq<char>) -> Map<Seq<char>, Seq<VersionView>> {
    if s.objects.contains_key(b) {
        s.objects[b]
    } else {
        Map::empty()
    }
}

/// Versioning is enabled on bucket `b`.
pub open spec fn versioning_on(s: S3StoreView, b: Seq<char>) -> bool {
    s.buckets.contains_key(b) && s.buckets[b].versioning == "Enabled"@
}

/// The version that `put_object` builds for `data`: file-backed data gets
/// size 0 and an empty ETag, which a caller with a file supplies through
/// `put_object_version` instead.
pub open spec fn put_version_spec(
    data: DataView,
    content_type: Seq<char>,
    metadata: Map<Seq<char>, Seq<char>>,
    version_id: Seq<char>,
    now: i64,
) -> VersionView {
    match data {
        DataView::Inline(b) => inline_version_spec(b, content_type, metadata, version_id, now),
        DataView::FileRef(p) => file_version_spec(p, 0, Seq::empty(), content_type, metadata, version_id, now),
    }
}

/// The store after `v` is stored under `key` in `bucket`.
pub open spec fn stored_spec(s: S3StoreView, bucket: Seq<char>, key: Seq<char>, v: VersionView, front: bool) -> S3StoreView {
    S3StoreView {
        objects: s.objects.insert(
            bucket,
            bucket_contents(s, bucket).insert(key, stored_versions_mode(bucket_contents(s, bucket).get(key), v, front)),
        ),
        ..s
    }
}

pub open spec fn uploads_wf(us: Seq<MultipartUpload>) -> bool {
    forall|i: int| 0 <= i < us.len() ==> (#[trigger] us[i]).wf()
}

impl S3Store {
    pub open spec fn wf(&self) -> bool {
        &&& self.buckets.wf()
        &&& self.objects.wf()
        &&& self.multipart_uploads.wf()
        &&& forall|b: Seq<char>| #[trigger] self.objects@.contains_key(b) ==> objects_wf(self.objects@[b])
        &&& uploads_wf(self.multipart_uploads.vals_seq())
    }

    /// An empty store.
    pub fn new() -> (s: Self)
        ensures
            s.wf(),
            s@.buckets == Map::<Seq<char>, BucketView>::empty(),
            s@.objects == Map::<Seq<char>, Map<Seq<char>, Seq<VersionView>>>::empty(),
            s@.uploads == Map::<Seq<char>, UploadView>::empty(),
    {
        let s = S3Store { buckets: StrMap::new(), objects: StrMap::new(), multipart_uploads: StrMap::new() };
        proof {
            assert(objects_view(s.objects@) =~= Map::<Seq<char>, Map<Seq<char>, Seq<VersionView>>>::empty());
        }
        s
    }
}

/// The current version of `key` in `bucket`.
pub open spec fn object_current(s: S3StoreView, bucket: Seq<char>, key: Seq<char>) -> Option<VersionView> {
    if bucket_contents(s, bucket).contains_key(key) {
        current_spec(bucket_contents(s, bucket)[key])
    } else {
        None
    }
}

/// The version of `key` in `bucket` with id `vid` (the first, newest
/// first, if several share it).
pub open spec fn object_version_spec(s: S3StoreView, bucket: Seq<char>, key: Seq<char>, vid: Seq<char>) -> Option<VersionView> {
    if bucket_contents(s, bucket).contains_key(key) {
        let vs = bucket_contents(s, bucket)[key];
        match first_with_id(vs, vid, 0) {
            Some(i) => Some(vs[i]),
            None => None,
        }
    } else {
        None
    }
}

/// The store after `put_object`.
pub open spec fn put_object_spec(
    s: S3StoreView,
    bucket: Seq<char>,
    key: Seq<char>,
    data: DataView,
    content_type: Seq<char>,
    metadata: Map<Seq<char>, Seq<char>>,
    fresh_id: Seq<char>,
    now: i64,
) -> S3StoreView {
    stored_spec(
        s,
        bucket,
        key,
        put_version_spec(data, content_type, metadata, version_id_spec(versioning_on(s, bucket), fresh_id), now),
        false,
    )
}

impl S3Store {
    /// The bucket named `name`.
    pub fn get_bucket(&self, name: &str) -> (r: Option<&Bucket>)
        requires
            self.wf(),
        ensures
            match r {
                Some(b) => self@.buckets.contains_key(name@) && b@ == self@.buckets[name@],
                None => !self@.buckets.contains_key(name@),
            },
    {
        self.buckets.get(name)
    }

    /// Whether a bucket named `name` exists.
    pub fn bucket_exists(&self, name: &str) -> (b: bool)
        requires
            self.wf(),
        ensures
            b == self@.buckets.contains_key(name@),
    {
        self.buckets.contains_key(name)
    }

    fn versioning_enabled_for(&self, bucket: &str) -> (b: bool)
        requires
            self.wf(),
        ensures
            b == versioning_on(self@, bucket@),
    {
        match self.buckets.get(bucket) {
            Some(b) => b.versioning_enabled(),
            None => false,
        }
    }

    /// Creates bucket `name` at time `now`, replacing any bucket of that
    /// name, and gives it an empty object list unless it has one.
    pub fn create_bucket_at(&mut self, name: &str, region: &str, now: i64) -> (b: &Bucket)
        requires
            old(self).wf(),
        ensures
            final(self).wf(),
            b@ == new_bucket_spec(name@, region@, now),
            final(self)@ == (S3StoreView {
                buckets: old(self)@.buckets.insert(name@, new_bucket_spec(name@, region@, now)),
                objects: if old(self)@.objects.contains_key(name@) {
                    old(self)@.objects
                } else {
                    old(self)@.objects.insert(name@, Map::empty())
                },
                uploads: old(self)@.uploads,
            }),
    {
        let bucket = Bucket::new_at(name.to_string(), region.to_string(), now);
        self.buckets.insert(name.to_string(), bucket);
        if !self.objects.contains_key(name) {
            let ghost before = self.objects;
            self.objects.insert(name.to_string(), Vec::new());
            proof {
                assert forall|b: Seq<char>| #[trigger] self.objects@.contains_key(b) implies objects_wf(self.objects@[b]) by {
                    if b != name@ {
                        assert(before@.contains_key(b));
                    } else {
                        assert(self.objects@[b] =~= Seq::<S3Object>::empty());
                    }
                }
                assert(contents(Seq::<S3Object>::empty()) =~= Map::empty());
                assert(objects_view(self.objects@) =~= objects_view(before@).insert(name@, Map::empty()));
            }
        }
        self.buckets.get(name).unwrap()
    }
}

impl S3Store {
    /// Creates bucket `name` now (see `create_bucket_at`).
    pub fn create_bucket(&mut self, name: &str, region: &str) -> (b: &Bucket)
        requires
            old(self).wf(),
        ensures
            final(self).wf(),
            exists|now: i64|
                b@ == #[trigger] new_bucket_spec(name@, region@, now) && final(self)@ == (S3StoreView {
                    buckets: old(self)@.buckets.insert(name@, new_bucket_spec(name@, region@, now)),
                    objects: if old(self)@.objects.contains_key(name@) {
                        old(self)@.objects
                    } else {
                        old(self)@.objects.insert(name@, Map::empty())
                    },
                    uploads: old(self)@.uploads,
                }),
    {
        let now = now_millis();
        self.create_bucket_at(name, region, now)
    }

    /// Deletes bucket `name` and its objects; whether it existed.
    pub fn delete_bucket(&mut self, name: &str) -> (removed: bool)
        requires
            old(self).wf(),
        ensures
            final(self).wf(),
            removed == old(self)@.buckets.contains_key(name@),
            removed ==> final(self)@ == (S3StoreView {
                buckets: old(self)@.buckets.remove(name@),
                objects: old(self)@.objects.remove(name@),
                uploads: old(self)@.uploads,
            }),
            !removed ==> final(self)@ == old(self)@,
    {
        match self.buckets.remove(name) {
            Some(_) => {
                let ghost before = self.objects;
                self.objects.remove(name);
                proof {
                    assert(objects_view(self.objects@) =~= objects_view(before@).remove(name@));
                }
                true
            },
            None => {
                proof {
                    assert(self.buckets@ =~= old(self).buckets@);
                }
                false
            },
        }
    }

    /// Whether bucket `name` holds no object.
    pub fn is_bucket_empty(&self, name: &str) -> (b: bool)
        requires
            self.wf(),
        ensures
            b == bucket_contents(self@, name@).is_empty(),
    {
        match self.objects.get(name) {
            Some(objs) => {
                proof {
                    assert(self.objects@.contains_key(name@));
                    if objs@.len() > 0 {
                        lemma_contents_at(objs@, 0);
                    } else {
                        assert(contents(objs@) =~= Map::empty());
                    }
                }
                objs.len() == 0
            },
            None => true,
        }
    }

    /// Whether an upload into bucket `bucket` is in progress.
    pub fn has_incomplete_multipart_uploads(&self, bucket: &str) -> (b: bool)
        requires
            self.wf(),
        ensures
            b == exists|u: Seq<char>| #[trigger] self@.uploads.contains_key(u) && self@.uploads[u].bucket == bucket@,
    {
        let n = self.multipart_uploads.len();
        proof {
            self.multipart_uploads.lemma_enumeration();
        }
        let mut i: usize = 0;
        while i < n
            invariant
                self.wf(),
                i <= n,
                n == self.multipart_uploads.vals_seq().len(),
                self.multipart_uploads.keys_seq().len() == n,
                forall|j: int| 0 <= j < i ==> (#[trigger] self.multipart_uploads.vals_seq()[j]).bucket@ != bucket@,
            decreases n - i,
        {
            let u = self.multipart_uploads.value_at_index(i);
            if u.bucket.as_str().eq(bucket) {
                proof {
                    self.multipart_uploads.lemma_enumeration();
                    let k = self.multipart_uploads.keys_seq()[i as int];
                    assert(self@.uploads.contains_key(k));
                }
                return true;
            }
            i = i + 1;
        }
        proof {
            self.multipart_uploads.lemma_enumeration();
            assert forall|u: Seq<char>| #[trigger] self@.uploads.contains_key(u) implies self@.uploads[u].bucket != bucket@ by {
                let j = choose|j: int| 0 <= j < n && self.multipart_uploads.keys_seq()[j] == u;
                assert(self.multipart_uploads.keys_seq().contains(u));
                let j = choose|j: int| 0 <= j < self.multipart_uploads.keys_seq().len() && self.multipart_uploads.keys_seq()[j] == u;
                assert(self.multipart_uploads.vals_seq()[j].bucket@ != bucket@);
            }
        }
        false
    }

    /// Stores `version` under `key` in `bucket`, giving the bucket an object
    /// list if it has none.
    fn store_in(&mut self, bucket: &str, key: &str, version: ObjectVersion, front: bool) -> (prev: Option<ObjectDataRef>)
        requires
            old(self).wf(),
            version.wf(),
        ensures
            final(self).wf(),
            final(self)@ == stored_spec(old(self)@, bucket@, key@, version@, front),
            match prev {
                Some(d) => replaced_data(bucket_contents(old(self)@, bucket@).get(key@)) == Some(d@),
                None => replaced_data(bucket_contents(old(self)@, bucket@).get(key@)) is None,
            },
    {
        let ghost s0 = self@;
        if !self.objects.contains_key(bucket) {
            let ghost before = self.objects;
            self.objects.insert(bucket.to_string(), Vec::new());
            proof {
                assert forall|b: Seq<char>| #[trigger] self.objects@.contains_key(b) implies objects_wf(self.objects@[b]) by {
                    if b != bucket@ {
                        assert(before@.contains_key(b));
                    } else {
                        assert(self.objects@[b] =~= Seq::<S3Object>::empty());
                    }
                }
                assert(contents(Seq::<S3Object>::empty()) =~= Map::empty());
                assert(objects_view(self.objects@) =~= objects_view(before@).insert(bucket@, Map::empty()));
            }
        }
        let ghost s1 = self.objects;
        proof {
            assert(bucket_contents(self@, bucket@) == bucket_contents(s0, bucket@));
            assert(objects_wf(s1@[bucket@]));
        }
        proof {
            s1.lemma_pos(bucket@);
        }
        let prev = match self.objects.get_mut(bucket) {
            Some(objs) => store_version(objs, key, version, front),
            None => {
                proof {
                    assert(false);
                }
                None
            },
        };
        proof {
            StrMap::lemma_update_at(&s1, &self.objects, bucket@);
            let newv = self.objects@[bucket@];
            assert forall|b: Seq<char>| #[trigger] self.objects@.contains_key(b) implies objects_wf(self.objects@[b]) by {
                if b != bucket@ {
                    assert(s1@.contains_key(b));
                }
            }
            assert(objects_view(self.objects@) =~= objects_view(s1@).insert(bucket@, contents(newv)));
            assert(objects_view(s1@).insert(bucket@, contents(newv)) =~= s0.objects.insert(bucket@, contents(newv)));
        }
        prev
    }

    /// Stores `data` under `key` in `bucket` as a new version with the
    /// given fresh id (used when the bucket has versioning enabled) and
    /// time.  Returns the data of the version it displaced as current, if
    /// the key existed.
    pub fn put_object_at(
        &mut self,
        bucket: &str,
        key: &str,
        data: ObjectDataRef,
        content_type: String,
        metadata: StrMap<String>,
        fresh_id: String,
        now: i64,
    ) -> (prev: Option<ObjectDataRef>)
        requires
            old(self).wf(),
            metadata.wf(),
        ensures
            final(self).wf(),
            final(self)@ == put_object_spec(old(self)@, bucket@, key@, data@, content_type@, metadata@, fresh_id@, now),
            match prev {
                Some(d) => replaced_data(bucket_contents(old(self)@, bucket@).get(key@)) == Some(d@),
                None => replaced_data(bucket_contents(old(self)@, bucket@).get(key@)) is None,
            },
    {
        let versioning = self.versioning_enabled_for(bucket);
        let version = match data {
            ObjectDataRef::Inline(bytes) => ObjectVersion::new_at(bytes, content_type, metadata, versioning, fresh_id, now),
            ObjectDataRef::FileRef(path) => ObjectVersion::new_with_file_ref_at(
                path,
                0,
                String::new(),
                content_type,
                metadata,
                versioning,
                fresh_id,
                now,
            ),
        };
        self.store_in(bucket, key, version, false)
    }

    /// Stores `data` under `key` in `bucket` now (see `put_object_at`).
    pub fn put_object(
        &mut self,
        bucket: &str,
        key: &str,
        data: ObjectDataRef,
        content_type: &str,
        metadata: StrMap<String>,
    ) -> (prev: Option<ObjectDataRef>)
        requires
            old(self).wf(),
            metadata.wf(),
        ensures
            final(self).wf(),
            exists|id: Seq<char>, now: i64|
                crate::deps::is_uuid_text(id) && final(self)@ == #[trigger] put_object_spec(old(self)@, bucket@, key@, data@, content_type@, metadata@, id, now),
            match prev {
                Some(d) => replaced_data(bucket_contents(old(self)@, bucket@).get(key@)) == Some(d@),
                None => replaced_data(bucket_contents(old(self)@, bucket@).get(key@)) is None,
            },
    {
        let id = new_uuid();
        let now = now_millis();
        self.put_object_at(bucket, key, data, content_type.to_string(), metadata, id, now)
    }

    /// Stores a version built by the caller under `key` in `bucket`.
    pub fn put_object_version(&mut self, bucket: &str, key: &str, version: ObjectVersion) -> (prev: Option<ObjectDataRef>)
        requires
            old(self).wf(),
            version.wf(),
        ensures
            final(self).wf(),
            final(self)@ == stored_spec(old(self)@, bucket@, key@, version@, false),
            match prev {
                Some(d) => replaced_data(bucket_contents(old(self)@, bucket@).get(key@)) == Some(d@),
                None => replaced_data(bucket_contents(old(self)@, bucket@).get(key@)) is None,
            },
    {
        self.store_in(bucket, key, version, false)
    }

    /// The current version of `key` in `bucket`: `None` when there is no
    /// such object or its newest version is a delete marker.
    pub fn get_object(&self, bucket: &str, key: &str) -> (r: Option<&ObjectVersion>)
        requires
            self.wf(),
        ensures
            match object_current(self@, bucket@, key@) {
                Some(v) => r matches Some(x) && x@ == v && x.wf(),
                None => r is None,
            },
    {
        match self.objects.get(bucket) {
            None => None,
            Some(objs) => {
                proof {
                    assert(self.objects@.contains_key(bucket@));
                    assert(objs@ == self.objects@[bucket@]);
                    assert(bucket_contents(self@, bucket@) == contents(objs@));
                }
                let (found, idx) = locate(objs, key);
                if found {
                    proof {
                        lemma_contents_at(objs@, idx as int);
                    }
                    objs[idx].current()
                } else {
                    None
                }
            },
        }
    }

    /// The version of `key` in `bucket` with id `version_id`.
    pub fn get_object_version(&self, bucket: &str, key: &str, version_id: &str) -> (r: Option<&ObjectVersion>)
        requires
            self.wf(),
        ensures
            match object_version_spec(self@, bucket@, key@, version_id@) {
                Some(v) => r matches Some(x) && x@ == v && x.wf(),
                None => r is None,
            },
    {
        match self.objects.get(bucket) {
            None => None,
            Some(objs) => {
                proof {
                    assert(self.objects@.contains_key(bucket@));
                    assert(objs@ == self.objects@[bucket@]);
                    assert(bucket_contents(self@, bucket@) == contents(objs@));
                }
                let (found, idx) = locate(objs, key);
                if found {
                    proof {
                        lemma_contents_at(objs@, idx as int);
                    }
                    let obj = &objs[idx];
                    let fv = find_version(&obj.versions, version_id);
                    match fv {
                        Some(i) => {
                            proof {
                                assert(first_with_id(versions_view(obj.versions@), version_id@, 0) == Some(i as int));
                                assert(objs@[idx as int].key@ == key@);
                                assert(bucket_contents(self@, bucket@)[key@] == versions_view(obj.versions@));
                                assert(versions_view(obj.versions@)[i as int] == obj.versions@[i as int]@);
                                assert(first_with_id(bucket_contents(self@, bucket@)[key@], version_id@, 0) == Some(i as int));
                                assert(object_version_spec(self@, bucket@, key@, version_id@) == Some(obj.versions@[i as int]@));
                            }
                            Some(&obj.versions[i])
                        },
                        None => None,
                    }
                } else {
                    None
                }
            },
        }
    }
}

/// Replaces the versions of the object at `idx`, returning the old ones.
fn swap_versions(objs: &mut Vec<S3Object>, idx: usize, vs: Vec<ObjectVersion>) -> (old_vs: Vec<ObjectVersion>)
    requires
        objects_wf(old(objs)@),
        idx < old(objs)@.len(),
        versions_wf(vs@),
    ensures
        objects_wf(final(objs)@),
        old_vs@ == old(objs)@[idx as int].versions@,
        final(objs)@.len() == old(objs)@.len(),
        final(objs)@[idx as int].key@ == old(objs)@[idx as int].key@,
        contents(final(objs)@) == contents(old(objs)@).insert(old(objs)@[idx as int].key@, versions_view(vs@)),
{
    let ghost old_objs = objs@;
    let ghost key = old_objs[idx as int].key@;
    let ghost nv = vs@;
    let mut vs = vs;
    let obj = &mut objs[idx];
    std::mem::swap(&mut obj.versions, &mut vs);
    proof {
        let new_objs = objs@;
        let m = contents(old_objs).insert(key, versions_view(nv));
        lemma_contents_at(old_objs, idx as int);
        assert(new_objs =~= old_objs.update(idx as int, new_objs[idx as int]));
        assert(keys_sorted(new_objs)) by {
            assert forall|i: int, j: int|
                #![trigger new_objs[i], new_objs[j]]
                0 <= i < j < new_objs.len() implies seq_lt(new_objs[i].key@, new_objs[j].key@) by {
                assert(old_objs[i].key@ == new_objs[i].key@);
                assert(old_objs[j].key@ == new_objs[j].key@);
                assert(seq_lt(old_objs[i].key@, old_objs[j].key@));
            }
        }
        assert forall|k: Seq<char>| #[trigger] has_key(new_objs, k) <==> m.contains_key(k) by {
            if has_key(new_objs, k) {
                let i = choose|i: int| 0 <= i < new_objs.len() && (#[trigger] new_objs[i]).key@ == k;
                assert(old_objs[i].key@ == k);
            }
            if has_key(old_objs, k) {
                let i = choose|i: int| 0 <= i < old_objs.len() && (#[trigger] old_objs[i]).key@ == k;
                assert(new_objs[i].key@ == k);
            }
            if k == key {
                assert(new_objs[idx as int].key@ == k);
            }
        }
        assert forall|i: int| 0 <= i < new_objs.len() implies m[(#[trigger] new_objs[i]).key@] == versions_view(new_objs[i].versions@) by {
            if i != idx {
                lemma_contents_at(old_objs, i);
                assert(old_objs[i].key@ != key);
            }
        }
        lemma_contents_ext(new_objs, new_objs, m);
        assert(objects_wf(new_objs)) by {
            assert forall|i: int| 0 <= i < new_objs.len() implies versions_wf((#[trigger] new_objs[i]).versions@) by {
                if i != idx {
                    assert(new_objs[i] == old_objs[i]);
                }
            }
        }
    }
    vs
}

/// The delete marker that `delete_object` builds.
pub fn delete_marker_at(version_id: String, now: i64) -> (v: ObjectVersion)
    ensures
        v.wf(),
        v@ == delete_marker_spec(version_id@, now),
{
    ObjectVersion {
        version_id,
        last_modified: now,
        etag: String::new(),
        content_type: String::new(),
        content_encoding: None,
        content_disposition: None,
        cache_control: None,
        size: 0,
        metadata: StrMap::new(),
        acl: String::new(),
        data: ObjectDataRef::Inline(Vec::new()),
        delete_marker: true,
    }
}

/// The store and result of `delete_object`: nothing happens when the
/// bucket has no object list; with versioning enabled a delete marker is
/// put in front (creating the key if needed) and returned; otherwise the
/// key is removed and its newest version returned.
pub open spec fn delete_object_spec(s: S3StoreView, bucket: Seq<char>, key: Seq<char>, fresh_id: Seq<char>, now: i64) -> (
    S3StoreView,
    Option<VersionView>,
) {
    if !s.objects.contains_key(bucket) {
        (s, None)
    } else if versioning_on(s, bucket) {
        (stored_spec(s, bucket, key, delete_marker_spec(fresh_id, now), true), Some(delete_marker_spec(fresh_id, now)))
    } else if s.objects[bucket].contains_key(key) {
        let vs = s.objects[bucket][key];
        (
            S3StoreView { objects: s.objects.insert(bucket, s.objects[bucket].remove(key)), ..s },
            if vs.len() > 0 {
                Some(vs[0])
            } else {
                None
            },
        )
    } else {
        (s, None)
    }
}

/// The store and result of `delete_object_version`: the version of `key`
/// with id `vid` is removed and returned, and the key goes when it has no
/// version left.
pub open spec fn delete_version_spec(s: S3StoreView, bucket: Seq<char>, key: Seq<char>, vid: Seq<char>) -> (
    S3StoreView,
    Option<VersionView>,
) {
    if s.objects.contains_key(bucket) && s.objects[bucket].contains_key(key) {
        let vs = s.objects[bucket][key];
        match first_with_id(vs, vid, 0) {
            Some(i) => {
                let rest = vs.remove(i);
                let objs = if rest.len() == 0 {
                    s.objects[bucket].remove(key)
                } else {
                    s.objects[bucket].insert(key, rest)
                };
                (S3StoreView { objects: s.objects.insert(bucket, objs), ..s }, Some(vs[i]))
            },
            None => (s, None),
        }
    } else {
        (s, None)
    }
}

impl S3Store {
    /// Deletes `key` from `bucket` with the given fresh id and time for a
    /// delete marker (see `delete_object_spec`).
    pub fn delete_object_at(&mut self, bucket: &str, key: &str, fresh_id: String, now: i64) -> (r: Option<ObjectVersion>)
        requires
            old(self).wf(),
        ensures
            final(self).wf(),
            final(self)@ == delete_object_spec(old(self)@, bucket@, key@, fresh_id@, now).0,
            match delete_object_spec(old(self)@, bucket@, key@, fresh_id@, now).1 {
                Some(v) => r matches Some(x) && x@ == v && x.wf(),
                None => r is None,
            },
    {
        let versioning = self.versioning_enabled_for(bucket);
        if !self.objects.contains_key(bucket) {
            return None;
        }
        if versioning {
            let marker = delete_marker_at(fresh_id, now);
            let ret = marker.copy();
            self.store_in(bucket, key, marker, true);
            return Some(ret);
        }
        let ghost s0 = self@;
        let ghost s1 = self.objects;
        proof {
            s1.lemma_pos(bucket@);
        }
        let mut out: Option<ObjectVersion> = None;
        match self.objects.get_mut(bucket) {
            Some(objs) => {
                proof {
                    assert(s1@.contains_key(bucket@));
                    assert(objects_wf(s1@[bucket@]));
                }
                let (found, idx) = locate(objs, key);
                if found {
                    proof {
                        lemma_contents_at(objs@, idx as int);
                    }
                    let mut o = remove_object(objs, idx);
                    if o.versions.len() > 0 {
                        proof {
                            assert(versions_view(o.versions@)[0] == o.versions@[0]@);
                            assert(versions_wf(o.versions@));
                        }
                        out = Some(o.versions.remove(0));
                    }
                } else {
                    proof {
                        assert(contents(objs@).remove(key@) =~= contents(objs@));
                    }
                }
            },
            None => {
                proof {
                    assert(false);
                }
            },
        }
        proof {
            StrMap::lemma_update_at(&s1, &self.objects, bucket@);
            assert forall|b: Seq<char>| #[trigger] self.objects@.contains_key(b) implies objects_wf(self.objects@[b]) by {
                if b != bucket@ {
                    assert(s1@.contains_key(b));
                }
            }
            let newv = self.objects@[bucket@];
            assert(objects_view(self.objects@) =~= s0.objects.insert(bucket@, contents(newv)));
            if !s0.objects[bucket@].contains_key(key@) {
                assert(s0.objects.insert(bucket@, contents(newv)) =~= s0.objects);
            }
        }
        out
    }

    /// Deletes `key` from `bucket` now (see `delete_object_at`).
    pub fn delete_object(&mut self, bucket: &str, key: &str) -> (r: Option<ObjectVersion>)
        requires
            old(self).wf(),
        ensures
            final(self).wf(),
            exists|id: Seq<char>, now: i64|
                crate::deps::is_uuid_text(id) && final(self)@ == (#[trigger] delete_object_spec(old(self)@, bucket@, key@, id, now)).0 && match delete_object_spec(
                    old(self)@,
                    bucket@,
                    key@,
                    id,
                    now,
                ).1 {
                    Some(v) => r matches Some(x) && x@ == v,
                    None => r is None,
                },
    {
        let id = new_uuid();
        let now = now_millis();
        self.delete_object_at(bucket, key, id, now)
    }

    /// Deletes the version `version_id` of `key` in `bucket` (see
    /// `delete_version_spec`).
    pub fn delete_object_version(&mut self, bucket: &str, key: &str, version_id: &str) -> (r: Option<ObjectVersion>)
        requires
            old(self).wf(),
        ensures
            final(self).wf(),
            final(self)@ == delete_version_spec(old(self)@, bucket@, key@, version_id@).0,
            match delete_version_spec(old(self)@, bucket@, key@, version_id@).1 {
                Some(v) => r matches Some(x) && x@ == v && x.wf(),
                None => r is None,
            },
    {
        if !self.objects.contains_key(bucket) {
            return None;
        }
        let ghost s0 = self@;
        let ghost s1 = self.objects;
        proof {
            s1.lemma_pos(bucket@);
        }
        let mut out: Option<ObjectVersion> = None;
        match self.objects.get_mut(bucket) {
            Some(objs) => {
                proof {
                    assert(s1@.contains_key(bucket@));
                    assert(objects_wf(s1@[bucket@]));
                }
                let ghost o0 = objs@;
                let (found, idx) = locate(objs, key);
                if found {
                    proof {
                        lemma_contents_at(objs@, idx as int);
                    }
                    let fv = find_version(&objs[idx].versions, version_id);
                    match fv {
                        Some(i) => {
                            let mut vs = swap_versions(objs, idx, Vec::new());
                            let ghost vs0 = vs@;
                            proof {
                                assert(versions_view(vs0)[i as int] == vs0[i as int]@);
                                assert(versions_wf(vs0));
                            }
                            let removed = vs.remove(i);
                            proof {
                                assert(versions_view(vs@) =~= versions_view(vs0).remove(i as int));
                                assert(versions_wf(vs@));
                            }
                            if vs.len() == 0 {
                                proof {
                                    lemma_contents_at(objs@, idx as int);
                                }
                                let _o = remove_object(objs, idx);
                                proof {
                                    assert(contents(objs@) =~= contents(o0).remove(key@));
                                }
                            } else {
                                let _e = swap_versions(objs, idx, vs);
                                proof {
                                    assert(contents(objs@) =~= contents(o0).insert(key@, versions_view(vs0).remove(i as int)));
                                }
                            }
                            out = Some(removed);
                        },
                        None => {},
                    }
                }
            },
            None => {
                proof {
                    assert(false);
                }
            },
        }
        proof {
            StrMap::lemma_update_at(&s1, &self.objects, bucket@);
            assert forall|b: Seq<char>| #[trigger] self.objects@.contains_key(b) implies objects_wf(self.objects@[b]) by {
                if b != bucket@ {
                    assert(s1@.contains_key(b));
                }
            }
            let newv = self.objects@[bucket@];
            assert(objects_view(self.objects@) =~= s0.objects.insert(bucket@, contents(newv)));
            if out is None {
                assert(s0.objects.insert(bucket@, contents(newv)) =~= s0.objects);
            }
        }
        out
    }

    /// The objects of `bucket` in key order (none when it has no object
    /// list).
    pub fn list_objects(&self, bucket: &str) -> (r: Vec<&S3Object>)
        requires
            self.wf(),
        ensures
            self.objects@.contains_key(bucket@) ==> r@.len() == self.objects@[bucket@].len() && forall|i: int|
                0 <= i < r@.len() ==> *(#[trigger] r@[i]) == self.objects@[bucket@][i],
            !self.objects@.contains_key(bucket@) ==> r@.len() == 0,
            self.objects@.contains_key(bucket@) ==> keys_sorted(self.objects@[bucket@]) && contents(
                self.objects@[bucket@],
            ) == self@.objects[bucket@],
    {
        let mut r: Vec<&S3Object> = Vec::new();
        match self.objects.get(bucket) {
            None => {},
            Some(objs) => {
                let mut i: usize = 0;
                while i < objs.len()
                    invariant
                        i <= objs@.len(),
                        r@.len() == i,
                        forall|j: int| 0 <= j < i ==> *(#[trigger] r@[j]) == objs@[j],
                    decreases objs@.len() - i,
                {
                    r.push(&objs[i]);
                    i = i + 1;
                }
            },
        }
        proof {
            if self.objects@.contains_key(bucket@) {
                assert(objects_wf(self.objects@[bucket@]));
            }
        }
        r
    }
}

// ---------------------------------------------------------------------------
// Completing an upload
// ---------------------------------------------------------------------------

/// `s` without leading `"` characters.
pub open spec fn trim_lead_quotes(s: Seq<char>) -> Seq<char>
    decreases s.len(),
{
    if s.len() > 0 && s[0] == '"' {
        trim_lead_quotes(s.drop_first())
    } else {
        s
    }
}

/// `s` without trailing `"` characters.
pub open spec fn trim_trail_quotes(s: Seq<char>) -> Seq<char>
    decreases s.len(),
{
    if s.len() > 0 && s.last() == '"' {
        trim_trail_quotes(s.drop_last())
    } else {
        s
    }
}

/// `s` without the `"` characters at either end.
pub open spec fn trim_quotes(s: Seq<char>) -> Seq<char> {
    trim_trail_quotes(trim_lead_quotes(s))
}

/// `s.trim_matches('"')`.
pub fn trim_quotes_exec(s: &str) -> (r: String)
    ensures
        r@ == trim_quotes(s@),
{
    let c = chars_of(s);
    let mut i: usize = 0;
    proof {
        assert(c@.subrange(0, c@.len() as int) =~= c@);
    }
    while i < c.len() && c[i] == '"'
        invariant
            i <= c@.len(),
            trim_lead_quotes(c@) == trim_lead_quotes(c@.subrange(i as int, c@.len() as int)),
        decreases c@.len() - i,
    {
        proof {
            assert(c@.subrange(i as int, c@.len() as int).drop_first() =~= c@.subrange(i + 1, c@.len() as int));
        }
        i = i + 1;
    }
    let ghost lead = c@.subrange(i as int, c@.len() as int);
    proof {
        assert(c@.subrange(0, c@.len() as int) =~= c@);
        assert(trim_lead_quotes(lead) == lead);
    }
    let mut j: usize = c.len();
    while j > i && c[j - 1] == '"'
        invariant
            i <= j <= c@.len(),
            lead == c@.subrange(i as int, c@.len() as int),
            trim_trail_quotes(lead) == trim_trail_quotes(c@.subrange(i as int, j as int)),
        decreases j,
    {
        proof {
            assert(c@.subrange(i as int, j as int).drop_last() =~= c@.subrange(i as int, j - 1));
        }
        j = j - 1;
    }
    let t = slice_chars(c.as_slice(), i, j);
    crate::text::string_of(t.as_slice())
}

/// The bytes that part `n` contributes: its inline data, or nothing.
pub open spec fn part_bytes(parts: Map<u32, PartView>, n: u32) -> Seq<u8> {
    if parts.contains_key(n) {
        match parts[n].data {
            DataView::Inline(b) => b,
            DataView::FileRef(_) => Seq::empty(),
        }
    } else {
        Seq::empty()
    }
}

/// The inline data of the parts numbered `nums`, in that order.
pub open spec fn combined_data(parts: Map<u32, PartView>, nums: Seq<u32>) -> Seq<u8>
    decreases nums.len(),
{
    if nums.len() == 0 {
        Seq::empty()
    } else {
        combined_data(parts, nums.drop_last()) + part_bytes(parts, nums.last())
    }
}

/// The MD5 digest that part `n`'s ETag spells, when it spells one.
pub open spec fn part_digest(parts: Map<u32, PartView>, n: u32) -> Option<Seq<u8>> {
    if parts.contains_key(n) {
        match hex_decode_spec(vstd::utf8::encode_utf8(trim_quotes(parts[n].etag))) {
            Some(d) => if d.len() == 16 {
                Some(d)
            } else {
                None
            },
            None => None,
        }
    } else {
        None
    }
}

/// The digests of the parts numbered `nums`, concatenated.
pub open spec fn digests_concat(parts: Map<u32, PartView>, nums: Seq<u32>) -> Seq<u8>
    decreases nums.len(),
{
    if nums.len() == 0 {
        Seq::empty()
    } else {
        digests_concat(parts, nums.drop_last()) + match part_digest(parts, nums.last()) {
            Some(d) => d,
            None => Seq::empty(),
        }
    }
}

/// How many of the parts numbered `nums` have a digest.
pub open spec fn digest_count(parts: Map<u32, PartView>, nums: Seq<u32>) -> nat
    decreases nums.len(),
{
    if nums.len() == 0 {
        0
    } else {
        digest_count(parts, nums.drop_last()) + if part_digest(parts, nums.last()) is Some {
            1nat
        } else {
            0nat
        }
    }
}

/// The ETag of a completed upload: the MD5 of the parts' digests, a
/// hyphen and their number, in quotes; `None` when no part has a digest.
pub open spec fn multipart_etag_spec(parts: Map<u32, PartView>, nums: Seq<u32>) -> Option<Seq<char>> {
    let n = digest_count(parts, nums);
    if n > 0 {
        Some(quoted(hex_encode_spec(md5_spec(digests_concat(parts, nums))) + seq!['-'] + decimal_spec(n)))
    } else {
        None
    }
}

pub open spec fn u32_le() -> spec_fn(u32, u32) -> bool {
    |a: u32, b: u32| a <= b
}

/// The part numbers listed, ascending.
pub open spec fn sorted_part_numbers(listed: Seq<(u32, String)>) -> Seq<u32> {
    listed.map_values(|p: (u32, String)| p.0).sort_by(u32_le())
}

/// The version that completing `u` stores.
pub open spec fn completed_version_spec(u: UploadView, nums: Seq<u32>, version_id: Seq<char>, now: i64) -> VersionView {
    let base = inline_version_spec(combined_data(u.parts, nums), u.content_type, u.metadata, version_id, now);
    match multipart_etag_spec(u.parts, nums) {
        Some(e) => VersionView { etag: e, ..base },
        None => base,
    }
}

/// The store and result of completing upload `id` with the parts listed:
/// `None` and no change when there is no such upload.
pub open spec fn complete_spec(s: S3StoreView, id: Seq<char>, listed: Seq<(u32, String)>, fresh_id: Seq<char>, now: i64) -> (
    S3StoreView,
    Option<VersionView>,
) {
    if s.uploads.contains_key(id) {
        let u = s.uploads[id];
        let v = completed_version_spec(
            u,
            sorted_part_numbers(listed),
            version_id_spec(versioning_on(s, u.bucket), fresh_id),
            now,
        );
        (stored_spec(S3StoreView { uploads: s.uploads.remove(id), ..s }, u.bucket, u.key, v, false), Some(v))
    } else {
        (s, None)
    }
}

/// The part numbers listed, in ascending order.
pub(crate) fn sorted_numbers(listed: &[(u32, String)]) -> (r: Vec<u32>)
    ensures
        r@ == sorted_part_numbers(listed@),
{
    let ghost nums = listed@.map_values(|p: (u32, String)| p.0);
    let mut out: Vec<u32> = Vec::new();
    let mut i: usize = 0;
    proof {
        broadcast use vstd::seq_lib::group_to_multiset_ensures;
        assert(nums.take(0) =~= Seq::<u32>::empty());
        assert(out@ =~= Seq::<u32>::empty());
        assert(out@.to_multiset() =~= nums.take(0).to_multiset());
    }
    while i < listed.len()
        invariant
            i <= listed@.len(),
            nums == listed@.map_values(|p: (u32, String)| p.0),
            sorted_by(out@, u32_le()),
            out@.to_multiset() == nums.take(i as int).to_multiset(),
        decreases listed@.len() - i,
    {
        let x = listed[i].0;
        let mut p: usize = 0;
        while p < out.len() && out[p] <= x
            invariant
                p <= out@.len(),
                forall|j: int| 0 <= j < p ==> out@[j] <= x,
            decreases out@.len() - p,
        {
            p = p + 1;
        }
        let ghost before = out@;
        out.insert(p, x);
        proof {
            broadcast use vstd::seq_lib::group_to_multiset_ensures;
            assert(nums.take(i + 1) =~= nums.take(i as int).push(x));
            vstd::seq_lib::to_multiset_insert(before, p as int, x);
            assert(out@ =~= before.insert(p as int, x));
            assert(sorted_by(out@, u32_le())) by {
                assert forall|a: int, b: int| 0 <= a < b < out@.len() implies (u32_le())(out@[a], out@[b]) by {
                    if a < p && b == p {
                        assert(before[a] <= x);
                    } else if a == p && b > p {
                        if p < before.len() {
                            assert(!(before[p as int] <= x));
                            assert((u32_le())(before[p as int], before[b - 1]) || b - 1 == p);
                        }
                    } else if a < p && b > p {
                        assert((u32_le())(before[a], before[b - 1]));
                    } else if a > p {
                        assert((u32_le())(before[a - 1], before[b - 1]));
                    } else {
                        assert((u32_le())(before[a], before[b]));
                    }
                }
            }
        }
        i = i + 1;
    }
    proof {
        assert(nums.take(listed@.len() as int) =~= nums);
        let leq = u32_le();
        assert(vstd::relations::total_ordering(leq));
        nums.lemma_sort_by_ensures(leq);
        vstd::seq_lib::lemma_sorted_unique(out@, nums.sort_by(leq), leq);
    }
    out
}

/// A new upload with no parts.
pub open spec fn new_upload_spec(
    id: Seq<char>,
    bucket: Seq<char>,
    key: Seq<char>,
    content_type: Seq<char>,
    metadata: Map<Seq<char>, Seq<char>>,
    now: i64,
) -> UploadView {
    UploadView { upload_id: id, bucket, key, initiated: now, content_type, metadata, parts: Map::empty() }
}

/// The part `upload_part` stores: inline data gets its ETag and size;
/// file-backed data an empty ETag and size 0 (`upload_part_with_etag`
/// takes them from the caller instead).
pub open spec fn part_spec(n: u32, data: DataView, now: i64) -> PartView {
    match data {
        DataView::Inline(b) => PartView { part_number: n, etag: etag_spec(b), size: b.len() as u64, data, last_modified: now },
        DataView::FileRef(_) => PartView { part_number: n, etag: Seq::empty(), size: 0, data, last_modified: now },
    }
}

/// A part with the ETag and size given.
pub open spec fn given_part_spec(n: u32, etag: Seq<char>, size: u64, data: DataView, now: i64) -> PartView {
    PartView { part_number: n, etag, size, data, last_modified: now }
}

/// The store after part `p` is stored in upload `id`.
pub open spec fn part_stored_spec(s: S3StoreView, id: Seq<char>, p: PartView) -> S3StoreView {
    S3StoreView {
        uploads: s.uploads.insert(id, UploadView { parts: s.uploads[id].parts.insert(p.part_number, p), ..s.uploads[id] }),
        ..s
    }
}

impl S3Store {
    /// Starts an upload of `key` into `bucket` with the given id and time;
    /// returns the id.
    pub fn create_multipart_upload_at(
        &mut self,
        bucket: &str,
        key: &str,
        content_type: &str,
        metadata: StrMap<String>,
        upload_id: String,
        now: i64,
    ) -> (r: String)
        requires
            old(self).wf(),
            metadata.wf(),
        ensures
            final(self).wf(),
            r@ == upload_id@,
            final(self)@ == (S3StoreView {
                uploads: old(self)@.uploads.insert(
                    upload_id@,
                    new_upload_spec(upload_id@, bucket@, key@, content_type@, metadata@, now),
                ),
                ..old(self)@
            }),
    {
        let upload = MultipartUpload {
            upload_id: upload_id.clone(),
            bucket: bucket.to_string(),
            key: key.to_string(),
            initiated: now,
            content_type: content_type.to_string(),
            metadata,
            parts: Vec::new(),
        };
        proof {
            assert(parts_map(upload.parts@) =~= Map::empty());
            assert(upload.wf());
        }
        let ghost before = self.multipart_uploads;
        let ghost up = upload;
        self.multipart_uploads.insert(upload_id.clone(), upload);
        proof {
            if before@.contains_key(upload_id@) {
                before.lemma_pos(upload_id@);
            }
            assert forall|i: int| 0 <= i < self.multipart_uploads.vals_seq().len() implies (#[trigger] self.multipart_uploads.vals_seq()[i]).wf() by {
                if before@.contains_key(upload_id@) {
                    if i != before.pos(upload_id@) {
                        assert(self.multipart_uploads.vals_seq()[i] == before.vals_seq()[i]);
                    } else {
                        assert(self.multipart_uploads.vals_seq()[i] == up);
                    }
                } else if i < before.vals_seq().len() {
                    assert(self.multipart_uploads.vals_seq()[i] == before.vals_seq()[i]);
                } else {
                    assert(self.multipart_uploads.vals_seq()[i] == up);
                }
            }
        }
        upload_id
    }

    /// Starts an upload now, with a fresh id.
    pub fn create_multipart_upload(&mut self, bucket: &str, key: &str, content_type: &str, metadata: StrMap<String>) -> (r: String)
        requires
            old(self).wf(),
            metadata.wf(),
        ensures
            final(self).wf(),
            crate::deps::is_uuid_text(r@),
            exists|now: i64|
                final(self)@ == (S3StoreView {
                    uploads: old(self)@.uploads.insert(r@, #[trigger] new_upload_spec(r@, bucket@, key@, content_type@, metadata@, now)),
                    ..old(self)@
                }),
    {
        let id = new_uuid();
        let now = now_millis();
        self.create_multipart_upload_at(bucket, key, content_type, metadata, id, now)
    }

    /// Stores `part` in upload `upload_id`; false when there is no such
    /// upload.
    fn store_part(&mut self, upload_id: &str, part: UploadPart) -> (ok: bool)
        requires
            old(self).wf(),
        ensures
            final(self).wf(),
            ok == old(self)@.uploads.contains_key(upload_id@),
            ok ==> final(self)@ == part_stored_spec(old(self)@, upload_id@, part@),
            !ok ==> final(self)@ == old(self)@,
    {
        let ghost s0 = self@;
        let ghost m0 = self.multipart_uploads;
        let ghost pv = part@;
        if !self.multipart_uploads.contains_key(upload_id) {
            return false;
        }
        proof {
            m0.lemma_pos(upload_id@);
        }
        match self.multipart_uploads.get_mut(upload_id) {
            Some(u) => {
                proof {
                    assert(u.wf());
                }
                put_part(&mut u.parts, part);
            },
            None => {
                proof {
                    assert(false);
                }
            },
        }
        proof {
            StrMap::lemma_update_at(&m0, &self.multipart_uploads, upload_id@);
            assert forall|i: int| 0 <= i < self.multipart_uploads.vals_seq().len() implies (#[trigger] self.multipart_uploads.vals_seq()[i]).wf() by {
                if i != m0.pos(upload_id@) {
                    assert(self.multipart_uploads.vals_seq()[i] == m0.vals_seq()[i]);
                }
            }
            assert(self@.uploads =~= part_stored_spec(s0, upload_id@, pv).uploads);
        }
        true
    }

    /// Stores part `part_number` of upload `upload_id` at time `now` and
    /// returns its ETag (see `part_spec`); `None` when there is no such
    /// upload.
    pub fn upload_part_at(&mut self, upload_id: &str, part_number: u32, data: ObjectDataRef, now: i64) -> (r: Option<String>)
        requires
            old(self).wf(),
        ensures
            final(self).wf(),
            old(self)@.uploads.contains_key(upload_id@) ==> (r matches Some(e) && e@ == part_spec(part_number, data@, now).etag)
                && final(self)@ == part_stored_spec(old(self)@, upload_id@, part_spec(part_number, data@, now)),
            !old(self)@.uploads.contains_key(upload_id@) ==> r is None && final(self)@ == old(self)@,
    {
        if !self.multipart_uploads.contains_key(upload_id) {
            return None;
        }
        let (etag, size) = match &data {
            ObjectDataRef::Inline(bytes) => (etag_of(bytes.as_slice()), bytes.len() as u64),
            ObjectDataRef::FileRef(_) => (String::new(), 0u64),
        };
        let part = UploadPart { part_number, etag: etag.clone(), size, data, last_modified: now };
        self.store_part(upload_id, part);
        Some(etag)
    }

    /// Stores part `part_number` of upload `upload_id` now.
    pub fn upload_part(&mut self, upload_id: &str, part_number: u32, data: ObjectDataRef) -> (r: Option<String>)
        requires
            old(self).wf(),
        ensures
            final(self).wf(),
            old(self)@.uploads.contains_key(upload_id@) ==> exists|now: i64|
                (r matches Some(e) && e@ == (#[trigger] part_spec(part_number, data@, now)).etag)
                    && final(self)@ == part_stored_spec(old(self)@, upload_id@, part_spec(part_number, data@, now)),
            !old(self)@.uploads.contains_key(upload_id@) ==> r is None && final(self)@ == old(self)@,
    {
        let now = now_millis();
        self.upload_part_at(upload_id, part_number, data, now)
    }

    /// Stores a part whose ETag and size the caller computed.
    pub fn upload_part_with_etag_at(
        &mut self,
        upload_id: &str,
        part_number: u32,
        data: ObjectDataRef,
        etag: String,
        size: u64,
        now: i64,
    ) -> (r: Option<String>)
        requires
            old(self).wf(),
        ensures
            final(self).wf(),
            old(self)@.uploads.contains_key(upload_id@) ==> (r matches Some(e) && e@ == etag@) && final(self)@
                == part_stored_spec(
                old(self)@,
                upload_id@,
                given_part_spec(part_number, etag@, size, data@, now),
            ),
            !old(self)@.uploads.contains_key(upload_id@) ==> r is None && final(self)@ == old(self)@,
    {
        if !self.multipart_uploads.contains_key(upload_id) {
            return None;
        }
        let part = UploadPart { part_number, etag: etag.clone(), size, data, last_modified: now };
        self.store_part(upload_id, part);
        Some(etag)
    }

    /// Stores a part whose ETag and size the caller computed, now.
    pub fn upload_part_with_etag(&mut self, upload_id: &str, part_number: u32, data: ObjectDataRef, etag: String, size: u64) -> (r: Option<String>)
        requires
            old(self).wf(),
        ensures
            final(self).wf(),
            old(self)@.uploads.contains_key(upload_id@) ==> (r matches Some(e) && e@ == etag@) && exists|now: i64|
                final(self)@ == part_stored_spec(
                    old(self)@,
                    upload_id@,
                    #[trigger] given_part_spec(part_number, etag@, size, data@, now),
                ),
            !old(self)@.uploads.contains_key(upload_id@) ==> r is None && final(self)@ == old(self)@,
    {
        let now = now_millis();
        self.upload_part_with_etag_at(upload_id, part_number, data, etag, size, now)
    }

    /// Removes upload `upload_id` and returns it.
    fn take_upload(&mut self, upload_id: &str) -> (r: Option<MultipartUpload>)
        requires
            old(self).wf(),
        ensures
            final(self).wf(),
            final(self)@ == (S3StoreView { uploads: old(self)@.uploads.remove(upload_id@), ..old(self)@ }),
            match r {
                Some(u) => old(self)@.uploads.contains_key(upload_id@) && u@ == old(self)@.uploads[upload_id@] && u.wf(),
                None => !old(self)@.uploads.contains_key(upload_id@),
            },
    {
        match self.multipart_uploads.find_pos(upload_id) {
            Some(i) => {
                let ghost m0 = self.multipart_uploads;
                proof {
                    m0.lemma_pos(upload_id@);
                }
                let u = self.multipart_uploads.remove_at_index(i);
                proof {
                    assert(m0.vals_seq()[i as int].wf());
                    assert forall|j: int| 0 <= j < self.multipart_uploads.vals_seq().len() implies (#[trigger] self.multipart_uploads.vals_seq()[j]).wf() by {
                        if j < i {
                            assert(self.multipart_uploads.vals_seq()[j] == m0.vals_seq()[j]);
                        } else {
                            assert(self.multipart_uploads.vals_seq()[j] == m0.vals_seq()[j + 1]);
                        }
                    }
                }
                Some(u)
            },
            None => {
                proof {
                    assert(self.multipart_uploads@.remove(upload_id@) =~= self.multipart_uploads@);
                }
                None
            },
        }
    }

    /// Abandons upload `upload_id`; whether it existed.
    pub fn abort_multipart_upload(&mut self, upload_id: &str) -> (b: bool)
        requires
            old(self).wf(),
        ensures
            final(self).wf(),
            b == old(self)@.uploads.contains_key(upload_id@),
            final(self)@ == (S3StoreView { uploads: old(self)@.uploads.remove(upload_id@), ..old(self)@ }),
    {
        self.take_upload(upload_id).is_some()
    }

    /// The upload `upload_id`.
    pub fn get_multipart_upload(&self, upload_id: &str) -> (r: Option<&MultipartUpload>)
        requires
            self.wf(),
        ensures
            match r {
                Some(u) => self@.uploads.contains_key(upload_id@) && u@ == self@.uploads[upload_id@] && u.wf(),
                None => !self@.uploads.contains_key(upload_id@),
            },
    {
        let r = self.multipart_uploads.get(upload_id);
        proof {
            if r is Some {
                self.multipart_uploads.lemma_pos(upload_id@);
                assert(self.multipart_uploads.vals_seq()[self.multipart_uploads.pos(upload_id@)].wf());
            }
        }
        r
    }

    /// The uploads into `bucket`, in the order they were started.
    pub fn list_multipart_uploads(&self, bucket: &str) -> (r: Vec<&MultipartUpload>)
        requires
            self.wf(),
        ensures
            r@.map_values(|u: &MultipartUpload| *u) == self.multipart_uploads.vals_seq().filter(
                |u: MultipartUpload| u.bucket@ == bucket@,
            ),
    {
        let vals = Ghost(self.multipart_uploads.vals_seq());
        let n = self.multipart_uploads.len();
        proof {
            self.multipart_uploads.lemma_enumeration();
        }
        let mut r: Vec<&MultipartUpload> = Vec::new();
        let mut i: usize = 0;
        while i < n
            invariant
                i <= n,
                n == vals@.len(),
                vals@ == self.multipart_uploads.vals_seq(),
                r@.map_values(|u: &MultipartUpload| *u) == vals@.take(i as int).filter(|u: MultipartUpload| u.bucket@ == bucket@),
            decreases n - i,
        {
            let u = self.multipart_uploads.value_at_index(i);
            let ghost before = r@;
            proof {
                reveal(Seq::filter);
                assert(vals@.take(i + 1).drop_last() =~= vals@.take(i as int));
            }
            if u.bucket.as_str().eq(bucket) {
                r.push(u);
                proof {
                    assert(r@.map_values(|u: &MultipartUpload| *u) =~= before.map_values(|u: &MultipartUpload| *u).push(*u));
                }
            }
            i = i + 1;
        }
        proof {
            assert(vals@.take(n as int) =~= vals@);
        }
        r
    }
}

/// Appends `b` to `out`.
pub(crate) fn append_bytes(out: &mut Vec<u8>, b: &[u8])
    ensures
        final(out)@ == old(out)@ + b@,
{
    let mut i: usize = 0;
    while i < b.len()
        invariant
            i <= b@.len(),
            out@ == old(out)@ + b@.take(i as int),
        decreases b@.len() - i,
    {
        out.push(b[i]);
        proof {
            assert(b@.take(i + 1) =~= b@.take(i as int).push(b@[i as int]));
        }
        i = i + 1;
    }
    proof {
        assert(b@.take(b@.len() as int) =~= b@);
    }
}

/// The digest that a part's ETag spells, when it spells one.
pub(crate) fn etag_digest(etag: &str) -> (r: Option<Vec<u8>>)
    ensures
        match hex_decode_spec(vstd::utf8::encode_utf8(trim_quotes(etag@))) {
            Some(d) => if d.len() == 16 {
                r matches Some(v) && v@ == d
            } else {
                r is None
            },
            None => r is None,
        },
{
    let t = trim_quotes_exec(etag);
    match hex_decode(t.as_str()) {
        Some(d) => if d.len() == 16 {
            Some(d)
        } else {
            None
        },
        None => None,
    }
}

/// The inline data, concatenated digests and digest count of the parts
/// numbered `nums`.
fn gather_parts(parts: &Vec<UploadPart>, nums: &Vec<u32>) -> (r: (Vec<u8>, Vec<u8>, usize))
    requires
        parts_distinct(parts@),
    ensures
        r.0@ == combined_data(parts_map(parts@), nums@),
        r.1@ == digests_concat(parts_map(parts@), nums@),
        r.2 == digest_count(parts_map(parts@), nums@),
{
    let ghost pm = parts_map(parts@);
    let mut data: Vec<u8> = Vec::new();
    let mut digests: Vec<u8> = Vec::new();
    let mut count: usize = 0;
    let mut i: usize = 0;
    proof {
        assert(nums@.take(0) =~= Seq::<u32>::empty());
    }
    while i < nums.len()
        invariant
            i <= nums@.len(),
            pm == parts_map(parts@),
            parts_distinct(parts@),
            data@ == combined_data(pm, nums@.take(i as int)),
            digests@ == digests_concat(pm, nums@.take(i as int)),
            count == digest_count(pm, nums@.take(i as int)),
            count <= i,
        decreases nums@.len() - i,
    {
        let n = nums[i];
        proof {
            assert(nums@.take(i + 1).drop_last() =~= nums@.take(i as int));
            assert(nums@.take(i + 1).last() == n);
        }
        match find_part(parts, n) {
            Some(j) => {
                let part = &parts[j];
                match &part.data {
                    ObjectDataRef::Inline(b) => append_bytes(&mut data, b.as_slice()),
                    ObjectDataRef::FileRef(_) => {
                        proof {
                            assert(data@ + Seq::<u8>::empty() =~= data@);
                        }
                    },
                }
                match etag_digest(part.etag.as_str()) {
                    Some(d) => {
                        append_bytes(&mut digests, d.as_slice());
                        count = count + 1;
                    },
                    None => {
                        proof {
                            assert(digests@ + Seq::<u8>::empty() =~= digests@);
                        }
                    },
                }
            },
            None => {
                proof {
                    assert(data@ + Seq::<u8>::empty() =~= data@);
                    assert(digests@ + Seq::<u8>::empty() =~= digests@);
                }
            },
        }
        i = i + 1;
    }
    proof {
        assert(nums@.take(nums@.len() as int) =~= nums@);
    }
    (data, digests, count)
}

impl S3Store {
    /// Completes upload `upload_id` with the parts listed (in ascending
    /// part number order, repeats included), the given fresh version id
    /// and time (see `complete_spec`); returns the stored version.
    pub fn complete_multipart_upload_at(
        &mut self,
        upload_id: &str,
        parts: &[(u32, String)],
        fresh_id: String,
        now: i64,
    ) -> (r: Option<ObjectVersion>)
        requires
            old(self).wf(),
        ensures
            final(self).wf(),
            final(self)@ == complete_spec(old(self)@, upload_id@, parts@, fresh_id@, now).0,
            match complete_spec(old(self)@, upload_id@, parts@, fresh_id@, now).1 {
                Some(v) => r matches Some(x) && x@ == v && x.wf(),
                None => r is None,
            },
    {
        let upload = match self.take_upload(upload_id) {
            Some(u) => u,
            None => {
                proof {
                    assert(self@.uploads =~= old(self)@.uploads);
                }
                return None;
            },
        };
        let nums = sorted_numbers(parts);
        let (combined, concat, count) = gather_parts(&upload.parts, &nums);
        let versioning = self.versioning_enabled_for(upload.bucket.as_str());
        let mut version = ObjectVersion::new_at(
            combined,
            upload.content_type.clone(),
            upload.metadata,
            versioning,
            fresh_id,
            now,
        );
        if count > 0 {
            let digest = md5(concat.as_slice());
            let hex = hex_encode(digest.as_slice());
            let mut e = String::new();
            e.push('"');
            push_str(&mut e, hex.as_str());
            e.push('-');
            push_decimal(&mut e, count as u64);
            e.push('"');
            proof {
                assert(e@ =~= quoted(hex@ + seq!['-'] + decimal_spec(count as nat)));
            }
            version.etag = e;
        }
        let ret = version.copy();
        self.store_in(upload.bucket.as_str(), upload.key.as_str(), version, false);
        Some(ret)
    }

    /// Completes upload `upload_id` now, with a fresh version id.
    pub fn complete_multipart_upload(&mut self, upload_id: &str, parts: &[(u32, String)]) -> (r: Option<ObjectVersion>)
        requires
            old(self).wf(),
        ensures
            final(self).wf(),
            exists|id: Seq<char>, now: i64|
                crate::deps::is_uuid_text(id) && final(self)@ == (#[trigger] complete_spec(old(self)@, upload_id@, parts@, id, now)).0 && match complete_spec(
                    old(self)@,
                    upload_id@,
                    parts@,
                    id,
                    now,
                ).1 {
                    Some(v) => r matches Some(x) && x@ == v,
                    None => r is None,
                },
    {
        let id = new_uuid();
        let now = now_millis();
        self.complete_multipart_upload_at(upload_id, parts, id, now)
    }

    /// Completes upload `upload_id` with a version the caller assembled;
    /// returns the data of the version it displaced, if any.
    pub fn complete_multipart_upload_with_version(&mut self, upload_id: &str, version: ObjectVersion) -> (r: Option<ObjectDataRef>)
        requires
            old(self).wf(),
            version.wf(),
        ensures
            final(self).wf(),
            !old(self)@.uploads.contains_key(upload_id@) ==> r is None && final(self)@ == old(self)@,
            old(self)@.uploads.contains_key(upload_id@) ==> {
                let u = old(self)@.uploads[upload_id@];
                let s1 = S3StoreView { uploads: old(self)@.uploads.remove(upload_id@), ..old(self)@ };
                &&& final(self)@ == stored_spec(s1, u.bucket, u.key, version@, false)
                &&& match r {
                    Some(d) => replaced_data(bucket_contents(s1, u.bucket).get(u.key)) == Some(d@),
                    None => replaced_data(bucket_contents(s1, u.bucket).get(u.key)) is None,
                }
            },
    {
        let upload = match self.take_upload(upload_id) {
            Some(u) => u,
            None => {
                proof {
                    assert(self@.uploads =~= old(self)@.uploads);
                }
                return None;
            },
        };
        self.store_in(upload.bucket.as_str(), upload.key.as_str(), version, false)
    }
}

// ---------------------------------------------------------------------------
// Bucket settings
// ---------------------------------------------------------------------------

/// The store with bucket `name` set to `b`.
pub open spec fn with_bucket(s: S3StoreView, name: Seq<char>, b: BucketView) -> S3StoreView {
    S3StoreView { buckets: s.buckets.insert(name, b), ..s }
}

impl S3Store {
    /// Sets the versioning state of bucket `name`; whether it exists.
    pub fn set_bucket_versioning(&mut self, name: &str, status: String) -> (found: bool)
        requires
            old(self).wf(),
        ensures
            final(self).wf(),
            found == old(self)@.buckets.contains_key(name@),
            found ==> final(self)@ == with_bucket(
                old(self)@,
                name@,
                BucketView { versioning: status@, ..old(self)@.buckets[name@] },
            ),
            !found ==> final(self)@ == old(self)@,
    {
        match self.buckets.find_pos(name) {
            Some(i) => {
                let ghost m0 = self.buckets;
                proof {
                    m0.lemma_pos(name@);
                }
                let b = self.buckets.value_at_index_mut(i);
                b.versioning = status;
                proof {
                    StrMap::lemma_update_at(&m0, &self.buckets, name@);
                }
                true
            },
            None => false,
        }
    }

    /// Sets or clears the policy of bucket `name`; whether it exists.
    pub fn set_bucket_policy(&mut self, name: &str, policy: Option<String>) -> (found: bool)
        requires
            old(self).wf(),
        ensures
            final(self).wf(),
            found == old(self)@.buckets.contains_key(name@),
            found ==> final(self)@ == with_bucket(
                old(self)@,
                name@,
                BucketView { policy: opt_view(policy), ..old(self)@.buckets[name@] },
            ),
            !found ==> final(self)@ == old(self)@,
    {
        match self.buckets.find_pos(name) {
            Some(i) => {
                let ghost m0 = self.buckets;
                proof {
                    m0.lemma_pos(name@);
                }
                let b = self.buckets.value_at_index_mut(i);
                b.policy = policy;
                proof {
                    StrMap::lemma_update_at(&m0, &self.buckets, name@);
                }
                true
            },
            None => false,
        }
    }

    /// Sets the canned ACL of bucket `name`; whether it exists.
    pub fn set_bucket_acl(&mut self, name: &str, acl: String) -> (found: bool)
        requires
            old(self).wf(),
        ensures
            final(self).wf(),
            found == old(self)@.buckets.contains_key(name@),
            found ==> final(self)@ == with_bucket(old(self)@, name@, BucketView { acl: acl@, ..old(self)@.buckets[name@] }),
            !found ==> final(self)@ == old(self)@,
    {
        match self.buckets.find_pos(name) {
            Some(i) => {
                let ghost m0 = self.buckets;
                proof {
                    m0.lemma_pos(name@);
                }
                let b = self.buckets.value_at_index_mut(i);
                b.acl = acl;
                proof {
                    StrMap::lemma_update_at(&m0, &self.buckets, name@);
                }
                true
            },
            None => false,
        }
    }

    /// Replaces the notification configurations of bucket `name`; whether
    /// it exists.
    pub fn set_bucket_notifications(&mut self, name: &str, configs: Vec<NotificationConfig>) -> (found: bool)
        requires
            old(self).wf(),
        ensures
            final(self).wf(),
            found == old(self)@.buckets.contains_key(name@),
            found ==> final(self)@ == with_bucket(
                old(self)@,
                name@,
                BucketView { notifications: configs@, ..old(self)@.buckets[name@] },
            ),
            !found ==> final(self)@ == old(self)@,
    {
        match self.buckets.find_pos(name) {
            Some(i) => {
                let ghost m0 = self.buckets;
                proof {
                    m0.lemma_pos(name@);
                }
                let b = self.buckets.value_at_index_mut(i);
                b.notifications = configs;
                proof {
                    StrMap::lemma_update_at(&m0, &self.buckets, name@);
                }
                true
            },
            None => false,
        }
    }
}

} // verus!
