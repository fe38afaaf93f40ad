//! The S3 listings: ListObjects, ListObjectsV2 and ListObjectVersions.
//!
//! Keys are listed in order; with a delimiter, keys that contain it after
//! the prefix are rolled up into common prefixes, kept sorted.
use vstd::prelude::*;

use crate::deps::{format_utc_millis, utc_millis_text};
use crate::http::{DispatchResponse, RequestContext, ResponseView};
use crate::order::{seq_lt, str_lt};
use crate::s3::{current_spec, versions_view, ObjectVersion, S3Object, S3Store, S3StoreView, VersionView};
use crate::s3_api::bucket_from_path;
use crate::s3_rest::{
    invalid_bucket_name, missing_bucket, no_bucket_name, no_such_bucket, push_doc_open, req_bucket, s3_doc_open, s3_ok,
    s3_ok_view,
};
use crate::seqs::{first_where, lemma_first_where, lemma_first_where_none};
use crate::text::{
    bool_spec, chars_of, decimal_spec, escape_xml_spec, find_chars, find_spec, lemma_find_from, parse_unsigned_spec,
    parse_usize, push_bool, push_decimal, push_escaped, push_str, slice_chars, starts_with_chars, string_of,
};

verus! {

// ---------------------------------------------------------------------------
// Listed items
// ---------------------------------------------------------------------------

/// A listed object: key, last modified time, ETag and size of its current
/// version.
pub type ItemView = (Seq<char>, i64, Seq<char>, u64);

/// `p` is a prefix of `k`.
pub open spec fn has_prefix(k: Seq<char>, p: Seq<char>) -> bool {
    p.len() <= k.len() && k.subrange(0, p.len() as int) == p
}

/// The objects (in key order) that have a current version and a key with
/// the prefix, and after `after` when that is given.
pub open spec fn listing_items(objs: Seq<S3Object>, prefix: Seq<char>, after: Option<Seq<char>>) -> Seq<ItemView>
    decreases objs.len(),
{
    if objs.len() == 0 {
        Seq::empty()
    } else {
        let init = listing_items(objs.drop_last(), prefix, after);
        let o = objs.last();
        match current_spec(versions_view(o.versions@)) {
            Some(v) => if has_prefix(o.key@, prefix) && match after {
                Some(a) => seq_lt(a, o.key@),
                None => true,
            } {
                init.push((o.key@, v.last_modified, v.etag, v.size))
            } else {
                init
            },
            None => init,
        }
    }
}

/// The objects of bucket `b` in key order (none without an object list).
pub open spec fn bucket_objects(s: &S3Store, b: Seq<char>) -> Seq<S3Object> {
    if s.objects@.contains_key(b) {
        s.objects@[b]
    } else {
        Seq::empty()
    }
}

pub struct Item {
    pub key: String,
    pub last_modified: i64,
    pub etag: String,
    pub size: u64,
}

pub open spec fn item_views(v: Seq<Item>) -> Seq<ItemView> {
    v.map_values(|i: Item| (i.key@, i.last_modified, i.etag@, i.size))
}

fn gather_items(store: &S3Store, bucket: &str, prefix: &str, after: Option<&str>) -> (r: Vec<Item>)
    requires
        store.wf(),
    ensures
        item_views(r@) == listing_items(
            bucket_objects(store, bucket@),
            prefix@,
            match after {
                Some(a) => Some(a@),
                None => None,
            },
        ),
{
    let objs = store.list_objects(bucket);
    let ghost ov = bucket_objects(store, bucket@);
    let ghost af = match after {
        Some(a) => Some(a@),
        None => None::<Seq<char>>,
    };
    proof {
        assert(objs@.len() == ov.len());
    }
    let pc = chars_of(prefix);
    let ac: Option<Vec<char>> = match after {
        Some(a) => Some(chars_of(a)),
        None => None,
    };
    let mut out: Vec<Item> = Vec::new();
    let mut i: usize = 0;
    proof {
        assert(ov.take(0) =~= Seq::<S3Object>::empty());
        assert(item_views(out@) =~= Seq::<ItemView>::empty());
    }
    while i < objs.len()
        invariant
            i <= objs@.len(),
            objs@.len() == ov.len(),
            forall|j: int| 0 <= j < objs@.len() ==> *(#[trigger] objs@[j]) == ov[j],
            pc@ == prefix@,
            match ac {
                Some(v) => af == Some(v@),
                None => af is None,
            },
            item_views(out@) == listing_items(ov.take(i as int), prefix@, af),
        decreases objs@.len() - i,
    {
        let o = objs[i];
        proof {
            assert(*objs@[i as int] == ov[i as int]);
            assert(ov.take(i + 1).drop_last() =~= ov.take(i as int));
            assert(ov.take(i + 1).last() == ov[i as int]);
        }
        match o.current() {
            Some(v) => {
                let kc = chars_of(o.key.as_str());
                let with_prefix = starts_with_chars(kc.as_slice(), pc.as_slice());
                let past = match &ac {
                    Some(a) => str_lt(a.as_slice(), kc.as_slice()),
                    None => true,
                };
                if with_prefix && past {
                    let ghost before = item_views(out@);
                    out.push(Item { key: o.key.clone(), last_modified: v.last_modified, etag: v.etag.clone(), size: v.size });
                    proof {
                        assert(item_views(out@) =~= before.push((o.key@, v@.last_modified, v@.etag, v@.size)));
                    }
                }
            },
            None => {},
        }
        i = i + 1;
    }
    proof {
        assert(ov.take(objs@.len() as int) =~= ov);
    }
    out
}

// ---------------------------------------------------------------------------
// Common prefixes
// ---------------------------------------------------------------------------

/// The common prefix a key rolls up into: the prefix, what follows it up
/// to the first delimiter, and the delimiter; none without a delimiter or
/// when the rest of the key does not contain it.
pub open spec fn item_prefix(key: Seq<char>, prefix: Seq<char>, delim: Seq<char>) -> Option<Seq<char>> {
    if delim.len() == 0 {
        None
    } else {
        let suffix = key.subrange(prefix.len() as int, key.len() as int);
        match find_spec(suffix, delim) {
            Some(pos) => Some(prefix + suffix.subrange(0, pos) + delim),
            None => None,
        }
    }
}

/// The entry is for common prefix `c`.
pub open spec fn cp_named(c: Seq<char>) -> spec_fn((Seq<char>, Seq<char>)) -> bool {
    |e: (Seq<char>, Seq<char>)| e.0 == c
}

/// The entry's prefix sorts after `c`.
pub open spec fn cp_after(c: Seq<char>) -> spec_fn((Seq<char>, Seq<char>)) -> bool {
    |e: (Seq<char>, Seq<char>)| seq_lt(c, e.0)
}

/// Common prefixes kept in order, each with the last key seen under it:
/// `c` now has `key` as its last key, and is inserted before the first
/// prefix that sorts after it when it is new.
pub open spec fn cp_update(cps: Seq<(Seq<char>, Seq<char>)>, c: Seq<char>, key: Seq<char>) -> Seq<(Seq<char>, Seq<char>)> {
    match first_where(cps, cp_named(c)) {
        Some(i) => cps.update(i, (c, key)),
        None => match first_where(cps, cp_after(c)) {
            Some(j) => cps.insert(j, (c, key)),
            None => cps.push((c, key)),
        },
    }
}

/// What a scan of the items yields: the items listed as contents, the
/// common prefixes, and whether it stopped early.  With a limit, the scan
/// stops at the first item that would add a new entry (content or common
/// prefix) once there are `limit` entries; items that roll into a prefix
/// already seen only update its last key.
pub open spec fn page_scan(items: Seq<ItemView>, prefix: Seq<char>, delim: Seq<char>, limit: Option<nat>) -> (
    Seq<ItemView>,
    Seq<(Seq<char>, Seq<char>)>,
    bool,
)
    decreases items.len(),
{
    if items.len() == 0 {
        (Seq::empty(), Seq::empty(), false)
    } else {
        let prev = page_scan(items.drop_last(), prefix, delim, limit);
        let it = items.last();
        let full = match limit {
            Some(l) => prev.0.len() + prev.1.len() >= l,
            None => false,
        };
        if prev.2 {
            prev
        } else {
            match item_prefix(it.0, prefix, delim) {
                None => if full {
                    (prev.0, prev.1, true)
                } else {
                    (prev.0.push(it), prev.1, false)
                },
                Some(c) => if first_where(prev.1, cp_named(c)) is Some {
                    (prev.0, cp_update(prev.1, c, it.0), false)
                } else if full {
                    (prev.0, prev.1, true)
                } else {
                    (prev.0, cp_update(prev.1, c, it.0), false)
                },
            }
        }
    }
}

pub open spec fn pair_views(v: Seq<(String, String)>) -> Seq<(Seq<char>, Seq<char>)> {
    v.map_values(|p: (String, String)| (p.0@, p.1@))
}

/// The position of the entry for `c`, if there is one.
fn find_cp(cps: &Vec<(String, String)>, c: &[char]) -> (r: Option<usize>)
    ensures
        match r {
            Some(i) => first_where(pair_views(cps@), cp_named(c@)) == Some(i as int) && i < cps@.len(),
            None => first_where(pair_views(cps@), cp_named(c@)) is None,
        },
{
    let ghost pv = pair_views(cps@);
    let mut i: usize = 0;
    while i < cps.len()
        invariant
            i <= cps@.len(),
            pv == pair_views(cps@),
            forall|j: int| 0 <= j < i ==> !(cp_named(c@))(#[trigger] pv[j]),
        decreases cps@.len() - i,
    {
        let pc = chars_of(cps[i].0.as_str());
        if crate::text::chars_eq(pc.as_slice(), c) {
            proof {
                assert((cp_named(c@))(pv[i as int]));
                lemma_first_where(pv, cp_named(c@), i as int);
            }
            return Some(i);
        }
        proof {
            assert(!(cp_named(c@))(pv[i as int]));
        }
        i = i + 1;
    }
    proof {
        lemma_first_where_none(pv, cp_named(c@));
    }
    None
}

/// The position of the first entry that sorts after `c`, if any.
fn find_cp_after(cps: &Vec<(String, String)>, c: &[char]) -> (r: Option<usize>)
    ensures
        match r {
            Some(i) => first_where(pair_views(cps@), cp_after(c@)) == Some(i as int) && i < cps@.len(),
            None => first_where(pair_views(cps@), cp_after(c@)) is None,
        },
{
    let ghost pv = pair_views(cps@);
    let mut i: usize = 0;
    while i < cps.len()
        invariant
            i <= cps@.len(),
            pv == pair_views(cps@),
            forall|j: int| 0 <= j < i ==> !(cp_after(c@))(#[trigger] pv[j]),
        decreases cps@.len() - i,
    {
        let pc = chars_of(cps[i].0.as_str());
        if str_lt(c, pc.as_slice()) {
            proof {
                assert((cp_after(c@))(pv[i as int]));
                lemma_first_where(pv, cp_after(c@), i as int);
            }
            return Some(i);
        }
        proof {
            assert(!(cp_after(c@))(pv[i as int]));
        }
        i = i + 1;
    }
    proof {
        lemma_first_where_none(pv, cp_after(c@));
    }
    None
}

fn cp_update_exec(cps: &mut Vec<(String, String)>, c: &[char], key: &str)
    ensures
        pair_views(final(cps)@) == cp_update(pair_views(old(cps)@), c@, key@),
{
    let ghost pv = pair_views(cps@);
    let cs = string_of(c);
    match find_cp(cps, c) {
        Some(i) => {
            cps.set(i, (cs, key.to_string()));
            proof {
                assert(pair_views(cps@) =~= pv.update(i as int, (c@, key@)));
            }
        },
        None => match find_cp_after(cps, c) {
            Some(j) => {
                cps.insert(j, (cs, key.to_string()));
                proof {
                    assert(pair_views(cps@) =~= pv.insert(j as int, (c@, key@)));
                }
            },
            None => {
                cps.push((cs, key.to_string()));
                proof {
                    assert(pair_views(cps@) =~= pv.push((c@, key@)));
                }
            },
        },
    }
}

/// The common prefix of `key` (see `item_prefix`); `key` has the prefix.
fn item_prefix_exec(key: &[char], prefix: &[char], delim: &[char]) -> (r: Option<Vec<char>>)
    requires
        prefix@.len() <= key@.len(),
    ensures
        match item_prefix(key@, prefix@, delim@) {
            Some(c) => r matches Some(v) && v@ == c,
            None => r is None,
        },
{
    if delim.len() == 0 {
        return None;
    }
    let suffix = slice_chars(key, prefix.len(), key.len());
    proof {
        lemma_find_from(suffix@, delim@, 0);
    }
    match find_chars(suffix.as_slice(), delim) {
        Some(pos) => {
            let head = slice_chars(suffix.as_slice(), 0, pos);
            let mut c: Vec<char> = Vec::new();
            let mut i: usize = 0;
            while i < prefix.len()
                invariant
                    i <= prefix@.len(),
                    c@ == prefix@.take(i as int),
                decreases prefix@.len() - i,
            {
                c.push(prefix[i]);
                proof {
                    assert(prefix@.take(i + 1) =~= prefix@.take(i as int).push(prefix@[i as int]));
                }
                i = i + 1;
            }
            let mut j: usize = 0;
            while j < head.len()
                invariant
                    j <= head@.len(),
                    c@ == prefix@ + head@.take(j as int),
                decreases head@.len() - j,
            {
                c.push(head[j]);
                proof {
                    assert(head@.take(j + 1) =~= head@.take(j as int).push(head@[j as int]));
                }
                j = j + 1;
            }
            let mut k: usize = 0;
            while k < delim.len()
                invariant
                    k <= delim@.len(),
                    c@ == prefix@ + head@ + delim@.take(k as int),
                decreases delim@.len() - k,
            {
                c.push(delim[k]);
                proof {
                    assert(delim@.take(k + 1) =~= delim@.take(k as int).push(delim@[k as int]));
                }
                k = k + 1;
            }
            proof {
                assert(prefix@.take(prefix@.len() as int) =~= prefix@);
                assert(head@.take(head@.len() as int) =~= head@);
                assert(delim@.take(delim@.len() as int) =~= delim@);
            }
            Some(c)
        },
        None => None,
    }
}

/// The scan of `page_scan`, over items that all have the prefix.
fn page_scan_exec(items: &Vec<Item>, prefix: &[char], delim: &[char], limit: Option<usize>) -> (r: (
    Vec<Item>,
    Vec<(String, String)>,
    bool,
))
    requires
        forall|j: int| 0 <= j < items@.len() ==> has_prefix(#[trigger] items@[j].key@, prefix@),
    ensures
        (item_views(r.0@), pair_views(r.1@), r.2) == page_scan(
            item_views(items@),
            prefix@,
            delim@,
            match limit {
                Some(l) => Some(l as nat),
                None => None,
            },
        ),
{
    let ghost iv = item_views(items@);
    let ghost lim = match limit {
        Some(l) => Some(l as nat),
        None => None::<nat>,
    };
    let mut cs: Vec<Item> = Vec::new();
    let mut ps: Vec<(String, String)> = Vec::new();
    let mut stopped = false;
    let mut i: usize = 0;
    proof {
        assert(iv.take(0) =~= Seq::<ItemView>::empty());
        assert(item_views(cs@) =~= Seq::<ItemView>::empty());
        assert(pair_views(ps@) =~= Seq::<(Seq<char>, Seq<char>)>::empty());
    }
    while i < items.len()
        invariant
            i <= items@.len(),
            iv == item_views(items@),
            forall|j: int| 0 <= j < items@.len() ==> has_prefix(#[trigger] items@[j].key@, prefix@),
            lim == match limit {
                Some(l) => Some(l as nat),
                None => None,
            },
            (item_views(cs@), pair_views(ps@), stopped) == page_scan(iv.take(i as int), prefix@, delim@, lim),
        decreases items@.len() - i,
    {
        let it = &items[i];
        proof {
            assert(iv.take(i + 1).drop_last() =~= iv.take(i as int));
            assert(iv.take(i + 1).last() == iv[i as int]);
            assert(has_prefix(items@[i as int].key@, prefix@));
        }
        if !stopped {
            let full = match limit {
                Some(l) => cs.len() >= l || ps.len() >= l - cs.len(),
                None => false,
            };
            let kc = chars_of(it.key.as_str());
            match item_prefix_exec(kc.as_slice(), prefix, delim) {
                None => {
                    if full {
                        stopped = true;
                    } else {
                        let ghost before = item_views(cs@);
                        cs.push(Item { key: it.key.clone(), last_modified: it.last_modified, etag: it.etag.clone(), size: it.size });
                        proof {
                            assert(item_views(cs@) =~= before.push(iv[i as int]));
                        }
                    }
                },
                Some(c) => {
                    let known = find_cp(&ps, c.as_slice()).is_some();
                    if known || !full {
                        cp_update_exec(&mut ps, c.as_slice(), it.key.as_str());
                    } else {
                        stopped = true;
                    }
                },
            }
        }
        i = i + 1;
    }
    proof {
        assert(iv.take(items@.len() as int) =~= iv);
    }
    (cs, ps, stopped)
}

// ---------------------------------------------------------------------------
// Query parameters
// ---------------------------------------------------------------------------

/// A query parameter, empty when absent.
pub open spec fn param(q: Map<Seq<char>, Seq<char>>, k: Seq<char>) -> Seq<char> {
    if q.contains_key(k) {
        q[k]
    } else {
        Seq::empty()
    }
}

/// The page size: `max-keys` read as a number and capped at 1000; 1000
/// when absent or not a number.
pub open spec fn max_keys_param(q: Map<Seq<char>, Seq<char>>) -> nat {
    if q.contains_key("max-keys"@) {
        match parse_unsigned_spec(q["max-keys"@], usize::MAX as nat) {
            Some(n) => if n < 1000 {
                n
            } else {
                1000
            },
            None => 1000,
        }
    } else {
        1000
    }
}

fn param_exec(q: &crate::strmap::StrMap<String>, k: &str) -> (r: String)
    requires
        q.wf(),
    ensures
        r@ == param(q@, k@),
{
    match q.get(k) {
        Some(v) => v.clone(),
        None => String::new(),
    }
}

fn max_keys_exec(q: &crate::strmap::StrMap<String>) -> (r: usize)
    requires
        q.wf(),
    ensures
        r == max_keys_param(q@),
        r <= 1000,
{
    match q.get("max-keys") {
        Some(v) => {
            let c = chars_of(v.as_str());
            match parse_usize(c.as_slice()) {
                Some(n) => if n < 1000 {
                    n
                } else {
                    1000
                },
                None => 1000,
            }
        },
        None => 1000,
    }
}

// ---------------------------------------------------------------------------
// Documents
// ---------------------------------------------------------------------------

/// One `<Contents>` entry.
pub open spec fn contents_entry(it: ItemView) -> Seq<char> {
    "<Contents><Key>"@ + escape_xml_spec(it.0) + "</Key><LastModified>"@ + utc_millis_text(it.1) + "</LastModified><ETag>"@
        + escape_xml_spec(it.2) + "</ETag><Size>"@ + decimal_spec(it.3 as nat)
        + "</Size><StorageClass>STANDARD</StorageClass></Contents>"@
}

pub open spec fn contents_xml(items: Seq<ItemView>) -> Seq<char>
    decreases items.len(),
{
    if items.len() == 0 {
        Seq::empty()
    } else {
        contents_xml(items.drop_last()) + contents_entry(items.last())
    }
}

/// One `<CommonPrefixes>` entry.
pub open spec fn prefix_entry(c: Seq<char>) -> Seq<char> {
    "<CommonPrefixes><Prefix>"@ + escape_xml_spec(c) + "</Prefix></CommonPrefixes>"@
}

pub open spec fn prefixes_xml(cps: Seq<(Seq<char>, Seq<char>)>) -> Seq<char>
    decreases cps.len(),
{
    if cps.len() == 0 {
        Seq::empty()
    } else {
        prefixes_xml(cps.drop_last()) + prefix_entry(cps.last().0)
    }
}

fn push_contents(out: &mut String, items: &Vec<Item>, n: usize)
    requires
        n <= items@.len(),
    ensures
        final(out)@ == old(out)@ + contents_xml(item_views(items@).take(n as int)),
{
    let ghost iv = item_views(items@);
    let ghost start = out@;
    let mut i: usize = 0;
    proof {
        assert(iv.take(0) =~= Seq::<ItemView>::empty());
        assert(out@ =~= start + contents_xml(iv.take(0)));
    }
    while i < n
        invariant
            i <= n,
            n <= items@.len(),
            iv == item_views(items@),
            out@ == start + contents_xml(iv.take(i as int)),
        decreases n - i,
    {
        let it = &items[i];
        let ghost before = out@;
        push_str(out, "<Contents><Key>");
        push_escaped(out, it.key.as_str());
        push_str(out, "</Key><LastModified>");
        let d = format_utc_millis(it.last_modified);
        push_str(out, d.as_str());
        push_str(out, "</LastModified><ETag>");
        push_escaped(out, it.etag.as_str());
        push_str(out, "</ETag><Size>");
        push_decimal(out, it.size);
        push_str(out, "</Size><StorageClass>STANDARD</StorageClass></Contents>");
        proof {
            assert(iv.take(i + 1).drop_last() =~= iv.take(i as int));
            assert(iv.take(i + 1).last() == iv[i as int]);
            assert(out@ =~= before + contents_entry(iv[i as int]));
        }
        i = i + 1;
    }
}

fn push_prefixes(out: &mut String, cps: &Vec<(String, String)>, n: usize)
    requires
        n <= cps@.len(),
    ensures
        final(out)@ == old(out)@ + prefixes_xml(pair_views(cps@).take(n as int)),
{
    let ghost pv = pair_views(cps@);
    let ghost start = out@;
    let mut i: usize = 0;
    proof {
        assert(pv.take(0) =~= Seq::<(Seq<char>, Seq<char>)>::empty());
        assert(out@ =~= start + prefixes_xml(pv.take(0)));
    }
    while i < n
        invariant
            i <= n,
            n <= cps@.len(),
            pv == pair_views(cps@),
            out@ == start + prefixes_xml(pv.take(i as int)),
        decreases n - i,
    {
        let ghost before = out@;
        push_str(out, "<CommonPrefixes><Prefix>");
        push_escaped(out, cps[i].0.as_str());
        push_str(out, "</Prefix></CommonPrefixes>");
        proof {
            assert(pv.take(i + 1).drop_last() =~= pv.take(i as int));
            assert(pv.take(i + 1).last() == pv[i as int]);
            assert(out@ =~= before + prefix_entry(pv[i as int].0));
        }
        i = i + 1;
    }
}

// ---------------------------------------------------------------------------
// ListObjects
// ---------------------------------------------------------------------------

/// The key of the last item with prefix `p`.
pub open spec fn last_with_prefix(items: Seq<ItemView>, p: Seq<char>) -> Option<Seq<char>>
    decreases items.len(),
{
    if items.len() == 0 {
        None
    } else if has_prefix(items.last().0, p) {
        Some(items.last().0)
    } else {
        last_with_prefix(items.drop_last(), p)
    }
}

pub open spec fn min_nat(a: nat, b: nat) -> nat {
    if a < b {
        a
    } else {
        b
    }
}

/// The opening of a ListBucketResult: the bucket, the prefix and the
/// page size.
pub open spec fn listing_head(b: Seq<char>, prefix: Seq<char>, mk: nat) -> Seq<char> {
    s3_doc_open("ListBucketResult"@) + "<Name>"@ + escape_xml_spec(b) + "</Name><Prefix>"@ + escape_xml_spec(prefix)
        + "</Prefix><MaxKeys>"@ + decimal_spec(mk) + "</MaxKeys>"@
}

/// The entries of a page and the closing tag: the first `cn` contents,
/// then the first `cpn` common prefixes.
pub open spec fn page_xml(cs: Seq<ItemView>, ps: Seq<(Seq<char>, Seq<char>)>, cn: nat, cpn: nat) -> Seq<char> {
    contents_xml(cs.take(cn as int)) + prefixes_xml(ps.take(cpn as int)) + "</ListBucketResult>"@
}

/// How a page is cut from `nc` contents and `np` common prefixes: whether
/// it is truncated, how many contents it keeps and how many prefixes
/// (prefixes first).
pub open spec fn page_cut(nc: nat, np: nat, mk: nat) -> (bool, nat, nat) {
    let cpn = min_nat(np, mk);
    (nc + np > mk, min_nat(nc, (mk - cpn) as nat), cpn)
}

fn page_cut_exec(nc: usize, np: usize, mk: usize) -> (r: (bool, usize, usize))
    ensures
        (r.0, r.1 as nat, r.2 as nat) == page_cut(nc as nat, np as nat, mk as nat),
        r.1 <= nc,
        r.2 <= np,
{
    let truncated = nc > mk || np > mk - nc;
    let cpn = if np < mk {
        np
    } else {
        mk
    };
    let rem = mk - cpn;
    let cn = if nc < rem {
        nc
    } else {
        rem
    };
    (truncated, cn, cpn)
}

fn push_listing_head(out: &mut String, bucket: &str, prefix: &str, mk: usize)
    ensures
        final(out)@ == old(out)@ + listing_head(bucket@, prefix@, mk as nat),
{
    let ghost start = out@;
    push_doc_open(out, "ListBucketResult");
    push_str(out, "<Name>");
    push_escaped(out, bucket);
    push_str(out, "</Name><Prefix>");
    push_escaped(out, prefix);
    push_str(out, "</Prefix><MaxKeys>");
    push_decimal(out, mk as u64);
    push_str(out, "</MaxKeys>");
    proof {
        assert(out@ =~= start + listing_head(bucket@, prefix@, mk as nat));
    }
}

fn push_page(out: &mut String, cs: &Vec<Item>, ps: &Vec<(String, String)>, cn: usize, cpn: usize)
    requires
        cn <= cs@.len(),
        cpn <= ps@.len(),
    ensures
        final(out)@ == old(out)@ + page_xml(item_views(cs@), pair_views(ps@), cn as nat, cpn as nat),
{
    let ghost start = out@;
    push_contents(out, cs, cn);
    push_prefixes(out, ps, cpn);
    push_str(out, "</ListBucketResult>");
    proof {
        assert(out@ =~= start + page_xml(item_views(cs@), pair_views(ps@), cn as nat, cpn as nat));
    }
}

/// The ListBucketResult document of a ListObjects request on bucket `b`:
/// the keys with the prefix after the marker; with a delimiter, rolled
/// into common prefixes.  When there are more entries than the page
/// holds, common prefixes go first, the page is marked truncated and the
/// next marker is the last key listed (or the last key under the last
/// common prefix listed).
pub open spec fn list_v1_body(s: &S3Store, b: Seq<char>, q: Map<Seq<char>, Seq<char>>) -> Seq<char> {
    let prefix = param(q, "prefix"@);
    let delim = param(q, "delimiter"@);
    let mk = max_keys_param(q);
    let marker = param(q, "marker"@);
    let items = listing_items(
        bucket_objects(s, b),
        prefix,
        if marker.len() > 0 {
            Some(marker)
        } else {
            None
        },
    );
    let g = page_scan(items, prefix, delim, None);
    let cut = page_cut(g.0.len(), g.1.len(), mk);
    listing_head(b, prefix, mk) + "<IsTruncated>"@ + bool_spec(cut.0) + "</IsTruncated>"@ + next_marker_xml(
        items,
        g.0,
        g.1,
        cut,
    ) + page_xml(g.0, g.1, cut.1, cut.2)
}

/// The marker of the next page of a ListObjects listing, written out
/// when the page is truncated and there is one.
pub open spec fn next_marker_xml(
    items: Seq<ItemView>,
    cs: Seq<ItemView>,
    ps: Seq<(Seq<char>, Seq<char>)>,
    cut: (bool, nat, nat),
) -> Seq<char> {
    let next = if !cut.0 {
        Seq::empty()
    } else if cut.1 > 0 {
        cs[cut.1 - 1].0
    } else if cut.2 > 0 {
        match last_with_prefix(items, ps[cut.2 - 1].0) {
            Some(k) => k,
            None => Seq::empty(),
        }
    } else {
        Seq::empty()
    };
    if cut.0 && next.len() > 0 {
        "<NextMarker>"@ + escape_xml_spec(next) + "</NextMarker>"@
    } else {
        Seq::empty()
    }
}

/// What ListObjects answers.
pub open spec fn list_v1_outcome(s: &S3Store, ctx: RequestContext, r: ResponseView) -> bool {
    match req_bucket(ctx) {
        None => r == no_bucket_name(),
        Some(b) => r == if !s@.buckets.contains_key(b) {
            no_such_bucket()
        } else {
            s3_ok_view(list_v1_body(s, b, ctx.query_params@))
        },
    }
}

fn last_with_prefix_exec(items: &Vec<Item>, p: &[char]) -> (r: Option<String>)
    ensures
        crate::text::opt_view(r) == last_with_prefix(item_views(items@), p@),
{
    let ghost iv = item_views(items@);
    let mut i: usize = items.len();
    proof {
        assert(iv.take(iv.len() as int) =~= iv);
    }
    while i > 0
        invariant
            i <= items@.len(),
            iv == item_views(items@),
            last_with_prefix(iv, p@) == last_with_prefix(iv.take(i as int), p@),
        decreases i,
    {
        let kc = chars_of(items[i - 1].key.as_str());
        proof {
            assert(iv.take(i as int).last() == iv[i - 1]);
            assert(iv.take(i as int).drop_last() =~= iv.take(i - 1));
        }
        if starts_with_chars(kc.as_slice(), p) {
            return Some(items[i - 1].key.clone());
        }
        i = i - 1;
    }
    None
}

fn next_marker_exec(items: &Vec<Item>, cs: &Vec<Item>, ps: &Vec<(String, String)>, truncated: bool, cn: usize, cpn: usize) -> (r: String)
    requires
        cn <= cs@.len(),
        cpn <= ps@.len(),
    ensures
        r@ == next_marker_xml(item_views(items@), item_views(cs@), pair_views(ps@), (truncated, cn as nat, cpn as nat)),
{
    let next: String = if !truncated {
        String::new()
    } else if cn > 0 {
        cs[cn - 1].key.clone()
    } else if cpn > 0 {
        let lc = chars_of(ps[cpn - 1].0.as_str());
        match last_with_prefix_exec(items, lc.as_slice()) {
            Some(k) => k,
            None => String::new(),
        }
    } else {
        String::new()
    };
    proof {
        reveal_strlit("");
    }
    let mut out = String::new();
    if truncated && !next.as_str().eq("") {
        push_str(&mut out, "<NextMarker>");
        push_escaped(&mut out, next.as_str());
        push_str(&mut out, "</NextMarker>");
    }
    proof {
        if next@.len() > 0 {
            assert(next@ != ""@);
        } else {
            assert(next@ =~= ""@);
        }
        assert(out@ =~= next_marker_xml(item_views(items@), item_views(cs@), pair_views(ps@), (truncated, cn as nat, cpn as nat)));
    }
    out
}

/// ListObjects (the first version of the listing).
pub fn list_objects_v1(store: &S3Store, ctx: &RequestContext) -> (r: DispatchResponse)
    requires
        store.wf(),
        ctx.wf(),
    ensures
        list_v1_outcome(store, *ctx, r@),
{
    let bucket = match bucket_from_path(ctx.path.as_str()) {
        Some(b) => b,
        None => return invalid_bucket_name(),
    };
    if !store.bucket_exists(bucket.as_str()) {
        return missing_bucket();
    }
    let q = &ctx.query_params;
    let prefix = param_exec(q, "prefix");
    let delim = param_exec(q, "delimiter");
    let mk = max_keys_exec(q);
    let marker = param_exec(q, "marker");
    proof {
        reveal_strlit("");
    }
    let has_marker = !marker.as_str().eq("");
    let ghost after = if marker@.len() > 0 {
        Some(marker@)
    } else {
        None
    };
    proof {
        if marker@.len() > 0 {
            assert(marker@ != ""@);
        } else {
            assert(marker@ =~= ""@);
        }
    }
    let items = gather_items(
        store,
        bucket.as_str(),
        prefix.as_str(),
        if has_marker {
            Some(marker.as_str())
        } else {
            None
        },
    );
    proof {
        assert forall|j: int| 0 <= j < items@.len() implies has_prefix(#[trigger] items@[j].key@, prefix@) by {
            lemma_listing_items_prefix(bucket_objects(store, bucket@), prefix@, after, j);
            assert(item_views(items@)[j].0 == items@[j].key@);
        }
    }
    let pc = chars_of(prefix.as_str());
    let dc = chars_of(delim.as_str());
    let (cs, ps, _stopped) = page_scan_exec(&items, pc.as_slice(), dc.as_slice(), None);
    let (truncated, cn, cpn) = page_cut_exec(cs.len(), ps.len(), mk);
    let nm = next_marker_exec(&items, &cs, &ps, truncated, cn, cpn);
    let mut body = String::new();
    push_listing_head(&mut body, bucket.as_str(), prefix.as_str(), mk);
    push_str(&mut body, "<IsTruncated>");
    push_bool(&mut body, truncated);
    push_str(&mut body, "</IsTruncated>");
    push_str(&mut body, nm.as_str());
    push_page(&mut body, &cs, &ps, cn, cpn);
    proof {
        assert(body@ =~= list_v1_body(store, bucket@, ctx.query_params@));
    }
    s3_ok(body)
}

/// Every listed item has the prefix.
pub proof fn lemma_listing_items_prefix(objs: Seq<S3Object>, prefix: Seq<char>, after: Option<Seq<char>>, j: int)
    requires
        0 <= j < listing_items(objs, prefix, after).len(),
    ensures
        has_prefix(listing_items(objs, prefix, after)[j].0, prefix),
    decreases objs.len(),
{
    if objs.len() > 0 {
        let init = listing_items(objs.drop_last(), prefix, after);
        if j < init.len() {
            lemma_listing_items_prefix(objs.drop_last(), prefix, after, j);
        }
    }
}

// ---------------------------------------------------------------------------
// ListObjectsV2
// ---------------------------------------------------------------------------

/// Where a ListObjectsV2 page starts: after the continuation token, or
/// else after `start-after`.
pub open spec fn skip_after(q: Map<Seq<char>, Seq<char>>) -> Option<Seq<char>> {
    if q.contains_key("continuation-token"@) {
        Some(q["continuation-token"@])
    } else if q.contains_key("start-after"@) {
        Some(q["start-after"@])
    } else {
        None
    }
}

/// The ListBucketResult document of a ListObjectsV2 request on bucket
/// `b`.  The keys with the prefix after the start are scanned until one
/// more entry than the page holds is found; common prefixes go first
/// into the page, then contents.  A truncated page carries a continuation
/// token: the last key listed, or else the last key seen under the last
/// common prefix listed.
pub open spec fn list_v2_body(s: &S3Store, b: Seq<char>, q: Map<Seq<char>, Seq<char>>) -> Seq<char> {
    let prefix = param(q, "prefix"@);
    let delim = param(q, "delimiter"@);
    let mk = max_keys_param(q);
    let items = listing_items(bucket_objects(s, b), prefix, skip_after(q));
    let g = page_scan(items, prefix, delim, Some(mk + 1));
    let cut = page_cut(g.0.len(), g.1.len(), mk);
    listing_head(b, prefix, mk) + "<KeyCount>"@ + decimal_spec(cut.1 + cut.2) + "</KeyCount><IsTruncated>"@ + bool_spec(
        cut.0,
    ) + "</IsTruncated>"@ + token_xml(g.0, g.1, cut) + page_xml(g.0, g.1, cut.1, cut.2)
}

/// The continuation token of a truncated ListObjectsV2 page, written out.
pub open spec fn token_xml(cs: Seq<ItemView>, ps: Seq<(Seq<char>, Seq<char>)>, cut: (bool, nat, nat)) -> Seq<char> {
    let next: Option<Seq<char>> = if !cut.0 {
        None
    } else if cut.1 > 0 {
        Some(cs[cut.1 - 1].0)
    } else if cut.2 > 0 {
        Some(ps[cut.2 - 1].1)
    } else {
        None
    };
    match next {
        Some(t) => "<NextContinuationToken>"@ + escape_xml_spec(t) + "</NextContinuationToken>"@,
        None => Seq::empty(),
    }
}

/// What ListObjectsV2 answers.
pub open spec fn list_v2_outcome(s: &S3Store, ctx: RequestContext, r: ResponseView) -> bool {
    match req_bucket(ctx) {
        None => r == no_bucket_name(),
        Some(b) => r == if !s@.buckets.contains_key(b) {
            no_such_bucket()
        } else {
            s3_ok_view(list_v2_body(s, b, ctx.query_params@))
        },
    }
}

fn token_exec(cs: &Vec<Item>, ps: &Vec<(String, String)>, truncated: bool, cn: usize, cpn: usize) -> (r: String)
    requires
        cn <= cs@.len(),
        cpn <= ps@.len(),
    ensures
        r@ == token_xml(item_views(cs@), pair_views(ps@), (truncated, cn as nat, cpn as nat)),
{
    let next: Option<String> = if !truncated {
        None
    } else if cn > 0 {
        Some(cs[cn - 1].key.clone())
    } else if cpn > 0 {
        Some(ps[cpn - 1].1.clone())
    } else {
        None
    };
    let mut out = String::new();
    match &next {
        Some(t) => {
            push_str(&mut out, "<NextContinuationToken>");
            push_escaped(&mut out, t.as_str());
            push_str(&mut out, "</NextContinuationToken>");
        },
        None => {},
    }
    proof {
        assert(out@ =~= token_xml(item_views(cs@), pair_views(ps@), (truncated, cn as nat, cpn as nat)));
    }
    out
}

/// ListObjectsV2.
pub fn list_objects_v2(store: &S3Store, ctx: &RequestContext) -> (r: DispatchResponse)
    requires
        store.wf(),
        ctx.wf(),
    ensures
        list_v2_outcome(store, *ctx, r@),
{
    let bucket = match bucket_from_path(ctx.path.as_str()) {
        Some(b) => b,
        None => return invalid_bucket_name(),
    };
    if !store.bucket_exists(bucket.as_str()) {
        return missing_bucket();
    }
    let q = &ctx.query_params;
    let prefix = param_exec(q, "prefix");
    let delim = param_exec(q, "delimiter");
    let mk = max_keys_exec(q);
    let skip: Option<&String> = match q.get("continuation-token") {
        Some(t) => Some(t),
        None => q.get("start-after"),
    };
    let items = gather_items(
        store,
        bucket.as_str(),
        prefix.as_str(),
        match skip {
            Some(t) => Some(t.as_str()),
            None => None,
        },
    );
    proof {
        assert forall|j: int| 0 <= j < items@.len() implies has_prefix(#[trigger] items@[j].key@, prefix@) by {
            lemma_listing_items_prefix(bucket_objects(store, bucket@), prefix@, skip_after(ctx.query_params@), j);
            assert(item_views(items@)[j].0 == items@[j].key@);
        }
    }
    let pc = chars_of(prefix.as_str());
    let dc = chars_of(delim.as_str());
    let (cs, ps, _stopped) = page_scan_exec(&items, pc.as_slice(), dc.as_slice(), Some(mk + 1));
    let (truncated, cn, cpn) = page_cut_exec(cs.len(), ps.len(), mk);
    let tok = token_exec(&cs, &ps, truncated, cn, cpn);
    let mut body = String::new();
    push_listing_head(&mut body, bucket.as_str(), prefix.as_str(), mk);
    push_str(&mut body, "<KeyCount>");
    push_decimal(&mut body, (cn + cpn) as u64);
    push_str(&mut body, "</KeyCount><IsTruncated>");
    push_bool(&mut body, truncated);
    push_str(&mut body, "</IsTruncated>");
    push_str(&mut body, tok.as_str());
    push_page(&mut body, &cs, &ps, cn, cpn);
    proof {
        assert(body@ =~= list_v2_body(store, bucket@, ctx.query_params@));
    }
    s3_ok(body)
}

// ---------------------------------------------------------------------------
// ListObjectVersions
// ---------------------------------------------------------------------------

/// One entry of a version listing: a `<DeleteMarker>` or a `<Version>`,
/// latest when its id is the id of the object's newest version.
pub open spec fn version_entry(key: Seq<char>, v: VersionView, latest: bool) -> Seq<char> {
    if v.delete_marker {
        "<DeleteMarker><Key>"@ + escape_xml_spec(key) + "</Key><VersionId>"@ + escape_xml_spec(v.version_id)
            + "</VersionId><IsLatest>"@ + bool_spec(latest) + "</IsLatest><LastModified>"@ + utc_millis_text(
            v.last_modified,
        ) + "</LastModified></DeleteMarker>"@
    } else {
        "<Version><Key>"@ + escape_xml_spec(key) + "</Key><VersionId>"@ + escape_xml_spec(v.version_id)
            + "</VersionId><IsLatest>"@ + bool_spec(latest) + "</IsLatest><LastModified>"@ + utc_millis_text(
            v.last_modified,
        ) + "</LastModified><ETag>"@ + escape_xml_spec(v.etag) + "</ETag><Size>"@ + decimal_spec(v.size as nat)
            + "</Size><StorageClass>STANDARD</StorageClass></Version>"@
    }
}

/// The entries for the first `n` versions of an object.
pub open spec fn version_entries(key: Seq<char>, vs: Seq<VersionView>, n: nat) -> Seq<char>
    decreases n,
{
    if n == 0 {
        Seq::empty()
    } else {
        version_entries(key, vs, (n - 1) as nat) + version_entry(
            key,
            vs[n - 1],
            vs[0].version_id == vs[n - 1].version_id,
        )
    }
}

/// The entries for the objects whose key has the prefix, in key order.
pub open spec fn versions_xml(objs: Seq<S3Object>, prefix: Seq<char>) -> Seq<char>
    decreases objs.len(),
{
    if objs.len() == 0 {
        Seq::empty()
    } else {
        let o = objs.last();
        versions_xml(objs.drop_last(), prefix) + if has_prefix(o.key@, prefix) {
            let vs = versions_view(o.versions@);
            version_entries(o.key@, vs, vs.len())
        } else {
            Seq::empty()
        }
    }
}

/// The ListVersionsResult document for bucket `b`.
pub open spec fn list_versions_body(s: &S3Store, b: Seq<char>, q: Map<Seq<char>, Seq<char>>) -> Seq<char> {
    let prefix = param(q, "prefix"@);
    s3_doc_open("ListVersionsResult"@) + "<Name>"@ + escape_xml_spec(b) + "</Name><Prefix>"@ + escape_xml_spec(prefix)
        + "</Prefix><IsTruncated>false</IsTruncated>"@ + versions_xml(bucket_objects(s, b), prefix)
        + "</ListVersionsResult>"@
}

/// What ListObjectVersions answers.
pub open spec fn list_versions_outcome(s: &S3Store, ctx: RequestContext, r: ResponseView) -> bool {
    match req_bucket(ctx) {
        None => r == no_bucket_name(),
        Some(b) => r == if !s@.buckets.contains_key(b) {
            no_such_bucket()
        } else {
            s3_ok_view(list_versions_body(s, b, ctx.query_params@))
        },
    }
}

fn push_version_entry(out: &mut String, key: &str, v: &ObjectVersion, latest: bool)
    ensures
        final(out)@ == old(out)@ + version_entry(key@, v@, latest),
{
    let ghost start = out@;
    let d = format_utc_millis(v.last_modified);
    if v.delete_marker {
        push_str(out, "<DeleteMarker><Key>");
        push_escaped(out, key);
        push_str(out, "</Key><VersionId>");
        push_escaped(out, v.version_id.as_str());
        push_str(out, "</VersionId><IsLatest>");
        push_bool(out, latest);
        push_str(out, "</IsLatest><LastModified>");
        push_str(out, d.as_str());
        push_str(out, "</LastModified></DeleteMarker>");
    } else {
        push_str(out, "<Version><Key>");
        push_escaped(out, key);
        push_str(out, "</Key><VersionId>");
        push_escaped(out, v.version_id.as_str());
        push_str(out, "</VersionId><IsLatest>");
        push_bool(out, latest);
        push_str(out, "</IsLatest><LastModified>");
        push_str(out, d.as_str());
        push_str(out, "</LastModified><ETag>");
        push_escaped(out, v.etag.as_str());
        push_str(out, "</ETag><Size>");
        push_decimal(out, v.size);
        push_str(out, "</Size><StorageClass>STANDARD</StorageClass></Version>");
    }
    proof {
        assert(out@ =~= start + version_entry(key@, v@, latest));
    }
}

fn push_object_versions(out: &mut String, o: &S3Object)
    ensures
        final(out)@ == old(out)@ + version_entries(o.key@, versions_view(o.versions@), o.versions@.len()),
{
    let ghost vs = versions_view(o.versions@);
    let ghost start = out@;
    let mut i: usize = 0;
    while i < o.versions.len()
        invariant
            i <= o.versions@.len(),
            vs == versions_view(o.versions@),
            out@ == start + version_entries(o.key@, vs, i as nat),
        decreases o.versions@.len() - i,
    {
        let v = &o.versions[i];
        let latest = o.versions[0].version_id.as_str().eq(v.version_id.as_str());
        let ghost before = out@;
        push_version_entry(out, o.key.as_str(), v, latest);
        proof {
            assert(vs[i as int] == v@);
            assert(vs[0] == o.versions@[0]@);
        }
        i = i + 1;
    }
}

/// ListObjectVersions.
pub fn list_object_versions(store: &S3Store, ctx: &RequestContext) -> (r: DispatchResponse)
    requires
        store.wf(),
        ctx.wf(),
    ensures
        list_versions_outcome(store, *ctx, r@),
{
    let bucket = match bucket_from_path(ctx.path.as_str()) {
        Some(b) => b,
        None => return invalid_bucket_name(),
    };
    if !store.bucket_exists(bucket.as_str()) {
        return missing_bucket();
    }
    let prefix = param_exec(&ctx.query_params, "prefix");
    let pc = chars_of(prefix.as_str());
    let objs = store.list_objects(bucket.as_str());
    let ghost ov = bucket_objects(store, bucket@);
    let mut entries = String::new();
    let mut i: usize = 0;
    proof {
        assert(ov.take(0) =~= Seq::<S3Object>::empty());
    }
    while i < objs.len()
        invariant
            i <= objs@.len(),
            objs@.len() == ov.len(),
            forall|j: int| 0 <= j < objs@.len() ==> *(#[trigger] objs@[j]) == ov[j],
            pc@ == prefix@,
            entries@ == versions_xml(ov.take(i as int), prefix@),
        decreases objs@.len() - i,
    {
        let o = objs[i];
        proof {
            assert(*objs@[i as int] == ov[i as int]);
            assert(ov.take(i + 1).drop_last() =~= ov.take(i as int));
            assert(ov.take(i + 1).last() == ov[i as int]);
        }
        let kc = chars_of(o.key.as_str());
        if starts_with_chars(kc.as_slice(), pc.as_slice()) {
            push_object_versions(&mut entries, o);
        } else {
            proof {
                assert(entries@ + Seq::<char>::empty() =~= entries@);
            }
        }
        i = i + 1;
    }
    proof {
        assert(ov.take(objs@.len() as int) =~= ov);
    }
    let mut body = String::new();
    push_doc_open(&mut body, "ListVersionsResult");
    push_str(&mut body, "<Name>");
    push_escaped(&mut body, bucket.as_str());
    push_str(&mut body, "</Name><Prefix>");
    push_escaped(&mut body, prefix.as_str());
    push_str(&mut body, "</Prefix><IsTruncated>false</IsTruncated>");
    push_str(&mut body, entries.as_str());
    push_str(&mut body, "</ListVersionsResult>");
    proof {
        assert(body@ =~= list_versions_body(store, bucket@, ctx.query_params@));
    }
    s3_ok(body)
}

} // verus!
