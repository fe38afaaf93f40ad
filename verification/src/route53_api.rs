//! The Route 53 request layer: REST paths and XML bodies in, XML documents
//! out.
//!
//! Handlers take the request id and the fresh identifiers a request needs
//! as arguments; `dispatch` draws them.
use vstd::prelude::*;

use crate::http::{lossy_text, plain, plain_response, split_chars, split_spec, utf8_lossy, DispatchError, DispatchResponse, RequestContext, ResponseView};
use crate::query::{element, push_element};
use crate::route53::{
    parse_rrsets, record_entry_view, rrsets_from, tag_entry_view, xml_text, xml_text_spec, HealthCheck, HealthCheckConfig,
    HealthCheckView, HostedZone, RecordEntry, RecordSetView, ResourceRecordSet, Route53Store, Route53StoreView,
    TagEntry, ZoneView,
};
use crate::seqs::{first_where, lemma_first_where, lemma_first_where_none, lemma_first_where_some};
use crate::strmap::StrMap;
use crate::text::{
    bool_spec, chars_of, decimal_spec, escape_xml_spec, opt_view, parse_u16, parse_u32, parse_unsigned_spec, push_bool,
    push_decimal, push_escaped, push_str, string_of, string_views,
};

verus! {

/// The XML namespace of Route 53 documents.
pub open spec fn route53_ns() -> Seq<char> {
    "https://route53.amazonaws.com/doc/2013-04-01/"@
}

/// `<?xml ...?><{name} xmlns="...">`
pub open spec fn doc_open(name: Seq<char>) -> Seq<char> {
    crate::query::xml_decl() + "<"@ + name + " xmlns=\""@ + route53_ns() + "\">"@
}

/// `</{name}>`
pub open spec fn doc_close(name: Seq<char>) -> Seq<char> {
    "</"@ + name + ">"@
}

/// A complete document named `name` around `inner`.
pub open spec fn document(name: Seq<char>, inner: Seq<char>) -> Seq<char> {
    doc_open(name) + inner + doc_close(name)
}

fn document_exec(name: &str, inner: &str) -> (r: String)
    ensures
        r@ == document(name@, inner@),
{
    let mut b = String::new();
    push_str(&mut b, "<?xml version=\"1.0\" encoding=\"UTF-8\"?>");
    push_str(&mut b, "<");
    push_str(&mut b, name);
    push_str(&mut b, " xmlns=\"");
    push_str(&mut b, "https://route53.amazonaws.com/doc/2013-04-01/");
    push_str(&mut b, "\">");
    push_str(&mut b, inner);
    push_str(&mut b, "</");
    push_str(&mut b, name);
    push_str(&mut b, ">");
    proof {
        assert(b@ =~= document(name@, inner@));
    }
    b
}

/// A 200 `application/xml` response.
pub open spec fn r53_ok(body: Seq<char>) -> ResponseView {
    plain_response(200, body, "application/xml"@)
}

/// A 201 `text/xml` response naming the new resource's location.
pub open spec fn r53_created(body: Seq<char>, location: Seq<char>) -> ResponseView {
    ResponseView {
        status_code: 201,
        body,
        content_type: "text/xml"@,
        headers: seq![("Location"@, location)],
    }
}

/// An error response, code and message escaped.
pub open spec fn r53_error(code: Seq<char>, message: Seq<char>, status: u16) -> ResponseView {
    plain_response(
        status,
        doc_open("ErrorResponse"@) + "<Error><Code>"@ + escape_xml_spec(code) + "</Code><Message>"@ + escape_xml_spec(
            message,
        ) + "</Message></Error>"@ + doc_close("ErrorResponse"@),
        "text/xml"@,
    )
}

fn ok(body: String) -> (r: DispatchResponse)
    ensures
        r@ == r53_ok(body@),
{
    plain(200, body, "application/xml")
}

fn created(body: String, location: String) -> (r: DispatchResponse)
    ensures
        r@ == r53_created(body@, location@),
{
    let mut headers: Vec<(String, String)> = Vec::new();
    headers.push(("Location".to_string(), location));
    let r = DispatchResponse { status_code: 201, body, content_type: "text/xml".to_string(), headers };
    proof {
        assert(r@.headers =~= seq![("Location"@, r.headers@[0].1@)]);
    }
    r
}

fn error(code: &str, message: &str, status: u16) -> (r: DispatchResponse)
    ensures
        r@ == r53_error(code@, message@, status),
{
    let mut inner = String::new();
    push_str(&mut inner, "<Error><Code>");
    push_escaped(&mut inner, code);
    push_str(&mut inner, "</Code><Message>");
    push_escaped(&mut inner, message);
    push_str(&mut inner, "</Message></Error>");
    let b = document_exec("ErrorResponse", inner.as_str());
    proof {
        assert(b@ =~= doc_open("ErrorResponse"@) + "<Error><Code>"@ + escape_xml_spec(code@) + "</Code><Message>"@
            + escape_xml_spec(message@) + "</Message></Error>"@ + doc_close("ErrorResponse"@));
    }
    plain(status, b, "text/xml")
}

/// `{before}{id}`
fn message2(before: &str, id: &str) -> (r: String)
    ensures
        r@ == before@ + id@,
{
    let mut m = String::new();
    push_str(&mut m, before);
    push_str(&mut m, id);
    proof {
        assert(m@ =~= before@ + id@);
    }
    m
}

/// The answer for a zone that does not exist.
pub open spec fn no_zone(id: Seq<char>) -> ResponseView {
    r53_error("NoSuchHostedZone"@, "No hosted zone found with ID: "@ + id, 404)
}

/// The answer for a health check that does not exist.
pub open spec fn no_health_check(id: Seq<char>) -> ResponseView {
    r53_error("NoSuchHealthCheck"@, "No health check with ID: "@ + id, 404)
}

fn zone_missing(id: &str) -> (r: DispatchResponse)
    ensures
        r@ == no_zone(id@),
{
    let m = message2("No hosted zone found with ID: ", id);
    error("NoSuchHostedZone", m.as_str(), 404)
}

fn health_check_missing(id: &str) -> (r: DispatchResponse)
    ensures
        r@ == no_health_check(id@),
{
    let m = message2("No health check with ID: ", id);
    error("NoSuchHealthCheck", m.as_str(), 404)
}

/// The change record every change reports: in sync, at a fixed time.
pub open spec fn change_info(id: Seq<char>) -> Seq<char> {
    "<ChangeInfo><Id>/change/"@ + id
        + "</Id><Status>INSYNC</Status><SubmittedAt>2010-09-10T01:36:41.958000Z</SubmittedAt></ChangeInfo>"@
}

fn push_change_info(out: &mut String, id: &str)
    ensures
        final(out)@ == old(out)@ + change_info(id@),
{
    push_str(out, "<ChangeInfo><Id>/change/");
    push_str(out, id);
    push_str(out, "</Id><Status>INSYNC</Status><SubmittedAt>2010-09-10T01:36:41.958000Z</SubmittedAt></ChangeInfo>");
    proof {
        assert(out@ =~= old(out)@ + change_info(id@));
    }
}

// ---------------------------------------------------------------------------
// Paths and bodies
// ---------------------------------------------------------------------------

/// The last `/`-separated segment of a path.
pub open spec fn last_path_segment(path: Seq<char>) -> Seq<char> {
    split_spec(path, '/').last()
}

fn last_path_segment_exec(path: &str) -> (r: String)
    ensures
        r@ == last_path_segment(path@),
{
    let c = chars_of(path);
    let parts = split_chars(c.as_slice(), '/');
    proof {
        crate::http::lemma_split_nonempty(c@, '/');
    }
    let n = parts.len();
    let r = string_of(parts[n - 1].as_slice());
    proof {
        assert(parts@.map_values(|v: Vec<char>| v@)[n - 1] == parts@[n - 1]@);
    }
    r
}

/// The path segment `k` places after the first segment equal to `marker`,
/// or empty when there is no such segment.
pub open spec fn segment_after(path: Seq<char>, marker: Seq<char>, k: int) -> Seq<char> {
    let parts = split_spec(path, '/');
    match first_where(parts, |p: Seq<char>| p == marker) {
        Some(i) => if i + k < parts.len() {
            parts[i + k]
        } else {
            Seq::empty()
        },
        None => Seq::empty(),
    }
}

fn segment_after_exec(path: &str, marker: &str, k: usize) -> (r: String)
    requires
        k <= 2,
    ensures
        r@ == segment_after(path@, marker@, k as int),
{
    let c = chars_of(path);
    let m = chars_of(marker);
    let parts = split_chars(c.as_slice(), '/');
    let ghost pv = parts@.map_values(|v: Vec<char>| v@);
    let ghost p = |s: Seq<char>| s == marker@;
    let mut i: usize = 0;
    while i < parts.len()
        invariant
            i <= parts@.len(),
            pv == parts@.map_values(|v: Vec<char>| v@),
            pv == split_spec(path@, '/'),
            m@ == marker@,
            p == (|s: Seq<char>| s == marker@),
            forall|j: int| 0 <= j < i ==> !p(#[trigger] pv[j]),
        decreases parts@.len() - i,
    {
        if crate::text::chars_eq(parts[i].as_slice(), m.as_slice()) {
            proof {
                assert(pv[i as int] == parts@[i as int]@);
                lemma_first_where(pv, p, i as int);
            }
            if k < parts.len() - i {
                let r = string_of(parts[i + k].as_slice());
                proof {
                    assert(pv[i + k] == parts@[i + k]@);
                }
                return r;
            }
            proof {
                reveal_strlit("");
            }
            return String::new();
        }
        proof {
            assert(pv[i as int] == parts@[i as int]@);
        }
        i = i + 1;
    }
    proof {
        lemma_first_where_none(pv, p);
    }
    String::new()
}

/// The text of a request body.
pub open spec fn body_of(ctx: RequestContext) -> Seq<char> {
    lossy_text(ctx.raw_body@)
}

/// The text of `tag` in `xml`, or empty.
pub open spec fn text_or_empty(xml: Seq<char>, tag: Seq<char>) -> Seq<char> {
    match xml_text_spec(xml, tag) {
        Some(t) => t,
        None => Seq::empty(),
    }
}

fn text_or_empty_exec(xml: &str, tag: &str) -> (r: String)
    ensures
        r@ == text_or_empty(xml@, tag@),
{
    match xml_text(xml, tag) {
        Some(t) => t,
        None => String::new(),
    }
}

// ---------------------------------------------------------------------------
// Zones
// ---------------------------------------------------------------------------

/// The `<HostedZone>` element of a zone.
pub open spec fn zone_xml(z: ZoneView) -> Seq<char> {
    "<HostedZone><Id>/hostedzone/"@ + z.id + "</Id>"@ + element("Name"@, z.name) + element(
        "CallerReference"@,
        z.caller_reference,
    ) + "<Config>"@ + element("Comment"@, z.comment) + "<PrivateZone>"@ + bool_spec(z.private_zone)
        + "</PrivateZone></Config><ResourceRecordSetCount>"@ + decimal_spec(z.record_count as nat)
        + "</ResourceRecordSetCount></HostedZone>"@
}

fn push_zone(out: &mut String, z: &HostedZone)
    ensures
        final(out)@ == old(out)@ + zone_xml(z@),
{
    push_str(out, "<HostedZone><Id>/hostedzone/");
    push_str(out, z.id.as_str());
    push_str(out, "</Id>");
    push_element(out, "Name", z.name.as_str());
    push_element(out, "CallerReference", z.caller_reference.as_str());
    push_str(out, "<Config>");
    push_element(out, "Comment", z.comment.as_str());
    push_str(out, "<PrivateZone>");
    push_bool(out, z.private_zone);
    push_str(out, "</PrivateZone></Config><ResourceRecordSetCount>");
    push_decimal(out, z.record_count as u64);
    push_str(out, "</ResourceRecordSetCount></HostedZone>");
    proof {
        assert(out@ =~= old(out)@ + zone_xml(z@));
    }
}

/// A zone name as it is stored: with a trailing dot.
pub open spec fn dotted(name: Seq<char>) -> Seq<char> {
    if name.len() > 0 && name.last() == '.' {
        name
    } else {
        name.push('.')
    }
}

/// The zone CreateHostedZone makes with id `id` from request body `body`.
pub open spec fn new_zone_spec(body: Seq<char>, id: Seq<char>) -> ZoneView {
    ZoneView {
        id,
        name: dotted(text_or_empty(body, "Name"@)),
        caller_reference: text_or_empty(body, "CallerReference"@),
        comment: text_or_empty(body, "Comment"@),
        private_zone: false,
        record_count: 2,
    }
}

/// What `handle_create_hosted_zone` does: its store change and its response.
pub open spec fn create_zone_outcome(
    s0: Route53StoreView,
    s1: Route53StoreView,
    ctx: RequestContext,
    rid: Seq<char>,
    id: Seq<char>,
    r: ResponseView,
) -> bool {
    let body = body_of(ctx);
    if xml_text_spec(body, "CallerReference"@) is None {
        r == r53_error("InvalidInput"@, "CallerReference is required"@, 400) && s1 == s0
    } else {
        let z = new_zone_spec(body, id);
        &&& s1 == (Route53StoreView { zones: s0.zones.insert(id, z), ..s0 })
        &&& r == r53_created(
            document("CreateHostedZoneResponse"@, zone_xml(z) + change_info(rid)),
            "/2013-04-01/hostedzone/"@ + id,
        )
    }
}

/// CreateHostedZone: creates zone `id` named by the body's `Name` (with a
/// trailing dot) for its `CallerReference`.
pub fn handle_create_hosted_zone(store: &mut Route53Store, ctx: &RequestContext, rid: &str, id: &str) -> (r: DispatchResponse)
    requires
        old(store).wf(),
    ensures
        final(store).wf(),
        create_zone_outcome(old(store)@, final(store)@, *ctx, rid@, id@, r@),
{
    let raw = utf8_lossy(ctx.raw_body.as_slice());
    let name_raw = text_or_empty_exec(raw.as_str(), "Name");
    let nc = chars_of(name_raw.as_str());
    let name = if nc.len() > 0 && nc[nc.len() - 1] == '.' {
        name_raw
    } else {
        let mut n = name_raw;
        n.push('.');
        n
    };
    let caller_reference = match xml_text(raw.as_str(), "CallerReference") {
        Some(c) => c,
        None => {
            return error("InvalidInput", "CallerReference is required", 400);
        },
    };
    let comment = text_or_empty_exec(raw.as_str(), "Comment");
    let zone = HostedZone {
        id: id.to_string(),
        name,
        caller_reference,
        comment,
        private_zone: false,
        record_count: 2,
    };
    let mut inner = String::new();
    push_zone(&mut inner, &zone);
    push_change_info(&mut inner, rid);
    proof {
        assert(zone@ == new_zone_spec(raw@, id@));
    }
    store.zones.insert(id.to_string(), zone);
    let body = document_exec("CreateHostedZoneResponse", inner.as_str());
    let location = message2("/2013-04-01/hostedzone/", id);
    created(body, location)
}

/// The record sets of `records` not in zone `zone`.
pub open spec fn without_zone(
    records: Seq<((Seq<char>, Seq<char>, Seq<char>), RecordSetView)>,
    zone: Seq<char>,
) -> Seq<((Seq<char>, Seq<char>, Seq<char>), RecordSetView)> {
    records.filter(outside_zone(zone))
}

/// Whether a record set lies outside zone `zone`.
pub open spec fn outside_zone(zone: Seq<char>) -> spec_fn(((Seq<char>, Seq<char>, Seq<char>), RecordSetView)) -> bool {
    |e: ((Seq<char>, Seq<char>, Seq<char>), RecordSetView)| e.0.0 != zone
}

/// What `handle_delete_hosted_zone` does: its store change and its response.
pub open spec fn delete_zone_outcome(s0: Route53StoreView, s1: Route53StoreView, ctx: RequestContext, rid: Seq<char>, r: ResponseView) -> bool {
    let id = last_path_segment(ctx.path@);
    &&& s1 == (Route53StoreView { zones: s0.zones.remove(id), records: without_zone(s0.records, id), ..s0 })
    &&& r == r53_ok(document("DeleteHostedZoneResponse"@, change_info(rid)))
}

/// DeleteHostedZone: removes the zone the path names and its record sets.
pub fn handle_delete_hosted_zone(store: &mut Route53Store, ctx: &RequestContext, rid: &str) -> (r: DispatchResponse)
    requires
        old(store).wf(),
    ensures
        final(store).wf(),
        delete_zone_outcome(old(store)@, final(store)@, *ctx, rid@, r@),
{
    let id = last_path_segment_exec(ctx.path.as_str());
    store.zones.remove(id.as_str());
    let ghost rv = store@.records;
    let ghost p = |e: ((Seq<char>, Seq<char>, Seq<char>), RecordSetView)| e.0.0 != id@;
    let mut kept: Vec<RecordEntry> = Vec::new();
    let mut old_records: Vec<RecordEntry> = Vec::new();
    std::mem::swap(&mut old_records, &mut store.records);
    let ghost orig = old_records@;
    let n = old_records.len();
    let mut i: usize = 0;
    proof {
        reveal(Seq::filter);
        assert(rv.take(0) =~= Seq::<((Seq<char>, Seq<char>, Seq<char>), RecordSetView)>::empty());
        assert(kept@.map_values(|e: RecordEntry| record_entry_view(e)) =~= rv.take(0).filter(p));
    }
    while i < n
        invariant
            i <= n,
            n == orig.len(),
            old_records@ == orig,
            rv == orig.map_values(|e: RecordEntry| record_entry_view(e)),
            p == (|e: ((Seq<char>, Seq<char>, Seq<char>), RecordSetView)| e.0.0 != id@),
            kept@.map_values(|e: RecordEntry| record_entry_view(e)) == rv.take(i as int).filter(p),
        decreases n - i,
    {
        let e = &old_records[i];
        let ghost before = kept@;
        proof {
            reveal(Seq::filter);
            assert(rv.take(i + 1).drop_last() =~= rv.take(i as int));
            assert(rv.take(i + 1).last() == record_entry_view(*e));
        }
        if !e.0.0.as_str().eq(id.as_str()) {
            let copy = (
                (e.0.0.clone(), e.0.1.clone(), e.0.2.clone()),
                ResourceRecordSet {
                    name: e.1.name.clone(),
                    record_type: e.1.record_type.clone(),
                    ttl: e.1.ttl,
                    values: crate::secretsmanager::copy_strings(&e.1.values),
                },
            );
            proof {
                assert(record_entry_view(copy) == record_entry_view(*e));
            }
            kept.push(copy);
            proof {
                assert(kept@.map_values(|e: RecordEntry| record_entry_view(e)) =~= before.map_values(
                    |e: RecordEntry| record_entry_view(e),
                ).push(record_entry_view(copy)));
            }
        }
        i = i + 1;
    }
    proof {
        assert(rv.take(n as int) =~= rv);
    }
    store.records = kept;
    let mut inner = String::new();
    push_change_info(&mut inner, rid);
    let body = document_exec("DeleteHostedZoneResponse", inner.as_str());
    ok(body)
}

/// `<HostedZone>` elements of the zones `zs`, in order.
pub open spec fn zones_xml(zs: Seq<ZoneView>) -> Seq<char>
    decreases zs.len(),
{
    if zs.len() == 0 {
        Seq::empty()
    } else {
        zones_xml(zs.drop_last()) + zone_xml(zs.last())
    }
}

/// The zones of a store in storage order, as views.
pub open spec fn zone_views(store: Route53Store) -> Seq<ZoneView> {
    store.zones.vals_seq().map_values(|z: HostedZone| z@)
}

/// The body of a zone listing named `name`.
pub open spec fn zone_listing(name: Seq<char>, zs: Seq<ZoneView>) -> Seq<char> {
    document(name, "<HostedZones>"@ + zones_xml(zs) + "</HostedZones><IsTruncated>false</IsTruncated><MaxItems>100</MaxItems>"@)
}

fn zone_listing_exec(name: &str, zs: &Vec<&HostedZone>, Ghost(expected): Ghost<Seq<ZoneView>>) -> (r: String)
    requires
        zs@.map_values(|z: &HostedZone| z@) == expected,
    ensures
        r@ == zone_listing(name@, expected),
{
    let mut inner = String::new();
    push_str(&mut inner, "<HostedZones>");
    let ghost head = inner@;
    let mut i: usize = 0;
    proof {
        assert(expected.take(0) =~= Seq::<ZoneView>::empty());
    }
    while i < zs.len()
        invariant
            i <= zs@.len(),
            zs@.map_values(|z: &HostedZone| z@) == expected,
            inner@ == head + zones_xml(expected.take(i as int)),
        decreases zs@.len() - i,
    {
        push_zone(&mut inner, zs[i]);
        proof {
            assert(expected[i as int] == zs@[i as int]@);
            assert(expected.take(i + 1).drop_last() =~= expected.take(i as int));
            assert(inner@ =~= head + zones_xml(expected.take(i + 1)));
        }
        i = i + 1;
    }
    push_str(&mut inner, "</HostedZones><IsTruncated>false</IsTruncated><MaxItems>100</MaxItems>");
    proof {
        assert(expected.take(zs@.len() as int) =~= expected);
        assert(inner@ =~= "<HostedZones>"@ + zones_xml(expected) + "</HostedZones><IsTruncated>false</IsTruncated><MaxItems>100</MaxItems>"@);
    }
    document_exec(name, inner.as_str())
}

fn all_zones(store: &Route53Store) -> (r: Vec<&HostedZone>)
    requires
        store.wf(),
    ensures
        r@.map_values(|z: &HostedZone| z@) == zone_views(*store),
{
    let n = store.zones.len();
    proof {
        store.zones.lemma_enumeration();
    }
    let mut r: Vec<&HostedZone> = Vec::new();
    let mut i: usize = 0;
    while i < n
        invariant
            i <= n,
            n == store.zones.vals_seq().len(),
            r@.map_values(|z: &HostedZone| z@) == zone_views(*store).take(i as int),
        decreases n - i,
    {
        let z = store.zones.value_at_index(i);
        let ghost before = r@;
        r.push(z);
        proof {
            assert(zone_views(*store)[i as int] == z@);
            assert(r@.map_values(|z: &HostedZone| z@) =~= before.map_values(|z: &HostedZone| z@).push(z@));
            assert(zone_views(*store).take(i + 1) =~= zone_views(*store).take(i as int).push(z@));
        }
        i = i + 1;
    }
    proof {
        assert(zone_views(*store).take(n as int) =~= zone_views(*store));
    }
    r
}

/// What `handle_list_hosted_zones` answers.
pub open spec fn list_zones_outcome(s0: Route53Store, r: ResponseView) -> bool {
    r == r53_ok(zone_listing("ListHostedZonesResponse"@, zone_views(s0)))
}

/// ListHostedZones: every zone, in the order they were created.
pub fn handle_list_hosted_zones(store: &Route53Store) -> (r: DispatchResponse)
    requires
        store.wf(),
    ensures
        list_zones_outcome(*store, r@),
{
    let zs = all_zones(store);
    let body = zone_listing_exec("ListHostedZonesResponse", &zs, Ghost(zone_views(*store)));
    ok(body)
}

/// What `handle_get_hosted_zone` answers.
pub open spec fn get_zone_outcome(s0: Route53StoreView, ctx: RequestContext, r: ResponseView) -> bool {
    let id = last_path_segment(ctx.path@);
    r == if s0.zones.contains_key(id) {
        r53_ok(document("GetHostedZoneResponse"@, zone_xml(s0.zones[id])))
    } else {
        no_zone(id)
    }
}

/// GetHostedZone: the zone the path names.
pub fn handle_get_hosted_zone(store: &Route53Store, ctx: &RequestContext) -> (r: DispatchResponse)
    requires
        store.wf(),
    ensures
        get_zone_outcome(store@, *ctx, r@),
{
    let id = last_path_segment_exec(ctx.path.as_str());
    match store.zones.get(id.as_str()) {
        Some(z) => {
            let mut inner = String::new();
            push_zone(&mut inner, z);
            proof {
                assert(inner@ =~= zone_xml(z@));
            }
            ok(document_exec("GetHostedZoneResponse", inner.as_str()))
        },
        None => zone_missing(id.as_str()),
    }
}

/// What `handle_get_change` answers: every change is reported in sync.
pub open spec fn get_change_outcome(ctx: RequestContext, r: ResponseView) -> bool {
    r == r53_ok(document("GetChangeResponse"@, change_info(last_path_segment(ctx.path@))))
}

/// GetChange: the change the path names, in sync.
pub fn handle_get_change(ctx: &RequestContext) -> (r: DispatchResponse)
    ensures
        get_change_outcome(*ctx, r@),
{
    let id = last_path_segment_exec(ctx.path.as_str());
    let mut inner = String::new();
    push_change_info(&mut inner, id.as_str());
    ok(document_exec("GetChangeResponse", inner.as_str()))
}

/// What `handle_get_hosted_zone_count` answers.
pub open spec fn zone_count_outcome(s0: Route53StoreView, r: ResponseView) -> bool {
    r == r53_ok(
        document(
            "GetHostedZoneCountResponse"@,
            "<HostedZoneCount>"@ + decimal_spec(s0.zones.dom().len()) + "</HostedZoneCount>"@,
        ),
    )
}

/// GetHostedZoneCount: the number of zones.
pub fn handle_get_hosted_zone_count(store: &Route53Store) -> (r: DispatchResponse)
    requires
        store.wf(),
    ensures
        zone_count_outcome(store@, r@),
{
    let n = store.zones.len();
    let mut inner = String::new();
    push_str(&mut inner, "<HostedZoneCount>");
    push_decimal(&mut inner, n as u64);
    push_str(&mut inner, "</HostedZoneCount>");
    proof {
        assert(inner@ =~= "<HostedZoneCount>"@ + decimal_spec(store@.zones.dom().len()) + "</HostedZoneCount>"@);
    }
    ok(document_exec("GetHostedZoneCountResponse", inner.as_str()))
}

// ---------------------------------------------------------------------------
// Zones by name
// ---------------------------------------------------------------------------

/// `s` without its trailing dots.
pub open spec fn trim_dots(s: Seq<char>) -> Seq<char>
    decreases s.len(),
{
    if s.len() > 0 && s.last() == '.' {
        trim_dots(s.drop_last())
    } else {
        s
    }
}

fn trim_dots_exec(s: &[char]) -> (r: Vec<char>)
    ensures
        r@ == trim_dots(s@),
{
    let mut j: usize = s.len();
    proof {
        assert(s@.subrange(0, s@.len() as int) =~= s@);
    }
    while j > 0 && s[j - 1] == '.'
        invariant
            j <= s@.len(),
            trim_dots(s@) == trim_dots(s@.subrange(0, j as int)),
        decreases j,
    {
        proof {
            assert(s@.subrange(0, j as int).drop_last() =~= s@.subrange(0, j - 1));
        }
        j = j - 1;
    }
    crate::text::slice_chars(s, 0, j)
}

/// Whether a zone is listed for the DNS name filter `filter`: every zone
/// for an empty filter, else the zones whose name ends with it (trailing
/// dots aside).
pub open spec fn zone_matches(z: ZoneView, filter: Seq<char>) -> bool {
    filter.len() == 0 || {
        let n = trim_dots(z.name);
        let f = trim_dots(filter);
        f.len() <= n.len() && n.subrange(n.len() - f.len(), n.len() as int) == f
    }
}

/// `x` placed into the name-sorted `sorted` after every zone whose name
/// does not sort after its own.
pub open spec fn insert_by_name(sorted: Seq<ZoneView>, x: ZoneView) -> Seq<ZoneView> {
    match first_where(sorted, |z: ZoneView| crate::order::seq_lt(x.name, z.name)) {
        Some(i) => sorted.insert(i, x),
        None => sorted.push(x),
    }
}

/// The zones of `zs` sorted by name, zones with equal names keeping their
/// order (the result of a stable sort).
pub open spec fn sorted_by_name(zs: Seq<ZoneView>) -> Seq<ZoneView>
    decreases zs.len(),
{
    if zs.len() == 0 {
        Seq::empty()
    } else {
        insert_by_name(sorted_by_name(zs.drop_last()), zs.last())
    }
}

/// The zones ListHostedZonesByName reports.
pub open spec fn zones_by_name(s0: Route53Store, filter: Seq<char>) -> Seq<ZoneView> {
    sorted_by_name(zone_views(s0).filter(|z: ZoneView| zone_matches(z, filter)))
}

/// What `handle_list_hosted_zones_by_name` answers.
pub open spec fn zones_by_name_outcome(s0: Route53Store, ctx: RequestContext, r: ResponseView) -> bool {
    let filter = if ctx.query_params@.contains_key("dnsname"@) {
        ctx.query_params@["dnsname"@]
    } else {
        Seq::empty()
    };
    r == r53_ok(zone_listing("ListHostedZonesByNameResponse"@, zones_by_name(s0, filter)))
}

fn insert_zone_sorted<'a>(sorted: &mut Vec<&'a HostedZone>, x: &'a HostedZone)
    ensures
        final(sorted)@.map_values(|z: &HostedZone| z@) == insert_by_name(old(sorted)@.map_values(|z: &HostedZone| z@), x@),
{
    let ghost sv = sorted@.map_values(|z: &HostedZone| z@);
    let ghost p = |z: ZoneView| crate::order::seq_lt(x@.name, z.name);
    let xn = chars_of(x.name.as_str());
    let mut i: usize = 0;
    while i < sorted.len()
        invariant
            i <= sorted@.len(),
            sorted@ == old(sorted)@,
            sv == sorted@.map_values(|z: &HostedZone| z@),
            xn@ == x@.name,
            p == (|z: ZoneView| crate::order::seq_lt(x@.name, z.name)),
            forall|j: int| 0 <= j < i ==> !p(#[trigger] sv[j]),
        decreases sorted@.len() - i,
    {
        let zn = chars_of(sorted[i].name.as_str());
        if crate::order::str_lt(xn.as_slice(), zn.as_slice()) {
            proof {
                assert(sv[i as int] == sorted@[i as int]@);
                lemma_first_where(sv, p, i as int);
            }
            sorted.insert(i, x);
            proof {
                assert(sorted@.map_values(|z: &HostedZone| z@) =~= sv.insert(i as int, x@));
            }
            return;
        }
        proof {
            assert(sv[i as int] == sorted@[i as int]@);
        }
        i = i + 1;
    }
    proof {
        lemma_first_where_none(sv, p);
    }
    sorted.push(x);
    proof {
        assert(sorted@.map_values(|z: &HostedZone| z@) =~= sv.push(x@));
    }
}

/// ListHostedZonesByName: the zones whose name ends with the `dnsname`
/// query parameter (all of them without one), sorted by name.
pub fn handle_list_hosted_zones_by_name(store: &Route53Store, ctx: &RequestContext) -> (r: DispatchResponse)
    requires
        store.wf(),
        ctx.wf(),
    ensures
        zones_by_name_outcome(*store, *ctx, r@),
{
    let filter: String = match ctx.query_params.get("dnsname") {
        Some(f) => f.clone(),
        None => String::new(),
    };
    let fc = chars_of(filter.as_str());
    let ft = trim_dots_exec(fc.as_slice());
    let ghost fs = filter@;
    let ghost p = |z: ZoneView| zone_matches(z, fs);
    let all = all_zones(store);
    let ghost av = zone_views(*store);
    let mut sorted: Vec<&HostedZone> = Vec::new();
    let mut i: usize = 0;
    proof {
        reveal(Seq::filter);
        assert(av.take(0) =~= Seq::<ZoneView>::empty());
        assert(av.take(0).filter(p) =~= Seq::<ZoneView>::empty());
        assert(sorted@.map_values(|z: &HostedZone| z@) =~= sorted_by_name(av.take(0).filter(p)));
    }
    while i < all.len()
        invariant
            i <= all@.len(),
            all@.map_values(|z: &HostedZone| z@) == av,
            fc@ == fs,
            ft@ == trim_dots(fs),
            p == (|z: ZoneView| zone_matches(z, fs)),
            sorted@.map_values(|z: &HostedZone| z@) == sorted_by_name(av.take(i as int).filter(p)),
        decreases all@.len() - i,
    {
        let z = all[i];
        let nc = chars_of(z.name.as_str());
        let nt = trim_dots_exec(nc.as_slice());
        let keep = fc.len() == 0 || crate::text::ends_with_chars(nt.as_slice(), ft.as_slice());
        proof {
            reveal(Seq::filter);
            assert(av[i as int] == z@);
            assert(av.take(i + 1).drop_last() =~= av.take(i as int));
            assert(keep == p(z@));
        }
        if keep {
            insert_zone_sorted(&mut sorted, z);
            proof {
                assert(av.take(i + 1).filter(p) == av.take(i as int).filter(p).push(z@));
                assert(av.take(i + 1).filter(p).drop_last() =~= av.take(i as int).filter(p));
            }
        } else {
            proof {
                assert(av.take(i + 1).filter(p) == av.take(i as int).filter(p));
            }
        }
        i = i + 1;
    }
    proof {
        assert(av.take(all@.len() as int) =~= av);
    }
    let body = zone_listing_exec("ListHostedZonesByNameResponse", &sorted, Ghost(zones_by_name(*store, fs)));
    proof {
        if !ctx.query_params@.contains_key("dnsname"@) {
            reveal_strlit("");
            assert(fs =~= Seq::<char>::empty());
        }
    }
    ok(body)
}

// ---------------------------------------------------------------------------
// Record sets
// ---------------------------------------------------------------------------

/// A record set under its zone id, name and type, as a view.
pub type RecordView = ((Seq<char>, Seq<char>, Seq<char>), RecordSetView);

/// Whether an entry is under `k`.
pub open spec fn under_key(k: (Seq<char>, Seq<char>, Seq<char>)) -> spec_fn(RecordView) -> bool {
    |e: RecordView| e.0 == k
}

/// Whether an entry is under another key than `k`.
pub open spec fn not_under_key(k: (Seq<char>, Seq<char>, Seq<char>)) -> spec_fn(RecordView) -> bool {
    |e: RecordView| e.0 != k
}

/// `records` with `v` stored under `k`: in place of the entry under `k`
/// when there is one, else at the end.
pub open spec fn records_upsert(records: Seq<RecordView>, k: (Seq<char>, Seq<char>, Seq<char>), v: RecordSetView) -> Seq<RecordView> {
    match first_where(records, under_key(k)) {
        Some(i) => records.update(i, (k, v)),
        None => records.push((k, v)),
    }
}

/// `records` without the entries under `k`.
pub open spec fn records_remove(records: Seq<RecordView>, k: (Seq<char>, Seq<char>, Seq<char>)) -> Seq<RecordView> {
    records.filter(not_under_key(k))
}

/// One change applied to the record sets of zone `zone`: `DELETE` removes
/// the record set under the change's name and type, any other action
/// stores the change's record set there.
pub open spec fn apply_change(records: Seq<RecordView>, zone: Seq<char>, c: (Seq<char>, RecordSetView)) -> Seq<RecordView> {
    let k = (zone, c.1.name, c.1.record_type);
    if c.0 == "DELETE"@ {
        records_remove(records, k)
    } else {
        records_upsert(records, k, c.1)
    }
}

/// The changes `cs` applied in order.
pub open spec fn apply_changes(records: Seq<RecordView>, zone: Seq<char>, cs: Seq<(Seq<char>, RecordSetView)>) -> Seq<RecordView>
    decreases cs.len(),
{
    if cs.len() == 0 {
        records
    } else {
        apply_change(apply_changes(records, zone, cs.drop_last()), zone, cs.last())
    }
}

fn copy_record(r: &ResourceRecordSet) -> (c: ResourceRecordSet)
    ensures
        c@ == r@,
{
    ResourceRecordSet {
        name: r.name.clone(),
        record_type: r.record_type.clone(),
        ttl: r.ttl,
        values: crate::secretsmanager::copy_strings(&r.values),
    }
}

fn key_eq(a: &(String, String, String), b: &(String, String, String)) -> (r: bool)
    ensures
        r == ((a.0@, a.1@, a.2@) == (b.0@, b.1@, b.2@)),
{
    a.0.as_str().eq(b.0.as_str()) && a.1.as_str().eq(b.1.as_str()) && a.2.as_str().eq(b.2.as_str())
}

fn upsert_record(records: &mut Vec<RecordEntry>, k: (String, String, String), v: ResourceRecordSet)
    ensures
        final(records)@.map_values(|e: RecordEntry| record_entry_view(e)) == records_upsert(
            old(records)@.map_values(|e: RecordEntry| record_entry_view(e)),
            (k.0@, k.1@, k.2@),
            v@,
        ),
{
    let ghost rv = records@.map_values(|e: RecordEntry| record_entry_view(e));
    let ghost kv = (k.0@, k.1@, k.2@);
    let ghost p = under_key(kv);
    let ghost entry = (kv, v@);
    let mut i: usize = 0;
    while i < records.len()
        invariant
            i <= records@.len(),
            records@ == old(records)@,
            rv == records@.map_values(|e: RecordEntry| record_entry_view(e)),
            kv == (k.0@, k.1@, k.2@),
            entry == (kv, v@),
            p == under_key(kv),
            forall|j: int| 0 <= j < i ==> !p(#[trigger] rv[j]),
        decreases records@.len() - i,
    {
        if key_eq(&records[i].0, &k) {
            proof {
                assert(rv[i as int] == record_entry_view(records@[i as int]));
                lemma_first_where(rv, p, i as int);
            }
            let ghost e2 = (k, v);
            proof {
                assert(record_entry_view(e2) == entry);
            }
            records.set(i, (k, v));
            proof {
                assert(records@[i as int] == e2);
                assert forall|j: int| 0 <= j < records@.len() implies record_entry_view(#[trigger] records@[j])
                    == rv.update(i as int, entry)[j] by {
                    if j != i {
                        assert(records@[j] == old(records)@[j]);
                    }
                }
                assert(records@.map_values(|e: RecordEntry| record_entry_view(e)) =~= rv.update(i as int, entry));
            }
            return;
        }
        proof {
            assert(rv[i as int] == record_entry_view(records@[i as int]));
        }
        i = i + 1;
    }
    proof {
        lemma_first_where_none(rv, p);
    }
    records.push((k, v));
    proof {
        assert(records@.map_values(|e: RecordEntry| record_entry_view(e)) =~= rv.push(entry));
    }
}

fn remove_record(records: &mut Vec<RecordEntry>, k: &(String, String, String))
    ensures
        final(records)@.map_values(|e: RecordEntry| record_entry_view(e)) == records_remove(
            old(records)@.map_values(|e: RecordEntry| record_entry_view(e)),
            (k.0@, k.1@, k.2@),
        ),
{
    let ghost kv = (k.0@, k.1@, k.2@);
    let ghost p = not_under_key(kv);
    let mut old_records: Vec<RecordEntry> = Vec::new();
    std::mem::swap(&mut old_records, records);
    let ghost orig = old_records@;
    let ghost rv = orig.map_values(|e: RecordEntry| record_entry_view(e));
    let n = old_records.len();
    let mut kept: Vec<RecordEntry> = Vec::new();
    let mut i: usize = 0;
    proof {
        reveal(Seq::filter);
        assert(rv.take(0) =~= Seq::<RecordView>::empty());
        assert(kept@.map_values(|e: RecordEntry| record_entry_view(e)) =~= rv.take(0).filter(p));
    }
    while i < n
        invariant
            i <= n,
            n == orig.len(),
            old_records@ == orig,
            rv == orig.map_values(|e: RecordEntry| record_entry_view(e)),
            kv == (k.0@, k.1@, k.2@),
            p == not_under_key(kv),
            kept@.map_values(|e: RecordEntry| record_entry_view(e)) == rv.take(i as int).filter(p),
        decreases n - i,
    {
        let e = &old_records[i];
        let ghost before = kept@;
        proof {
            reveal(Seq::filter);
            assert(rv.take(i + 1).drop_last() =~= rv.take(i as int));
            assert(rv.take(i + 1).last() == record_entry_view(*e));
        }
        if !key_eq(&e.0, k) {
            let c = ((e.0.0.clone(), e.0.1.clone(), e.0.2.clone()), copy_record(&e.1));
            kept.push(c);
            proof {
                assert(kept@.map_values(|e: RecordEntry| record_entry_view(e)) =~= before.map_values(
                    |e: RecordEntry| record_entry_view(e),
                ).push(record_entry_view(c)));
            }
        }
        i = i + 1;
    }
    proof {
        assert(rv.take(n as int) =~= rv);
        assert(orig == old(records)@);
        assert(kept@.map_values(|e: RecordEntry| record_entry_view(e)) == rv.filter(p));
        assert(records_remove(rv, kv) == rv.filter(p));
    }
    *records = kept;
}

/// What `handle_change_resource_record_sets` does: its store change and its
/// response.
pub open spec fn change_records_outcome(s0: Route53StoreView, s1: Route53StoreView, ctx: RequestContext, rid: Seq<char>, r: ResponseView) -> bool {
    let zone = segment_after(ctx.path@, "hostedzone"@, 1);
    &&& s1 == (Route53StoreView { records: apply_changes(s0.records, zone, rrsets_from(body_of(ctx))), ..s0 })
    &&& r == r53_ok(document("ChangeResourceRecordSetsResponse"@, change_info(rid)))
}

/// ChangeResourceRecordSets: applies the body's changes to the record sets
/// of the zone the path names.
pub fn handle_change_resource_record_sets(store: &mut Route53Store, ctx: &RequestContext, rid: &str) -> (r: DispatchResponse)
    requires
        old(store).wf(),
    ensures
        final(store).wf(),
        change_records_outcome(old(store)@, final(store)@, *ctx, rid@, r@),
{
    let zone = segment_after_exec(ctx.path.as_str(), "hostedzone", 1);
    let raw = utf8_lossy(ctx.raw_body.as_slice());
    let changes = parse_rrsets(raw.as_str());
    let ghost cs = changes@.map_values(|e: (String, ResourceRecordSet)| (e.0@, e.1@));
    let ghost start = store@.records;
    let mut i: usize = 0;
    proof {
        assert(cs.take(0) =~= Seq::<(Seq<char>, RecordSetView)>::empty());
    }
    while i < changes.len()
        invariant
            i <= changes@.len(),
            cs == changes@.map_values(|e: (String, ResourceRecordSet)| (e.0@, e.1@)),
            store.wf(),
            store@ == (Route53StoreView { records: apply_changes(start, zone@, cs.take(i as int)), ..old(store)@ }),
        decreases changes@.len() - i,
    {
        let c = &changes[i];
        let key = (zone.clone(), c.1.name.clone(), c.1.record_type.clone());
        let ghost s_before = store@;
        if c.0.as_str().eq("DELETE") {
            remove_record(&mut store.records, &key);
        } else {
            upsert_record(&mut store.records, key, copy_record(&c.1));
        }
        proof {
            assert(cs.take(i + 1).drop_last() =~= cs.take(i as int));
            assert(cs.take(i + 1).last() == (c.0@, c.1@));
            assert(store@ =~= (Route53StoreView { records: apply_changes(start, zone@, cs.take(i + 1)), ..old(store)@ }));
        }
        i = i + 1;
    }
    proof {
        assert(cs.take(changes@.len() as int) =~= cs);
    }
    let mut inner = String::new();
    push_change_info(&mut inner, rid);
    ok(document_exec("ChangeResourceRecordSetsResponse", inner.as_str()))
}

/// The `<ResourceRecord>` elements of a record set's values.
pub open spec fn values_xml(vs: Seq<Seq<char>>) -> Seq<char>
    decreases vs.len(),
{
    if vs.len() == 0 {
        Seq::empty()
    } else {
        values_xml(vs.drop_last()) + "<ResourceRecord>"@ + element("Value"@, vs.last()) + "</ResourceRecord>"@
    }
}

/// The `<ResourceRecordSet>` element of a record entry: name and type from
/// its key, TTL and values from the record set.
pub open spec fn record_xml(e: RecordView) -> Seq<char> {
    "<ResourceRecordSet>"@ + element("Name"@, e.0.1) + element("Type"@, e.0.2) + "<TTL>"@ + decimal_spec(e.1.ttl as nat)
        + "</TTL><ResourceRecords>"@ + values_xml(e.1.values) + "</ResourceRecords></ResourceRecordSet>"@
}

/// The record elements of the entries of `records` in zone `zone`.
pub open spec fn zone_records_xml(records: Seq<RecordView>, zone: Seq<char>) -> Seq<char>
    decreases records.len(),
{
    if records.len() == 0 {
        Seq::empty()
    } else {
        zone_records_xml(records.drop_last(), zone) + if records.last().0.0 == zone {
            record_xml(records.last())
        } else {
            Seq::empty()
        }
    }
}

fn push_record(out: &mut String, e: &RecordEntry)
    ensures
        final(out)@ == old(out)@ + record_xml(record_entry_view(*e)),
{
    push_str(out, "<ResourceRecordSet>");
    push_element(out, "Name", e.0.1.as_str());
    push_element(out, "Type", e.0.2.as_str());
    push_str(out, "<TTL>");
    push_decimal(out, e.1.ttl);
    push_str(out, "</TTL><ResourceRecords>");
    let ghost head = out@;
    let ghost vs = string_views(e.1.values@);
    let mut i: usize = 0;
    proof {
        assert(vs.take(0) =~= Seq::<Seq<char>>::empty());
        assert(out@ =~= head + values_xml(vs.take(0)));
    }
    while i < e.1.values.len()
        invariant
            i <= e.1.values@.len(),
            vs == string_views(e.1.values@),
            out@ == head + values_xml(vs.take(i as int)),
        decreases e.1.values@.len() - i,
    {
        push_str(out, "<ResourceRecord>");
        push_element(out, "Value", e.1.values[i].as_str());
        push_str(out, "</ResourceRecord>");
        proof {
            assert(vs.take(i + 1).drop_last() =~= vs.take(i as int));
            assert(vs.take(i + 1).last() == e.1.values@[i as int]@);
            assert(out@ =~= head + values_xml(vs.take(i + 1)));
        }
        i = i + 1;
    }
    push_str(out, "</ResourceRecords></ResourceRecordSet>");
    proof {
        assert(vs.take(vs.len() as int) =~= vs);
        assert(out@ =~= old(out)@ + record_xml(record_entry_view(*e)));
    }
}

/// What `handle_list_resource_record_sets` answers.
pub open spec fn list_records_outcome(s0: Route53StoreView, ctx: RequestContext, r: ResponseView) -> bool {
    let zone = segment_after(ctx.path@, "hostedzone"@, 1);
    r == if s0.zones.contains_key(zone) {
        r53_ok(
            document(
                "ListResourceRecordSetsResponse"@,
                "<ResourceRecordSets>"@ + zone_records_xml(s0.records, zone)
                    + "</ResourceRecordSets><IsTruncated>false</IsTruncated><MaxItems>100</MaxItems>"@,
            ),
        )
    } else {
        no_zone(zone)
    }
}

/// ListResourceRecordSets: the record sets of the zone the path names.
pub fn handle_list_resource_record_sets(store: &Route53Store, ctx: &RequestContext) -> (r: DispatchResponse)
    requires
        store.wf(),
    ensures
        list_records_outcome(store@, *ctx, r@),
{
    let zone = segment_after_exec(ctx.path.as_str(), "hostedzone", 1);
    if !store.zones.contains_key(zone.as_str()) {
        return zone_missing(zone.as_str());
    }
    let ghost rv = store@.records;
    let mut inner = String::new();
    push_str(&mut inner, "<ResourceRecordSets>");
    let ghost head = inner@;
    let mut i: usize = 0;
    proof {
        assert(rv.take(0) =~= Seq::<RecordView>::empty());
    }
    while i < store.records.len()
        invariant
            i <= store.records@.len(),
            rv == store.records@.map_values(|e: RecordEntry| record_entry_view(e)),
            inner@ == head + zone_records_xml(rv.take(i as int), zone@),
        decreases store.records@.len() - i,
    {
        let e = &store.records[i];
        if e.0.0.as_str().eq(zone.as_str()) {
            push_record(&mut inner, e);
        }
        proof {
            assert(rv.take(i + 1).drop_last() =~= rv.take(i as int));
            assert(rv.take(i + 1).last() == record_entry_view(*e));
            assert(inner@ =~= head + zone_records_xml(rv.take(i + 1), zone@));
        }
        i = i + 1;
    }
    push_str(&mut inner, "</ResourceRecordSets><IsTruncated>false</IsTruncated><MaxItems>100</MaxItems>");
    proof {
        assert(rv.take(rv.len() as int) =~= rv);
    }
    ok(document_exec("ListResourceRecordSetsResponse", inner.as_str()))
}

// ---------------------------------------------------------------------------
// Health checks
// ---------------------------------------------------------------------------

/// `<{tag}>{text, escaped}</{tag}>` when there is a text.
pub open spec fn opt_element(tag: Seq<char>, text: Option<Seq<char>>) -> Seq<char> {
    match text {
        Some(t) => element(tag, t),
        None => Seq::empty(),
    }
}

fn push_opt_element(out: &mut String, tag: &str, text: &Option<String>)
    ensures
        final(out)@ == old(out)@ + opt_element(tag@, opt_view(*text)),
{
    match text {
        Some(t) => push_element(out, tag, t.as_str()),
        None => {
            proof {
                assert(out@ =~= old(out)@ + opt_element(tag@, opt_view(*text)));
            }
        },
    }
}

/// The elements describing a health check.
pub open spec fn health_check_xml(h: HealthCheckView) -> Seq<char> {
    element("Id"@, h.id) + element("CallerReference"@, h.caller_reference) + health_check_config_xml(h.config)
        + "<HealthCheckVersion>"@ + decimal_spec(h.health_check_version as nat) + "</HealthCheckVersion>"@
}

/// The `<HealthCheckConfig>` element of a health check.
pub open spec fn health_check_config_xml(c: crate::route53::HealthCheckConfigView) -> Seq<char> {
    "<HealthCheckConfig>"@ + opt_element("IPAddress"@, c.ip_address) + "<Port>"@ + decimal_spec(c.port as nat) + "</Port>"@
        + element("Type"@, c.health_check_type) + opt_element("ResourcePath"@, c.resource_path) + opt_element(
        "FullyQualifiedDomainName"@,
        c.fully_qualified_domain_name,
    ) + "<RequestInterval>"@ + decimal_spec(c.request_interval as nat) + "</RequestInterval><FailureThreshold>"@
        + decimal_spec(c.failure_threshold as nat) + "</FailureThreshold></HealthCheckConfig>"@
}

fn push_health_check_config(out: &mut String, h: &HealthCheck)
    ensures
        final(out)@ == old(out)@ + health_check_config_xml(h@.config),
{
    push_str(out, "<HealthCheckConfig>");
    push_opt_element(out, "IPAddress", &h.config.ip_address);
    push_str(out, "<Port>");
    push_decimal(out, h.config.port as u64);
    push_str(out, "</Port>");
    push_element(out, "Type", h.config.health_check_type.as_str());
    push_opt_element(out, "ResourcePath", &h.config.resource_path);
    push_opt_element(out, "FullyQualifiedDomainName", &h.config.fully_qualified_domain_name);
    push_str(out, "<RequestInterval>");
    push_decimal(out, h.config.request_interval as u64);
    push_str(out, "</RequestInterval><FailureThreshold>");
    push_decimal(out, h.config.failure_threshold as u64);
    push_str(out, "</FailureThreshold></HealthCheckConfig>");
    proof {
        assert(out@ =~= old(out)@ + health_check_config_xml(h@.config));
    }
}

fn push_health_check(out: &mut String, h: &HealthCheck)
    ensures
        final(out)@ == old(out)@ + health_check_xml(h@),
{
    push_element(out, "Id", h.id.as_str());
    push_element(out, "CallerReference", h.caller_reference.as_str());
    push_health_check_config(out, h);
    push_str(out, "<HealthCheckVersion>");
    push_decimal(out, h.health_check_version);
    push_str(out, "</HealthCheckVersion>");
    proof {
        assert(out@ =~= old(out)@ + health_check_xml(h@));
    }
}

/// A number read from the text of `tag`, or `default` when it is absent or
/// not a number at most `max`.
pub open spec fn number_or(body: Seq<char>, tag: Seq<char>, max: nat, default: nat) -> nat {
    match xml_text_spec(body, tag) {
        Some(t) => match parse_unsigned_spec(t, max) {
            Some(n) => n,
            None => default,
        },
        None => default,
    }
}

/// The health check CreateHealthCheck makes with id `id` from request body
/// `body`; `fresh_ref` is its caller reference when the body gives none.
pub open spec fn new_health_check_spec(body: Seq<char>, id: Seq<char>, fresh_ref: Seq<char>) -> HealthCheckView {
    HealthCheckView {
        id,
        caller_reference: match xml_text_spec(body, "CallerReference"@) {
            Some(c) => c,
            None => fresh_ref,
        },
        config: crate::route53::HealthCheckConfigView {
            ip_address: xml_text_spec(body, "IPAddress"@),
            port: number_or(body, "Port"@, u16::MAX as nat, 80) as u16,
            health_check_type: match xml_text_spec(body, "Type"@) {
                Some(t) => t,
                None => "HTTP"@,
            },
            resource_path: xml_text_spec(body, "ResourcePath"@),
            fully_qualified_domain_name: xml_text_spec(body, "FullyQualifiedDomainName"@),
            request_interval: number_or(body, "RequestInterval"@, u32::MAX as nat, 30) as u32,
            failure_threshold: number_or(body, "FailureThreshold"@, u32::MAX as nat, 3) as u32,
        },
        health_check_version: 1,
    }
}

/// What `handle_create_health_check` does: its store change and its
/// response.
pub open spec fn create_health_check_outcome(
    s0: Route53StoreView,
    s1: Route53StoreView,
    ctx: RequestContext,
    id: Seq<char>,
    fresh_ref: Seq<char>,
    r: ResponseView,
) -> bool {
    let h = new_health_check_spec(body_of(ctx), id, fresh_ref);
    &&& s1 == (Route53StoreView { health_checks: s0.health_checks.insert(id, h), ..s0 })
    &&& r == r53_created(
        document("CreateHealthCheckResponse"@, "<HealthCheck>"@ + health_check_xml(h) + "</HealthCheck>"@),
        "/2013-04-01/healthcheck/"@ + id,
    )
}

fn number_or_u16(body: &str, tag: &str, default: u16) -> (r: u16)
    ensures
        r == number_or(body@, tag@, u16::MAX as nat, default as nat),
{
    match xml_text(body, tag) {
        Some(t) => {
            let c = chars_of(t.as_str());
            match parse_u16(c.as_slice()) {
                Some(n) => n,
                None => default,
            }
        },
        None => default,
    }
}

fn number_or_u32(body: &str, tag: &str, default: u32) -> (r: u32)
    ensures
        r == number_or(body@, tag@, u32::MAX as nat, default as nat),
{
    match xml_text(body, tag) {
        Some(t) => {
            let c = chars_of(t.as_str());
            match parse_u32(c.as_slice()) {
                Some(n) => n,
                None => default,
            }
        },
        None => default,
    }
}

/// CreateHealthCheck: creates health check `id` from the body's settings.
pub fn handle_create_health_check(store: &mut Route53Store, ctx: &RequestContext, id: &str, fresh_ref: &str) -> (r: DispatchResponse)
    requires
        old(store).wf(),
    ensures
        final(store).wf(),
        create_health_check_outcome(old(store)@, final(store)@, *ctx, id@, fresh_ref@, r@),
{
    let raw = utf8_lossy(ctx.raw_body.as_slice());
    let body = raw.as_str();
    let caller_reference = match xml_text(body, "CallerReference") {
        Some(c) => c,
        None => fresh_ref.to_string(),
    };
    let health_check_type = match xml_text(body, "Type") {
        Some(t) => t,
        None => "HTTP".to_string(),
    };
    let h = HealthCheck {
        id: id.to_string(),
        caller_reference,
        config: HealthCheckConfig {
            ip_address: xml_text(body, "IPAddress"),
            port: number_or_u16(body, "Port", 80),
            health_check_type,
            resource_path: xml_text(body, "ResourcePath"),
            fully_qualified_domain_name: xml_text(body, "FullyQualifiedDomainName"),
            request_interval: number_or_u32(body, "RequestInterval", 30),
            failure_threshold: number_or_u32(body, "FailureThreshold", 3),
        },
        health_check_version: 1,
    };
    proof {
        let hv = new_health_check_spec(raw@, id@, fresh_ref@);
        assert(h@.config.ip_address == hv.config.ip_address);
        assert(h@.config.resource_path == hv.config.resource_path);
        assert(h@.config.fully_qualified_domain_name == hv.config.fully_qualified_domain_name);
        assert(h@ == hv);
    }
    let mut inner = String::new();
    push_str(&mut inner, "<HealthCheck>");
    push_health_check(&mut inner, &h);
    push_str(&mut inner, "</HealthCheck>");
    proof {
        assert(inner@ =~= "<HealthCheck>"@ + health_check_xml(h@) + "</HealthCheck>"@);
    }
    store.health_checks.insert(id.to_string(), h);
    let body = document_exec("CreateHealthCheckResponse", inner.as_str());
    let location = message2("/2013-04-01/healthcheck/", id);
    created(body, location)
}

/// What `handle_get_health_check` answers.
pub open spec fn get_health_check_outcome(s0: Route53StoreView, ctx: RequestContext, r: ResponseView) -> bool {
    let id = last_path_segment(ctx.path@);
    r == if s0.health_checks.contains_key(id) {
        r53_ok(document("GetHealthCheckResponse"@, "<HealthCheck>"@ + health_check_xml(s0.health_checks[id]) + "</HealthCheck>"@))
    } else {
        no_health_check(id)
    }
}

/// GetHealthCheck: the health check the path names.
pub fn handle_get_health_check(store: &Route53Store, ctx: &RequestContext) -> (r: DispatchResponse)
    requires
        store.wf(),
    ensures
        get_health_check_outcome(store@, *ctx, r@),
{
    let id = last_path_segment_exec(ctx.path.as_str());
    match store.health_checks.get(id.as_str()) {
        Some(h) => {
            let mut inner = String::new();
            push_str(&mut inner, "<HealthCheck>");
            push_health_check(&mut inner, h);
            push_str(&mut inner, "</HealthCheck>");
            proof {
                assert(inner@ =~= "<HealthCheck>"@ + health_check_xml(h@) + "</HealthCheck>"@);
            }
            ok(document_exec("GetHealthCheckResponse", inner.as_str()))
        },
        None => health_check_missing(id.as_str()),
    }
}

/// What `handle_delete_health_check` does: its store change and its
/// response.
pub open spec fn delete_health_check_outcome(s0: Route53StoreView, s1: Route53StoreView, ctx: RequestContext, r: ResponseView) -> bool {
    let id = last_path_segment(ctx.path@);
    if s0.health_checks.contains_key(id) {
        &&& s1 == (Route53StoreView { health_checks: s0.health_checks.remove(id), ..s0 })
        &&& r == r53_ok(document("DeleteHealthCheckResponse"@, Seq::empty()))
    } else {
        s1 == s0 && r == no_health_check(id)
    }
}

/// DeleteHealthCheck: removes the health check the path names.
pub fn handle_delete_health_check(store: &mut Route53Store, ctx: &RequestContext) -> (r: DispatchResponse)
    requires
        old(store).wf(),
    ensures
        final(store).wf(),
        delete_health_check_outcome(old(store)@, final(store)@, *ctx, r@),
{
    let id = last_path_segment_exec(ctx.path.as_str());
    let ghost before = store.health_checks@;
    if store.health_checks.remove(id.as_str()).is_none() {
        proof {
            assert(before.remove(id@) =~= before);
        }
        return health_check_missing(id.as_str());
    }
    proof {
        reveal_strlit("");
        assert(""@ =~= Seq::<char>::empty());
    }
    ok(document_exec("DeleteHealthCheckResponse", ""))
}

/// The `<HealthCheck>` elements of `hs`, in order.
pub open spec fn health_checks_xml(hs: Seq<HealthCheck>) -> Seq<char>
    decreases hs.len(),
{
    if hs.len() == 0 {
        Seq::empty()
    } else {
        health_checks_xml(hs.drop_last()) + "<HealthCheck>"@ + health_check_xml(hs.last()@) + "</HealthCheck>"@
    }
}

/// What `handle_list_health_checks` answers.
pub open spec fn list_health_checks_outcome(s0: Route53Store, r: ResponseView) -> bool {
    r == r53_ok(
        document(
            "ListHealthChecksResponse"@,
            "<HealthChecks>"@ + health_checks_xml(s0.health_checks.vals_seq())
                + "</HealthChecks><IsTruncated>false</IsTruncated><MaxItems>100</MaxItems>"@,
        ),
    )
}

/// ListHealthChecks: every health check, in the order they were created.
pub fn handle_list_health_checks(store: &Route53Store) -> (r: DispatchResponse)
    requires
        store.wf(),
    ensures
        list_health_checks_outcome(*store, r@),
{
    let ghost hs = store.health_checks.vals_seq();
    let n = store.health_checks.len();
    proof {
        store.health_checks.lemma_enumeration();
    }
    let mut inner = String::new();
    push_str(&mut inner, "<HealthChecks>");
    let ghost head = inner@;
    let mut i: usize = 0;
    proof {
        assert(hs.take(0) =~= Seq::<HealthCheck>::empty());
    }
    while i < n
        invariant
            i <= n,
            n == hs.len(),
            hs == store.health_checks.vals_seq(),
            inner@ == head + health_checks_xml(hs.take(i as int)),
        decreases n - i,
    {
        let h = store.health_checks.value_at_index(i);
        push_str(&mut inner, "<HealthCheck>");
        push_health_check(&mut inner, h);
        push_str(&mut inner, "</HealthCheck>");
        proof {
            assert(hs.take(i + 1).drop_last() =~= hs.take(i as int));
            assert(hs.take(i + 1).last() == *h);
            assert(inner@ =~= head + health_checks_xml(hs.take(i + 1)));
        }
        i = i + 1;
    }
    push_str(&mut inner, "</HealthChecks><IsTruncated>false</IsTruncated><MaxItems>100</MaxItems>");
    proof {
        assert(hs.take(n as int) =~= hs);
    }
    ok(document_exec("ListHealthChecksResponse", inner.as_str()))
}

// ---------------------------------------------------------------------------
// Tags
// ---------------------------------------------------------------------------

/// A resource's tags under its resource type and id, as a view.
pub type TagView = ((Seq<char>, Seq<char>), Map<Seq<char>, Seq<char>>);

/// The key/value pairs of the `<Tag>` blocks of `rest`, in order: a block
/// runs from a `<Tag>` to the next `</Tag>` (or the end) and counts when
/// it has both a `Key` and a `Value`.
pub open spec fn tag_adds_from(rest: Seq<char>) -> Seq<(Seq<char>, Seq<char>)>
    decreases rest.len(),
{
    match crate::text::find_spec(rest, "<Tag>"@) {
        None => Seq::empty(),
        Some(start) => {
            let chunk = rest.subrange(start, rest.len() as int);
            let end = match crate::text::find_spec(chunk, "</Tag>"@) {
                Some(e) => e,
                None => chunk.len() as int,
            };
            proof {
                reveal_strlit("<Tag>");
                reveal_strlit("</Tag>");
                crate::text::lemma_find_from(rest, "<Tag>"@, 0);
                crate::text::lemma_find_from(chunk, "</Tag>"@, 0);
                if end == 0 {
                    assert(chunk.subrange(0, "</Tag>"@.len() as int)[1] == "</Tag>"@[1]);
                }
            }
            let block = chunk.subrange(0, end);
            let here = match (xml_text_spec(block, "Key"@), xml_text_spec(block, "Value"@)) {
                (Some(k), Some(v)) => seq![(k, v)],
                _ => Seq::empty(),
            };
            here + tag_adds_from(rest.subrange(start + end, rest.len() as int))
        },
    }
}

/// The `<Key>` texts of `rest`, each running from a `<Key>` to the next
/// `</Key>`; the scan moves on just past each `<Key>`.
pub open spec fn keys_from(rest: Seq<char>) -> Seq<Seq<char>>
    decreases rest.len(),
{
    match crate::text::find_spec(rest, "<Key>"@) {
        None => Seq::empty(),
        Some(ks) => {
            proof {
                reveal_strlit("<Key>");
                crate::text::lemma_find_from(rest, "<Key>"@, 0);
            }
            let after = rest.subrange(ks + "<Key>"@.len(), rest.len() as int);
            let k = match crate::text::find_spec(after, "</Key>"@) {
                Some(ke) => seq![after.subrange(0, ke)],
                None => Seq::empty(),
            };
            k + keys_from(after)
        },
    }
}

/// The keys to remove: those of the first `<RemoveTagKeys>` block (up to
/// its `</RemoveTagKeys>`, or the end).
pub open spec fn removal_keys(raw: Seq<char>) -> Seq<Seq<char>> {
    match crate::text::find_spec(raw, "<RemoveTagKeys>"@) {
        None => Seq::empty(),
        Some(rs) => {
            let chunk = raw.subrange(rs, raw.len() as int);
            let re = match crate::text::find_spec(chunk, "</RemoveTagKeys>"@) {
                Some(e) => e,
                None => chunk.len() as int,
            };
            keys_from(chunk.subrange(0, re))
        },
    }
}

fn tag_adds_exec(raw: &[char]) -> (r: Vec<(String, String)>)
    ensures
        r@.map_values(|e: (String, String)| (e.0@, e.1@)) == tag_adds_from(raw@),
{
    let open = chars_of("<Tag>");
    let close = chars_of("</Tag>");
    let key_tag = chars_of("Key");
    let value_tag = chars_of("Value");
    let mut rest: Vec<char> = crate::text::slice_chars(raw, 0, raw.len());
    let mut out: Vec<(String, String)> = Vec::new();
    proof {
        assert(rest@ =~= raw@);
        assert(out@.map_values(|e: (String, String)| (e.0@, e.1@)) =~= Seq::<(Seq<char>, Seq<char>)>::empty());
    }
    loop
        invariant
            open@ == "<Tag>"@,
            close@ == "</Tag>"@,
            key_tag@ == "Key"@,
            value_tag@ == "Value"@,
            out@.map_values(|e: (String, String)| (e.0@, e.1@)) + tag_adds_from(rest@) == tag_adds_from(raw@),
        decreases rest@.len(),
    {
        proof {
            reveal_strlit("<Tag>");
            reveal_strlit("</Tag>");
            crate::text::lemma_find_from(rest@, open@, 0);
        }
        let rl = rest.len();
        let start = match crate::text::find_chars(rest.as_slice(), open.as_slice()) {
            None => {
                proof {
                    assert(out@.map_values(|e: (String, String)| (e.0@, e.1@)) + Seq::<(Seq<char>, Seq<char>)>::empty()
                        =~= out@.map_values(|e: (String, String)| (e.0@, e.1@)));
                }
                return out;
            },
            Some(s) => s,
        };
        let chunk = crate::text::slice_chars(rest.as_slice(), start, rl);
        proof {
            crate::text::lemma_find_from(chunk@, close@, 0);
        }
        let end = match crate::text::find_chars(chunk.as_slice(), close.as_slice()) {
            Some(e) => e,
            None => chunk.len(),
        };
        proof {
            if end == 0 {
                assert(chunk@.subrange(0, close@.len() as int)[1] == close@[1]);
            }
        }
        let block = crate::text::slice_chars(chunk.as_slice(), 0, end);
        let ghost before = out@.map_values(|e: (String, String)| (e.0@, e.1@));
        let ghost tail = tag_adds_from(rest@.subrange(start + end, rest@.len() as int));
        match (
            crate::route53::xml_text_chars(block.as_slice(), key_tag.as_slice()),
            crate::route53::xml_text_chars(block.as_slice(), value_tag.as_slice()),
        ) {
            (Some(k), Some(v)) => {
                let ks = string_of(k.as_slice());
                let vs = string_of(v.as_slice());
                let ghost pair = (ks@, vs@);
                out.push((ks, vs));
                proof {
                    assert(out@.map_values(|e: (String, String)| (e.0@, e.1@)) =~= before.push(pair));
                    assert(out@.map_values(|e: (String, String)| (e.0@, e.1@)) + tail =~= before + (seq![pair] + tail));
                }
            },
            _ => {
                proof {
                    assert(before + (Seq::<(Seq<char>, Seq<char>)>::empty() + tail) =~= before + tail);
                }
            },
        }
        rest = crate::text::slice_chars(rest.as_slice(), start + end, rl);
    }
}

fn keys_exec(block: &[char]) -> (r: Vec<String>)
    ensures
        string_views(r@) == keys_from(block@),
{
    let open = chars_of("<Key>");
    let close = chars_of("</Key>");
    let mut rest: Vec<char> = crate::text::slice_chars(block, 0, block.len());
    let mut out: Vec<String> = Vec::new();
    proof {
        assert(rest@ =~= block@);
        assert(string_views(out@) =~= Seq::<Seq<char>>::empty());
    }
    loop
        invariant
            open@ == "<Key>"@,
            close@ == "</Key>"@,
            string_views(out@) + keys_from(rest@) == keys_from(block@),
        decreases rest@.len(),
    {
        proof {
            reveal_strlit("<Key>");
            crate::text::lemma_find_from(rest@, open@, 0);
        }
        let rl = rest.len();
        let ks = match crate::text::find_chars(rest.as_slice(), open.as_slice()) {
            None => {
                proof {
                    assert(string_views(out@) + Seq::<Seq<char>>::empty() =~= string_views(out@));
                }
                return out;
            },
            Some(k) => k,
        };
        let after = crate::text::slice_chars(rest.as_slice(), ks + open.len(), rl);
        let ghost before = string_views(out@);
        match crate::text::find_chars(after.as_slice(), close.as_slice()) {
            Some(ke) => {
                proof {
                    crate::text::lemma_find_from(after@, close@, 0);
                }
                let k = crate::text::slice_chars(after.as_slice(), 0, ke);
                out.push(string_of(k.as_slice()));
                proof {
                    assert(string_views(out@) =~= before.push(k@));
                    assert(string_views(out@) + keys_from(after@) =~= before + (seq![k@] + keys_from(after@)));
                }
            },
            None => {
                proof {
                    assert(before + (Seq::<Seq<char>>::empty() + keys_from(after@)) =~= before + keys_from(after@));
                }
            },
        }
        rest = after;
    }
}

fn removal_keys_exec(raw: &[char]) -> (r: Vec<String>)
    ensures
        string_views(r@) == removal_keys(raw@),
{
    let open = chars_of("<RemoveTagKeys>");
    let close = chars_of("</RemoveTagKeys>");
    proof {
        crate::text::lemma_find_from(raw@, open@, 0);
    }
    match crate::text::find_chars(raw, open.as_slice()) {
        None => {
            let r: Vec<String> = Vec::new();
            proof {
                assert(string_views(r@) =~= Seq::<Seq<char>>::empty());
            }
            r
        },
        Some(rs) => {
            let chunk = crate::text::slice_chars(raw, rs, raw.len());
            proof {
                crate::text::lemma_find_from(chunk@, close@, 0);
            }
            let re = match crate::text::find_chars(chunk.as_slice(), close.as_slice()) {
                Some(e) => e,
                None => chunk.len(),
            };
            let block = crate::text::slice_chars(chunk.as_slice(), 0, re);
            keys_exec(block.as_slice())
        },
    }
}

/// Whether a tag entry is under resource `k`.
pub open spec fn tags_of(k: (Seq<char>, Seq<char>)) -> spec_fn(TagView) -> bool {
    |e: TagView| e.0 == k
}

/// The tags `adds` added in order.
pub open spec fn with_tags(m: Map<Seq<char>, Seq<char>>, adds: Seq<(Seq<char>, Seq<char>)>) -> Map<Seq<char>, Seq<char>>
    decreases adds.len(),
{
    if adds.len() == 0 {
        m
    } else {
        with_tags(m, adds.drop_last()).insert(adds.last().0, adds.last().1)
    }
}

/// The keys `ks` removed.
pub open spec fn without_tags(m: Map<Seq<char>, Seq<char>>, ks: Seq<Seq<char>>) -> Map<Seq<char>, Seq<char>>
    decreases ks.len(),
{
    if ks.len() == 0 {
        m
    } else {
        without_tags(m, ks.drop_last()).remove(ks.last())
    }
}

/// The tags after ChangeTagsForResource on resource `k`: its entry (made
/// empty at the end when missing) gets the additions, then loses the
/// removed keys.
pub open spec fn tags_changed(
    tags: Seq<TagView>,
    k: (Seq<char>, Seq<char>),
    adds: Seq<(Seq<char>, Seq<char>)>,
    removes: Seq<Seq<char>>,
) -> Seq<TagView> {
    let (base, i) = match first_where(tags, tags_of(k)) {
        Some(i) => (tags, i),
        None => (tags.push((k, Map::empty())), tags.len() as int),
    };
    base.update(i, (k, without_tags(with_tags(base[i].1, adds), removes)))
}

/// The resource a tags path names: the two segments after `tags`.
pub open spec fn tag_target(path: Seq<char>) -> (Seq<char>, Seq<char>) {
    (segment_after(path, "tags"@, 1), segment_after(path, "tags"@, 2))
}

/// What `handle_change_tags` does: its store change and its response.
pub open spec fn change_tags_outcome(s0: Route53StoreView, s1: Route53StoreView, ctx: RequestContext, r: ResponseView) -> bool {
    let body = body_of(ctx);
    &&& s1 == (Route53StoreView {
        tags: tags_changed(s0.tags, tag_target(ctx.path@), tag_adds_from(body), removal_keys(body)),
        ..s0
    })
    &&& r == r53_ok(document("ChangeTagsForResourceResponse"@, Seq::empty()))
}

fn find_tags(tags: &Vec<TagEntry>, rtype: &str, rid: &str) -> (r: Option<usize>)
    ensures
        match r {
            Some(i) => first_where(tags@.map_values(|e: TagEntry| tag_entry_view(e)), tags_of((rtype@, rid@))) == Some(
                i as int,
            ) && i < tags@.len(),
            None => first_where(tags@.map_values(|e: TagEntry| tag_entry_view(e)), tags_of((rtype@, rid@))) is None,
        },
{
    let ghost tv = tags@.map_values(|e: TagEntry| tag_entry_view(e));
    let ghost p = tags_of((rtype@, rid@));
    let mut i: usize = 0;
    while i < tags.len()
        invariant
            i <= tags@.len(),
            tv == tags@.map_values(|e: TagEntry| tag_entry_view(e)),
            p == tags_of((rtype@, rid@)),
            forall|j: int| 0 <= j < i ==> !p(#[trigger] tv[j]),
        decreases tags@.len() - i,
    {
        if tags[i].0.0.as_str().eq(rtype) && tags[i].0.1.as_str().eq(rid) {
            proof {
                assert(tv[i as int] == tag_entry_view(tags@[i as int]));
                lemma_first_where(tv, p, i as int);
            }
            return Some(i);
        }
        proof {
            assert(tv[i as int] == tag_entry_view(tags@[i as int]));
        }
        i = i + 1;
    }
    proof {
        lemma_first_where_none(tv, p);
    }
    None
}

/// ChangeTagsForResource: adds the body's `<Tag>` pairs to the tags of the
/// resource the path names, then removes its `<RemoveTagKeys>` keys.
pub fn handle_change_tags(store: &mut Route53Store, ctx: &RequestContext) -> (r: DispatchResponse)
    requires
        old(store).wf(),
    ensures
        final(store).wf(),
        change_tags_outcome(old(store)@, final(store)@, *ctx, r@),
{
    let rtype = segment_after_exec(ctx.path.as_str(), "tags", 1);
    let rid = segment_after_exec(ctx.path.as_str(), "tags", 2);
    let raw = utf8_lossy(ctx.raw_body.as_slice());
    let rc = chars_of(raw.as_str());
    let adds = tag_adds_exec(rc.as_slice());
    let removes = removal_keys_exec(rc.as_slice());
    let ghost av = adds@.map_values(|e: (String, String)| (e.0@, e.1@));
    let ghost rv = string_views(removes@);
    let ghost t0 = store@.tags;
    let idx = match find_tags(&store.tags, rtype.as_str(), rid.as_str()) {
        Some(i) => i,
        None => {
            store.tags.push(((rtype.clone(), rid.clone()), StrMap::new()));
            proof {
                assert(store@.tags =~= t0.push(((rtype@, rid@), Map::empty())));
                assert forall|i: int| 0 <= i < store.tags@.len() implies (#[trigger] store.tags@[i]).1.wf() by {
                    if i < t0.len() {
                        assert(store.tags@[i] == old(store).tags@[i]);
                    }
                }
            }
            store.tags.len() - 1
        },
    };
    let ghost base = store@.tags;
    proof {
        assert(idx < store.tags@.len());
        assert(store.tags@[idx as int].1.wf());
        lemma_first_where_some(t0, tags_of((rtype@, rid@)));
        assert(base[idx as int].0 == (rtype@, rid@));
    }
    let ghost before_remove = store.tags@;
    let mut entry = store.tags.remove(idx);
    let ghost m0 = entry.1@;
    let ghost k0 = entry.0;
    proof {
        assert(entry == before_remove[idx as int]);
        assert(base[idx as int] == tag_entry_view(entry));
    }
    let mut i: usize = 0;
    proof {
        assert(av.take(0) =~= Seq::<(Seq<char>, Seq<char>)>::empty());
    }
    while i < adds.len()
        invariant
            i <= adds@.len(),
            av == adds@.map_values(|e: (String, String)| (e.0@, e.1@)),
            entry.1.wf(),
            entry.0 == k0,
            entry.1@ == with_tags(m0, av.take(i as int)),
        decreases adds@.len() - i,
    {
        entry.1.insert(adds[i].0.clone(), adds[i].1.clone());
        proof {
            assert(av.take(i + 1).drop_last() =~= av.take(i as int));
            assert(av.take(i + 1).last() == (adds@[i as int].0@, adds@[i as int].1@));
        }
        i = i + 1;
    }
    proof {
        assert(av.take(adds@.len() as int) =~= av);
    }
    let ghost m1 = entry.1@;
    let mut j: usize = 0;
    proof {
        assert(rv.take(0) =~= Seq::<Seq<char>>::empty());
    }
    while j < removes.len()
        invariant
            j <= removes@.len(),
            rv == string_views(removes@),
            entry.1.wf(),
            entry.0 == k0,
            entry.1@ == without_tags(m1, rv.take(j as int)),
        decreases removes@.len() - j,
    {
        entry.1.remove(removes[j].as_str());
        proof {
            assert(rv.take(j + 1).drop_last() =~= rv.take(j as int));
            assert(rv.take(j + 1).last() == removes@[j as int]@);
        }
        j = j + 1;
    }
    proof {
        assert(rv.take(removes@.len() as int) =~= rv);
    }
    let ghost ev = ((entry.0.0@, entry.0.1@), entry.1@);
    let ghost before_insert = store.tags@;
    store.tags.insert(idx, entry);
    proof {
        assert(m0 == base[idx as int].1);
        assert(ev.0 == base[idx as int].0);
        assert(ev == ((rtype@, rid@), without_tags(with_tags(base[idx as int].1, av), rv)));
        assert(store@.tags =~= base.update(idx as int, ev));
        assert(rc@ == body_of(*ctx));
        assert(store@.tags == tags_changed(t0, tag_target(ctx.path@), tag_adds_from(body_of(*ctx)), removal_keys(body_of(*ctx))));
        assert forall|i: int| 0 <= i < store.tags@.len() implies (#[trigger] store.tags@[i]).1.wf() by {
            if i < idx {
                assert(store.tags@[i] == before_insert[i]);
            } else if i > idx {
                assert(store.tags@[i] == before_insert[i - 1]);
            }
        }
        reveal_strlit("");
        assert(""@ =~= Seq::<char>::empty());
    }
    ok(document_exec("ChangeTagsForResourceResponse", ""))
}

/// The `<Tag>` elements of a tag map, in its storage order.
pub open spec fn tags_xml(ks: Seq<Seq<char>>, m: Map<Seq<char>, Seq<char>>) -> Seq<char>
    decreases ks.len(),
{
    if ks.len() == 0 {
        Seq::empty()
    } else {
        tags_xml(ks.drop_last(), m) + "<Tag><Key>"@ + escape_xml_spec(ks.last()) + "</Key><Value>"@ + escape_xml_spec(
            m[ks.last()],
        ) + "</Value></Tag>"@
    }
}

/// The tag elements ListTagsForResource reports for resource `k`.
pub open spec fn resource_tags_xml(s0: Route53Store, k: (Seq<char>, Seq<char>)) -> Seq<char> {
    match first_where(s0@.tags, tags_of(k)) {
        Some(i) => tags_xml(s0.tags@[i].1.keys_seq(), s0.tags@[i].1@),
        None => Seq::empty(),
    }
}

/// What `handle_list_tags` answers.
pub open spec fn list_tags_outcome(s0: Route53Store, ctx: RequestContext, r: ResponseView) -> bool {
    let k = tag_target(ctx.path@);
    r == r53_ok(
        document(
            "ListTagsForResourceResponse"@,
            "<ResourceTagSet><ResourceType>"@ + k.0 + "</ResourceType><ResourceId>"@ + k.1 + "</ResourceId><Tags>"@
                + resource_tags_xml(s0, k) + "</Tags></ResourceTagSet>"@,
        ),
    )
}

/// ListTagsForResource: the tags of the resource the path names.
pub fn handle_list_tags(store: &Route53Store, ctx: &RequestContext) -> (r: DispatchResponse)
    requires
        store.wf(),
    ensures
        list_tags_outcome(*store, *ctx, r@),
{
    let rtype = segment_after_exec(ctx.path.as_str(), "tags", 1);
    let rid = segment_after_exec(ctx.path.as_str(), "tags", 2);
    let mut tags = String::new();
    match find_tags(&store.tags, rtype.as_str(), rid.as_str()) {
        Some(i) => {
            let m = &store.tags[i].1;
            proof {
                assert(m.wf());
                m.lemma_enumeration();
            }
            let ghost ks = m.keys_seq();
            let n = m.len();
            let mut j: usize = 0;
            proof {
                assert(ks.take(0) =~= Seq::<Seq<char>>::empty());
            }
            while j < n
                invariant
                    j <= n,
                    m.wf(),
                    n == ks.len(),
                    ks == m.keys_seq(),
                    tags@ == tags_xml(ks.take(j as int), m@),
                decreases n - j,
            {
                proof {
                    m.lemma_enumeration();
                }
                let k = m.key_at_index(j);
                let v = m.value_at_index(j);
                push_str(&mut tags, "<Tag><Key>");
                push_escaped(&mut tags, k.as_str());
                push_str(&mut tags, "</Key><Value>");
                push_escaped(&mut tags, v.as_str());
                push_str(&mut tags, "</Value></Tag>");
                proof {
                    assert(m@[k@] == v@);
                    assert(ks.take(j + 1).drop_last() =~= ks.take(j as int));
                    assert(ks.take(j + 1).last() == k@);
                    assert(tags@ =~= tags_xml(ks.take(j + 1), m@));
                }
                j = j + 1;
            }
            proof {
                assert(ks.take(n as int) =~= ks);
                assert(tags@ == resource_tags_xml(*store, tag_target(ctx.path@)));
            }
        },
        None => {
            proof {
                assert(tags@ == resource_tags_xml(*store, tag_target(ctx.path@)));
            }
        },
    }
    let mut inner = String::new();
    push_str(&mut inner, "<ResourceTagSet><ResourceType>");
    push_str(&mut inner, rtype.as_str());
    push_str(&mut inner, "</ResourceType><ResourceId>");
    push_str(&mut inner, rid.as_str());
    push_str(&mut inner, "</ResourceId><Tags>");
    push_str(&mut inner, tags.as_str());
    push_str(&mut inner, "</Tags></ResourceTagSet>");
    proof {
        let k = tag_target(ctx.path@);
        assert(inner@ =~= "<ResourceTagSet><ResourceType>"@ + k.0 + "</ResourceType><ResourceId>"@ + k.1
            + "</ResourceId><Tags>"@ + resource_tags_xml(*store, k) + "</Tags></ResourceTagSet>"@);
    }
    ok(document_exec("ListTagsForResourceResponse", inner.as_str()))
}

// ---------------------------------------------------------------------------
// Dispatch
// ---------------------------------------------------------------------------

/// The operations Route 53 supports.
pub open spec fn supported_operation(op: Seq<char>) -> bool {
    op == "CreateHostedZone"@ || op == "DeleteHostedZone"@ || op == "ListHostedZones"@ || op == "GetHostedZone"@ || op
        == "GetChange"@ || op == "ChangeResourceRecordSets"@ || op == "ListResourceRecordSets"@ || op
        == "ListHostedZonesByName"@ || op == "GetHostedZoneCount"@ || op == "CreateHealthCheck"@ || op
        == "GetHealthCheck"@ || op == "DeleteHealthCheck"@ || op == "ListHealthChecks"@ || op
        == "ChangeTagsForResource"@ || op == "ListTagsForResource"@
}

/// What handling a request does, by its operation, with request id `rid`;
/// a zone or health check it creates gets the id `id`, and `fresh_ref` is
/// the caller reference of a health check whose body names none.  An
/// operation Route 53 does not support is refused as not implemented and
/// changes nothing.
pub open spec fn dispatch_outcome(
    s0: Route53Store,
    s1: Route53Store,
    ctx: RequestContext,
    rid: Seq<char>,
    id: Seq<char>,
    fresh_ref: Seq<char>,
    r: Result<DispatchResponse, DispatchError>,
) -> bool {
    let op = ctx.operation@;
    match r {
        Err(DispatchError::NotImplemented(a)) => a@ == op && s1 == s0 && !supported_operation(op),
        Ok(resp) => {
            let v = resp@;
            &&& supported_operation(op)
            &&& if op == "CreateHostedZone"@ {
                create_zone_outcome(s0@, s1@, ctx, rid, id, v)
            } else if op == "DeleteHostedZone"@ {
                delete_zone_outcome(s0@, s1@, ctx, rid, v)
            } else if op == "ListHostedZones"@ {
                s1 == s0 && list_zones_outcome(s0, v)
            } else if op == "GetHostedZone"@ {
                s1 == s0 && get_zone_outcome(s0@, ctx, v)
            } else if op == "GetChange"@ {
                s1 == s0 && get_change_outcome(ctx, v)
            } else if op == "ChangeResourceRecordSets"@ {
                change_records_outcome(s0@, s1@, ctx, rid, v)
            } else if op == "ListResourceRecordSets"@ {
                s1 == s0 && list_records_outcome(s0@, ctx, v)
            } else if op == "ListHostedZonesByName"@ {
                s1 == s0 && zones_by_name_outcome(s0, ctx, v)
            } else if op == "GetHostedZoneCount"@ {
                s1 == s0 && zone_count_outcome(s0@, v)
            } else if op == "CreateHealthCheck"@ {
                create_health_check_outcome(s0@, s1@, ctx, id, fresh_ref, v)
            } else if op == "GetHealthCheck"@ {
                s1 == s0 && get_health_check_outcome(s0@, ctx, v)
            } else if op == "DeleteHealthCheck"@ {
                delete_health_check_outcome(s0@, s1@, ctx, v)
            } else if op == "ListHealthChecks"@ {
                s1 == s0 && list_health_checks_outcome(s0, v)
            } else if op == "ChangeTagsForResource"@ {
                change_tags_outcome(s0@, s1@, ctx, v)
            } else {
                s1 == s0 && list_tags_outcome(s0, ctx, v)
            }
        },
    }
}

/// Handles one request with request id `rid`, new resources getting the
/// id `id` (see `dispatch_outcome`).
pub fn dispatch_at(
    store: &mut Route53Store,
    ctx: &RequestContext,
    rid: &str,
    id: &str,
    fresh_ref: &str,
) -> (r: Result<DispatchResponse, DispatchError>)
    requires
        old(store).wf(),
        ctx.wf(),
    ensures
        final(store).wf(),
        dispatch_outcome(*old(store), *final(store), *ctx, rid@, id@, fresh_ref@, r),
{
    let op = ctx.operation.as_str();
    let resp = if op.eq("CreateHostedZone") {
        handle_create_hosted_zone(store, ctx, rid, id)
    } else if op.eq("DeleteHostedZone") {
        handle_delete_hosted_zone(store, ctx, rid)
    } else if op.eq("ListHostedZones") {
        handle_list_hosted_zones(store)
    } else if op.eq("GetHostedZone") {
        handle_get_hosted_zone(store, ctx)
    } else if op.eq("GetChange") {
        handle_get_change(ctx)
    } else if op.eq("ChangeResourceRecordSets") {
        handle_change_resource_record_sets(store, ctx, rid)
    } else if op.eq("ListResourceRecordSets") {
        handle_list_resource_record_sets(store, ctx)
    } else if op.eq("ListHostedZonesByName") {
        handle_list_hosted_zones_by_name(store, ctx)
    } else if op.eq("GetHostedZoneCount") {
        handle_get_hosted_zone_count(store)
    } else if op.eq("CreateHealthCheck") {
        handle_create_health_check(store, ctx, id, fresh_ref)
    } else if op.eq("GetHealthCheck") {
        handle_get_health_check(store, ctx)
    } else if op.eq("DeleteHealthCheck") {
        handle_delete_health_check(store, ctx)
    } else if op.eq("ListHealthChecks") {
        handle_list_health_checks(store)
    } else if op.eq("ChangeTagsForResource") {
        handle_change_tags(store, ctx)
    } else if op.eq("ListTagsForResource") {
        handle_list_tags(store, ctx)
    } else {
        return Err(DispatchError::NotImplemented(ctx.operation.clone()));
    };
    Ok(resp)
}

/// How many hyphens a hyphenated UUID has before place `i`.
spec fn hyphens_before(i: int) -> int {
    (if i > 8 { 1int } else { 0int }) + (if i > 13 { 1int } else { 0int }) + (if i > 18 { 1int } else { 0int }) + (
    if i > 23 { 1int } else { 0int })
}

/// A fresh twelve-character id: the first twelve hex digits of a fresh
/// identifier.
fn short_id() -> (r: String)
    ensures
        r@.len() == 12,
        forall|k: int| 0 <= k < 12 ==> crate::deps::is_lower_hex_char(#[trigger] r@[k]),
{
    let u = crate::deps::new_uuid();
    let c = chars_of(u.as_str());
    let mut r = String::new();
    let mut i: usize = 0;
    let mut n: usize = 0;
    while i < c.len() && n < 12
        invariant
            i <= c@.len(),
            c@ == u@,
            crate::deps::is_uuid_text(u@),
            r@.len() == n,
            n <= 12,
            n + hyphens_before(i as int) == i,
            forall|k: int| 0 <= k < n ==> crate::deps::is_lower_hex_char(#[trigger] r@[k]),
        decreases c@.len() - i,
    {
        if c[i] != '-' {
            proof {
                assert(!crate::deps::uuid_hyphen_at(i as int));
            }
            r.push(c[i]);
            n = n + 1;
        } else {
            proof {
                assert(crate::deps::uuid_hyphen_at(i as int)) by {
                    if !crate::deps::uuid_hyphen_at(i as int) {
                        assert(crate::deps::is_lower_hex_char(u@[i as int]));
                    }
                }
            }
        }
        i = i + 1;
    }
    r
}

/// Handles one request with fresh identifiers.
pub fn dispatch(store: &mut Route53Store, ctx: &RequestContext) -> (r: Result<DispatchResponse, DispatchError>)
    requires
        old(store).wf(),
        ctx.wf(),
    ensures
        final(store).wf(),
        exists|rid: Seq<char>, id: Seq<char>, fresh_ref: Seq<char>|
            crate::deps::is_uuid_text(rid) && crate::deps::is_hex_text(id, 12) && crate::deps::is_uuid_text(fresh_ref) && #[trigger] dispatch_outcome(*old(store), *final(store), *ctx, rid, id, fresh_ref, r),
{
    let rid = crate::deps::new_uuid();
    let id = short_id();
    let fresh_ref = crate::deps::new_uuid();
    dispatch_at(store, ctx, rid.as_str(), id.as_str(), fresh_ref.as_str())
}

} // verus!
