//! The Route 53 data model and the reading of record-set changes from a
//! ChangeResourceRecordSets request body.
use vstd::prelude::*;

use crate::strmap::StrMap;
use crate::text::{chars_of, find_chars, find_spec, opt_view, parse_u64, parse_unsigned_spec, slice_chars, string_of};

verus! {

// ---------------------------------------------------------------------------
// Data model
// ---------------------------------------------------------------------------

pub struct HostedZone {
    /// The zone id, without the `/hostedzone/` prefix.
    pub id: String,
    /// The DNS name, with its trailing dot.
    pub name: String,
    pub caller_reference: String,
    pub comment: String,
    pub private_zone: bool,
    pub record_count: usize,
}

pub struct ResourceRecordSet {
    pub name: String,
    pub record_type: String,
    pub ttl: u64,
    pub values: Vec<String>,
}

pub struct RecordSetView {
    pub name: Seq<char>,
    pub record_type: Seq<char>,
    pub ttl: u64,
    pub values: Seq<Seq<char>>,
}

impl View for ResourceRecordSet {
    type V = RecordSetView;

    open spec fn view(&self) -> RecordSetView {
        RecordSetView {
            name: self.name@,
            record_type: self.record_type@,
            ttl: self.ttl,
            values: crate::text::string_views(self.values@),
        }
    }
}

pub struct HealthCheckConfig {
    pub ip_address: Option<String>,
    pub port: u16,
    /// `HTTP`, `HTTPS` or `TCP`.
    pub health_check_type: String,
    pub resource_path: Option<String>,
    pub fully_qualified_domain_name: Option<String>,
    pub request_interval: u32,
    pub failure_threshold: u32,
}

pub struct HealthCheckConfigView {
    pub ip_address: Option<Seq<char>>,
    pub port: u16,
    pub health_check_type: Seq<char>,
    pub resource_path: Option<Seq<char>>,
    pub fully_qualified_domain_name: Option<Seq<char>>,
    pub request_interval: u32,
    pub failure_threshold: u32,
}

impl View for HealthCheckConfig {
    type V = HealthCheckConfigView;

    open spec fn view(&self) -> HealthCheckConfigView {
        HealthCheckConfigView {
            ip_address: opt_view(self.ip_address),
            port: self.port,
            health_check_type: self.health_check_type@,
            resource_path: opt_view(self.resource_path),
            fully_qualified_domain_name: opt_view(self.fully_qualified_domain_name),
            request_interval: self.request_interval,
            failure_threshold: self.failure_threshold,
        }
    }
}

pub struct HealthCheck {
    pub id: String,
    pub caller_reference: String,
    pub config: HealthCheckConfig,
    pub health_check_version: u64,
}

pub struct HealthCheckView {
    pub id: Seq<char>,
    pub caller_reference: Seq<char>,
    pub config: HealthCheckConfigView,
    pub health_check_version: u64,
}

impl View for HealthCheck {
    type V = HealthCheckView;

    open spec fn view(&self) -> HealthCheckView {
        HealthCheckView {
            id: self.id@,
            caller_reference: self.caller_reference@,
            config: self.config@,
            health_check_version: self.health_check_version,
        }
    }
}

pub struct ZoneView {
    pub id: Seq<char>,
    pub name: Seq<char>,
    pub caller_reference: Seq<char>,
    pub comment: Seq<char>,
    pub private_zone: bool,
    pub record_count: usize,
}

impl View for HostedZone {
    type V = ZoneView;

    open spec fn view(&self) -> ZoneView {
        ZoneView {
            id: self.id@,
            name: self.name@,
            caller_reference: self.caller_reference@,
            comment: self.comment@,
            private_zone: self.private_zone,
            record_count: self.record_count,
        }
    }
}

/// A record set under its zone id, name and type.
pub type RecordEntry = ((String, String, String), ResourceRecordSet);

/// The view of a record entry.
pub open spec fn record_entry_view(e: RecordEntry) -> ((Seq<char>, Seq<char>, Seq<char>), RecordSetView) {
    ((e.0.0@, e.0.1@, e.0.2@), e.1@)
}

/// A resource's tags under its resource type and id.
pub type TagEntry = ((String, String), StrMap<String>);

/// The view of a tag entry.
pub open spec fn tag_entry_view(e: TagEntry) -> ((Seq<char>, Seq<char>), Map<Seq<char>, Seq<char>>) {
    ((e.0.0@, e.0.1@), e.1@)
}

/// One account's zones, record sets, health checks and tags.
pub struct Route53Store {
    /// Zone id to zone.
    pub zones: StrMap<HostedZone>,
    /// Record sets, at most one under each zone id, name and type.
    pub records: Vec<RecordEntry>,
    /// Health check id to health check.
    pub health_checks: StrMap<HealthCheck>,
    /// Tags, at most one map under each resource type and id.
    pub tags: Vec<TagEntry>,
}

pub struct Route53StoreView {
    pub zones: Map<Seq<char>, ZoneView>,
    pub records: Seq<((Seq<char>, Seq<char>, Seq<char>), RecordSetView)>,
    pub health_checks: Map<Seq<char>, HealthCheckView>,
    pub tags: Seq<((Seq<char>, Seq<char>), Map<Seq<char>, Seq<char>>)>,
}

impl View for Route53Store {
    type V = Route53StoreView;

    open spec fn view(&self) -> Route53StoreView {
        Route53StoreView {
            zones: self.zones@,
            records: self.records@.map_values(|e: RecordEntry| record_entry_view(e)),
            health_checks: self.health_checks@,
            tags: self.tags@.map_values(|e: TagEntry| tag_entry_view(e)),
        }
    }
}

impl Route53Store {
    pub open spec fn wf(&self) -> bool {
        &&& self.zones.wf()
        &&& self.health_checks.wf()
        &&& forall|i: int| 0 <= i < self.tags@.len() ==> (#[trigger] self.tags@[i]).1.wf()
    }

    /// An empty store.
    pub fn new() -> (s: Self)
        ensures
            s.wf(),
            s@.zones == Map::<Seq<char>, ZoneView>::empty(),
            s@.records.len() == 0,
            s@.health_checks == Map::<Seq<char>, HealthCheckView>::empty(),
            s@.tags.len() == 0,
    {
        Route53Store { zones: StrMap::new(), records: Vec::new(), health_checks: StrMap::new(), tags: Vec::new() }
    }
}

// ---------------------------------------------------------------------------
// Reading request bodies
// ---------------------------------------------------------------------------

/// The text between the first `<tag>` and the first `</tag>` of `xml`
/// (searched from the start), when the closing tag does not come before
/// the text starts.
pub open spec fn xml_text_spec(xml: Seq<char>, tag: Seq<char>) -> Option<Seq<char>> {
    let open = seq!['<'] + tag + seq!['>'];
    let close = seq!['<', '/'] + tag + seq!['>'];
    match (find_spec(xml, open), find_spec(xml, close)) {
        (Some(p), Some(e)) => if e >= p + open.len() {
            Some(xml.subrange(p + open.len(), e))
        } else {
            None
        },
        _ => None,
    }
}

fn tag_of(tag: &[char], closing: bool) -> (r: Vec<char>)
    ensures
        r@ == if closing {
            seq!['<', '/'] + tag@ + seq!['>']
        } else {
            seq!['<'] + tag@ + seq!['>']
        },
{
    let mut r: Vec<char> = Vec::new();
    r.push('<');
    if closing {
        r.push('/');
    }
    let mut i: usize = 0;
    while i < tag.len()
        invariant
            i <= tag@.len(),
            r@ == (if closing {
                seq!['<', '/']
            } else {
                seq!['<']
            }) + tag@.take(i as int),
        decreases tag@.len() - i,
    {
        r.push(tag[i]);
        proof {
            assert(tag@.take(i + 1) =~= tag@.take(i as int).push(tag@[i as int]));
        }
        i = i + 1;
    }
    r.push('>');
    proof {
        assert(tag@.take(tag@.len() as int) =~= tag@);
        assert(r@ =~= (if closing {
            seq!['<', '/'] + tag@ + seq!['>']
        } else {
            seq!['<'] + tag@ + seq!['>']
        }));
    }
    r
}

/// The text of the simple element `tag` in `xml`, over characters.
pub fn xml_text_chars(xml: &[char], tag: &[char]) -> (r: Option<Vec<char>>)
    ensures
        match xml_text_spec(xml@, tag@) {
            Some(t) => r matches Some(v) && v@ == t,
            None => r is None,
        },
{
    let open = tag_of(tag, false);
    let close = tag_of(tag, true);
    let xl = xml.len();
    let ol = open.len();
    proof {
        crate::text::lemma_find_from(xml@, open@, 0);
        crate::text::lemma_find_from(xml@, close@, 0);
    }
    let p = match find_chars(xml, open.as_slice()) {
        Some(p) => p,
        None => {
            return None;
        },
    };
    proof {
        assert(p + ol <= xl);
    }
    let start = p + ol;
    let e = match find_chars(xml, close.as_slice()) {
        Some(e) => e,
        None => {
            return None;
        },
    };
    if e >= start {
        Some(slice_chars(xml, start, e))
    } else {
        None
    }
}

/// The text of the simple element `tag` in `xml` (see `xml_text_spec`).
pub fn xml_text(xml: &str, tag: &str) -> (r: Option<String>)
    ensures
        match xml_text_spec(xml@, tag@) {
            Some(t) => r matches Some(s) && s@ == t,
            None => r is None,
        },
{
    let x = chars_of(xml);
    let t = chars_of(tag);
    match xml_text_chars(x.as_slice(), t.as_slice()) {
        Some(v) => Some(string_of(v.as_slice())),
        None => None,
    }
}

/// The `<Value>` texts of a change, each running from a `<Value>` to the
/// next `</Value>`; the scan moves on just past each `<Value>`.
pub open spec fn values_from(rest: Seq<char>) -> Seq<Seq<char>>
    decreases rest.len(),
{
    match find_spec(rest, "<Value>"@) {
        None => Seq::empty(),
        Some(vs) => {
            proof {
                reveal_strlit("<Value>");
                crate::text::lemma_find_from(rest, "<Value>"@, 0);
            }
            let after = rest.subrange(vs + "<Value>"@.len(), rest.len() as int);
            let v = match find_spec(after, "</Value>"@) {
                Some(ve) => seq![after.subrange(0, ve)],
                None => Seq::empty(),
            };
            v + values_from(after)
        },
    }
}

/// The text of `tag` in `change`, or empty.
pub open spec fn text_or_empty(change: Seq<char>, tag: Seq<char>) -> Seq<char> {
    match xml_text_spec(change, tag) {
        Some(t) => t,
        None => Seq::empty(),
    }
}

/// The TTL of a change: its `<TTL>` read as a `u64`, 300 when absent or
/// unreadable.
pub open spec fn ttl_of(change: Seq<char>) -> u64 {
    match xml_text_spec(change, "TTL"@) {
        Some(t) => match parse_unsigned_spec(t, u64::MAX as nat) {
            Some(n) => n as u64,
            None => 300,
        },
        None => 300,
    }
}

/// One change: its action and the record set it carries.
pub open spec fn change_spec(change: Seq<char>) -> (Seq<char>, RecordSetView) {
    (
        text_or_empty(change, "Action"@),
        RecordSetView {
            name: text_or_empty(change, "Name"@),
            record_type: text_or_empty(change, "Type"@),
            ttl: ttl_of(change),
            values: values_from(change),
        },
    )
}

/// The changes of a ChangeResourceRecordSets body, in order: each runs
/// from a `<Change>` to the next `</Change>` (or the end).
pub open spec fn rrsets_from(remaining: Seq<char>) -> Seq<(Seq<char>, RecordSetView)>
    decreases remaining.len(),
{
    match find_spec(remaining, "<Change>"@) {
        None => Seq::empty(),
        Some(start) => {
            let chunk = remaining.subrange(start, remaining.len() as int);
            let end = match find_spec(chunk, "</Change>"@) {
                Some(e) => e,
                None => chunk.len() as int,
            };
            proof {
                reveal_strlit("<Change>");
                reveal_strlit("</Change>");
                crate::text::lemma_find_from(remaining, "<Change>"@, 0);
                crate::text::lemma_find_from(chunk, "</Change>"@, 0);
                if end == 0 {
                    assert(chunk.subrange(0, "</Change>"@.len() as int)[1] == "</Change>"@[1]);
                }
            }
            seq![change_spec(chunk.subrange(0, end))] + rrsets_from(remaining.subrange(start + end, remaining.len() as int))
        },
    }
}

fn values_exec(change: &[char]) -> (r: Vec<String>)
    ensures
        crate::text::string_views(r@) == values_from(change@),
{
    let open = chars_of("<Value>");
    let close = chars_of("</Value>");
    let mut rest: Vec<char> = slice_chars(change, 0, change.len());
    let mut out: Vec<String> = Vec::new();
    proof {
        assert(rest@ =~= change@);
        assert(crate::text::string_views(out@) =~= Seq::<Seq<char>>::empty());
    }
    loop
        invariant
            open@ == "<Value>"@,
            close@ == "</Value>"@,
            crate::text::string_views(out@) + values_from(rest@) == values_from(change@),
        decreases rest@.len(),
    {
        proof {
            reveal_strlit("<Value>");
            crate::text::lemma_find_from(rest@, open@, 0);
        }
        let rl = rest.len();
        let vs = match find_chars(rest.as_slice(), open.as_slice()) {
            None => {
                proof {
                    assert(crate::text::string_views(out@) + Seq::<Seq<char>>::empty() =~= crate::text::string_views(out@));
                }
                return out;
            },
            Some(v) => v,
        };
        let after = slice_chars(rest.as_slice(), vs + open.len(), rl);
        let ghost before = crate::text::string_views(out@);
        match find_chars(after.as_slice(), close.as_slice()) {
            Some(ve) => {
                proof {
                    crate::text::lemma_find_from(after@, close@, 0);
                }
                let v = slice_chars(after.as_slice(), 0, ve);
                out.push(string_of(v.as_slice()));
                proof {
                    assert(crate::text::string_views(out@) =~= before.push(v@));
                    assert(crate::text::string_views(out@) + values_from(after@) =~= before + (seq![v@] + values_from(after@)));
                }
            },
            None => {
                proof {
                    assert(before + (Seq::<Seq<char>>::empty() + values_from(after@)) =~= before + values_from(after@));
                }
            },
        }
        rest = after;
    }
}

/// The changes of a ChangeResourceRecordSets body (see `rrsets_from`).
pub fn parse_rrsets(xml: &str) -> (r: Vec<(String, ResourceRecordSet)>)
    ensures
        r@.map_values(|e: (String, ResourceRecordSet)| (e.0@, e.1@)) == rrsets_from(xml@),
{
    let open = chars_of("<Change>");
    let close = chars_of("</Change>");
    let action_tag = chars_of("Action");
    let name_tag = chars_of("Name");
    let type_tag = chars_of("Type");
    let ttl_tag = chars_of("TTL");
    let mut remaining = chars_of(xml);
    let mut results: Vec<(String, ResourceRecordSet)> = Vec::new();
    proof {
        assert(results@.map_values(|e: (String, ResourceRecordSet)| (e.0@, e.1@)) =~= Seq::<(Seq<char>, RecordSetView)>::empty());
    }
    loop
        invariant
            open@ == "<Change>"@,
            close@ == "</Change>"@,
            action_tag@ == "Action"@,
            name_tag@ == "Name"@,
            type_tag@ == "Type"@,
            ttl_tag@ == "TTL"@,
            results@.map_values(|e: (String, ResourceRecordSet)| (e.0@, e.1@)) + rrsets_from(remaining@) == rrsets_from(xml@),
        decreases remaining@.len(),
    {
        proof {
            reveal_strlit("<Change>");
            reveal_strlit("</Change>");
            crate::text::lemma_find_from(remaining@, open@, 0);
        }
        let rl = remaining.len();
        let start = match find_chars(remaining.as_slice(), open.as_slice()) {
            None => {
                proof {
                    assert(results@.map_values(|e: (String, ResourceRecordSet)| (e.0@, e.1@)) + Seq::<(Seq<char>, RecordSetView)>::empty()
                        =~= results@.map_values(|e: (String, ResourceRecordSet)| (e.0@, e.1@)));
                }
                return results;
            },
            Some(s) => s,
        };
        let chunk = slice_chars(remaining.as_slice(), start, rl);
        proof {
            crate::text::lemma_find_from(chunk@, close@, 0);
        }
        let end = match find_chars(chunk.as_slice(), close.as_slice()) {
            Some(e) => e,
            None => chunk.len(),
        };
        proof {
            if end == 0 {
                assert(chunk@.subrange(0, close@.len() as int)[1] == close@[1]);
            }
        }
        let change = slice_chars(chunk.as_slice(), 0, end);
        let action = match xml_text_chars(change.as_slice(), action_tag.as_slice()) {
            Some(t) => string_of(t.as_slice()),
            None => String::new(),
        };
        let name = match xml_text_chars(change.as_slice(), name_tag.as_slice()) {
            Some(t) => string_of(t.as_slice()),
            None => String::new(),
        };
        let rtype = match xml_text_chars(change.as_slice(), type_tag.as_slice()) {
            Some(t) => string_of(t.as_slice()),
            None => String::new(),
        };
        let ttl: u64 = match xml_text_chars(change.as_slice(), ttl_tag.as_slice()) {
            Some(t) => match parse_u64(t.as_slice()) {
                Some(n) => n,
                None => 300,
            },
            None => 300,
        };
        let values = values_exec(change.as_slice());
        let ghost before = results@.map_values(|e: (String, ResourceRecordSet)| (e.0@, e.1@));
        let rs = ResourceRecordSet { name, record_type: rtype, ttl, values };
        let ghost entry = (action@, rs@);
        results.push((action, rs));
        proof {
            assert(entry == change_spec(change@));
            assert(results@.map_values(|e: (String, ResourceRecordSet)| (e.0@, e.1@)) =~= before.push(entry));
            assert(results@.map_values(|e: (String, ResourceRecordSet)| (e.0@, e.1@)) + rrsets_from(
                remaining@.subrange(start + end, remaining@.len() as int),
            ) =~= before + (seq![entry] + rrsets_from(remaining@.subrange(start + end, remaining@.len() as int))));
        }
        remaining = slice_chars(remaining.as_slice(), start + end, rl);
    }
}

} // verus!
