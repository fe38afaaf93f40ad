//! The Redshift request layer: query parameters in, XML documents out.
//!
//! Handlers take the request id and the time as arguments; `dispatch`
//! draws them.
use vstd::prelude::*;

use crate::deps::{format_utc_seconds, utc_second_text};
use crate::http::{plain, plain_response, service_params, service_params_exec, DispatchError, DispatchResponse, RequestContext, ResponseView};
use crate::query::{element, indexed_values, indexed_values_exec, push_element, xml_wrap, xml_wrap_body};
use crate::redshift::{
    Cluster, ClusterEndpoint, ClusterParameterGroup, ClusterSnapshot, ClusterSubnetGroup, ClusterView,
    EndpointView, ParameterGroupView, RedshiftStore, RedshiftStoreView, SnapshotView, SubnetGroupView,
};
use crate::strmap::StrMap;
use crate::text::{chars_of, decimal_spec, parse_u16, parse_unsigned_spec, push_decimal, push_str, string_views};

verus! {

/// The XML namespace of Redshift responses.
pub open spec fn redshift_ns() -> Seq<char> {
    "http://redshift.amazonaws.com/doc/2012-12-01/"@
}

// ---------------------------------------------------------------------------
// Responses
// ---------------------------------------------------------------------------

/// A successful response wrapping `inner`.
pub open spec fn rs_ok(action: Seq<char>, rid: Seq<char>, inner: Seq<char>) -> ResponseView {
    plain_response(200, xml_wrap_body(redshift_ns(), action, rid, inner), "text/xml"@)
}

/// The body of an error response (code and message written as they are).
pub open spec fn rs_error_body(code: Seq<char>, message: Seq<char>) -> Seq<char> {
    crate::query::xml_decl() + "<ErrorResponse xmlns=\""@ + redshift_ns() + "\"><Error><Code>"@ + code
        + "</Code><Message>"@ + message + "</Message></Error></ErrorResponse>"@
}

/// A 400 error response.
pub open spec fn rs_error(code: Seq<char>, message: Seq<char>) -> ResponseView {
    plain_response(400, rs_error_body(code, message), "text/xml"@)
}

fn ok(action: &str, rid: &str, inner: &str) -> (r: DispatchResponse)
    ensures
        r@ == rs_ok(action@, rid@, inner@),
{
    xml_wrap("http://redshift.amazonaws.com/doc/2012-12-01/", action, rid, inner)
}

fn error(code: &str, message: &str) -> (r: DispatchResponse)
    ensures
        r@ == rs_error(code@, message@),
{
    let mut b = String::new();
    push_str(&mut b, "<?xml version=\"1.0\" encoding=\"UTF-8\"?>");
    push_str(&mut b, "<ErrorResponse xmlns=\"");
    push_str(&mut b, "http://redshift.amazonaws.com/doc/2012-12-01/");
    push_str(&mut b, "\"><Error><Code>");
    push_str(&mut b, code);
    push_str(&mut b, "</Code><Message>");
    push_str(&mut b, message);
    push_str(&mut b, "</Message></Error></ErrorResponse>");
    proof {
        assert(b@ =~= rs_error_body(code@, message@));
    }
    plain(400, b, "text/xml")
}

/// `{before}{id}{after}`
fn message3(before: &str, id: &str, after: &str) -> (r: String)
    ensures
        r@ == before@ + id@ + after@,
{
    let mut m = String::new();
    push_str(&mut m, before);
    push_str(&mut m, id);
    push_str(&mut m, after);
    proof {
        assert(m@ =~= before@ + id@ + after@);
    }
    m
}

/// The answer for a missing required parameter.
pub open spec fn missing(name: Seq<char>) -> ResponseView {
    rs_error("MissingParameter"@, name + " required"@)
}

/// The answer for a cluster that does not exist.
pub open spec fn cluster_not_found(id: Seq<char>) -> ResponseView {
    rs_error("ClusterNotFound"@, "Cluster "@ + id + " not found."@)
}

fn missing_param(name: &str) -> (r: DispatchResponse)
    ensures
        r@ == missing(name@),
{
    let mut m = String::new();
    push_str(&mut m, name);
    push_str(&mut m, " required");
    proof {
        assert(m@ =~= name@ + " required"@);
    }
    error("MissingParameter", m.as_str())
}

fn no_cluster(id: &str) -> (r: DispatchResponse)
    ensures
        r@ == cluster_not_found(id@),
{
    let m = message3("Cluster ", id, " not found.");
    error("ClusterNotFound", m.as_str())
}

/// The value of `key`, or `default`.
pub open spec fn param_or(params: Map<Seq<char>, Seq<char>>, key: Seq<char>, default: Seq<char>) -> Seq<char> {
    if params.contains_key(key) {
        params[key]
    } else {
        default
    }
}

fn param_or_exec(params: &StrMap<String>, key: &str, default: &str) -> (r: String)
    requires
        params.wf(),
    ensures
        r@ == param_or(params@, key@, default@),
{
    match params.get(key) {
        Some(v) => v.clone(),
        None => default.to_string(),
    }
}

// ---------------------------------------------------------------------------
// Documents
// ---------------------------------------------------------------------------

/// The elements describing a cluster.
pub open spec fn cluster_xml(c: ClusterView) -> Seq<char> {
    element("ClusterIdentifier"@, c.cluster_identifier) + element("NodeType"@, c.node_type) + element(
        "MasterUsername"@,
        c.master_username,
    ) + element("DBName"@, c.db_name) + element("ClusterStatus"@, c.cluster_status) + match c.endpoint {
        Some(e) => "<Endpoint>"@ + element("Address"@, e.address) + "<Port>"@ + decimal_spec(e.port as nat)
            + "</Port></Endpoint>"@,
        None => Seq::empty(),
    }
}

fn push_cluster(out: &mut String, c: &Cluster)
    ensures
        final(out)@ == old(out)@ + cluster_xml(c@),
{
    push_element(out, "ClusterIdentifier", c.cluster_identifier.as_str());
    push_element(out, "NodeType", c.node_type.as_str());
    push_element(out, "MasterUsername", c.master_username.as_str());
    push_element(out, "DBName", c.db_name.as_str());
    push_element(out, "ClusterStatus", c.cluster_status.as_str());
    match &c.endpoint {
        Some(e) => {
            push_str(out, "<Endpoint>");
            push_element(out, "Address", e.address.as_str());
            push_str(out, "<Port>");
            push_decimal(out, e.port as u64);
            push_str(out, "</Port></Endpoint>");
        },
        None => {},
    }
    proof {
        assert(out@ =~= old(out)@ + cluster_xml(c@));
    }
}

/// `<Cluster>` + the cluster's elements + `</Cluster>`.
pub open spec fn cluster_doc(c: ClusterView) -> Seq<char> {
    "<Cluster>"@ + cluster_xml(c) + "</Cluster>"@
}

fn cluster_doc_exec(c: &Cluster) -> (r: String)
    ensures
        r@ == cluster_doc(c@),
{
    let mut b = String::new();
    push_str(&mut b, "<Cluster>");
    push_cluster(&mut b, c);
    push_str(&mut b, "</Cluster>");
    proof {
        assert(b@ =~= cluster_doc(c@));
    }
    b
}

/// The elements describing a snapshot.
pub open spec fn snapshot_xml(s: SnapshotView) -> Seq<char> {
    element("SnapshotIdentifier"@, s.snapshot_identifier) + element("ClusterIdentifier"@, s.cluster_identifier)
        + element("Status"@, s.status) + element("DBName"@, s.db_name) + element("MasterUsername"@, s.master_username)
        + element("NodeType"@, s.node_type) + "<SnapshotCreateTime>"@ + utc_second_text(s.created)
        + "</SnapshotCreateTime>"@
}

fn push_snapshot(out: &mut String, s: &ClusterSnapshot)
    ensures
        final(out)@ == old(out)@ + snapshot_xml(s@),
{
    push_element(out, "SnapshotIdentifier", s.snapshot_identifier.as_str());
    push_element(out, "ClusterIdentifier", s.cluster_identifier.as_str());
    push_element(out, "Status", s.status.as_str());
    push_element(out, "DBName", s.db_name.as_str());
    push_element(out, "MasterUsername", s.master_username.as_str());
    push_element(out, "NodeType", s.node_type.as_str());
    push_str(out, "<SnapshotCreateTime>");
    let t = format_utc_seconds(s.created);
    push_str(out, t.as_str());
    push_str(out, "</SnapshotCreateTime>");
    proof {
        assert(out@ =~= old(out)@ + snapshot_xml(s@));
    }
}

/// `<Snapshot>` + the snapshot's elements + `</Snapshot>`.
pub open spec fn snapshot_doc(s: SnapshotView) -> Seq<char> {
    "<Snapshot>"@ + snapshot_xml(s) + "</Snapshot>"@
}

fn snapshot_doc_exec(s: &ClusterSnapshot) -> (r: String)
    ensures
        r@ == snapshot_doc(s@),
{
    let mut b = String::new();
    push_str(&mut b, "<Snapshot>");
    push_snapshot(&mut b, s);
    push_str(&mut b, "</Snapshot>");
    proof {
        assert(b@ =~= snapshot_doc(s@));
    }
    b
}

/// `<member><SubnetIdentifier>..</SubnetIdentifier></member>` for each id.
pub open spec fn subnets_xml(ids: Seq<Seq<char>>) -> Seq<char>
    decreases ids.len(),
{
    if ids.len() == 0 {
        Seq::empty()
    } else {
        subnets_xml(ids.drop_last()) + "<member>"@ + element("SubnetIdentifier"@, ids.last()) + "</member>"@
    }
}

/// The elements describing a subnet group.
pub open spec fn subnet_group_xml(g: SubnetGroupView) -> Seq<char> {
    element("ClusterSubnetGroupName"@, g.cluster_subnet_group_name) + element("Description"@, g.description)
        + element("VpcId"@, g.vpc_id) + element("SubnetGroupStatus"@, g.status) + "<Subnets>"@ + subnets_xml(
        g.subnet_ids,
    ) + "</Subnets>"@
}

fn push_subnet_group(out: &mut String, g: &ClusterSubnetGroup)
    ensures
        final(out)@ == old(out)@ + subnet_group_xml(g@),
{
    push_element(out, "ClusterSubnetGroupName", g.cluster_subnet_group_name.as_str());
    push_element(out, "Description", g.description.as_str());
    push_element(out, "VpcId", g.vpc_id.as_str());
    push_element(out, "SubnetGroupStatus", g.status.as_str());
    push_str(out, "<Subnets>");
    let ghost head = out@;
    let ghost ids = string_views(g.subnet_ids@);
    let mut i: usize = 0;
    proof {
        assert(ids.take(0) =~= Seq::<Seq<char>>::empty());
        assert(out@ =~= head + subnets_xml(ids.take(0)));
    }
    while i < g.subnet_ids.len()
        invariant
            i <= g.subnet_ids@.len(),
            ids == string_views(g.subnet_ids@),
            out@ == head + subnets_xml(ids.take(i as int)),
        decreases g.subnet_ids@.len() - i,
    {
        push_str(out, "<member>");
        push_element(out, "SubnetIdentifier", g.subnet_ids[i].as_str());
        push_str(out, "</member>");
        proof {
            assert(ids.take(i + 1).drop_last() =~= ids.take(i as int));
            assert(ids.take(i + 1).last() == g.subnet_ids@[i as int]@);
            assert(out@ =~= head + subnets_xml(ids.take(i + 1)));
        }
        i = i + 1;
    }
    push_str(out, "</Subnets>");
    proof {
        assert(ids.take(ids.len() as int) =~= ids);
        assert(out@ =~= old(out)@ + subnet_group_xml(g@));
    }
}

/// The elements describing a parameter group.
pub open spec fn parameter_group_xml(g: ParameterGroupView) -> Seq<char> {
    element("ParameterGroupName"@, g.parameter_group_name) + element("ParameterGroupFamily"@, g.parameter_group_family)
        + element("Description"@, g.description)
}

fn push_parameter_group(out: &mut String, g: &ClusterParameterGroup)
    ensures
        final(out)@ == old(out)@ + parameter_group_xml(g@),
{
    push_element(out, "ParameterGroupName", g.parameter_group_name.as_str());
    push_element(out, "ParameterGroupFamily", g.parameter_group_family.as_str());
    push_element(out, "Description", g.description.as_str());
    proof {
        assert(out@ =~= old(out)@ + parameter_group_xml(g@));
    }
}

// ---------------------------------------------------------------------------
// Clusters
// ---------------------------------------------------------------------------

/// The port a request asks for: `Port` when it reads as a 16-bit number.
pub open spec fn requested_port(params: Map<Seq<char>, Seq<char>>) -> Option<u16> {
    if params.contains_key("Port"@) {
        match parse_unsigned_spec(params["Port"@], u16::MAX as nat) {
            Some(n) => Some(n as u16),
            None => None,
        }
    } else {
        None
    }
}

fn requested_port_exec(params: &StrMap<String>) -> (r: Option<u16>)
    requires
        params.wf(),
    ensures
        r == requested_port(params@),
{
    match params.get("Port") {
        Some(p) => {
            let c = chars_of(p.as_str());
            parse_u16(c.as_slice())
        },
        None => None,
    }
}

/// `{id}.fake.{region}.redshift.amazonaws.com`
pub open spec fn cluster_address(id: Seq<char>, region: Seq<char>) -> Seq<char> {
    id + ".fake."@ + region + ".redshift.amazonaws.com"@
}

/// The cluster CreateCluster makes from `params` in `region` at `now`.
pub open spec fn new_cluster_spec(params: Map<Seq<char>, Seq<char>>, region: Seq<char>, now: i64) -> ClusterView {
    let id = params["ClusterIdentifier"@];
    let port = match requested_port(params) {
        Some(p) => p,
        None => 5439u16,
    };
    ClusterView {
        cluster_identifier: id,
        node_type: param_or(params, "NodeType"@, "dc2.large"@),
        master_username: param_or(params, "MasterUsername"@, "admin"@),
        db_name: param_or(params, "DBName"@, "dev"@),
        port,
        cluster_status: "available"@,
        endpoint: Some(EndpointView { address: cluster_address(id, region), port }),
        created: now,
        logging_enabled: false,
    }
}

/// What `handle_create_cluster` does: its store change and its response.
pub open spec fn create_cluster_outcome(
    s0: RedshiftStoreView,
    s1: RedshiftStoreView,
    params: Map<Seq<char>, Seq<char>>,
    region: Seq<char>,
    rid: Seq<char>,
    now: i64,
    r: ResponseView,
) -> bool {
    if !params.contains_key("ClusterIdentifier"@) {
        r == missing("ClusterIdentifier"@) && s1 == s0
    } else {
        let id = params["ClusterIdentifier"@];
        if s0.clusters.contains_key(id) {
            r == rs_error("ClusterAlreadyExists"@, "Cluster "@ + id + " already exists"@) && s1 == s0
        } else {
            let c = new_cluster_spec(params, region, now);
            &&& s1 == (RedshiftStoreView { clusters: s0.clusters.insert(id, c), ..s0 })
            &&& r == rs_ok("CreateCluster"@, rid, cluster_doc(c))
        }
    }
}

/// CreateCluster: creates cluster `ClusterIdentifier` with the requested
/// node type, user, database and port (or their defaults) and a made-up
/// endpoint.
pub fn handle_create_cluster(
    store: &mut RedshiftStore,
    params: &StrMap<String>,
    region: &str,
    rid: &str,
    now: i64,
) -> (r: DispatchResponse)
    requires
        old(store).wf(),
        params.wf(),
    ensures
        final(store).wf(),
        create_cluster_outcome(old(store)@, final(store)@, params@, region@, rid@, now, r@),
{
    let id = match params.get("ClusterIdentifier") {
        Some(i) => i.clone(),
        None => {
            return missing_param("ClusterIdentifier");
        },
    };
    let node_type = param_or_exec(params, "NodeType", "dc2.large");
    let master_username = param_or_exec(params, "MasterUsername", "admin");
    let db_name = param_or_exec(params, "DBName", "dev");
    let port: u16 = match requested_port_exec(params) {
        Some(p) => p,
        None => 5439,
    };
    if store.clusters.contains_key(id.as_str()) {
        let m = message3("Cluster ", id.as_str(), " already exists");
        return error("ClusterAlreadyExists", m.as_str());
    }
    let mut address = String::new();
    push_str(&mut address, id.as_str());
    push_str(&mut address, ".fake.");
    push_str(&mut address, region);
    push_str(&mut address, ".redshift.amazonaws.com");
    proof {
        assert(address@ =~= cluster_address(id@, region@));
    }
    let cluster = Cluster {
        cluster_identifier: id.clone(),
        node_type,
        master_username,
        db_name,
        port,
        cluster_status: "available".to_string(),
        endpoint: Some(ClusterEndpoint { address, port }),
        created: now,
        logging_enabled: false,
    };
    let doc = cluster_doc_exec(&cluster);
    store.clusters.insert(id, cluster);
    ok("CreateCluster", rid, doc.as_str())
}

/// What `handle_delete_cluster` does: its store change and its response.
pub open spec fn delete_cluster_outcome(
    s0: RedshiftStoreView,
    s1: RedshiftStoreView,
    params: Map<Seq<char>, Seq<char>>,
    rid: Seq<char>,
    r: ResponseView,
) -> bool {
    if !params.contains_key("ClusterIdentifier"@) {
        r == missing("ClusterIdentifier"@) && s1 == s0
    } else {
        let id = params["ClusterIdentifier"@];
        if s0.clusters.contains_key(id) {
            &&& s1 == (RedshiftStoreView { clusters: s0.clusters.remove(id), ..s0 })
            &&& r == rs_ok("DeleteCluster"@, rid, cluster_doc(s0.clusters[id]))
        } else {
            r == cluster_not_found(id) && s1 == s0
        }
    }
}

/// DeleteCluster: removes cluster `ClusterIdentifier` and describes it.
pub fn handle_delete_cluster(store: &mut RedshiftStore, params: &StrMap<String>, rid: &str) -> (r: DispatchResponse)
    requires
        old(store).wf(),
        params.wf(),
    ensures
        final(store).wf(),
        delete_cluster_outcome(old(store)@, final(store)@, params@, rid@, r@),
{
    let id = match params.get("ClusterIdentifier") {
        Some(i) => i,
        None => {
            return missing_param("ClusterIdentifier");
        },
    };
    let ghost before = store.clusters@;
    match store.clusters.remove(id.as_str()) {
        Some(c) => {
            let doc = cluster_doc_exec(&c);
            ok("DeleteCluster", rid, doc.as_str())
        },
        None => {
            proof {
                assert(before.remove(id@) =~= before);
            }
            no_cluster(id.as_str())
        },
    }
}

/// `<member>` + a cluster's elements + `</member>` for each cluster.
pub open spec fn cluster_members(cs: Seq<Cluster>) -> Seq<char>
    decreases cs.len(),
{
    if cs.len() == 0 {
        Seq::empty()
    } else {
        cluster_members(cs.drop_last()) + "<member>"@ + cluster_xml(cs.last()@) + "</member>"@
    }
}

/// What `handle_describe_clusters` answers.
pub open spec fn describe_clusters_outcome(s0: RedshiftStore, rid: Seq<char>, r: ResponseView) -> bool {
    r == rs_ok("DescribeClusters"@, rid, "<Clusters>"@ + cluster_members(s0.clusters.vals_seq()) + "</Clusters>"@)
}

/// DescribeClusters: every cluster, in the order they were created.
pub fn handle_describe_clusters(store: &RedshiftStore, rid: &str) -> (r: DispatchResponse)
    requires
        store.wf(),
    ensures
        describe_clusters_outcome(*store, rid@, r@),
{
    let ghost cs = store.clusters.vals_seq();
    let n = store.clusters.len();
    proof {
        store.clusters.lemma_enumeration();
    }
    let mut b = String::new();
    push_str(&mut b, "<Clusters>");
    let ghost head = b@;
    let mut i: usize = 0;
    proof {
        assert(cs.take(0) =~= Seq::<Cluster>::empty());
    }
    while i < n
        invariant
            i <= n,
            n == cs.len(),
            cs == store.clusters.vals_seq(),
            b@ == head + cluster_members(cs.take(i as int)),
        decreases n - i,
    {
        let c = store.clusters.value_at_index(i);
        push_str(&mut b, "<member>");
        push_cluster(&mut b, c);
        push_str(&mut b, "</member>");
        proof {
            assert(cs.take(i + 1).drop_last() =~= cs.take(i as int));
            assert(cs.take(i + 1).last() == *c);
            assert(b@ =~= head + cluster_members(cs.take(i + 1)));
        }
        i = i + 1;
    }
    push_str(&mut b, "</Clusters>");
    proof {
        assert(cs.take(n as int) =~= cs);
        assert(b@ =~= "<Clusters>"@ + cluster_members(cs) + "</Clusters>"@);
    }
    ok("DescribeClusters", rid, b.as_str())
}

/// Finds the storage position of cluster `id`.
fn cluster_position(store: &RedshiftStore, id: &str) -> (r: Option<usize>)
    requires
        store.wf(),
    ensures
        match r {
            Some(i) => store@.clusters.contains_key(id@) && i == store.clusters.pos(id@) && i
                < store.clusters.vals_seq().len() && store.clusters.vals_seq()[i as int]@ == store@.clusters[id@],
            None => !store@.clusters.contains_key(id@),
        },
{
    let r = store.clusters.find_pos(id);
    proof {
        if store@.clusters.contains_key(id@) {
            store.clusters.lemma_pos(id@);
        }
    }
    r
}

/// What `handle_reboot_cluster` does: its store change and its response.
pub open spec fn reboot_cluster_outcome(
    s0: RedshiftStoreView,
    s1: RedshiftStoreView,
    params: Map<Seq<char>, Seq<char>>,
    rid: Seq<char>,
    r: ResponseView,
) -> bool {
    if !params.contains_key("ClusterIdentifier"@) {
        r == missing("ClusterIdentifier"@) && s1 == s0
    } else {
        let id = params["ClusterIdentifier"@];
        if s0.clusters.contains_key(id) {
            let c = ClusterView { cluster_status: "available"@, ..s0.clusters[id] };
            &&& s1 == (RedshiftStoreView { clusters: s0.clusters.insert(id, c), ..s0 })
            &&& r == rs_ok("RebootCluster"@, rid, cluster_doc(c))
        } else {
            r == cluster_not_found(id) && s1 == s0
        }
    }
}

/// RebootCluster: marks cluster `ClusterIdentifier` available.
pub fn handle_reboot_cluster(store: &mut RedshiftStore, params: &StrMap<String>, rid: &str) -> (r: DispatchResponse)
    requires
        old(store).wf(),
        params.wf(),
    ensures
        final(store).wf(),
        reboot_cluster_outcome(old(store)@, final(store)@, params@, rid@, r@),
{
    let id = match params.get("ClusterIdentifier") {
        Some(i) => i,
        None => {
            return missing_param("ClusterIdentifier");
        },
    };
    let i = match cluster_position(store, id.as_str()) {
        Some(i) => i,
        None => {
            return no_cluster(id.as_str());
        },
    };
    let ghost old_m = store.clusters;
    let doc;
    {
        let c = store.clusters.value_at_index_mut(i);
        c.cluster_status = "available".to_string();
        doc = cluster_doc_exec(c);
    }
    proof {
        StrMap::lemma_update_at(&old_m, &store.clusters, id@);
    }
    ok("RebootCluster", rid, doc.as_str())
}

/// A cluster with the node type and database name a request gives.
pub open spec fn renamed_cluster(c: ClusterView, params: Map<Seq<char>, Seq<char>>) -> ClusterView {
    ClusterView {
        node_type: param_or(params, "NodeType"@, c.node_type),
        db_name: param_or(params, "DBName"@, c.db_name),
        ..c
    }
}

/// A cluster, and its endpoint if it has one, moved to `port`.
pub open spec fn reported_port(c: ClusterView, port: u16) -> ClusterView {
    ClusterView {
        port,
        endpoint: match c.endpoint {
            Some(e) => Some(EndpointView { port, ..e }),
            None => None,
        },
        ..c
    }
}

/// What `handle_modify_cluster` does: its store change and its response.
/// A `Port` that is not a 16-bit number is refused after the node type and
/// database name have been changed.
pub open spec fn modify_cluster_outcome(
    s0: RedshiftStoreView,
    s1: RedshiftStoreView,
    params: Map<Seq<char>, Seq<char>>,
    rid: Seq<char>,
    r: ResponseView,
) -> bool {
    if !params.contains_key("ClusterIdentifier"@) {
        r == missing("ClusterIdentifier"@) && s1 == s0
    } else {
        let id = params["ClusterIdentifier"@];
        if !s0.clusters.contains_key(id) {
            r == cluster_not_found(id) && s1 == s0
        } else {
            let c = renamed_cluster(s0.clusters[id], params);
            if !params.contains_key("Port"@) {
                &&& s1 == (RedshiftStoreView { clusters: s0.clusters.insert(id, c), ..s0 })
                &&& r == rs_ok("ModifyCluster"@, rid, cluster_doc(c))
            } else {
                match requested_port(params) {
                    None => {
                        &&& s1 == (RedshiftStoreView { clusters: s0.clusters.insert(id, c), ..s0 })
                        &&& r == rs_error("InvalidParameterValue"@, "Port must be a valid 16-bit integer"@)
                    },
                    Some(p) => {
                        let c2 = reported_port(c, p);
                        &&& s1 == (RedshiftStoreView { clusters: s0.clusters.insert(id, c2), ..s0 })
                        &&& r == rs_ok("ModifyCluster"@, rid, cluster_doc(c2))
                    },
                }
            }
        }
    }
}

/// ModifyCluster: changes the node type, database name and port of
/// cluster `ClusterIdentifier`.
pub fn handle_modify_cluster(store: &mut RedshiftStore, params: &StrMap<String>, rid: &str) -> (r: DispatchResponse)
    requires
        old(store).wf(),
        params.wf(),
    ensures
        final(store).wf(),
        modify_cluster_outcome(old(store)@, final(store)@, params@, rid@, r@),
{
    let id = match params.get("ClusterIdentifier") {
        Some(i) => i,
        None => {
            return missing_param("ClusterIdentifier");
        },
    };
    let i = match cluster_position(store, id.as_str()) {
        Some(i) => i,
        None => {
            return no_cluster(id.as_str());
        },
    };
    let has_port = params.contains_key("Port");
    let port = requested_port_exec(params);
    let ghost old_m = store.clusters;
    let result;
    {
        let c = store.clusters.value_at_index_mut(i);
        match params.get("NodeType") {
            Some(v) => {
                c.node_type = v.clone();
            },
            None => {},
        }
        match params.get("DBName") {
            Some(v) => {
                c.db_name = v.clone();
            },
            None => {},
        }
        if has_port {
            match port {
                None => {
                    result = None;
                },
                Some(p) => {
                    c.port = p;
                    match &mut c.endpoint {
                        Some(e) => {
                            e.port = p;
                        },
                        None => {},
                    }
                    result = Some(cluster_doc_exec(c));
                },
            }
        } else {
            result = Some(cluster_doc_exec(c));
        }
    }
    proof {
        StrMap::lemma_update_at(&old_m, &store.clusters, id@);
    }
    match result {
        Some(doc) => ok("ModifyCluster", rid, doc.as_str()),
        None => error("InvalidParameterValue", "Port must be a valid 16-bit integer"),
    }
}

/// What `handle_set_logging` does: its store change and its response.
pub open spec fn logging_outcome(
    s0: RedshiftStoreView,
    s1: RedshiftStoreView,
    params: Map<Seq<char>, Seq<char>>,
    action: Seq<char>,
    enabled: bool,
    rid: Seq<char>,
    r: ResponseView,
) -> bool {
    if !params.contains_key("ClusterIdentifier"@) {
        r == missing("ClusterIdentifier"@) && s1 == s0
    } else {
        let id = params["ClusterIdentifier"@];
        if s0.clusters.contains_key(id) {
            &&& s1 == (RedshiftStoreView {
                clusters: s0.clusters.insert(id, ClusterView { logging_enabled: enabled, ..s0.clusters[id] }),
                ..s0
            })
            &&& r == rs_ok(action, rid, "<LoggingEnabled>"@ + crate::text::bool_spec(enabled) + "</LoggingEnabled>"@)
        } else {
            r == cluster_not_found(id) && s1 == s0
        }
    }
}

/// EnableLogging / DisableLogging: turns audit logging of cluster
/// `ClusterIdentifier` on or off.
pub fn handle_set_logging(
    store: &mut RedshiftStore,
    params: &StrMap<String>,
    action: &str,
    enabled: bool,
    rid: &str,
) -> (r: DispatchResponse)
    requires
        old(store).wf(),
        params.wf(),
    ensures
        final(store).wf(),
        logging_outcome(old(store)@, final(store)@, params@, action@, enabled, rid@, r@),
{
    let id = match params.get("ClusterIdentifier") {
        Some(i) => i,
        None => {
            return missing_param("ClusterIdentifier");
        },
    };
    let i = match cluster_position(store, id.as_str()) {
        Some(i) => i,
        None => {
            return no_cluster(id.as_str());
        },
    };
    let ghost old_m = store.clusters;
    {
        let c = store.clusters.value_at_index_mut(i);
        c.logging_enabled = enabled;
    }
    proof {
        StrMap::lemma_update_at(&old_m, &store.clusters, id@);
    }
    let mut inner = String::new();
    push_str(&mut inner, "<LoggingEnabled>");
    crate::text::push_bool(&mut inner, enabled);
    push_str(&mut inner, "</LoggingEnabled>");
    proof {
        assert(inner@ =~= "<LoggingEnabled>"@ + crate::text::bool_spec(enabled) + "</LoggingEnabled>"@);
    }
    ok(action, rid, inner.as_str())
}

// ---------------------------------------------------------------------------
// Snapshots
// ---------------------------------------------------------------------------

/// The snapshot CreateClusterSnapshot takes of cluster `cluster_id` at
/// `now`: it copies the cluster's node type, database and user, or the
/// defaults when there is no such cluster.
pub open spec fn new_snapshot_spec(
    s0: RedshiftStoreView,
    snapshot_id: Seq<char>,
    cluster_id: Seq<char>,
    now: i64,
) -> SnapshotView {
    let (node_type, db_name, master_username) = if s0.clusters.contains_key(cluster_id) {
        let c = s0.clusters[cluster_id];
        (c.node_type, c.db_name, c.master_username)
    } else {
        ("dc2.large"@, "dev"@, "admin"@)
    };
    SnapshotView {
        snapshot_identifier: snapshot_id,
        cluster_identifier: cluster_id,
        status: "available"@,
        created: now,
        node_type,
        db_name,
        master_username,
    }
}

/// What `handle_create_cluster_snapshot` does: its store change and its
/// response.
pub open spec fn create_snapshot_outcome(
    s0: RedshiftStoreView,
    s1: RedshiftStoreView,
    params: Map<Seq<char>, Seq<char>>,
    rid: Seq<char>,
    now: i64,
    r: ResponseView,
) -> bool {
    if !params.contains_key("SnapshotIdentifier"@) {
        r == missing("SnapshotIdentifier"@) && s1 == s0
    } else if !params.contains_key("ClusterIdentifier"@) {
        r == missing("ClusterIdentifier"@) && s1 == s0
    } else {
        let sid = params["SnapshotIdentifier"@];
        if s0.snapshots.contains_key(sid) {
            r == rs_error("ClusterSnapshotAlreadyExists"@, "Snapshot "@ + sid + " already exists"@) && s1 == s0
        } else {
            let snap = new_snapshot_spec(s0, sid, params["ClusterIdentifier"@], now);
            &&& s1 == (RedshiftStoreView { snapshots: s0.snapshots.insert(sid, snap), ..s0 })
            &&& r == rs_ok("CreateClusterSnapshot"@, rid, snapshot_doc(snap))
        }
    }
}

/// CreateClusterSnapshot: records snapshot `SnapshotIdentifier` of cluster
/// `ClusterIdentifier`.
pub fn handle_create_cluster_snapshot(store: &mut RedshiftStore, params: &StrMap<String>, rid: &str, now: i64) -> (r: DispatchResponse)
    requires
        old(store).wf(),
        params.wf(),
    ensures
        final(store).wf(),
        create_snapshot_outcome(old(store)@, final(store)@, params@, rid@, now, r@),
{
    let sid = match params.get("SnapshotIdentifier") {
        Some(i) => i.clone(),
        None => {
            return missing_param("SnapshotIdentifier");
        },
    };
    let cid = match params.get("ClusterIdentifier") {
        Some(i) => i.clone(),
        None => {
            return missing_param("ClusterIdentifier");
        },
    };
    if store.snapshots.contains_key(sid.as_str()) {
        let m = message3("Snapshot ", sid.as_str(), " already exists");
        return error("ClusterSnapshotAlreadyExists", m.as_str());
    }
    let (node_type, db_name, master_username) = match store.clusters.get(cid.as_str()) {
        Some(c) => (c.node_type.clone(), c.db_name.clone(), c.master_username.clone()),
        None => ("dc2.large".to_string(), "dev".to_string(), "admin".to_string()),
    };
    let snap = ClusterSnapshot {
        snapshot_identifier: sid.clone(),
        cluster_identifier: cid,
        status: "available".to_string(),
        created: now,
        node_type,
        db_name,
        master_username,
    };
    let doc = snapshot_doc_exec(&snap);
    store.snapshots.insert(sid, snap);
    ok("CreateClusterSnapshot", rid, doc.as_str())
}

/// What `handle_delete_cluster_snapshot` does: its store change and its
/// response.
pub open spec fn delete_snapshot_outcome(
    s0: RedshiftStoreView,
    s1: RedshiftStoreView,
    params: Map<Seq<char>, Seq<char>>,
    rid: Seq<char>,
    r: ResponseView,
) -> bool {
    if !params.contains_key("SnapshotIdentifier"@) {
        r == missing("SnapshotIdentifier"@) && s1 == s0
    } else {
        let sid = params["SnapshotIdentifier"@];
        if s0.snapshots.contains_key(sid) {
            &&& s1 == (RedshiftStoreView { snapshots: s0.snapshots.remove(sid), ..s0 })
            &&& r == rs_ok("DeleteClusterSnapshot"@, rid, snapshot_doc(s0.snapshots[sid]))
        } else {
            r == rs_error("ClusterSnapshotNotFound"@, "Snapshot "@ + sid + " not found"@) && s1 == s0
        }
    }
}

/// DeleteClusterSnapshot: removes snapshot `SnapshotIdentifier` and
/// describes it.
pub fn handle_delete_cluster_snapshot(store: &mut RedshiftStore, params: &StrMap<String>, rid: &str) -> (r: DispatchResponse)
    requires
        old(store).wf(),
        params.wf(),
    ensures
        final(store).wf(),
        delete_snapshot_outcome(old(store)@, final(store)@, params@, rid@, r@),
{
    let sid = match params.get("SnapshotIdentifier") {
        Some(i) => i,
        None => {
            return missing_param("SnapshotIdentifier");
        },
    };
    let ghost before = store.snapshots@;
    match store.snapshots.remove(sid.as_str()) {
        Some(s) => {
            let doc = snapshot_doc_exec(&s);
            ok("DeleteClusterSnapshot", rid, doc.as_str())
        },
        None => {
            proof {
                assert(before.remove(sid@) =~= before);
            }
            let m = message3("Snapshot ", sid.as_str(), " not found");
            error("ClusterSnapshotNotFound", m.as_str())
        },
    }
}

/// Whether a snapshot is listed for the cluster filter `filter`.
pub open spec fn snapshot_listed(s: SnapshotView, filter: Option<Seq<char>>) -> bool {
    match filter {
        Some(id) => s.cluster_identifier == id,
        None => true,
    }
}

/// `<member>` + a snapshot's elements + `</member>` for each snapshot the
/// filter lists.
pub open spec fn snapshot_members(ss: Seq<ClusterSnapshot>, filter: Option<Seq<char>>) -> Seq<char>
    decreases ss.len(),
{
    if ss.len() == 0 {
        Seq::empty()
    } else {
        snapshot_members(ss.drop_last(), filter) + if snapshot_listed(ss.last()@, filter) {
            "<member>"@ + snapshot_xml(ss.last()@) + "</member>"@
        } else {
            Seq::empty()
        }
    }
}

/// The cluster filter of a request: its `ClusterIdentifier`, if any.
pub open spec fn cluster_filter(params: Map<Seq<char>, Seq<char>>) -> Option<Seq<char>> {
    if params.contains_key("ClusterIdentifier"@) {
        Some(params["ClusterIdentifier"@])
    } else {
        None
    }
}

/// What `handle_describe_cluster_snapshots` answers.
pub open spec fn describe_snapshots_outcome(s0: RedshiftStore, params: Map<Seq<char>, Seq<char>>, rid: Seq<char>, r: ResponseView) -> bool {
    r == rs_ok(
        "DescribeClusterSnapshots"@,
        rid,
        "<Snapshots>"@ + snapshot_members(s0.snapshots.vals_seq(), cluster_filter(params)) + "</Snapshots>"@,
    )
}

/// DescribeClusterSnapshots: the snapshots, of cluster `ClusterIdentifier`
/// when given, in the order they were taken.
pub fn handle_describe_cluster_snapshots(store: &RedshiftStore, params: &StrMap<String>, rid: &str) -> (r: DispatchResponse)
    requires
        store.wf(),
        params.wf(),
    ensures
        describe_snapshots_outcome(*store, params@, rid@, r@),
{
    let filter: Option<&String> = params.get("ClusterIdentifier");
    let ghost f = cluster_filter(params@);
    proof {
        assert(match filter {
            Some(x) => f == Some(x@),
            None => f is None,
        });
    }
    let ghost ss = store.snapshots.vals_seq();
    let n = store.snapshots.len();
    proof {
        store.snapshots.lemma_enumeration();
    }
    let mut b = String::new();
    push_str(&mut b, "<Snapshots>");
    let ghost head = b@;
    let mut i: usize = 0;
    proof {
        assert(ss.take(0) =~= Seq::<ClusterSnapshot>::empty());
    }
    while i < n
        invariant
            i <= n,
            n == ss.len(),
            ss == store.snapshots.vals_seq(),
            match filter {
                Some(x) => f == Some(x@),
                None => f is None,
            },
            b@ == head + snapshot_members(ss.take(i as int), f),
        decreases n - i,
    {
        let s = store.snapshots.value_at_index(i);
        let listed = match filter {
            Some(id) => s.cluster_identifier.as_str().eq(id.as_str()),
            None => true,
        };
        if listed {
            push_str(&mut b, "<member>");
            push_snapshot(&mut b, s);
            push_str(&mut b, "</member>");
        }
        proof {
            assert(ss.take(i + 1).drop_last() =~= ss.take(i as int));
            assert(ss.take(i + 1).last() == *s);
            assert(listed == snapshot_listed(s@, f));
            assert(b@ =~= head + snapshot_members(ss.take(i + 1), f));
        }
        i = i + 1;
    }
    push_str(&mut b, "</Snapshots>");
    proof {
        assert(ss.take(n as int) =~= ss);
        assert(b@ =~= "<Snapshots>"@ + snapshot_members(ss, f) + "</Snapshots>"@);
    }
    ok("DescribeClusterSnapshots", rid, b.as_str())
}

// ---------------------------------------------------------------------------
// Subnet groups and parameter groups
// ---------------------------------------------------------------------------

/// The subnet group CreateClusterSubnetGroup makes from `params`.
pub open spec fn new_subnet_group_spec(params: Map<Seq<char>, Seq<char>>) -> SubnetGroupView {
    SubnetGroupView {
        cluster_subnet_group_name: params["ClusterSubnetGroupName"@],
        description: param_or(params, "Description"@, Seq::empty()),
        vpc_id: param_or(params, "VpcId"@, Seq::empty()),
        subnet_ids: indexed_values(params, "SubnetIds.SubnetIdentifier"@, Seq::empty()),
        status: "Complete"@,
    }
}

/// What `handle_create_cluster_subnet_group` does: its store change and its
/// response.
pub open spec fn create_subnet_group_outcome(
    s0: RedshiftStoreView,
    s1: RedshiftStoreView,
    params: Map<Seq<char>, Seq<char>>,
    rid: Seq<char>,
    r: ResponseView,
) -> bool {
    if !params.contains_key("ClusterSubnetGroupName"@) {
        r == missing("ClusterSubnetGroupName"@) && s1 == s0
    } else {
        let name = params["ClusterSubnetGroupName"@];
        if s0.subnet_groups.contains_key(name) {
            r == rs_error("ClusterSubnetGroupAlreadyExists"@, "Subnet group "@ + name + " already exists"@) && s1 == s0
        } else {
            let g = new_subnet_group_spec(params);
            &&& s1 == (RedshiftStoreView { subnet_groups: s0.subnet_groups.insert(name, g), ..s0 })
            &&& r == rs_ok(
                "CreateClusterSubnetGroup"@,
                rid,
                "<ClusterSubnetGroup>"@ + subnet_group_xml(g) + "</ClusterSubnetGroup>"@,
            )
        }
    }
}

/// CreateClusterSubnetGroup: creates subnet group `ClusterSubnetGroupName`
/// with the subnets `SubnetIds.SubnetIdentifier.{i}`.
pub fn handle_create_cluster_subnet_group(store: &mut RedshiftStore, params: &StrMap<String>, rid: &str) -> (r: DispatchResponse)
    requires
        old(store).wf(),
        params.wf(),
    ensures
        final(store).wf(),
        create_subnet_group_outcome(old(store)@, final(store)@, params@, rid@, r@),
{
    let name = match params.get("ClusterSubnetGroupName") {
        Some(n) => n.clone(),
        None => {
            return missing_param("ClusterSubnetGroupName");
        },
    };
    let description = param_or_exec(params, "Description", "");
    let vpc_id = param_or_exec(params, "VpcId", "");
    let subnet_ids = indexed_values_exec(params, "SubnetIds.SubnetIdentifier", "");
    proof {
        reveal_strlit("");
        assert(""@ =~= Seq::<char>::empty());
    }
    if store.subnet_groups.contains_key(name.as_str()) {
        let m = message3("Subnet group ", name.as_str(), " already exists");
        return error("ClusterSubnetGroupAlreadyExists", m.as_str());
    }
    let g = ClusterSubnetGroup {
        cluster_subnet_group_name: name.clone(),
        description,
        vpc_id,
        subnet_ids,
        status: "Complete".to_string(),
    };
    let mut inner = String::new();
    push_str(&mut inner, "<ClusterSubnetGroup>");
    push_subnet_group(&mut inner, &g);
    push_str(&mut inner, "</ClusterSubnetGroup>");
    proof {
        assert(g@ == new_subnet_group_spec(params@));
        assert(inner@ =~= "<ClusterSubnetGroup>"@ + subnet_group_xml(g@) + "</ClusterSubnetGroup>"@);
    }
    store.subnet_groups.insert(name, g);
    ok("CreateClusterSubnetGroup", rid, inner.as_str())
}

/// What deleting a named group does, for `DeleteClusterSubnetGroup`
/// (`subnet` true) or `DeleteClusterParameterGroup`.
pub open spec fn delete_group_outcome(
    s0: RedshiftStoreView,
    s1: RedshiftStoreView,
    params: Map<Seq<char>, Seq<char>>,
    subnet: bool,
    rid: Seq<char>,
    r: ResponseView,
) -> bool {
    let key = if subnet {
        "ClusterSubnetGroupName"@
    } else {
        "ParameterGroupName"@
    };
    if !params.contains_key(key) {
        r == missing(key) && s1 == s0
    } else {
        let name = params[key];
        if subnet {
            if s0.subnet_groups.contains_key(name) {
                &&& s1 == (RedshiftStoreView { subnet_groups: s0.subnet_groups.remove(name), ..s0 })
                &&& r == rs_ok("DeleteClusterSubnetGroup"@, rid, Seq::empty())
            } else {
                r == rs_error("ClusterSubnetGroupNotFoundFault"@, "Subnet group "@ + name + " not found"@) && s1 == s0
            }
        } else {
            if s0.parameter_groups.contains_key(name) {
                &&& s1 == (RedshiftStoreView { parameter_groups: s0.parameter_groups.remove(name), ..s0 })
                &&& r == rs_ok("DeleteClusterParameterGroup"@, rid, Seq::empty())
            } else {
                r == rs_error("ClusterParameterGroupNotFound"@, "Parameter group "@ + name + " not found"@) && s1 == s0
            }
        }
    }
}

/// DeleteClusterSubnetGroup (`subnet` true) or DeleteClusterParameterGroup:
/// removes the named group.
pub fn handle_delete_group(store: &mut RedshiftStore, params: &StrMap<String>, subnet: bool, rid: &str) -> (r: DispatchResponse)
    requires
        old(store).wf(),
        params.wf(),
    ensures
        final(store).wf(),
        delete_group_outcome(old(store)@, final(store)@, params@, subnet, rid@, r@),
{
    let key = if subnet {
        "ClusterSubnetGroupName"
    } else {
        "ParameterGroupName"
    };
    let name = match params.get(key) {
        Some(n) => n,
        None => {
            return missing_param(key);
        },
    };
    proof {
        reveal_strlit("");
    }
    if subnet {
        let ghost before = store.subnet_groups@;
        if store.subnet_groups.remove(name.as_str()).is_none() {
            proof {
                assert(before.remove(name@) =~= before);
            }
            let m = message3("Subnet group ", name.as_str(), " not found");
            return error("ClusterSubnetGroupNotFoundFault", m.as_str());
        }
        proof {
            assert(""@ =~= Seq::<char>::empty());
        }
        ok("DeleteClusterSubnetGroup", rid, "")
    } else {
        let ghost before = store.parameter_groups@;
        if store.parameter_groups.remove(name.as_str()).is_none() {
            proof {
                assert(before.remove(name@) =~= before);
            }
            let m = message3("Parameter group ", name.as_str(), " not found");
            return error("ClusterParameterGroupNotFound", m.as_str());
        }
        proof {
            assert(""@ =~= Seq::<char>::empty());
        }
        ok("DeleteClusterParameterGroup", rid, "")
    }
}

/// `<member>` + a subnet group's elements + `</member>` for each group.
pub open spec fn subnet_group_members(gs: Seq<ClusterSubnetGroup>) -> Seq<char>
    decreases gs.len(),
{
    if gs.len() == 0 {
        Seq::empty()
    } else {
        subnet_group_members(gs.drop_last()) + "<member>"@ + subnet_group_xml(gs.last()@) + "</member>"@
    }
}

/// What `handle_describe_cluster_subnet_groups` answers.
pub open spec fn describe_subnet_groups_outcome(s0: RedshiftStore, rid: Seq<char>, r: ResponseView) -> bool {
    r == rs_ok(
        "DescribeClusterSubnetGroups"@,
        rid,
        "<ClusterSubnetGroups>"@ + subnet_group_members(s0.subnet_groups.vals_seq()) + "</ClusterSubnetGroups>"@,
    )
}

/// DescribeClusterSubnetGroups: every subnet group, in the order they were
/// created.
pub fn handle_describe_cluster_subnet_groups(store: &RedshiftStore, rid: &str) -> (r: DispatchResponse)
    requires
        store.wf(),
    ensures
        describe_subnet_groups_outcome(*store, rid@, r@),
{
    let ghost gs = store.subnet_groups.vals_seq();
    let n = store.subnet_groups.len();
    proof {
        store.subnet_groups.lemma_enumeration();
    }
    let mut b = String::new();
    push_str(&mut b, "<ClusterSubnetGroups>");
    let ghost head = b@;
    let mut i: usize = 0;
    proof {
        assert(gs.take(0) =~= Seq::<ClusterSubnetGroup>::empty());
    }
    while i < n
        invariant
            i <= n,
            n == gs.len(),
            gs == store.subnet_groups.vals_seq(),
            b@ == head + subnet_group_members(gs.take(i as int)),
        decreases n - i,
    {
        let g = store.subnet_groups.value_at_index(i);
        push_str(&mut b, "<member>");
        push_subnet_group(&mut b, g);
        push_str(&mut b, "</member>");
        proof {
            assert(gs.take(i + 1).drop_last() =~= gs.take(i as int));
            assert(gs.take(i + 1).last() == *g);
            assert(b@ =~= head + subnet_group_members(gs.take(i + 1)));
        }
        i = i + 1;
    }
    push_str(&mut b, "</ClusterSubnetGroups>");
    proof {
        assert(gs.take(n as int) =~= gs);
        assert(b@ =~= "<ClusterSubnetGroups>"@ + subnet_group_members(gs) + "</ClusterSubnetGroups>"@);
    }
    ok("DescribeClusterSubnetGroups", rid, b.as_str())
}

/// The parameter group CreateClusterParameterGroup makes from `params`.
pub open spec fn new_parameter_group_spec(params: Map<Seq<char>, Seq<char>>) -> ParameterGroupView {
    ParameterGroupView {
        parameter_group_name: params["ParameterGroupName"@],
        parameter_group_family: param_or(params, "ParameterGroupFamily"@, "redshift-1.0"@),
        description: param_or(params, "Description"@, Seq::empty()),
    }
}

/// What `handle_create_cluster_parameter_group` does: its store change and
/// its response.
pub open spec fn create_parameter_group_outcome(
    s0: RedshiftStoreView,
    s1: RedshiftStoreView,
    params: Map<Seq<char>, Seq<char>>,
    rid: Seq<char>,
    r: ResponseView,
) -> bool {
    if !params.contains_key("ParameterGroupName"@) {
        r == missing("ParameterGroupName"@) && s1 == s0
    } else {
        let name = params["ParameterGroupName"@];
        if s0.parameter_groups.contains_key(name) {
            r == rs_error("ClusterParameterGroupAlreadyExists"@, "Parameter group "@ + name + " already exists"@)
                && s1 == s0
        } else {
            let g = new_parameter_group_spec(params);
            &&& s1 == (RedshiftStoreView { parameter_groups: s0.parameter_groups.insert(name, g), ..s0 })
            &&& r == rs_ok(
                "CreateClusterParameterGroup"@,
                rid,
                "<ClusterParameterGroup>"@ + parameter_group_xml(g) + "</ClusterParameterGroup>"@,
            )
        }
    }
}

/// CreateClusterParameterGroup: creates parameter group
/// `ParameterGroupName` of family `ParameterGroupFamily` (default
/// `redshift-1.0`).
pub fn handle_create_cluster_parameter_group(store: &mut RedshiftStore, params: &StrMap<String>, rid: &str) -> (r: DispatchResponse)
    requires
        old(store).wf(),
        params.wf(),
    ensures
        final(store).wf(),
        create_parameter_group_outcome(old(store)@, final(store)@, params@, rid@, r@),
{
    let name = match params.get("ParameterGroupName") {
        Some(n) => n.clone(),
        None => {
            return missing_param("ParameterGroupName");
        },
    };
    let family = param_or_exec(params, "ParameterGroupFamily", "redshift-1.0");
    let description = param_or_exec(params, "Description", "");
    proof {
        reveal_strlit("");
        assert(""@ =~= Seq::<char>::empty());
    }
    if store.parameter_groups.contains_key(name.as_str()) {
        let m = message3("Parameter group ", name.as_str(), " already exists");
        return error("ClusterParameterGroupAlreadyExists", m.as_str());
    }
    let g = ClusterParameterGroup { parameter_group_name: name.clone(), parameter_group_family: family, description };
    let mut inner = String::new();
    push_str(&mut inner, "<ClusterParameterGroup>");
    push_parameter_group(&mut inner, &g);
    push_str(&mut inner, "</ClusterParameterGroup>");
    proof {
        assert(g@ == new_parameter_group_spec(params@));
        assert(inner@ =~= "<ClusterParameterGroup>"@ + parameter_group_xml(g@) + "</ClusterParameterGroup>"@);
    }
    store.parameter_groups.insert(name, g);
    ok("CreateClusterParameterGroup", rid, inner.as_str())
}

/// `<member>` + a parameter group's elements + `</member>` for each group.
pub open spec fn parameter_group_members(gs: Seq<ClusterParameterGroup>) -> Seq<char>
    decreases gs.len(),
{
    if gs.len() == 0 {
        Seq::empty()
    } else {
        parameter_group_members(gs.drop_last()) + "<member>"@ + parameter_group_xml(gs.last()@) + "</member>"@
    }
}

/// What `handle_describe_cluster_parameter_groups` answers.
pub open spec fn describe_parameter_groups_outcome(s0: RedshiftStore, rid: Seq<char>, r: ResponseView) -> bool {
    r == rs_ok(
        "DescribeClusterParameterGroups"@,
        rid,
        "<ParameterGroups>"@ + parameter_group_members(s0.parameter_groups.vals_seq()) + "</ParameterGroups>"@,
    )
}

/// DescribeClusterParameterGroups: every parameter group, in the order they
/// were created.
pub fn handle_describe_cluster_parameter_groups(store: &RedshiftStore, rid: &str) -> (r: DispatchResponse)
    requires
        store.wf(),
    ensures
        describe_parameter_groups_outcome(*store, rid@, r@),
{
    let ghost gs = store.parameter_groups.vals_seq();
    let n = store.parameter_groups.len();
    proof {
        store.parameter_groups.lemma_enumeration();
    }
    let mut b = String::new();
    push_str(&mut b, "<ParameterGroups>");
    let ghost head = b@;
    let mut i: usize = 0;
    proof {
        assert(gs.take(0) =~= Seq::<ClusterParameterGroup>::empty());
    }
    while i < n
        invariant
            i <= n,
            n == gs.len(),
            gs == store.parameter_groups.vals_seq(),
            b@ == head + parameter_group_members(gs.take(i as int)),
        decreases n - i,
    {
        let g = store.parameter_groups.value_at_index(i);
        push_str(&mut b, "<member>");
        push_parameter_group(&mut b, g);
        push_str(&mut b, "</member>");
        proof {
            assert(gs.take(i + 1).drop_last() =~= gs.take(i as int));
            assert(gs.take(i + 1).last() == *g);
            assert(b@ =~= head + parameter_group_members(gs.take(i + 1)));
        }
        i = i + 1;
    }
    push_str(&mut b, "</ParameterGroups>");
    proof {
        assert(gs.take(n as int) =~= gs);
        assert(b@ =~= "<ParameterGroups>"@ + parameter_group_members(gs) + "</ParameterGroups>"@);
    }
    ok("DescribeClusterParameterGroups", rid, b.as_str())
}

// ---------------------------------------------------------------------------
// Dispatch
// ---------------------------------------------------------------------------

/// What handling a request does, by its operation, with request id `rid`
/// at time `now`; an operation Redshift does not support is refused as
/// not implemented and changes nothing.
pub open spec fn dispatch_outcome(
    s0: RedshiftStore,
    s1: RedshiftStore,
    ctx: RequestContext,
    rid: Seq<char>,
    now: i64,
    r: Result<DispatchResponse, DispatchError>,
) -> bool {
    let op = ctx.operation@;
    let p = service_params(ctx);
    match r {
        Err(DispatchError::NotImplemented(a)) => a@ == op && s1 == s0 && !supported_operation(op),
        Ok(resp) => {
            let v = resp@;
            &&& supported_operation(op)
            &&& if op == "CreateCluster"@ {
                create_cluster_outcome(s0@, s1@, p, ctx.region@, rid, now, v)
            } else if op == "DeleteCluster"@ {
                delete_cluster_outcome(s0@, s1@, p, rid, v)
            } else if op == "DescribeClusters"@ {
                s1 == s0 && describe_clusters_outcome(s0, rid, v)
            } else if op == "RebootCluster"@ {
                reboot_cluster_outcome(s0@, s1@, p, rid, v)
            } else if op == "ModifyCluster"@ {
                modify_cluster_outcome(s0@, s1@, p, rid, v)
            } else if op == "CreateClusterSnapshot"@ {
                create_snapshot_outcome(s0@, s1@, p, rid, now, v)
            } else if op == "DeleteClusterSnapshot"@ {
                delete_snapshot_outcome(s0@, s1@, p, rid, v)
            } else if op == "DescribeClusterSnapshots"@ {
                s1 == s0 && describe_snapshots_outcome(s0, p, rid, v)
            } else if op == "CreateClusterSubnetGroup"@ {
                create_subnet_group_outcome(s0@, s1@, p, rid, v)
            } else if op == "DeleteClusterSubnetGroup"@ {
                delete_group_outcome(s0@, s1@, p, true, rid, v)
            } else if op == "DescribeClusterSubnetGroups"@ {
                s1 == s0 && describe_subnet_groups_outcome(s0, rid, v)
            } else if op == "CreateClusterParameterGroup"@ {
                create_parameter_group_outcome(s0@, s1@, p, rid, v)
            } else if op == "DeleteClusterParameterGroup"@ {
                delete_group_outcome(s0@, s1@, p, false, rid, v)
            } else if op == "DescribeClusterParameterGroups"@ {
                s1 == s0 && describe_parameter_groups_outcome(s0, rid, v)
            } else if op == "EnableLogging"@ {
                logging_outcome(s0@, s1@, p, op, true, rid, v)
            } else {
                logging_outcome(s0@, s1@, p, op, false, rid, v)
            }
        },
    }
}

/// The operations Redshift supports.
pub open spec fn supported_operation(op: Seq<char>) -> bool {
    op == "CreateCluster"@ || op == "DeleteCluster"@ || op == "DescribeClusters"@ || op == "RebootCluster"@ || op
        == "ModifyCluster"@ || op == "CreateClusterSnapshot"@ || op == "DeleteClusterSnapshot"@ || op
        == "DescribeClusterSnapshots"@ || op == "CreateClusterSubnetGroup"@ || op == "DeleteClusterSubnetGroup"@ || op
        == "DescribeClusterSubnetGroups"@ || op == "CreateClusterParameterGroup"@ || op
        == "DeleteClusterParameterGroup"@ || op == "DescribeClusterParameterGroups"@ || op == "EnableLogging"@ || op
        == "DisableLogging"@
}

/// Handles one request with request id `rid` at time `now`.
pub fn dispatch_at(store: &mut RedshiftStore, ctx: &RequestContext, rid: &str, now: i64) -> (r: Result<DispatchResponse, DispatchError>)
    requires
        old(store).wf(),
        ctx.wf(),
    ensures
        final(store).wf(),
        dispatch_outcome(*old(store), *final(store), *ctx, rid@, now, r),
{
    let p = service_params_exec(ctx);
    let op = ctx.operation.as_str();
    let resp = if op.eq("CreateCluster") {
        handle_create_cluster(store, &p, ctx.region.as_str(), rid, now)
    } else if op.eq("DeleteCluster") {
        handle_delete_cluster(store, &p, rid)
    } else if op.eq("DescribeClusters") {
        handle_describe_clusters(store, rid)
    } else if op.eq("RebootCluster") {
        handle_reboot_cluster(store, &p, rid)
    } else if op.eq("ModifyCluster") {
        handle_modify_cluster(store, &p, rid)
    } else if op.eq("CreateClusterSnapshot") {
        handle_create_cluster_snapshot(store, &p, rid, now)
    } else if op.eq("DeleteClusterSnapshot") {
        handle_delete_cluster_snapshot(store, &p, rid)
    } else if op.eq("DescribeClusterSnapshots") {
        handle_describe_cluster_snapshots(store, &p, rid)
    } else if op.eq("CreateClusterSubnetGroup") {
        handle_create_cluster_subnet_group(store, &p, rid)
    } else if op.eq("DeleteClusterSubnetGroup") {
        handle_delete_group(store, &p, true, rid)
    } else if op.eq("DescribeClusterSubnetGroups") {
        handle_describe_cluster_subnet_groups(store, rid)
    } else if op.eq("CreateClusterParameterGroup") {
        handle_create_cluster_parameter_group(store, &p, rid)
    } else if op.eq("DeleteClusterParameterGroup") {
        handle_delete_group(store, &p, false, rid)
    } else if op.eq("DescribeClusterParameterGroups") {
        handle_describe_cluster_parameter_groups(store, rid)
    } else if op.eq("EnableLogging") {
        handle_set_logging(store, &p, "EnableLogging", true, rid)
    } else if op.eq("DisableLogging") {
        handle_set_logging(store, &p, "DisableLogging", false, rid)
    } else {
        return Err(DispatchError::NotImplemented(ctx.operation.clone()));
    };
    Ok(resp)
}

/// Handles one request now, with a fresh request id.
pub fn dispatch(store: &mut RedshiftStore, ctx: &RequestContext) -> (r: Result<DispatchResponse, DispatchError>)
    requires
        old(store).wf(),
        ctx.wf(),
    ensures
        final(store).wf(),
        exists|rid: Seq<char>, now: i64| crate::deps::is_uuid_text(rid) && #[trigger] dispatch_outcome(*old(store), *final(store), *ctx, rid, now, r),
{
    let rid = crate::deps::new_uuid();
    let now = crate::deps::now_millis();
    dispatch_at(store, ctx, rid.as_str(), now)
}

} // verus!
