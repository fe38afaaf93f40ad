//! The Redshift data model: clusters, snapshots, subnet groups and
//! parameter groups.
use vstd::prelude::*;

use crate::strmap::StrMap;
use crate::text::string_views;

verus! {

pub struct ClusterEndpoint {
    pub address: String,
    pub port: u16,
}

pub struct EndpointView {
    pub address: Seq<char>,
    pub port: u16,
}

impl View for ClusterEndpoint {
    type V = EndpointView;

    open spec fn view(&self) -> EndpointView {
        EndpointView { address: self.address@, port: self.port }
    }
}

pub struct Cluster {
    pub cluster_identifier: String,
    pub node_type: String,
    pub master_username: String,
    pub db_name: String,
    pub port: u16,
    /// `available` or `deleting`.
    pub cluster_status: String,
    pub endpoint: Option<ClusterEndpoint>,
    /// Milliseconds since the Unix epoch.
    pub created: i64,
    pub logging_enabled: bool,
}

pub struct ClusterView {
    pub cluster_identifier: Seq<char>,
    pub node_type: Seq<char>,
    pub master_username: Seq<char>,
    pub db_name: Seq<char>,
    pub port: u16,
    pub cluster_status: Seq<char>,
    pub endpoint: Option<EndpointView>,
    pub created: i64,
    pub logging_enabled: bool,
}

impl View for Cluster {
    type V = ClusterView;

    open spec fn view(&self) -> ClusterView {
        ClusterView {
            cluster_identifier: self.cluster_identifier@,
            node_type: self.node_type@,
            master_username: self.master_username@,
            db_name: self.db_name@,
            port: self.port,
            cluster_status: self.cluster_status@,
            endpoint: match self.endpoint {
                Some(e) => Some(e@),
                None => None,
            },
            created: self.created,
            logging_enabled: self.logging_enabled,
        }
    }
}

pub struct ClusterSnapshot {
    pub snapshot_identifier: String,
    pub cluster_identifier: String,
    /// `available` or `creating`.
    pub status: String,
    /// Milliseconds since the Unix epoch.
    pub created: i64,
    pub node_type: String,
    pub db_name: String,
    pub master_username: String,
}

pub struct SnapshotView {
    pub snapshot_identifier: Seq<char>,
    pub cluster_identifier: Seq<char>,
    pub status: Seq<char>,
    pub created: i64,
    pub node_type: Seq<char>,
    pub db_name: Seq<char>,
    pub master_username: Seq<char>,
}

impl View for ClusterSnapshot {
    type V = SnapshotView;

    open spec fn view(&self) -> SnapshotView {
        SnapshotView {
            snapshot_identifier: self.snapshot_identifier@,
            cluster_identifier: self.cluster_identifier@,
            status: self.status@,
            created: self.created,
            node_type: self.node_type@,
            db_name: self.db_name@,
            master_username: self.master_username@,
        }
    }
}

pub struct ClusterSubnetGroup {
    pub cluster_subnet_group_name: String,
    pub description: String,
    pub vpc_id: String,
    pub subnet_ids: Vec<String>,
    pub status: String,
}

pub struct SubnetGroupView {
    pub cluster_subnet_group_name: Seq<char>,
    pub description: Seq<char>,
    pub vpc_id: Seq<char>,
    pub subnet_ids: Seq<Seq<char>>,
    pub status: Seq<char>,
}

impl View for ClusterSubnetGroup {
    type V = SubnetGroupView;

    open spec fn view(&self) -> SubnetGroupView {
        SubnetGroupView {
            cluster_subnet_group_name: self.cluster_subnet_group_name@,
            description: self.description@,
            vpc_id: self.vpc_id@,
            subnet_ids: string_views(self.subnet_ids@),
            status: self.status@,
        }
    }
}

pub struct ClusterParameterGroup {
    pub parameter_group_name: String,
    pub parameter_group_family: String,
    pub description: String,
}

pub struct ParameterGroupView {
    pub parameter_group_name: Seq<char>,
    pub parameter_group_family: Seq<char>,
    pub description: Seq<char>,
}

impl View for ClusterParameterGroup {
    type V = ParameterGroupView;

    open spec fn view(&self) -> ParameterGroupView {
        ParameterGroupView {
            parameter_group_name: self.parameter_group_name@,
            parameter_group_family: self.parameter_group_family@,
            description: self.description@,
        }
    }
}

/// One account and region's Redshift state.
pub struct RedshiftStore {
    /// Cluster identifier to cluster.
    pub clusters: StrMap<Cluster>,
    /// Snapshot identifier to snapshot.
    pub snapshots: StrMap<ClusterSnapshot>,
    /// Subnet group name to subnet group.
    pub subnet_groups: StrMap<ClusterSubnetGroup>,
    /// Parameter group name to parameter group.
    pub parameter_groups: StrMap<ClusterParameterGroup>,
}

pub struct RedshiftStoreView {
    pub clusters: Map<Seq<char>, ClusterView>,
    pub snapshots: Map<Seq<char>, SnapshotView>,
    pub subnet_groups: Map<Seq<char>, SubnetGroupView>,
    pub parameter_groups: Map<Seq<char>, ParameterGroupView>,
}

impl View for RedshiftStore {
    type V = RedshiftStoreView;

    open spec fn view(&self) -> RedshiftStoreView {
        RedshiftStoreView {
            clusters: self.clusters@,
            snapshots: self.snapshots@,
            subnet_groups: self.subnet_groups@,
            parameter_groups: self.parameter_groups@,
        }
    }
}

impl RedshiftStore {
    pub open spec fn wf(&self) -> bool {
        &&& self.clusters.wf()
        &&& self.snapshots.wf()
        &&& self.subnet_groups.wf()
        &&& self.parameter_groups.wf()
    }

    /// An empty store.
    pub fn new() -> (s: Self)
        ensures
            s.wf(),
            s@.clusters == Map::<Seq<char>, ClusterView>::empty(),
            s@.snapshots == Map::<Seq<char>, SnapshotView>::empty(),
            s@.subnet_groups == Map::<Seq<char>, SubnetGroupView>::empty(),
            s@.parameter_groups == Map::<Seq<char>, ParameterGroupView>::empty(),
    {
        RedshiftStore {
            clusters: StrMap::new(),
            snapshots: StrMap::new(),
            subnet_groups: StrMap::new(),
            parameter_groups: StrMap::new(),
        }
    }
}

} // verus!
