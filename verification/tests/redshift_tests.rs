use openstack_services::http::{DispatchError, DispatchResponse, RequestContext};
use openstack_services::redshift::RedshiftStore;
use openstack_services::redshift_api::{dispatch, dispatch_at};
use openstack_services::strmap::StrMap;

fn make_ctx(operation: &str, params: &[(&str, &str)]) -> RequestContext {
    let mut q = StrMap::new();
    for (k, v) in params {
        q.insert(k.to_string(), v.to_string());
    }
    RequestContext {
        service: "redshift".to_string(),
        operation: operation.to_string(),
        region: "us-east-1".to_string(),
        account_id: "000000000000".to_string(),
        method: "POST".to_string(),
        path: "/".to_string(),
        headers: StrMap::new(),
        query_params: q,
        raw_body: Vec::new(),
        request_body: StrMap::new(),
    }
}

fn call(store: &mut RedshiftStore, op: &str, params: &[(&str, &str)]) -> DispatchResponse {
    match dispatch(store, &make_ctx(op, params)) {
        Ok(r) => r,
        Err(_) => panic!("request refused"),
    }
}

#[test]
fn create_cluster_in_detail() {
    let mut st = RedshiftStore::new();
    let r = match dispatch_at(
        &mut st,
        &make_ctx(
            "CreateCluster",
            &[("ClusterIdentifier", "my-cluster"), ("MasterUserPassword", "Password123!"), ("DBName", "mydb")],
        ),
        "rid-1",
        0,
    ) {
        Ok(r) => r,
        Err(_) => panic!("request refused"),
    };
    assert_eq!(r.status_code, 200);
    assert_eq!(r.content_type, "text/xml");
    assert!(r.body.contains(
        "<CreateClusterResult><Cluster><ClusterIdentifier>my-cluster</ClusterIdentifier><NodeType>dc2.large</NodeType>\
<MasterUsername>admin</MasterUsername><DBName>mydb</DBName><ClusterStatus>available</ClusterStatus>\
<Endpoint><Address>my-cluster.fake.us-east-1.redshift.amazonaws.com</Address><Port>5439</Port></Endpoint>\
</Cluster></CreateClusterResult>"
    ));
    assert!(r.body.contains("<RequestId>rid-1</RequestId>"));
}

#[test]
fn create_cluster_duplicate_fails_in_detail() {
    let mut st = RedshiftStore::new();
    call(&mut st, "CreateCluster", &[("ClusterIdentifier", "dup-cluster")]);
    let r = call(&mut st, "CreateCluster", &[("ClusterIdentifier", "dup-cluster")]);
    assert_eq!(r.status_code, 400);
    assert!(r.body.contains("<Code>ClusterAlreadyExists</Code><Message>Cluster dup-cluster already exists</Message>"));
}

#[test]
fn describe_clusters_in_detail() {
    let mut st = RedshiftStore::new();
    let r = call(&mut st, "DescribeClusters", &[]);
    assert!(r.body.contains("<Clusters></Clusters>"));
    call(&mut st, "CreateCluster", &[("ClusterIdentifier", "cluster-alpha")]);
    call(&mut st, "CreateCluster", &[("ClusterIdentifier", "cluster-beta")]);
    let r = call(&mut st, "DescribeClusters", &[]);
    assert!(r.body.contains("<Clusters><member><ClusterIdentifier>cluster-alpha</ClusterIdentifier>"));
    assert!(r.body.contains("<member><ClusterIdentifier>cluster-beta</ClusterIdentifier>"));
}

#[test]
fn delete_cluster_in_detail() {
    let mut st = RedshiftStore::new();
    call(&mut st, "CreateCluster", &[("ClusterIdentifier", "del-cluster")]);
    let r = call(&mut st, "DeleteCluster", &[("ClusterIdentifier", "del-cluster")]);
    assert_eq!(r.status_code, 200);
    assert!(r.body.contains("<ClusterIdentifier>del-cluster</ClusterIdentifier>"));
    let r = call(&mut st, "DeleteCluster", &[("ClusterIdentifier", "del-cluster")]);
    assert_eq!(r.status_code, 400);
    assert!(r.body.contains("<Message>Cluster del-cluster not found.</Message>"));
}

#[test]
fn modify_cluster_in_detail() {
    let mut st = RedshiftStore::new();
    call(&mut st, "CreateCluster", &[("ClusterIdentifier", "mod")]);
    let r = call(
        &mut st,
        "ModifyCluster",
        &[("ClusterIdentifier", "mod"), ("NodeType", "ra3&xl<plus>"), ("DBName", "analytics"), ("Port", "15439")],
    );
    assert_eq!(r.status_code, 200);
    assert!(r.body.contains("<NodeType>ra3&amp;xl&lt;plus&gt;</NodeType>"));
    assert!(r.body.contains("<DBName>analytics</DBName>"));
    assert!(r.body.contains("<Port>15439</Port>"));
}

#[test]
fn modify_cluster_rejects_invalid_port_in_detail() {
    let mut st = RedshiftStore::new();
    call(&mut st, "CreateCluster", &[("ClusterIdentifier", "mod")]);
    let r = call(&mut st, "ModifyCluster", &[("ClusterIdentifier", "mod"), ("NodeType", "ra3"), ("Port", "70000")]);
    assert_eq!(r.status_code, 400);
    assert!(r.body.contains("<Code>InvalidParameterValue</Code><Message>Port must be a valid 16-bit integer</Message>"));
    // The node type was changed before the port was refused.
    let r = call(&mut st, "DescribeClusters", &[]);
    assert!(r.body.contains("<NodeType>ra3</NodeType>"));
    assert!(r.body.contains("<Port>5439</Port>"));
}

#[test]
fn reboot_cluster_not_found_in_detail() {
    let mut st = RedshiftStore::new();
    let r = call(&mut st, "RebootCluster", &[("ClusterIdentifier", "missing-reboot-cluster")]);
    assert_eq!(r.status_code, 400);
    assert!(r.body.contains("ClusterNotFound"));
    assert!(r.body.contains("missing-reboot-cluster"));
}

#[test]
fn create_cluster_missing_identifier_in_detail() {
    let mut st = RedshiftStore::new();
    let r = call(&mut st, "CreateCluster", &[]);
    assert_eq!(r.status_code, 400);
    assert!(r.body.contains("<Code>MissingParameter</Code><Message>ClusterIdentifier required</Message>"));
}

#[test]
fn describe_snapshots_filtered_by_cluster_in_detail() {
    let mut st = RedshiftStore::new();
    call(&mut st, "CreateCluster", &[("ClusterIdentifier", "c1"), ("NodeType", "ra3.4xlarge")]);
    let r = match dispatch_at(
        &mut st,
        &make_ctx("CreateClusterSnapshot", &[("SnapshotIdentifier", "s1"), ("ClusterIdentifier", "c1")]),
        "rid",
        86_400_000,
    ) {
        Ok(r) => r,
        Err(_) => panic!("request refused"),
    };
    assert!(r.body.contains(
        "<Snapshot><SnapshotIdentifier>s1</SnapshotIdentifier><ClusterIdentifier>c1</ClusterIdentifier>\
<Status>available</Status><DBName>dev</DBName><MasterUsername>admin</MasterUsername><NodeType>ra3.4xlarge</NodeType>\
<SnapshotCreateTime>1970-01-02T00:00:00Z</SnapshotCreateTime></Snapshot>"
    ));
    call(&mut st, "CreateClusterSnapshot", &[("SnapshotIdentifier", "s2"), ("ClusterIdentifier", "c2")]);
    call(&mut st, "CreateClusterSnapshot", &[("SnapshotIdentifier", "s3"), ("ClusterIdentifier", "c1")]);
    let r = call(&mut st, "DescribeClusterSnapshots", &[("ClusterIdentifier", "c1")]);
    assert!(r.body.contains("<SnapshotIdentifier>s1</SnapshotIdentifier>"));
    assert!(r.body.contains("<SnapshotIdentifier>s3</SnapshotIdentifier>"));
    assert!(!r.body.contains("<SnapshotIdentifier>s2</SnapshotIdentifier>"));
    let r = call(&mut st, "CreateClusterSnapshot", &[("SnapshotIdentifier", "s1"), ("ClusterIdentifier", "c1")]);
    assert!(r.body.contains("ClusterSnapshotAlreadyExists"));
    let r = call(&mut st, "DeleteClusterSnapshot", &[("SnapshotIdentifier", "s1")]);
    assert_eq!(r.status_code, 200);
    let r = call(&mut st, "DeleteClusterSnapshot", &[("SnapshotIdentifier", "s1")]);
    assert!(r.body.contains("<Message>Snapshot s1 not found</Message>"));
}

#[test]
fn subnet_and_parameter_groups() {
    let mut st = RedshiftStore::new();
    let r = call(
        &mut st,
        "CreateClusterSubnetGroup",
        &[
            ("ClusterSubnetGroupName", "sg"),
            ("Description", "d"),
            ("SubnetIds.SubnetIdentifier.1", "subnet-a"),
            ("SubnetIds.SubnetIdentifier.2", "subnet-b"),
            ("SubnetIds.SubnetIdentifier.4", "subnet-d"),
        ],
    );
    assert!(r.body.contains(
        "<ClusterSubnetGroup><ClusterSubnetGroupName>sg</ClusterSubnetGroupName><Description>d</Description>\
<VpcId></VpcId><SubnetGroupStatus>Complete</SubnetGroupStatus><Subnets><member><SubnetIdentifier>subnet-a</SubnetIdentifier></member>\
<member><SubnetIdentifier>subnet-b</SubnetIdentifier></member></Subnets></ClusterSubnetGroup>"
    ));
    let r = call(&mut st, "CreateClusterSubnetGroup", &[("ClusterSubnetGroupName", "sg")]);
    assert!(r.body.contains("<Message>Subnet group sg already exists</Message>"));
    let r = call(&mut st, "DescribeClusterSubnetGroups", &[]);
    assert!(r.body.contains("<ClusterSubnetGroups><member><ClusterSubnetGroupName>sg"));
    let r = call(&mut st, "DeleteClusterSubnetGroup", &[("ClusterSubnetGroupName", "sg")]);
    assert!(r.body.contains("<DeleteClusterSubnetGroupResult></DeleteClusterSubnetGroupResult>"));
    let r = call(&mut st, "DeleteClusterSubnetGroup", &[("ClusterSubnetGroupName", "sg")]);
    assert!(r.body.contains("<Code>ClusterSubnetGroupNotFoundFault</Code>"));

    let r = call(&mut st, "CreateClusterParameterGroup", &[("ParameterGroupName", "pg")]);
    assert!(r.body.contains(
        "<ClusterParameterGroup><ParameterGroupName>pg</ParameterGroupName><ParameterGroupFamily>redshift-1.0</ParameterGroupFamily>\
<Description></Description></ClusterParameterGroup>"
    ));
    let r = call(&mut st, "DescribeClusterParameterGroups", &[]);
    assert!(r.body.contains("<ParameterGroups><member><ParameterGroupName>pg</ParameterGroupName>"));
    let r = call(&mut st, "DeleteClusterParameterGroup", &[("ParameterGroupName", "pg")]);
    assert_eq!(r.status_code, 200);
    let r = call(&mut st, "DeleteClusterParameterGroup", &[("ParameterGroupName", "pg")]);
    assert!(r.body.contains("<Message>Parameter group pg not found</Message>"));
}

#[test]
fn logging_and_unknown_operations() {
    let mut st = RedshiftStore::new();
    call(&mut st, "CreateCluster", &[("ClusterIdentifier", "c")]);
    let r = call(&mut st, "EnableLogging", &[("ClusterIdentifier", "c")]);
    assert!(r.body.contains("<EnableLoggingResult><LoggingEnabled>true</LoggingEnabled></EnableLoggingResult>"));
    assert!(st.clusters.get("c").unwrap().logging_enabled);
    let r = call(&mut st, "DisableLogging", &[("ClusterIdentifier", "c")]);
    assert!(r.body.contains("<LoggingEnabled>false</LoggingEnabled>"));
    match dispatch(&mut st, &make_ctx("ResizeCluster", &[])) {
        Err(DispatchError::NotImplemented(op)) => assert_eq!(op, "ResizeCluster"),
        Ok(_) => panic!("expected a refusal"),
    }
}

// The original scenarios, request for request.

fn body_has(r: &DispatchResponse, text: &str) -> bool {
    r.body.contains(text)
}

#[test]
fn test_create_cluster() {
    let mut st = RedshiftStore::new();
    let r = call(
        &mut st,
        "CreateCluster",
        &[
            ("ClusterIdentifier", "my-cluster"),
            ("NodeType", "dc2.large"),
            ("MasterUsername", "admin"),
            ("MasterUserPassword", "Password123!"),
            ("DBName", "mydb"),
        ],
    );
    assert_eq!(r.status_code, 200);
    assert_eq!(r.content_type, "text/xml");
    assert!(body_has(&r, "CreateClusterResponse"));
    assert!(body_has(&r, "<ClusterIdentifier>my-cluster</ClusterIdentifier>"));
    assert!(body_has(&r, "dc2.large"));
    assert!(body_has(&r, "available"));
    assert!(body_has(&r, "<Endpoint>"));
}

#[test]
fn test_create_cluster_duplicate_fails() {
    let mut st = RedshiftStore::new();
    call(&mut st, "CreateCluster", &[("ClusterIdentifier", "dup-cluster")]);
    let r = call(&mut st, "CreateCluster", &[("ClusterIdentifier", "dup-cluster")]);
    assert_eq!(r.status_code, 400);
    assert!(body_has(&r, "ClusterAlreadyExists"));
}

#[test]
fn test_describe_clusters() {
    let mut st = RedshiftStore::new();
    call(&mut st, "CreateCluster", &[("ClusterIdentifier", "cluster-alpha")]);
    call(&mut st, "CreateCluster", &[("ClusterIdentifier", "cluster-beta")]);
    let r = call(&mut st, "DescribeClusters", &[]);
    assert_eq!(r.status_code, 200);
    assert!(body_has(&r, "DescribeClustersResponse"));
    assert!(body_has(&r, "<Clusters>"));
    assert!(body_has(&r, "cluster-alpha"));
    assert!(body_has(&r, "cluster-beta"));
}

#[test]
fn test_describe_clusters_without_store_returns_empty_clusters() {
    let mut st = RedshiftStore::new();
    let r = call(&mut st, "DescribeClusters", &[]);
    assert_eq!(r.status_code, 200);
    assert!(body_has(&r, "DescribeClustersResponse"));
    assert!(body_has(&r, "<Clusters></Clusters>"));
}

#[test]
fn test_delete_cluster() {
    let mut st = RedshiftStore::new();
    call(&mut st, "CreateCluster", &[("ClusterIdentifier", "del-cluster")]);
    let r = call(&mut st, "DeleteCluster", &[("ClusterIdentifier", "del-cluster")]);
    assert_eq!(r.status_code, 200);
    assert!(body_has(&r, "DeleteClusterResponse"));
    assert!(body_has(&r, "del-cluster"));
    let r = call(&mut st, "DescribeClusters", &[]);
    assert!(!body_has(&r, "del-cluster"));
}

#[test]
fn test_delete_cluster_not_found() {
    let mut st = RedshiftStore::new();
    let r = call(&mut st, "DeleteCluster", &[("ClusterIdentifier", "ghost-cluster")]);
    assert_eq!(r.status_code, 400);
    assert!(body_has(&r, "ClusterNotFound"));
}

#[test]
fn test_modify_cluster() {
    let mut st = RedshiftStore::new();
    call(&mut st, "CreateCluster", &[("ClusterIdentifier", "mod-cluster"), ("NodeType", "dc2.large"), ("DBName", "dev")]);
    let r = call(
        &mut st,
        "ModifyCluster",
        &[("ClusterIdentifier", "mod-cluster"), ("NodeType", "ra3.xlplus"), ("DBName", "analytics"), ("Port", "15439")],
    );
    assert_eq!(r.status_code, 200);
    assert!(body_has(&r, "ModifyClusterResponse"));
    assert!(body_has(&r, "ra3.xlplus"));
    assert!(body_has(&r, "analytics"));
    assert!(body_has(&r, "15439"));
}

#[test]
fn test_modify_cluster_escapes_xml_fields() {
    let mut st = RedshiftStore::new();
    call(&mut st, "CreateCluster", &[("ClusterIdentifier", "mod-xml-cluster"), ("NodeType", "dc2.large"), ("DBName", "dev")]);
    let r = call(
        &mut st,
        "ModifyCluster",
        &[("ClusterIdentifier", "mod-xml-cluster"), ("NodeType", "ra3&xl<plus>"), ("DBName", "analytics<&>")],
    );
    assert_eq!(r.status_code, 200);
    assert!(body_has(&r, "ra3&amp;xl&lt;plus&gt;"), "{}", r.body);
    assert!(body_has(&r, "analytics&lt;&amp;&gt;"), "{}", r.body);
}

#[test]
fn test_reboot_cluster() {
    let mut st = RedshiftStore::new();
    call(&mut st, "CreateCluster", &[("ClusterIdentifier", "reboot-cluster")]);
    let r = call(&mut st, "RebootCluster", &[("ClusterIdentifier", "reboot-cluster")]);
    assert_eq!(r.status_code, 200);
    assert!(body_has(&r, "RebootClusterResponse"));
    assert!(body_has(&r, "reboot-cluster"));
    assert!(body_has(&r, "available"));
}

#[test]
fn test_modify_cluster_not_found() {
    let mut st = RedshiftStore::new();
    let r = call(&mut st, "ModifyCluster", &[("ClusterIdentifier", "missing-cluster")]);
    assert_eq!(r.status_code, 400);
    assert!(body_has(&r, "ClusterNotFound"));
    assert!(body_has(&r, "missing-cluster"));
}

#[test]
fn test_modify_cluster_rejects_invalid_port() {
    let mut st = RedshiftStore::new();
    call(&mut st, "CreateCluster", &[("ClusterIdentifier", "port-cluster")]);
    let r = call(&mut st, "ModifyCluster", &[("ClusterIdentifier", "port-cluster"), ("Port", "not-a-port")]);
    assert_eq!(r.status_code, 400);
    assert!(body_has(&r, "InvalidParameterValue"));
    assert!(body_has(&r, "Port must be a valid 16-bit integer"));
}

#[test]
fn test_reboot_cluster_not_found() {
    let mut st = RedshiftStore::new();
    let r = call(&mut st, "RebootCluster", &[("ClusterIdentifier", "missing-reboot-cluster")]);
    assert_eq!(r.status_code, 400);
    assert!(body_has(&r, "ClusterNotFound"));
    assert!(body_has(&r, "missing-reboot-cluster"));
}

#[test]
fn test_create_cluster_missing_identifier() {
    let mut st = RedshiftStore::new();
    let r = call(&mut st, "CreateCluster", &[]);
    assert_eq!(r.status_code, 400);
    assert!(body_has(&r, "MissingParameter"));
}

#[test]
fn test_create_and_describe_snapshot() {
    let mut st = RedshiftStore::new();
    call(&mut st, "CreateCluster", &[("ClusterIdentifier", "snap-cluster"), ("NodeType", "dc2.large")]);
    let r = call(&mut st, "CreateClusterSnapshot", &[("SnapshotIdentifier", "snap-001"), ("ClusterIdentifier", "snap-cluster")]);
    assert_eq!(r.status_code, 200);
    assert!(body_has(&r, "CreateClusterSnapshotResponse"));
    assert!(body_has(&r, "<SnapshotIdentifier>snap-001</SnapshotIdentifier>"));
    assert!(body_has(&r, "<Status>available</Status>"));
    let r = call(&mut st, "DescribeClusterSnapshots", &[]);
    assert_eq!(r.status_code, 200);
    assert!(body_has(&r, "snap-001"));
    assert!(body_has(&r, "snap-cluster"));
}

#[test]
fn test_create_snapshot_duplicate_fails() {
    let mut st = RedshiftStore::new();
    call(&mut st, "CreateClusterSnapshot", &[("SnapshotIdentifier", "dup-snap"), ("ClusterIdentifier", "c")]);
    let r = call(&mut st, "CreateClusterSnapshot", &[("SnapshotIdentifier", "dup-snap"), ("ClusterIdentifier", "c")]);
    assert_eq!(r.status_code, 400);
    assert!(body_has(&r, "ClusterSnapshotAlreadyExists"));
}

#[test]
fn test_delete_snapshot() {
    let mut st = RedshiftStore::new();
    call(&mut st, "CreateClusterSnapshot", &[("SnapshotIdentifier", "del-snap"), ("ClusterIdentifier", "c")]);
    let r = call(&mut st, "DeleteClusterSnapshot", &[("SnapshotIdentifier", "del-snap")]);
    assert_eq!(r.status_code, 200);
    let r = call(&mut st, "DescribeClusterSnapshots", &[]);
    assert!(!body_has(&r, "del-snap"));
}

#[test]
fn test_delete_snapshot_not_found() {
    let mut st = RedshiftStore::new();
    let r = call(&mut st, "DeleteClusterSnapshot", &[("SnapshotIdentifier", "ghost-snap")]);
    assert_eq!(r.status_code, 400);
    assert!(body_has(&r, "ClusterSnapshotNotFound"));
}

#[test]
fn test_describe_snapshots_filtered_by_cluster() {
    let mut st = RedshiftStore::new();
    for (snap, cluster) in [("s1", "c1"), ("s2", "c2"), ("s3", "c1")] {
        call(&mut st, "CreateClusterSnapshot", &[("SnapshotIdentifier", snap), ("ClusterIdentifier", cluster)]);
    }
    let r = call(&mut st, "DescribeClusterSnapshots", &[("ClusterIdentifier", "c1")]);
    assert!(body_has(&r, "s1"));
    assert!(body_has(&r, "s3"));
    assert!(!body_has(&r, "s2"));
}

#[test]
fn test_create_and_describe_subnet_group() {
    let mut st = RedshiftStore::new();
    let r = call(
        &mut st,
        "CreateClusterSubnetGroup",
        &[
            ("ClusterSubnetGroupName", "my-sg"),
            ("Description", "test subnet group"),
            ("VpcId", "vpc-12345"),
            ("SubnetIds.SubnetIdentifier.1", "subnet-aaa"),
            ("SubnetIds.SubnetIdentifier.2", "subnet-bbb"),
        ],
    );
    assert_eq!(r.status_code, 200);
    assert!(body_has(&r, "CreateClusterSubnetGroupResponse"));
    assert!(body_has(&r, "<ClusterSubnetGroupName>my-sg</ClusterSubnetGroupName>"));
    let r = call(&mut st, "DescribeClusterSubnetGroups", &[]);
    assert_eq!(r.status_code, 200);
    assert!(body_has(&r, "my-sg"));
    assert!(body_has(&r, "subnet-aaa"));
    assert!(body_has(&r, "subnet-bbb"));
}

#[test]
fn test_delete_subnet_group() {
    let mut st = RedshiftStore::new();
    call(&mut st, "CreateClusterSubnetGroup", &[("ClusterSubnetGroupName", "sg-del")]);
    let r = call(&mut st, "DeleteClusterSubnetGroup", &[("ClusterSubnetGroupName", "sg-del")]);
    assert_eq!(r.status_code, 200);
    let r = call(&mut st, "DescribeClusterSubnetGroups", &[]);
    assert!(!body_has(&r, "sg-del"));
}

#[test]
fn test_delete_subnet_group_not_found() {
    let mut st = RedshiftStore::new();
    let r = call(&mut st, "DeleteClusterSubnetGroup", &[("ClusterSubnetGroupName", "ghost-sg")]);
    assert_eq!(r.status_code, 400);
    assert!(body_has(&r, "ClusterSubnetGroupNotFoundFault"));
}

#[test]
fn test_create_and_describe_parameter_group() {
    let mut st = RedshiftStore::new();
    let r = call(
        &mut st,
        "CreateClusterParameterGroup",
        &[("ParameterGroupName", "my-pg"), ("ParameterGroupFamily", "redshift-1.0"), ("Description", "test pg")],
    );
    assert_eq!(r.status_code, 200);
    assert!(body_has(&r, "CreateClusterParameterGroupResponse"));
    assert!(body_has(&r, "<ParameterGroupName>my-pg</ParameterGroupName>"));
    let r = call(&mut st, "DescribeClusterParameterGroups", &[]);
    assert!(body_has(&r, "my-pg"));
    assert!(body_has(&r, "redshift-1.0"));
}

#[test]
fn test_delete_parameter_group() {
    let mut st = RedshiftStore::new();
    call(&mut st, "CreateClusterParameterGroup", &[("ParameterGroupName", "pg-del")]);
    let r = call(&mut st, "DeleteClusterParameterGroup", &[("ParameterGroupName", "pg-del")]);
    assert_eq!(r.status_code, 200);
    let r = call(&mut st, "DescribeClusterParameterGroups", &[]);
    assert!(!body_has(&r, "pg-del"));
}

#[test]
fn test_delete_parameter_group_not_found() {
    let mut st = RedshiftStore::new();
    let r = call(&mut st, "DeleteClusterParameterGroup", &[("ParameterGroupName", "ghost-pg")]);
    assert_eq!(r.status_code, 400);
    assert!(body_has(&r, "ClusterParameterGroupNotFound"));
}

#[test]
fn test_enable_and_disable_logging() {
    let mut st = RedshiftStore::new();
    call(&mut st, "CreateCluster", &[("ClusterIdentifier", "log-cluster")]);
    let r = call(&mut st, "EnableLogging", &[("ClusterIdentifier", "log-cluster")]);
    assert_eq!(r.status_code, 200);
    assert!(body_has(&r, "EnableLoggingResponse"));
    assert!(body_has(&r, "<LoggingEnabled>true</LoggingEnabled>"));
    let r = call(&mut st, "DisableLogging", &[("ClusterIdentifier", "log-cluster")]);
    assert_eq!(r.status_code, 200);
    assert!(body_has(&r, "DisableLoggingResponse"));
    assert!(body_has(&r, "<LoggingEnabled>false</LoggingEnabled>"));
}
