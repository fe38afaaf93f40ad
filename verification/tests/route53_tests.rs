use openstack_services::http::{DispatchError, DispatchResponse, RequestContext};
use openstack_services::route53::Route53Store;
use openstack_services::route53_api::{dispatch, dispatch_at};
use openstack_services::strmap::StrMap;

fn make_ctx(operation: &str, xml_body: &str, path: &str, query: &[(&str, &str)]) -> RequestContext {
    let mut q = StrMap::new();
    for (k, v) in query {
        q.insert(k.to_string(), v.to_string());
    }
    RequestContext {
        service: "route53".to_string(),
        operation: operation.to_string(),
        region: "us-east-1".to_string(),
        account_id: "000000000000".to_string(),
        method: "POST".to_string(),
        path: path.to_string(),
        headers: StrMap::new(),
        query_params: q,
        raw_body: xml_body.as_bytes().to_vec(),
        request_body: StrMap::new(),
    }
}

fn call(store: &mut Route53Store, op: &str, body: &str, path: &str) -> DispatchResponse {
    match dispatch(store, &make_ctx(op, body, path, &[])) {
        Ok(r) => r,
        Err(_) => panic!("request refused"),
    }
}

fn create_zone(store: &mut Route53Store, name: &str, id: &str) -> DispatchResponse {
    let body = format!("<CreateHostedZoneRequest><Name>{name}</Name><CallerReference>ref-{id}</CallerReference></CreateHostedZoneRequest>");
    match dispatch_at(store, &make_ctx("CreateHostedZone", &body, "/2013-04-01/hostedzone", &[]), "rid", id, "ref") {
        Ok(r) => r,
        Err(_) => panic!("request refused"),
    }
}

#[test]
fn test_create_hosted_zone() {
    let mut st = Route53Store::new();
    let body = r#"<?xml version="1.0" encoding="UTF-8"?>
<CreateHostedZoneRequest xmlns="https://route53.amazonaws.com/doc/2013-04-01/">
  <Name>example.com</Name>
  <CallerReference>ref-1</CallerReference>
  <HostedZoneConfig>
    <Comment>Test zone</Comment>
  </HostedZoneConfig>
</CreateHostedZoneRequest>"#;
    let r = match dispatch_at(&mut st, &make_ctx("CreateHostedZone", body, "/2013-04-01/hostedzone", &[]), "c-1", "Z1", "x") {
        Ok(r) => r,
        Err(_) => panic!("request refused"),
    };
    assert_eq!(r.status_code, 201);
    assert_eq!(r.content_type, "text/xml");
    assert!(r.body.contains("CreateHostedZoneResponse"));
    assert!(r.body.contains("example.com."));
    assert!(r.body.contains("<Id>/hostedzone/"));
    assert!(r.headers.iter().any(|(k, v)| k == "Location" && v.starts_with("/2013-04-01/hostedzone/")));
    assert_eq!(r.headers, vec![("Location".to_string(), "/2013-04-01/hostedzone/Z1".to_string())]);
    assert!(r.body.contains(
        "<HostedZone><Id>/hostedzone/Z1</Id><Name>example.com.</Name><CallerReference>ref-1</CallerReference>\
<Config><Comment>Test zone</Comment><PrivateZone>false</PrivateZone></Config><ResourceRecordSetCount>2</ResourceRecordSetCount></HostedZone>\
<ChangeInfo><Id>/change/c-1</Id><Status>INSYNC</Status>"
    ));
    let r = call(&mut st, "CreateHostedZone", "<Name>x.com</Name>", "/2013-04-01/hostedzone");
    assert_eq!(r.status_code, 400);
    assert!(r.body.contains("<Code>InvalidInput</Code><Message>CallerReference is required</Message>"));
}

#[test]
fn list_hosted_zones_in_detail() {
    let mut st = Route53Store::new();
    create_zone(&mut st, "b.example.com.", "Z2");
    create_zone(&mut st, "a.example.com", "Z1");
    create_zone(&mut st, "other.org", "Z3");
    let r = call(&mut st, "ListHostedZones", "", "/2013-04-01/hostedzone");
    assert!(r.body.contains("<Id>/hostedzone/Z2</Id>"));
    assert!(r.body.contains("<IsTruncated>false</IsTruncated><MaxItems>100</MaxItems>"));
    let r = match dispatch(&mut st, &make_ctx("ListHostedZonesByName", "", "/2013-04-01/hostedzonesbyname", &[("dnsname", "example.com.")])) {
        Ok(r) => r,
        Err(_) => panic!("request refused"),
    };
    let a = r.body.find("a.example.com.").unwrap();
    let b = r.body.find("b.example.com.").unwrap();
    assert!(a < b);
    assert!(!r.body.contains("other.org"));
    let r = call(&mut st, "GetHostedZoneCount", "", "/2013-04-01/hostedzonecount");
    assert!(r.body.contains("<HostedZoneCount>3</HostedZoneCount>"));
}

#[test]
fn delete_hosted_zone_in_detail() {
    let mut st = Route53Store::new();
    create_zone(&mut st, "example.com", "Z1");
    let r = call(&mut st, "GetHostedZone", "", "/2013-04-01/hostedzone/Z1");
    assert_eq!(r.status_code, 200);
    let r = call(&mut st, "DeleteHostedZone", "", "/2013-04-01/hostedzone/Z1");
    assert_eq!(r.status_code, 200);
    let r = call(&mut st, "GetHostedZone", "", "/2013-04-01/hostedzone/Z1");
    assert_eq!(r.status_code, 404);
    assert!(r.body.contains("<Message>No hosted zone found with ID: Z1</Message>"));
}

#[test]
fn change_resource_record_sets_in_detail() {
    let mut st = Route53Store::new();
    create_zone(&mut st, "example.com", "Z1");
    let change = "<ChangeBatch><Changes>\
<Change><Action>CREATE</Action><ResourceRecordSet><Name>www.example.com.</Name><Type>A</Type><TTL>60</TTL>\
<ResourceRecords><ResourceRecord><Value>1.2.3.4</Value></ResourceRecord></ResourceRecords></ResourceRecordSet></Change>\
<Change><Action>UPSERT</Action><ResourceRecordSet><Name>mail.example.com.</Name><Type>MX</Type>\
<ResourceRecords><ResourceRecord><Value>10 mx&lt;1&gt;</Value></ResourceRecord></ResourceRecords></ResourceRecordSet></Change>\
</Changes></ChangeBatch>";
    let r = call(&mut st, "ChangeResourceRecordSets", change, "/2013-04-01/hostedzone/Z1/rrset");
    assert_eq!(r.status_code, 200);
    assert_eq!(st.records.len(), 2);
    let r = call(&mut st, "ListResourceRecordSets", "", "/2013-04-01/hostedzone/Z1/rrset");
    assert!(r.body.contains(
        "<ResourceRecordSet><Name>www.example.com.</Name><Type>A</Type><TTL>60</TTL>\
<ResourceRecords><ResourceRecord><Value>1.2.3.4</Value></ResourceRecord></ResourceRecords></ResourceRecordSet>"
    ));
    assert!(r.body.contains("<TTL>300</TTL>"));
    // Upserting an existing name and type replaces it in place.
    let again = "<Change><Action>UPSERT</Action><ResourceRecordSet><Name>www.example.com.</Name><Type>A</Type><TTL>30</TTL></ResourceRecordSet></Change>";
    call(&mut st, "ChangeResourceRecordSets", again, "/2013-04-01/hostedzone/Z1/rrset");
    assert_eq!(st.records.len(), 2);
    assert_eq!(st.records[0].1.ttl, 30);
    let delete = "<Change><Action>DELETE</Action><ResourceRecordSet><Name>www.example.com.</Name><Type>A</Type></ResourceRecordSet></Change>";
    call(&mut st, "ChangeResourceRecordSets", delete, "/2013-04-01/hostedzone/Z1/rrset");
    assert_eq!(st.records.len(), 1);
    // Deleting the zone drops its record sets.
    call(&mut st, "DeleteHostedZone", "", "/2013-04-01/hostedzone/Z1");
    assert_eq!(st.records.len(), 0);
}

#[test]
fn list_resource_record_sets_in_detail() {
    let mut st = Route53Store::new();
    let r = call(&mut st, "ListResourceRecordSets", "", "/2013-04-01/hostedzone/NOPE/rrset");
    assert_eq!(r.status_code, 404);
    assert!(r.body.contains("NoSuchHostedZone"));
}

#[test]
fn health_checks() {
    let mut st = Route53Store::new();
    let body = "<CreateHealthCheckRequest><HealthCheckConfig><IPAddress>10.0.0.1</IPAddress><Port>8080</Port>\
<Type>HTTPS</Type><ResourcePath>/health</ResourcePath></HealthCheckConfig></CreateHealthCheckRequest>";
    let r = match dispatch_at(&mut st, &make_ctx("CreateHealthCheck", body, "/2013-04-01/healthcheck", &[]), "rid", "H1", "fresh-ref") {
        Ok(r) => r,
        Err(_) => panic!("request refused"),
    };
    assert_eq!(r.status_code, 201);
    assert!(r.body.contains(
        "<HealthCheck><Id>H1</Id><CallerReference>fresh-ref</CallerReference><HealthCheckConfig><IPAddress>10.0.0.1</IPAddress>\
<Port>8080</Port><Type>HTTPS</Type><ResourcePath>/health</ResourcePath><RequestInterval>30</RequestInterval>\
<FailureThreshold>3</FailureThreshold></HealthCheckConfig><HealthCheckVersion>1</HealthCheckVersion></HealthCheck>"
    ));
    let r = call(&mut st, "GetHealthCheck", "", "/2013-04-01/healthcheck/H1");
    assert_eq!(r.status_code, 200);
    let r = call(&mut st, "ListHealthChecks", "", "/2013-04-01/healthcheck");
    assert!(r.body.contains("<HealthChecks><HealthCheck><Id>H1</Id>"));
    let r = call(&mut st, "DeleteHealthCheck", "", "/2013-04-01/healthcheck/H1");
    assert_eq!(r.status_code, 200);
    let r = call(&mut st, "DeleteHealthCheck", "", "/2013-04-01/healthcheck/H1");
    assert_eq!(r.status_code, 404);
    assert!(r.body.contains("<Message>No health check with ID: H1</Message>"));
}

#[test]
fn tags_for_resources() {
    let mut st = Route53Store::new();
    let add = "<ChangeTagsForResourceRequest><AddTags><Tag><Key>env</Key><Value>prod</Value></Tag>\
<Tag><Key>team</Key><Value>a&amp;b</Value></Tag></AddTags></ChangeTagsForResourceRequest>";
    call(&mut st, "ChangeTagsForResource", add, "/2013-04-01/tags/hostedzone/Z1");
    let r = call(&mut st, "ListTagsForResource", "", "/2013-04-01/tags/hostedzone/Z1");
    assert!(r.body.contains(
        "<ResourceTagSet><ResourceType>hostedzone</ResourceType><ResourceId>Z1</ResourceId><Tags>\
<Tag><Key>env</Key><Value>prod</Value></Tag><Tag><Key>team</Key><Value>a&amp;amp;b</Value></Tag></Tags></ResourceTagSet>"
    ));
    let remove = "<ChangeTagsForResourceRequest><RemoveTagKeys><Key>env</Key></RemoveTagKeys></ChangeTagsForResourceRequest>";
    call(&mut st, "ChangeTagsForResource", remove, "/2013-04-01/tags/hostedzone/Z1");
    let r = call(&mut st, "ListTagsForResource", "", "/2013-04-01/tags/hostedzone/Z1");
    assert!(!r.body.contains("<Key>env</Key>"));
    assert!(r.body.contains("<Key>team</Key>"));
    let r = call(&mut st, "ListTagsForResource", "", "/2013-04-01/tags/healthcheck/H9");
    assert!(r.body.contains("<Tags></Tags>"));
}

#[test]
fn get_change_and_unknown_operations() {
    let mut st = Route53Store::new();
    let r = call(&mut st, "GetChange", "", "/2013-04-01/change/C42");
    assert!(r.body.contains("<ChangeInfo><Id>/change/C42</Id><Status>INSYNC</Status><SubmittedAt>2010-09-10T01:36:41.958000Z</SubmittedAt></ChangeInfo>"));
    match dispatch(&mut st, &make_ctx("ListGeoLocations", "", "/", &[])) {
        Err(DispatchError::NotImplemented(op)) => assert_eq!(op, "ListGeoLocations"),
        Ok(_) => panic!("expected a refusal"),
    }
}

#[test]
fn created_zone_is_what_get_answers_and_delete_drops_its_records() {
    let mut st = Route53Store::new();
    create_zone(&mut st, "law.example", "Z9");
    let r = call(&mut st, "GetHostedZone", "", "/2013-04-01/hostedzone/Z9");
    assert_eq!(r.status_code, 200);
    assert!(r.body.contains("<Id>/hostedzone/Z9</Id><Name>law.example.</Name>"));
    let change = "<ChangeBatch><Changes>\
<Change><Action>CREATE</Action><ResourceRecordSet><Name>a.law.example.</Name><Type>A</Type><TTL>60</TTL>\
<ResourceRecords><ResourceRecord><Value>10.0.0.1</Value></ResourceRecord></ResourceRecords></ResourceRecordSet></Change>\
</Changes></ChangeBatch>";
    call(&mut st, "ChangeResourceRecordSets", change, "/2013-04-01/hostedzone/Z9/rrset");
    assert_eq!(st.records.len(), 1);
    call(&mut st, "DeleteHostedZone", "", "/2013-04-01/hostedzone/Z9");
    assert_eq!(st.records.len(), 0);
}

#[test]
fn created_zone_id_is_twelve_hex_digits() {
    let mut st = Route53Store::new();
    let body = "<CreateHostedZoneRequest><Name>fresh.example</Name><CallerReference>r1</CallerReference></CreateHostedZoneRequest>";
    let r = call(&mut st, "CreateHostedZone", body, "/2013-04-01/hostedzone");
    assert_eq!(r.status_code, 201);
    let start = r.body.find("<Id>/hostedzone/").unwrap() + "<Id>/hostedzone/".len();
    let end = start + r.body[start..].find("</Id>").unwrap();
    let id = &r.body[start..end];
    assert_eq!(id.len(), 12);
    assert!(id.chars().all(|c| c.is_ascii_digit() || ('a'..='f').contains(&c)));
}

// The original scenarios, request for request.

fn xml_text(xml: &str, tag: &str) -> Option<String> {
    let open = format!("<{tag}>");
    let close = format!("</{tag}>");
    let start = xml.find(&open)? + open.len();
    let end = start + xml[start..].find(&close)?;
    Some(xml[start..end].to_string())
}

fn zone_id_of(r: &DispatchResponse) -> String {
    let id_raw = xml_text(&r.body, "Id").unwrap();
    id_raw.trim_start_matches("/hostedzone/").to_string()
}

#[test]
fn test_list_hosted_zones() {
    let mut st = Route53Store::new();
    let xml1 = r#"<CreateHostedZoneRequest><Name>zone1.com</Name><CallerReference>r1</CallerReference></CreateHostedZoneRequest>"#;
    let xml2 = r#"<CreateHostedZoneRequest><Name>zone2.com</Name><CallerReference>r2</CallerReference></CreateHostedZoneRequest>"#;
    call(&mut st, "CreateHostedZone", xml1, "/2013-04-01/hostedzone");
    call(&mut st, "CreateHostedZone", xml2, "/2013-04-01/hostedzone");
    let r = call(&mut st, "ListHostedZones", "", "/2013-04-01/hostedzone");
    assert_eq!(r.status_code, 200);
    assert!(r.body.contains("ListHostedZonesResponse"));
    assert!(r.body.contains("zone1.com."));
    assert!(r.body.contains("zone2.com."));
}

#[test]
fn test_delete_hosted_zone() {
    let mut st = Route53Store::new();
    let xml = r#"<CreateHostedZoneRequest><Name>delete-me.com</Name><CallerReference>r3</CallerReference></CreateHostedZoneRequest>"#;
    let create = call(&mut st, "CreateHostedZone", xml, "/2013-04-01/hostedzone");
    let zone_id = zone_id_of(&create);
    let r = call(&mut st, "DeleteHostedZone", "", &format!("/2013-04-01/hostedzone/{zone_id}"));
    assert_eq!(r.status_code, 200);
    assert!(r.body.contains("DeleteHostedZoneResponse"));
    assert!(r.body.contains("INSYNC"));
    let r = call(&mut st, "ListHostedZones", "", "/2013-04-01/hostedzone");
    assert!(!r.body.contains("delete-me.com"));
}

#[test]
fn test_change_resource_record_sets() {
    let mut st = Route53Store::new();
    let xml = r#"<CreateHostedZoneRequest><Name>records.com</Name><CallerReference>r4</CallerReference></CreateHostedZoneRequest>"#;
    let create = call(&mut st, "CreateHostedZone", xml, "/2013-04-01/hostedzone");
    let zone_id = zone_id_of(&create);
    let rrset_xml = r#"<?xml version="1.0" encoding="UTF-8"?>
<ChangeResourceRecordSetsRequest xmlns="https://route53.amazonaws.com/doc/2013-04-01/">
  <ChangeBatch>
    <Changes>
      <Change>
        <Action>UPSERT</Action>
        <ResourceRecordSet>
          <Name>www.records.com</Name>
          <Type>A</Type>
          <TTL>300</TTL>
          <ResourceRecords>
            <ResourceRecord><Value>1.2.3.4</Value></ResourceRecord>
          </ResourceRecords>
        </ResourceRecordSet>
      </Change>
    </Changes>
  </ChangeBatch>
</ChangeResourceRecordSetsRequest>"#;
    let r = call(&mut st, "ChangeResourceRecordSets", rrset_xml, &format!("/2013-04-01/hostedzone/{zone_id}/rrset"));
    assert_eq!(r.status_code, 200);
    assert!(r.body.contains("ChangeResourceRecordSetsResponse"));
    assert!(r.body.contains("INSYNC"));
}

#[test]
fn test_list_resource_record_sets() {
    let mut st = Route53Store::new();
    let xml = r#"<CreateHostedZoneRequest><Name>listrr.com</Name><CallerReference>r5</CallerReference></CreateHostedZoneRequest>"#;
    let create = call(&mut st, "CreateHostedZone", xml, "/2013-04-01/hostedzone");
    let zone_id = zone_id_of(&create);
    let upsert_xml = r#"<ChangeResourceRecordSetsRequest>
  <ChangeBatch><Changes>
    <Change>
      <Action>UPSERT</Action>
      <ResourceRecordSet>
        <Name>a.listrr.com</Name><Type>A</Type><TTL>60</TTL>
        <ResourceRecords><ResourceRecord><Value>10.0.0.1</Value></ResourceRecord></ResourceRecords>
      </ResourceRecordSet>
    </Change>
    <Change>
      <Action>UPSERT</Action>
      <ResourceRecordSet>
        <Name>b.listrr.com</Name><Type>CNAME</Type><TTL>120</TTL>
        <ResourceRecords><ResourceRecord><Value>example.com</Value></ResourceRecord></ResourceRecords>
      </ResourceRecordSet>
    </Change>
  </Changes></ChangeBatch>
</ChangeResourceRecordSetsRequest>"#;
    let rrset_path = format!("/2013-04-01/hostedzone/{zone_id}/rrset");
    call(&mut st, "ChangeResourceRecordSets", upsert_xml, &rrset_path);
    let r = call(&mut st, "ListResourceRecordSets", "", &rrset_path);
    assert_eq!(r.status_code, 200);
    assert!(r.body.contains("ListResourceRecordSetsResponse"));
    assert!(r.body.contains("a.listrr.com"));
    assert!(r.body.contains("b.listrr.com"));
    assert!(r.body.contains("10.0.0.1"));
    assert!(r.body.contains("example.com"));
}
