use openstack_services::route53::{parse_rrsets, xml_text};
use openstack_services::secretsmanager::{Secret, SecretVersion};
use openstack_services::ses::IdentityNotificationAttributes;
use openstack_services::strmap::StrMap;
use openstack_services::text::{escape_xml, unescape_xml};

#[test]
fn route53_xml_text() {
    assert_eq!(xml_text("<a><Name>x.example.</Name></a>", "Name"), Some("x.example.".to_string()));
    assert_eq!(xml_text("<Name>x", "Name"), None);
    assert_eq!(xml_text("</Name><Name>", "Name"), None);
}

#[test]
fn route53_changes_are_parsed() {
    let body = "<ChangeBatch><Changes>\
<Change><Action>CREATE</Action><ResourceRecordSet><Name>www.example.com.</Name><Type>A</Type><TTL>60</TTL>\
<ResourceRecords><ResourceRecord><Value>1.2.3.4</Value></ResourceRecord><ResourceRecord><Value>5.6.7.8</Value></ResourceRecord></ResourceRecords>\
</ResourceRecordSet></Change>\
<Change><Action>DELETE</Action><ResourceRecordSet><Name>old.example.com.</Name><Type>CNAME</Type><TTL>bad</TTL></ResourceRecordSet></Change>\
</Changes></ChangeBatch>";
    let changes = parse_rrsets(body);
    assert_eq!(changes.len(), 2);
    assert_eq!(changes[0].0, "CREATE");
    assert_eq!(changes[0].1.name, "www.example.com.");
    assert_eq!(changes[0].1.record_type, "A");
    assert_eq!(changes[0].1.ttl, 60);
    assert_eq!(changes[0].1.values, vec!["1.2.3.4".to_string(), "5.6.7.8".to_string()]);
    assert_eq!(changes[1].0, "DELETE");
    assert_eq!(changes[1].1.ttl, 300);
    assert!(changes[1].1.values.is_empty());
    assert!(parse_rrsets("<Changes></Changes>").is_empty());
}

#[test]
fn ses_notification_defaults() {
    let d = IdentityNotificationAttributes::default();
    assert!(d.forwarding_enabled);
    assert!(d.bounce_topic.is_none());
}

#[test]
fn secret_current_version_is_first_current() {
    let v = |id: &str, stages: &[&str]| SecretVersion {
        version_id: id.to_string(),
        secret_string: Some("s".to_string()),
        secret_binary: None,
        created: 0,
        version_stages: stages.iter().map(|s| s.to_string()).collect(),
    };
    let secret = Secret {
        arn: "arn".to_string(),
        name: "n".to_string(),
        description: String::new(),
        created: 0,
        last_changed: 0,
        deleted: false,
        deletion_date: None,
        versions: vec![v("a", &["AWSPREVIOUS"]), v("b", &["AWSCURRENT"]), v("c", &["AWSCURRENT"])],
        tags: StrMap::new(),
    };
    assert_eq!(secret.current_version().unwrap().version_id, "b");
}

#[test]
fn xml_escaping_round_trips() {
    let s = "a<b>&\"c\"";
    assert_eq!(escape_xml(s), "a&lt;b&gt;&amp;&quot;c&quot;");
    assert_eq!(unescape_xml(&escape_xml(s)), s);
    assert_eq!(unescape_xml("&amp;lt; &apos;"), "&lt; '");
}
