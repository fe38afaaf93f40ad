use openstack_services::sns::{FilterPolicy, MessageAttribute, Protocol, SnsStore};
use openstack_services::strmap::StrMap;

#[test]
fn protocol_names_round_trip() {
    for p in [
        Protocol::Sqs,
        Protocol::Http,
        Protocol::Https,
        Protocol::Lambda,
        Protocol::Email,
        Protocol::EmailJson,
        Protocol::Sms,
        Protocol::Application,
        Protocol::Firehose,
    ] {
        assert_eq!(Protocol::parse(p.as_str()), Some(p));
    }
    assert_eq!(Protocol::parse("email-json"), Some(Protocol::EmailJson));
    assert_eq!(Protocol::parse("SQS"), None);
}

#[test]
fn create_topic_is_idempotent_and_applies_attributes() {
    let mut store = SnsStore::new();
    let mut attrs = StrMap::new();
    attrs.insert("DisplayName".to_string(), "Shown".to_string());
    attrs.insert("ContentBasedDeduplication".to_string(), "true".to_string());
    let arn = store.create_topic("t.fifo", "123", "eu-west-1", &attrs).topic_arn.clone();
    assert_eq!(arn, "arn:aws:sns:eu-west-1:123:t.fifo");
    let t = store.get_topic(&arn).unwrap();
    assert!(t.fifo);
    assert!(t.content_based_deduplication);
    assert_eq!(t.display_name, "Shown");
    let again = store.create_topic("t.fifo", "123", "eu-west-1", &StrMap::new());
    assert_eq!(again.display_name, "Shown");
    assert_eq!(store.list_topics().len(), 1);
}

#[test]
fn deleting_a_topic_removes_its_subscriptions() {
    let mut store = SnsStore::new();
    let a = store.create_topic("a", "1", "r", &StrMap::new()).topic_arn.clone();
    let b = store.create_topic("b", "1", "r", &StrMap::new()).topic_arn.clone();
    let s1 = store.subscribe(&a, Protocol::Sqs, "q1", "1").unwrap();
    let s2 = store.subscribe(&b, Protocol::Http, "http://x", "1").unwrap();
    assert!(s1.starts_with(&format!("{a}:")));
    assert!(store.subscribe("arn:none", Protocol::Sqs, "q", "1").is_none());
    assert_eq!(store.list_subscriptions_by_topic(&a).len(), 1);
    assert!(store.delete_topic(&a));
    assert!(store.get_subscription(&s1).is_none());
    assert!(store.get_subscription(&s2).is_some());
    assert!(!store.delete_topic(&a));
    assert!(store.unsubscribe(&s2));
    assert!(!store.unsubscribe(&s2));
}

fn attr(v: Option<&str>) -> MessageAttribute {
    MessageAttribute { data_type: "String".to_string(), string_value: v.map(|s| s.to_string()), binary_value: None }
}

#[test]
fn filter_policies_match_string_values() {
    let p = FilterPolicy::from_json("{\"color\":[\"red\",\"blue\"],\"size\":[\"L\",5]}").unwrap();
    let mut a = StrMap::new();
    a.insert("color".to_string(), attr(Some("blue")));
    a.insert("size".to_string(), attr(Some("L")));
    assert!(p.matches(&a));
    let mut b = StrMap::new();
    b.insert("color".to_string(), attr(Some("green")));
    b.insert("size".to_string(), attr(Some("L")));
    assert!(!p.matches(&b));
    let mut c = StrMap::new();
    c.insert("color".to_string(), attr(Some("red")));
    assert!(!p.matches(&c));
    assert!(FilterPolicy::from_json("{\"color\":\"red\"}").is_none());
    assert!(FilterPolicy::from_json("not json").is_none());
    let empty = FilterPolicy::from_json("{}").unwrap();
    assert!(empty.matches(&StrMap::new()));
}

#[test]
fn missing_string_value_matches_empty_string() {
    let p = FilterPolicy::from_json("{\"k\":[\"\"]}").unwrap();
    let mut a = StrMap::new();
    a.insert("k".to_string(), attr(None));
    assert!(p.matches(&a));
}
