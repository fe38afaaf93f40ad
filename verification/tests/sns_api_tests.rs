use openstack_services::http::{DispatchError, DispatchResponse, RequestContext};
use openstack_services::sns::{Protocol, SnsStore};
use openstack_services::sns_api::{dispatch, dispatch_at, format_sns_notification, SnsReply};
use openstack_services::strmap::StrMap;

fn make_ctx(body: &[u8]) -> RequestContext {
    RequestContext {
        service: "sns".to_string(),
        operation: String::new(),
        region: "us-east-1".to_string(),
        account_id: "000000000000".to_string(),
        method: "POST".to_string(),
        path: "/".to_string(),
        headers: StrMap::new(),
        query_params: StrMap::new(),
        raw_body: body.to_vec(),
        request_body: StrMap::new(),
    }
}

fn url_encode(s: &str) -> String {
    let mut out = String::new();
    for b in s.bytes() {
        match b {
            b'A'..=b'Z' | b'a'..=b'z' | b'0'..=b'9' | b'-' | b'_' | b'.' | b'~' => out.push(b as char),
            _ => out.push_str(&format!("%{:02X}", b)),
        }
    }
    out
}

fn form_body(params: &[(&str, &str)]) -> Vec<u8> {
    params
        .iter()
        .map(|(k, v)| format!("{}={}", k, url_encode(v)))
        .collect::<Vec<_>>()
        .join("&")
        .into_bytes()
}

fn send(store: &mut SnsStore, params: &[(&str, &str)]) -> SnsReply {
    match dispatch(store, &make_ctx(&form_body(params))) {
        Ok(r) => r,
        Err(_) => panic!("request refused"),
    }
}

fn resp(store: &mut SnsStore, params: &[(&str, &str)]) -> DispatchResponse {
    send(store, params).response
}

fn between(s: &str, open: &str, close: &str) -> String {
    s.split(open).nth(1).unwrap().split(close).next().unwrap().to_string()
}

fn create_topic(store: &mut SnsStore, name: &str) -> String {
    let r = resp(store, &[("Action", "CreateTopic"), ("Name", name)]);
    assert_eq!(r.status_code, 200);
    between(&r.body, "<TopicArn>", "</TopicArn>")
}

fn subscribe(store: &mut SnsStore, topic: &str, protocol: &str, endpoint: &str) -> String {
    let r = resp(
        store,
        &[("Action", "Subscribe"), ("TopicArn", topic), ("Protocol", protocol), ("Endpoint", endpoint)],
    );
    assert_eq!(r.status_code, 200);
    between(&r.body, "<SubscriptionArn>", "</SubscriptionArn>")
}

#[test]
fn test_create_topic() {
    let mut store = SnsStore::new();
    let r = resp(&mut store, &[("Action", "CreateTopic"), ("Name", "my-topic")]);
    assert_eq!(r.status_code, 200);
    assert!(r.body.contains("CreateTopicResponse"));
    assert!(r.body.contains("<TopicArn>arn:aws:sns:us-east-1:000000000000:my-topic</TopicArn>"));
}

#[test]
fn test_create_topic_idempotent() {
    let mut store = SnsStore::new();
    let a1 = create_topic(&mut store, "idempotent-topic");
    let a2 = create_topic(&mut store, "idempotent-topic");
    assert_eq!(a1, a2);
    assert_eq!(store.list_topics().len(), 1);
}

#[test]
fn test_delete_topic() {
    let mut store = SnsStore::new();
    let arn = create_topic(&mut store, "delete-me");
    let r = resp(&mut store, &[("Action", "DeleteTopic"), ("TopicArn", &arn)]);
    assert_eq!(r.status_code, 200);
    let r = resp(&mut store, &[("Action", "GetTopicAttributes"), ("TopicArn", &arn)]);
    assert_eq!(r.status_code, 404);
    let r = resp(&mut store, &[("Action", "DeleteTopic"), ("TopicArn", &arn)]);
    assert_eq!(r.status_code, 404);
    assert!(r.body.contains("<Code>NotFound</Code><Message>Topic not found</Message>"));
}

#[test]
fn test_list_topics() {
    let mut store = SnsStore::new();
    create_topic(&mut store, "topic-alpha");
    create_topic(&mut store, "topic-beta");
    let r = resp(&mut store, &[("Action", "ListTopics")]);
    assert_eq!(r.status_code, 200);
    assert!(r.body.contains(
        "<Topics><member><TopicArn>arn:aws:sns:us-east-1:000000000000:topic-alpha</TopicArn></member>\
<member><TopicArn>arn:aws:sns:us-east-1:000000000000:topic-beta</TopicArn></member></Topics>"
    ));
}

#[test]
fn test_get_topic_attributes() {
    let mut store = SnsStore::new();
    let arn = create_topic(&mut store, "attr-topic");
    subscribe(&mut store, &arn, "sqs", "q");
    let r = resp(&mut store, &[("Action", "GetTopicAttributes"), ("TopicArn", &arn)]);
    assert_eq!(r.status_code, 200);
    assert!(r.body.contains("<entry><key>Owner</key><value>000000000000</value></entry>"));
    assert!(r.body.contains("<entry><key>SubscriptionsConfirmed</key><value>1</value></entry>"));
    assert!(r.body.contains("<entry><key>FifoTopic</key><value>false</value></entry>"));
    assert!(!r.body.contains("<key>Policy</key>"));
}

#[test]
fn set_topic_attributes_escapes_the_value() {
    let mut store = SnsStore::new();
    let arn = create_topic(&mut store, "settable-topic");
    let r = resp(
        &mut store,
        &[
            ("Action", "SetTopicAttributes"),
            ("TopicArn", &arn),
            ("AttributeName", "DisplayName"),
            ("AttributeValue", "My <Display> Name"),
        ],
    );
    assert_eq!(r.status_code, 200);
    let r = resp(&mut store, &[("Action", "GetTopicAttributes"), ("TopicArn", &arn)]);
    assert!(r.body.contains("<entry><key>DisplayName</key><value>My &lt;Display&gt; Name</value></entry>"));
}

#[test]
fn test_subscribe() {
    let mut store = SnsStore::new();
    let topic = create_topic(&mut store, "sub-topic");
    let r = dispatch_at(
        &mut store,
        &make_ctx(&form_body(&[
            ("Action", "Subscribe"),
            ("TopicArn", &topic),
            ("Protocol", "sqs"),
            ("Endpoint", "arn:aws:sqs:us-east-1:000000000000:my-queue"),
        ])),
        "rid-1",
        0,
        "sub-1",
        "2024-01-01T00:00:00+00:00",
    );
    let body = match r {
        Ok(reply) => reply.response.body,
        Err(_) => panic!("request refused"),
    };
    assert!(body.contains("<SubscriptionArn>arn:aws:sns:us-east-1:000000000000:sub-topic:sub-1</SubscriptionArn>"));
    assert!(body.contains("<RequestId>rid-1</RequestId>"));
}

#[test]
fn test_subscribe_nonexistent_topic() {
    let mut store = SnsStore::new();
    let r = resp(
        &mut store,
        &[
            ("Action", "Subscribe"),
            ("TopicArn", "arn:aws:sns:us-east-1:000000000000:ghost"),
            ("Protocol", "sqs"),
            ("Endpoint", "arn:aws:sqs:us-east-1:000000000000:q"),
        ],
    );
    assert_eq!(r.status_code, 404);
}

#[test]
fn subscribe_rejects_unknown_protocol_and_missing_parameters() {
    let mut store = SnsStore::new();
    let topic = create_topic(&mut store, "t");
    let r = resp(&mut store, &[("Action", "Subscribe"), ("TopicArn", &topic), ("Protocol", "pigeon")]);
    assert_eq!(r.status_code, 400);
    assert!(r.body.contains("<Code>InvalidParameter</Code><Message>Unsupported protocol</Message>"));
    let r = resp(&mut store, &[("Action", "Subscribe"), ("TopicArn", &topic)]);
    assert!(r.body.contains("<Message>Protocol is required</Message>"));
    let r = resp(&mut store, &[("Action", "CreateTopic")]);
    assert!(r.body.contains("<Message>Name is required</Message>"));
    assert_eq!(store.list_subscriptions().len(), 0);
}

#[test]
fn test_unsubscribe() {
    let mut store = SnsStore::new();
    let topic = create_topic(&mut store, "unsub-topic");
    let sub = subscribe(&mut store, &topic, "sqs", "arn:aws:sqs:us-east-1:000000000000:q");
    let r = resp(&mut store, &[("Action", "Unsubscribe"), ("SubscriptionArn", &sub)]);
    assert_eq!(r.status_code, 200);
    let r = resp(&mut store, &[("Action", "GetSubscriptionAttributes"), ("SubscriptionArn", &sub)]);
    assert_eq!(r.status_code, 404);
    assert!(r.body.contains("<Message>Subscription not found</Message>"));
}

#[test]
fn test_list_subscriptions() {
    let mut store = SnsStore::new();
    let topic = create_topic(&mut store, "listsub-topic");
    for i in 0..3 {
        subscribe(&mut store, &topic, "sqs", &format!("arn:aws:sqs:us-east-1:000000000000:q{i}"));
    }
    let r = resp(&mut store, &[("Action", "ListSubscriptions")]);
    assert_eq!(r.status_code, 200);
    for i in 0..3 {
        assert!(r.body.contains(&format!("<Endpoint>arn:aws:sqs:us-east-1:000000000000:q{i}</Endpoint>")));
    }
    assert!(r.body.contains("<Protocol>sqs</Protocol>"));
}

#[test]
fn test_list_subscriptions_by_topic() {
    let mut store = SnsStore::new();
    let t1 = create_topic(&mut store, "topic-x");
    let t2 = create_topic(&mut store, "topic-y");
    for q in &["q-a", "q-b"] {
        subscribe(&mut store, &t1, "sqs", &format!("arn:aws:sqs:us-east-1:000000000000:{q}"));
    }
    subscribe(&mut store, &t2, "sqs", "arn:aws:sqs:us-east-1:000000000000:q-c");
    let r = resp(&mut store, &[("Action", "ListSubscriptionsByTopic"), ("TopicArn", &t1)]);
    assert!(r.body.contains("q-a"));
    assert!(r.body.contains("q-b"));
    assert!(!r.body.contains("q-c"));
}

#[test]
fn test_get_subscription_attributes() {
    let mut store = SnsStore::new();
    let topic = create_topic(&mut store, "subattr-topic");
    let sub = subscribe(&mut store, &topic, "https", "https://example.com/notify");
    let r = resp(&mut store, &[("Action", "GetSubscriptionAttributes"), ("SubscriptionArn", &sub)]);
    assert_eq!(r.status_code, 200);
    assert!(r.body.contains("<entry><key>Endpoint</key><value>https://example.com/notify</value></entry>"));
    assert!(r.body.contains("<entry><key>Protocol</key><value>https</value></entry>"));
    assert!(r.body.contains("<entry><key>RawMessageDelivery</key><value>false</value></entry>"));
}

#[test]
fn test_set_subscription_attributes() {
    let mut store = SnsStore::new();
    let topic = create_topic(&mut store, "setsub-topic");
    let sub = subscribe(&mut store, &topic, "sqs", "arn:aws:sqs:us-east-1:000000000000:my-q");
    let r = resp(
        &mut store,
        &[
            ("Action", "SetSubscriptionAttributes"),
            ("SubscriptionArn", &sub),
            ("AttributeName", "RawMessageDelivery"),
            ("AttributeValue", "true"),
        ],
    );
    assert_eq!(r.status_code, 200);
    let r = resp(&mut store, &[("Action", "GetSubscriptionAttributes"), ("SubscriptionArn", &sub)]);
    assert!(r.body.contains("<entry><key>RawMessageDelivery</key><value>true</value></entry>"));
}

#[test]
fn test_publish() {
    let mut store = SnsStore::new();
    let topic = create_topic(&mut store, "pub-topic");
    let r = resp(
        &mut store,
        &[("Action", "Publish"), ("TopicArn", &topic), ("Message", "Hello from SNS!"), ("Subject", "Test Subject")],
    );
    assert_eq!(r.status_code, 200);
    assert!(r.body.contains("<MessageId>"));
}

#[test]
fn test_publish_nonexistent_topic() {
    let mut store = SnsStore::new();
    let r = resp(
        &mut store,
        &[("Action", "Publish"), ("TopicArn", "arn:aws:sns:us-east-1:000000000000:ghost"), ("Message", "hello")],
    );
    assert_eq!(r.status_code, 404);
}

#[test]
fn publish_without_message_is_refused() {
    let mut store = SnsStore::new();
    let topic = create_topic(&mut store, "t");
    let r = resp(&mut store, &[("Action", "Publish"), ("TopicArn", &topic)]);
    assert_eq!(r.status_code, 400);
    assert!(r.body.contains("<Message>Message is required</Message>"));
}

#[test]
fn test_publish_batch() {
    let mut store = SnsStore::new();
    let topic = create_topic(&mut store, "batch-pub-topic");
    let r = resp(
        &mut store,
        &[
            ("Action", "PublishBatch"),
            ("TopicArn", &topic),
            ("PublishBatchRequestEntries.member.1.Id", "msg1"),
            ("PublishBatchRequestEntries.member.1.Message", "body-one"),
            ("PublishBatchRequestEntries.member.2.Id", "msg2"),
            ("PublishBatchRequestEntries.member.2.Message", "body-two"),
        ],
    );
    assert_eq!(r.status_code, 200);
    assert!(r.body.contains("<Successful><member><Id>msg1</Id><MessageId>"));
    assert!(r.body.contains("<member><Id>msg2</Id><MessageId>"));
    assert!(r.body.contains("</Successful><Failed></Failed>"));
}

#[test]
fn test_delete_topic_removes_subscriptions() {
    let mut store = SnsStore::new();
    let topic = create_topic(&mut store, "del-with-subs");
    let sub = subscribe(&mut store, &topic, "sqs", "arn:aws:sqs:us-east-1:000000000000:q");
    resp(&mut store, &[("Action", "DeleteTopic"), ("TopicArn", &topic)]);
    let r = resp(&mut store, &[("Action", "GetSubscriptionAttributes"), ("SubscriptionArn", &sub)]);
    assert_eq!(r.status_code, 404);
    let r = resp(&mut store, &[("Action", "ListSubscriptions")]);
    assert!(!r.body.contains(&sub));
}

#[test]
fn test_fifo_topic() {
    let mut store = SnsStore::new();
    let arn = create_topic(&mut store, "fifo.fifo");
    assert!(arn.contains("fifo.fifo"));
    let r = resp(&mut store, &[("Action", "GetTopicAttributes"), ("TopicArn", &arn)]);
    assert!(r.body.contains("<entry><key>FifoTopic</key><value>true</value></entry>"));
}

#[test]
fn sns_tests_test_unknown_action() {
    let mut store = SnsStore::new();
    match dispatch(&mut store, &make_ctx(&form_body(&[("Action", "BogusAction")]))) {
        Err(DispatchError::NotImplemented(a)) => assert_eq!(a, "BogusAction"),
        Ok(_) => panic!("expected a refusal"),
    }
}

#[test]
fn sns_tests_test_missing_action() {
    let mut store = SnsStore::new();
    match dispatch(&mut store, &make_ctx(&form_body(&[("Name", "no-action")]))) {
        Err(DispatchError::NotImplemented(a)) => assert_eq!(a, "(missing Action)"),
        Ok(_) => panic!("expected a refusal"),
    }
}

#[test]
fn notification_envelope_is_exact() {
    let n = format_sns_notification("arn:t", "m-1", "say \"hi\"\n", "subj", "2024-01-01T00:00:00+00:00");
    assert_eq!(
        n,
        "{\"Message\":\"say \\\"hi\\\"\\n\",\"MessageId\":\"m-1\",\"Signature\":\"EXAMPLE\",\
\"SignatureVersion\":\"1\",\"SigningCertURL\":\"\",\"Subject\":\"subj\",\
\"Timestamp\":\"2024-01-01T00:00:00+00:00\",\"TopicArn\":\"arn:t\",\"Type\":\"Notification\",\
\"UnsubscribeURL\":\"\"}"
    );
}

#[test]
fn publish_fans_out_by_protocol_and_filter() {
    let mut store = SnsStore::new();
    let topic = create_topic(&mut store, "fan");
    let raw = subscribe(&mut store, &topic, "sqs", "raw-q");
    resp(
        &mut store,
        &[
            ("Action", "SetSubscriptionAttributes"),
            ("SubscriptionArn", &raw),
            ("AttributeName", "RawMessageDelivery"),
            ("AttributeValue", "true"),
        ],
    );
    subscribe(&mut store, &topic, "sqs", "wrapped-q");
    let filtered = subscribe(&mut store, &topic, "https", "https://filtered");
    resp(
        &mut store,
        &[
            ("Action", "SetSubscriptionAttributes"),
            ("SubscriptionArn", &filtered),
            ("AttributeName", "FilterPolicy"),
            ("AttributeValue", "{\"color\":[\"red\"]}"),
        ],
    );
    subscribe(&mut store, &topic, "lambda", "fn");
    subscribe(&mut store, &topic, "email", "a@b.c");

    let publish = |store: &mut SnsStore, color: &str| {
        let ctx = make_ctx(&form_body(&[
            ("Action", "Publish"),
            ("TopicArn", &topic),
            ("Message", "payload"),
            ("MessageAttributes.entry.1.Name", "color"),
            ("MessageAttributes.entry.1.Value.DataType", "String"),
            ("MessageAttributes.entry.1.Value.StringValue", color),
        ]));
        match dispatch_at(store, &ctx, "rid", 0, "mid", "T") {
            Ok(r) => r.deliveries,
            Err(_) => panic!("request refused"),
        }
    };
    let envelope = format_sns_notification(&topic, "mid", "payload", "", "T");

    let ds = publish(&mut store, "blue");
    assert_eq!(ds.len(), 3);
    assert_eq!(ds[0].protocol, Protocol::Sqs);
    assert_eq!(ds[0].endpoint, "raw-q");
    assert_eq!(ds[0].payload, Some("payload".to_string()));
    assert_eq!(ds[1].endpoint, "wrapped-q");
    assert_eq!(ds[1].payload, Some(envelope.clone()));
    assert_eq!(ds[2].protocol, Protocol::Lambda);
    assert_eq!(ds[2].payload, None);

    let ds = publish(&mut store, "red");
    assert_eq!(ds.len(), 4);
    assert_eq!(ds[2].protocol, Protocol::Https);
    assert_eq!(ds[2].endpoint, "https://filtered");
    assert_eq!(ds[2].payload, Some(envelope));
}

#[test]
fn test_set_topic_attributes() {
    let mut store = SnsStore::new();
    let arn = create_topic(&mut store, "settable-topic");
    let r = resp(
        &mut store,
        &[
            ("Action", "SetTopicAttributes"),
            ("TopicArn", &arn),
            ("AttributeName", "DisplayName"),
            ("AttributeValue", "My Display Name"),
        ],
    );
    assert_eq!(r.status_code, 200);
    let r = resp(&mut store, &[("Action", "GetTopicAttributes"), ("TopicArn", &arn)]);
    assert!(r.body.contains("My Display Name"));
}
