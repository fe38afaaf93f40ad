use openstack_services::http::{DispatchError, RequestContext};
use openstack_services::sqs::SqsStore;
use openstack_services::sqs_api::{
    dispatch_at, extract_message_attributes, normalize_queue_url_for_endpoint, queue_name_from_url,
};
use openstack_services::http::extract_indexed_kv;
use openstack_services::strmap::StrMap;

fn ctx(body: &str, headers: &[(&str, &str)]) -> RequestContext {
    let mut h = StrMap::new();
    for (k, v) in headers {
        h.insert(k.to_string(), v.to_string());
    }
    RequestContext {
        service: "sqs".to_string(),
        operation: String::new(),
        region: "us-east-1".to_string(),
        account_id: "000000000000".to_string(),
        method: "POST".to_string(),
        path: "/".to_string(),
        headers: h,
        query_params: StrMap::new(),
        raw_body: body.as_bytes().to_vec(),
        request_body: StrMap::new(),
    }
}

fn body_of(r: &Result<openstack_services::http::DispatchResponse, DispatchError>) -> String {
    match r {
        Ok(resp) => resp.body.clone(),
        Err(_) => panic!("request refused"),
    }
}

fn between(s: &str, open: &str, close: &str) -> String {
    let a = s.find(open).unwrap() + open.len();
    let b = s[a..].find(close).unwrap();
    s[a..a + b].to_string()
}

#[test]
fn create_send_receive_delete() {
    let mut store = SqsStore::new();
    let r = dispatch_at(&mut store, &ctx("Action=CreateQueue&QueueName=q1", &[]), "rid-1", 0);
    let b = body_of(&r);
    assert!(b.contains("<QueueUrl>http://localhost:4566/000000000000/q1</QueueUrl>"));
    assert!(b.contains("<RequestId>rid-1</RequestId>"));

    let url = "http%3A%2F%2Flocalhost%3A4566%2F000000000000%2Fq1";
    let r = dispatch_at(&mut store, &ctx(&format!("Action=SendMessage&QueueUrl={url}&MessageBody=hello+world"), &[]), "rid-2", 0);
    let b = body_of(&r);
    assert!(b.contains("<SequenceNumber>1</SequenceNumber>"));

    let r = dispatch_at(&mut store, &ctx(&format!("Action=ReceiveMessage&QueueUrl={url}"), &[]), "rid-3", 0);
    let b = body_of(&r);
    assert!(b.contains("<Body>hello world</Body>"));
    let handle = between(&b, "<ReceiptHandle>", "</ReceiptHandle>");

    // The received message is hidden now.
    let r = dispatch_at(&mut store, &ctx(&format!("Action=ReceiveMessage&QueueUrl={url}"), &[]), "rid-4", 0);
    assert!(!body_of(&r).contains("<Message>"));

    let r = dispatch_at(
        &mut store,
        &ctx(&format!("Action=DeleteMessage&QueueUrl={url}&ReceiptHandle={handle}"), &[]),
        "rid-5",
        0,
    );
    assert!(body_of(&r).contains("<DeleteMessageResponse"));
    let q = store.get_queue_by_name("q1").unwrap();
    assert_eq!(q.messages.len(), 0);
}

#[test]
fn missing_action_is_refused() {
    let mut store = SqsStore::new();
    let r = dispatch_at(&mut store, &ctx("QueueName=q1", &[]), "rid", 0);
    match r {
        Err(DispatchError::NotImplemented(a)) => assert_eq!(a, "(missing Action)"),
        _ => panic!("expected refusal"),
    }
}

#[test]
fn unknown_action_is_refused() {
    let mut store = SqsStore::new();
    let r = dispatch_at(&mut store, &ctx("Action=TagQueue", &[]), "rid", 0);
    match r {
        Err(DispatchError::NotImplemented(a)) => assert_eq!(a, "TagQueue"),
        _ => panic!("expected refusal"),
    }
}

#[test]
fn errors_for_missing_parameters_and_queues() {
    let mut store = SqsStore::new();
    let r = dispatch_at(&mut store, &ctx("Action=CreateQueue", &[]), "rid", 0).ok().unwrap();
    assert_eq!(r.status_code, 400);
    assert!(r.body.contains("<Code>MissingParameter</Code><Message>QueueName is required</Message>"));
    let r = dispatch_at(&mut store, &ctx("Action=GetQueueUrl&QueueName=nope", &[]), "rid", 0).ok().unwrap();
    assert_eq!(r.status_code, 400);
    assert!(r.body.contains("AWS.SimpleQueueService.NonExistentQueue"));
    let r = dispatch_at(&mut store, &ctx("Action=DeleteQueue&QueueUrl=http://h/000000000000/nope", &[]), "rid", 0).ok().unwrap();
    assert!(r.body.contains("Queue does not exist"));
}

#[test]
fn list_queues_by_prefix() {
    let mut store = SqsStore::new();
    for n in ["alpha", "beta", "alpine"] {
        dispatch_at(&mut store, &ctx(&format!("Action=CreateQueue&QueueName={n}"), &[]), "rid", 0).ok().unwrap();
    }
    let r = dispatch_at(&mut store, &ctx("Action=ListQueues&QueueNamePrefix=al", &[]), "rid", 0).ok().unwrap();
    assert!(r.body.contains("<ListQueuesResult><QueueUrl>http://localhost:4566/000000000000/alpha</QueueUrl><QueueUrl>http://localhost:4566/000000000000/alpine</QueueUrl></ListQueuesResult>"));
}

#[test]
fn queue_attributes_are_reported() {
    let mut store = SqsStore::new();
    dispatch_at(
        &mut store,
        &ctx("Action=CreateQueue&QueueName=q&Attribute.1.Name=VisibilityTimeout&Attribute.1.Value=45", &[]),
        "rid",
        0,
    )
    .ok()
    .unwrap();
    let r = dispatch_at(
        &mut store,
        &ctx("Action=GetQueueAttributes&QueueUrl=http://x/000000000000/q&AttributeName.1=VisibilityTimeout", &[]),
        "rid",
        0,
    )
    .ok()
    .unwrap();
    assert!(r.body.contains("<GetQueueAttributesResult><Attribute><Name>VisibilityTimeout</Name><Value>45</Value></Attribute></GetQueueAttributesResult>"));
    let r = dispatch_at(&mut store, &ctx("Action=GetQueueAttributes&QueueUrl=http://x/000000000000/q", &[]), "rid", 0)
        .ok()
        .unwrap();
    assert!(r.body.contains("<Name>FifoQueue</Name><Value>false</Value>"));
    assert!(r.body.contains("<Name>ApproximateNumberOfMessages</Name><Value>0</Value>"));
}

#[test]
fn fifo_duplicates_are_dropped() {
    let mut store = SqsStore::new();
    dispatch_at(&mut store, &ctx("Action=CreateQueue&QueueName=q.fifo", &[]), "rid", 0).ok().unwrap();
    let send = "Action=SendMessage&QueueUrl=http://x/000000000000/q.fifo&MessageBody=a&MessageDeduplicationId=d1&MessageGroupId=g";
    let r1 = dispatch_at(&mut store, &ctx(send, &[]), "rid", 0).ok().unwrap();
    assert!(!r1.body.contains("duplicate"));
    let r2 = dispatch_at(&mut store, &ctx(send, &[]), "rid", 0).ok().unwrap();
    assert!(r2.body.contains("<MessageId>duplicate</MessageId>"));
    assert_eq!(store.get_queue_by_name("q.fifo").unwrap().messages.len(), 1);
}

#[test]
fn batches_list_their_entries() {
    let mut store = SqsStore::new();
    dispatch_at(&mut store, &ctx("Action=CreateQueue&QueueName=q", &[]), "rid", 0).ok().unwrap();
    let r = dispatch_at(
        &mut store,
        &ctx("Action=SendMessageBatch&QueueUrl=http://x/000000000000/q&SendMessageBatchRequestEntry.1.Id=a&SendMessageBatchRequestEntry.1.MessageBody=one&SendMessageBatchRequestEntry.2.Id=b&SendMessageBatchRequestEntry.2.MessageBody=two", &[]),
        "rid",
        0,
    )
    .ok()
    .unwrap();
    assert_eq!(r.body.matches("<SendMessageBatchResultEntry>").count(), 2);
    assert_eq!(store.get_queue_by_name("q").unwrap().messages.len(), 2);
    let r = dispatch_at(
        &mut store,
        &ctx("Action=DeleteMessageBatch&QueueUrl=http://x/000000000000/q&DeleteMessageBatchRequestEntry.1.Id=x&DeleteMessageBatchRequestEntry.1.ReceiptHandle=none", &[]),
        "rid",
        0,
    )
    .ok()
    .unwrap();
    assert!(r.body.contains("<DeleteMessageBatchResultEntry><Id>x</Id></DeleteMessageBatchResultEntry>"));
}

#[test]
fn purge_empties_queue() {
    let mut store = SqsStore::new();
    dispatch_at(&mut store, &ctx("Action=CreateQueue&QueueName=q", &[]), "rid", 0).ok().unwrap();
    dispatch_at(&mut store, &ctx("Action=SendMessage&QueueUrl=http://x/000000000000/q&MessageBody=a", &[]), "rid", 0)
        .ok()
        .unwrap();
    dispatch_at(&mut store, &ctx("Action=PurgeQueue&QueueUrl=http://x/000000000000/q", &[]), "rid", 0).ok().unwrap();
    assert_eq!(store.get_queue_by_name("q").unwrap().messages.len(), 0);
}

#[test]
fn json_mode_uses_target_and_json_body() {
    let mut store = SqsStore::new();
    let c = ctx(
        "{\"QueueName\":\"jq\"}",
        &[("x-amz-target", "AmazonSQS.CreateQueue"), ("x-amzn-query-mode", "true")],
    );
    let r = dispatch_at(&mut store, &c, "rid", 0).ok().unwrap();
    assert_eq!(r.content_type, "application/x-amz-json-1.0");
    assert_eq!(r.body, "{\"QueueUrl\":\"http://localhost:4566/000000000000/jq\"}");
    let c = ctx("{\"QueueName\":\"missing\"}", &[("x-amz-target", "AmazonSQS.GetQueueUrl"), ("x-amzn-query-mode", "true")]);
    let r = dispatch_at(&mut store, &c, "rid", 0).ok().unwrap();
    assert_eq!(
        r.body,
        "{\"__type\":\"AWS.SimpleQueueService.NonExistentQueue\",\"message\":\"The specified queue does not exist.\"}"
    );
    let c = ctx(
        "{\"QueueUrl\":\"http://x/000000000000/jq\",\"MessageBody\":\"say \\\"hi\\\"\"}",
        &[("x-amz-target", "AmazonSQS.SendMessage"), ("x-amzn-query-mode", "true")],
    );
    let r = dispatch_at(&mut store, &c, "rid", 0).ok().unwrap();
    assert!(r.body.starts_with("{\"MD5OfMessageBody\":\""));
    let c = ctx("{\"QueueUrl\":\"http://x/000000000000/jq\"}", &[("x-amz-target", "AmazonSQS.ReceiveMessage"), ("x-amzn-query-mode", "true")]);
    let r = dispatch_at(&mut store, &c, "rid", 0).ok().unwrap();
    assert!(r.body.contains("\"Body\":\"say \\\"hi\\\"\""));
}

#[test]
fn host_header_moves_urls_onto_the_endpoint() {
    let mut store = SqsStore::new();
    let r = dispatch_at(&mut store, &ctx("Action=CreateQueue&QueueName=q", &[("host", "localhost:4566")]), "rid", 0)
        .ok()
        .unwrap();
    assert!(r.body.contains("<QueueUrl>http://sqs.us-east-1.localhost.localstack.cloud:4566/000000000000/q</QueueUrl>"));
}

#[test]
fn url_helpers() {
    assert_eq!(queue_name_from_url("http://h:1/000000000000/my-q"), "my-q");
    assert_eq!(queue_name_from_url("plain"), "plain");
    assert_eq!(queue_name_from_url("ends/"), "");
    assert_eq!(
        normalize_queue_url_for_endpoint("http://sqs.us-east-1.localhost.localstack.cloud:4566/000000000000/q", "http://localhost:4566/"),
        "http://localhost:4566/000000000000/q"
    );
    assert_eq!(
        normalize_queue_url_for_endpoint("https://other.host/123/q", "http://e:1"),
        "http://e:1/123/q"
    );
    assert_eq!(normalize_queue_url_for_endpoint("no-scheme", "http://e"), "no-scheme");
}

#[test]
fn indexed_parameters() {
    let mut p = StrMap::new();
    p.insert("Attribute.1.Name".to_string(), "A".to_string());
    p.insert("Attribute.1.Value".to_string(), "1".to_string());
    p.insert("Attribute.2.Name".to_string(), "B".to_string());
    p.insert("Attribute.3.Name".to_string(), "C".to_string());
    p.insert("Attribute.3.Value".to_string(), "3".to_string());
    let kv = extract_indexed_kv(&p, "Attribute");
    assert_eq!(kv.len(), 1);
    assert_eq!(kv.get("A"), Some(&"1".to_string()));

    let mut p = StrMap::new();
    p.insert("MessageAttribute.1.Name".to_string(), "color".to_string());
    p.insert("MessageAttribute.1.Value.StringValue".to_string(), "red".to_string());
    p.insert("MessageAttribute.2.Name".to_string(), "n".to_string());
    p.insert("MessageAttribute.2.Value.DataType".to_string(), "Number".to_string());
    let attrs = extract_message_attributes(&p);
    assert_eq!(attrs.len(), 2);
    let c = attrs.get("color").unwrap();
    assert_eq!(c.data_type, "");
    assert_eq!(c.string_value, Some("red".to_string()));
    let n = attrs.get("n").unwrap();
    assert_eq!(n.data_type, "Number");
    assert_eq!(n.string_value, None);
}
