use openstack_services::http::{DispatchError, DispatchResponse, RequestContext};
use openstack_services::sqs::SqsStore;
use openstack_services::sqs_api::dispatch;
use openstack_services::strmap::StrMap;

fn make_ctx(body: &[u8]) -> RequestContext {
    RequestContext {
        service: "sqs".to_string(),
        operation: String::new(),
        region: "us-east-1".to_string(),
        account_id: "000000000000".to_string(),
        method: "POST".to_string(),
        path: "/".to_string(),
        headers: StrMap::new(),
        query_params: StrMap::new(),
        raw_body: body.to_vec(),
        request_body: StrMap::new(),
    }
}

fn url_encode(s: &str) -> String {
    let mut out = String::new();
    for b in s.bytes() {
        match b {
            b'A'..=b'Z' | b'a'..=b'z' | b'0'..=b'9' | b'-' | b'_' | b'.' | b'~' => out.push(b as char),
            _ => out.push_str(&format!("%{:02X}", b)),
        }
    }
    out
}

fn form_body(params: &[(&str, &str)]) -> Vec<u8> {
    params.iter().map(|(k, v)| format!("{}={}", k, url_encode(v))).collect::<Vec<_>>().join("&").into_bytes()
}

fn send(store: &mut SqsStore, params: &[(&str, &str)]) -> Result<DispatchResponse, DispatchError> {
    dispatch(store, &make_ctx(&form_body(params)))
}

fn ok(store: &mut SqsStore, params: &[(&str, &str)]) -> DispatchResponse {
    match send(store, params) {
        Ok(r) => r,
        Err(_) => panic!("request refused"),
    }
}

fn between(xml: &str, open: &str, close: &str) -> String {
    xml.split(open).nth(1).unwrap().split(close).next().unwrap().to_string()
}

fn setup_queue(name: &str) -> (SqsStore, String) {
    let mut store = SqsStore::new();
    let resp = ok(&mut store, &[("Action", "CreateQueue"), ("QueueName", name)]);
    assert_eq!(resp.status_code, 200);
    let url = between(&resp.body, "<QueueUrl>", "</QueueUrl>");
    (store, url)
}

#[test]
fn test_create_queue() {
    let mut st = SqsStore::new();
    let resp = ok(&mut st, &[("Action", "CreateQueue"), ("QueueName", "test-queue")]);
    assert_eq!(resp.status_code, 200);
    assert!(resp.body.contains("CreateQueueResponse"));
    assert!(resp.body.contains("QueueUrl"));
    assert!(resp.body.contains("test-queue"));
}

#[test]
fn test_create_queue_idempotent() {
    let mut st = SqsStore::new();
    let r1 = ok(&mut st, &[("Action", "CreateQueue"), ("QueueName", "idempotent-q")]);
    let r2 = ok(&mut st, &[("Action", "CreateQueue"), ("QueueName", "idempotent-q")]);
    assert_eq!(r1.status_code, 200);
    assert_eq!(r2.status_code, 200);
    assert_eq!(between(&r1.body, "<QueueUrl>", "</QueueUrl>"), between(&r2.body, "<QueueUrl>", "</QueueUrl>"));
}

#[test]
fn test_create_queue_missing_name() {
    let mut st = SqsStore::new();
    let resp = ok(&mut st, &[("Action", "CreateQueue")]);
    assert_eq!(resp.status_code, 400);
    assert!(resp.body.contains("MissingParameter"));
}

#[test]
fn test_delete_queue() {
    let (mut st, url) = setup_queue("del-queue");
    let resp = ok(&mut st, &[("Action", "DeleteQueue"), ("QueueUrl", &url)]);
    assert_eq!(resp.status_code, 200);
    assert!(resp.body.contains("DeleteQueueResponse"));
    let resp2 = ok(&mut st, &[("Action", "GetQueueUrl"), ("QueueName", "del-queue")]);
    assert_eq!(resp2.status_code, 400);
    assert!(resp2.body.contains("NonExistentQueue"));
}

#[test]
fn test_delete_nonexistent_queue() {
    let mut st = SqsStore::new();
    let resp = ok(&mut st, &[("Action", "DeleteQueue"), ("QueueUrl", "http://localhost:4566/000000000000/ghost-queue")]);
    assert_eq!(resp.status_code, 400);
    assert!(resp.body.contains("NonExistentQueue"));
}

#[test]
fn test_list_queues() {
    let mut st = SqsStore::new();
    for name in &["alpha-q", "beta-q"] {
        ok(&mut st, &[("Action", "CreateQueue"), ("QueueName", name)]);
    }
    let resp = ok(&mut st, &[("Action", "ListQueues")]);
    assert_eq!(resp.status_code, 200);
    assert!(resp.body.contains("alpha-q"));
    assert!(resp.body.contains("beta-q"));
}

#[test]
fn test_list_queues_with_prefix() {
    let mut st = SqsStore::new();
    for name in &["prod-queue-1", "prod-queue-2", "dev-queue"] {
        ok(&mut st, &[("Action", "CreateQueue"), ("QueueName", name)]);
    }
    let resp = ok(&mut st, &[("Action", "ListQueues"), ("QueueNamePrefix", "prod-")]);
    assert!(resp.body.contains("prod-queue-1"));
    assert!(resp.body.contains("prod-queue-2"));
    assert!(!resp.body.contains("dev-queue"));
}

#[test]
fn test_get_queue_url() {
    let (mut st, original_url) = setup_queue("url-queue");
    let resp = ok(&mut st, &[("Action", "GetQueueUrl"), ("QueueName", "url-queue")]);
    assert_eq!(resp.status_code, 200);
    assert!(resp.body.contains(&original_url));
}

#[test]
fn test_get_queue_attributes() {
    let (mut st, url) = setup_queue("attr-queue");
    let resp = ok(&mut st, &[("Action", "GetQueueAttributes"), ("QueueUrl", &url), ("AttributeName.1", "All")]);
    assert_eq!(resp.status_code, 200);
    assert!(resp.body.contains("QueueArn"));
    assert!(resp.body.contains("VisibilityTimeout"));
    assert!(resp.body.contains("ApproximateNumberOfMessages"));
}

#[test]
fn test_set_queue_attributes() {
    let (mut st, url) = setup_queue("setattr-queue");
    let resp = ok(
        &mut st,
        &[
            ("Action", "SetQueueAttributes"),
            ("QueueUrl", &url),
            ("Attribute.1.Name", "VisibilityTimeout"),
            ("Attribute.1.Value", "60"),
        ],
    );
    assert_eq!(resp.status_code, 200);
    let resp2 = ok(
        &mut st,
        &[("Action", "GetQueueAttributes"), ("QueueUrl", &url), ("AttributeName.1", "VisibilityTimeout")],
    );
    assert!(resp2.body.contains("<Value>60</Value>"));
}

#[test]
fn test_send_and_receive_message() {
    let (mut st, url) = setup_queue("msg-queue");
    let resp = ok(&mut st, &[("Action", "SendMessage"), ("QueueUrl", &url), ("MessageBody", "Hello, SQS!")]);
    assert_eq!(resp.status_code, 200);
    assert!(resp.body.contains("MessageId"));
    assert!(resp.body.contains("MD5OfMessageBody"));
    let resp2 = ok(&mut st, &[("Action", "ReceiveMessage"), ("QueueUrl", &url), ("MaxNumberOfMessages", "1")]);
    assert_eq!(resp2.status_code, 200);
    assert!(resp2.body.contains("Hello, SQS!"));
    assert!(resp2.body.contains("ReceiptHandle"));
}

#[test]
fn test_receive_empty_queue() {
    let (mut st, url) = setup_queue("empty-queue");
    let resp = ok(&mut st, &[("Action", "ReceiveMessage"), ("QueueUrl", &url)]);
    assert_eq!(resp.status_code, 200);
    assert!(!resp.body.contains("<Message>"));
}

#[test]
fn test_delete_message() {
    let (mut st, url) = setup_queue("delete-msg-queue");
    ok(&mut st, &[("Action", "SendMessage"), ("QueueUrl", &url), ("MessageBody", "to-delete")]);
    let resp2 = ok(&mut st, &[("Action", "ReceiveMessage"), ("QueueUrl", &url)]);
    let rh = between(&resp2.body, "<ReceiptHandle>", "</ReceiptHandle>");
    let resp3 = ok(&mut st, &[("Action", "DeleteMessage"), ("QueueUrl", &url), ("ReceiptHandle", &rh)]);
    assert_eq!(resp3.status_code, 200);
    let _ = send(
        &mut st,
        &[("Action", "ChangeMessageVisibility"), ("QueueUrl", &url), ("ReceiptHandle", &rh), ("VisibilityTimeout", "0")],
    );
    let resp5 = ok(
        &mut st,
        &[("Action", "GetQueueAttributes"), ("QueueUrl", &url), ("AttributeName.1", "ApproximateNumberOfMessages")],
    );
    assert!(resp5.body.contains("<Value>0</Value>"));
}

#[test]
fn test_purge_queue() {
    let (mut st, url) = setup_queue("purge-queue");
    for i in 0..5 {
        let body = format!("msg-{i}");
        ok(&mut st, &[("Action", "SendMessage"), ("QueueUrl", &url), ("MessageBody", &body)]);
    }
    let resp = ok(&mut st, &[("Action", "PurgeQueue"), ("QueueUrl", &url)]);
    assert_eq!(resp.status_code, 200);
    let resp2 = ok(&mut st, &[("Action", "ReceiveMessage"), ("QueueUrl", &url)]);
    assert!(!resp2.body.contains("<Message>"));
}

#[test]
fn test_send_message_batch() {
    let (mut st, url) = setup_queue("batch-send-queue");
    let resp = ok(
        &mut st,
        &[
            ("Action", "SendMessageBatch"),
            ("QueueUrl", &url),
            ("SendMessageBatchRequestEntry.1.Id", "msg1"),
            ("SendMessageBatchRequestEntry.1.MessageBody", "body-one"),
            ("SendMessageBatchRequestEntry.2.Id", "msg2"),
            ("SendMessageBatchRequestEntry.2.MessageBody", "body-two"),
        ],
    );
    assert_eq!(resp.status_code, 200);
    assert!(resp.body.contains("SendMessageBatchResultEntry"));
    assert!(resp.body.contains("msg1"));
    assert!(resp.body.contains("msg2"));
    let resp2 = ok(&mut st, &[("Action", "ReceiveMessage"), ("QueueUrl", &url), ("MaxNumberOfMessages", "10")]);
    assert!(resp2.body.contains("body-one"));
    assert!(resp2.body.contains("body-two"));
}

fn handles(xml: &str) -> Vec<String> {
    xml.split("<ReceiptHandle>").skip(1).map(|s| s.split("</ReceiptHandle>").next().unwrap().to_string()).collect()
}

#[test]
fn test_delete_message_batch() {
    let (mut st, url) = setup_queue("batch-del-queue");
    ok(
        &mut st,
        &[
            ("Action", "SendMessageBatch"),
            ("QueueUrl", &url),
            ("SendMessageBatchRequestEntry.1.Id", "m1"),
            ("SendMessageBatchRequestEntry.1.MessageBody", "b1"),
            ("SendMessageBatchRequestEntry.2.Id", "m2"),
            ("SendMessageBatchRequestEntry.2.MessageBody", "b2"),
        ],
    );
    let resp2 = ok(
        &mut st,
        &[("Action", "ReceiveMessage"), ("QueueUrl", &url), ("MaxNumberOfMessages", "10"), ("VisibilityTimeout", "0")],
    );
    let rhs = handles(&resp2.body);
    assert_eq!(rhs.len(), 2);
    let resp3 = ok(
        &mut st,
        &[
            ("Action", "DeleteMessageBatch"),
            ("QueueUrl", &url),
            ("DeleteMessageBatchRequestEntry.1.Id", "d1"),
            ("DeleteMessageBatchRequestEntry.1.ReceiptHandle", &rhs[0]),
            ("DeleteMessageBatchRequestEntry.2.Id", "d2"),
            ("DeleteMessageBatchRequestEntry.2.ReceiptHandle", &rhs[1]),
        ],
    );
    assert_eq!(resp3.status_code, 200);
    assert!(resp3.body.contains("DeleteMessageBatchResultEntry"));
}

#[test]
fn test_visibility_timeout() {
    let (mut st, url) = setup_queue("vis-queue");
    ok(&mut st, &[("Action", "SendMessage"), ("QueueUrl", &url), ("MessageBody", "invisible")]);
    let recv = [("Action", "ReceiveMessage"), ("QueueUrl", url.as_str()), ("VisibilityTimeout", "300")];
    let resp2 = ok(&mut st, &recv);
    assert!(resp2.body.contains("invisible"));
    let resp3 = ok(&mut st, &recv);
    assert!(!resp3.body.contains("invisible"));
    let rh = between(&resp2.body, "<ReceiptHandle>", "</ReceiptHandle>");
    ok(
        &mut st,
        &[("Action", "ChangeMessageVisibility"), ("QueueUrl", &url), ("ReceiptHandle", &rh), ("VisibilityTimeout", "0")],
    );
    let resp5 = ok(&mut st, &recv);
    assert!(resp5.body.contains("invisible"));
}

#[test]
fn test_change_message_visibility_batch() {
    let (mut st, url) = setup_queue("cvis-batch-queue");
    ok(
        &mut st,
        &[
            ("Action", "SendMessageBatch"),
            ("QueueUrl", &url),
            ("SendMessageBatchRequestEntry.1.Id", "m1"),
            ("SendMessageBatchRequestEntry.1.MessageBody", "msg1"),
            ("SendMessageBatchRequestEntry.2.Id", "m2"),
            ("SendMessageBatchRequestEntry.2.MessageBody", "msg2"),
        ],
    );
    let resp2 = ok(
        &mut st,
        &[("Action", "ReceiveMessage"), ("QueueUrl", &url), ("MaxNumberOfMessages", "10"), ("VisibilityTimeout", "300")],
    );
    let rhs = handles(&resp2.body);
    assert_eq!(rhs.len(), 2);
    let resp3 = ok(
        &mut st,
        &[
            ("Action", "ChangeMessageVisibilityBatch"),
            ("QueueUrl", &url),
            ("ChangeMessageVisibilityBatchRequestEntry.1.Id", "e1"),
            ("ChangeMessageVisibilityBatchRequestEntry.1.ReceiptHandle", &rhs[0]),
            ("ChangeMessageVisibilityBatchRequestEntry.1.VisibilityTimeout", "0"),
            ("ChangeMessageVisibilityBatchRequestEntry.2.Id", "e2"),
            ("ChangeMessageVisibilityBatchRequestEntry.2.ReceiptHandle", &rhs[1]),
            ("ChangeMessageVisibilityBatchRequestEntry.2.VisibilityTimeout", "0"),
        ],
    );
    assert_eq!(resp3.status_code, 200);
    assert!(resp3.body.contains("ChangeMessageVisibilityBatchResultEntry"));
}

#[test]
fn test_fifo_queue_deduplication() {
    let mut st = SqsStore::new();
    let resp = ok(&mut st, &[("Action", "CreateQueue"), ("QueueName", "my-queue.fifo")]);
    assert_eq!(resp.status_code, 200);
    let url = between(&resp.body, "<QueueUrl>", "</QueueUrl>");
    for _ in 0..2 {
        let r = ok(
            &mut st,
            &[
                ("Action", "SendMessage"),
                ("QueueUrl", &url),
                ("MessageBody", "fifo-body"),
                ("MessageGroupId", "group-1"),
                ("MessageDeduplicationId", "dedup-abc"),
            ],
        );
        assert_eq!(r.status_code, 200);
    }
    let resp3 = ok(&mut st, &[("Action", "ReceiveMessage"), ("QueueUrl", &url), ("MaxNumberOfMessages", "10")]);
    let count = resp3.body.matches("<Message>").count();
    assert_eq!(count, 1, "FIFO dedup should result in only 1 message, got {count}");
}

#[test]
fn test_message_attributes() {
    let (mut st, url) = setup_queue("attr-msg-queue");
    let resp = ok(
        &mut st,
        &[
            ("Action", "SendMessage"),
            ("QueueUrl", &url),
            ("MessageBody", "with-attrs"),
            ("MessageAttribute.1.Name", "Color"),
            ("MessageAttribute.1.Value.DataType", "String"),
            ("MessageAttribute.1.Value.StringValue", "Blue"),
        ],
    );
    assert_eq!(resp.status_code, 200);
    let resp2 = ok(&mut st, &[("Action", "ReceiveMessage"), ("QueueUrl", &url)]);
    assert!(resp2.body.contains("Color"));
    assert!(resp2.body.contains("Blue"));
    assert!(resp2.body.contains("String"));
}

#[test]
fn test_delay_queue_message_not_immediately_visible() {
    let mut st = SqsStore::new();
    let resp = ok(
        &mut st,
        &[
            ("Action", "CreateQueue"),
            ("QueueName", "delay-queue"),
            ("Attribute.1.Name", "DelaySeconds"),
            ("Attribute.1.Value", "300"),
        ],
    );
    let url = between(&resp.body, "<QueueUrl>", "</QueueUrl>");
    ok(&mut st, &[("Action", "SendMessage"), ("QueueUrl", &url), ("MessageBody", "delayed")]);
    let resp3 = ok(&mut st, &[("Action", "ReceiveMessage"), ("QueueUrl", &url)]);
    assert!(!resp3.body.contains("delayed"));
}

#[test]
fn sqs_tests_test_unknown_action() {
    let mut st = SqsStore::new();
    let result = send(&mut st, &[("Action", "BogusAction")]);
    assert!(result.is_err());
}

#[test]
fn sqs_tests_test_missing_action() {
    let mut st = SqsStore::new();
    let result = send(&mut st, &[("QueueName", "no-action")]);
    assert!(result.is_err());
}
