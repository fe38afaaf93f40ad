use openstack_services::http::{BodyValue, DispatchResponse, RequestContext};
use openstack_services::secretsmanager::SecretsManagerStore;
use openstack_services::secretsmanager_api::{dispatch, dispatch_at};
use openstack_services::strmap::StrMap;

fn make_ctx(operation: &str, fields: &[(&str, BodyValue)]) -> RequestContext {
    let mut body = StrMap::new();
    for (k, v) in fields {
        let v = match v {
            BodyValue::Str(s) => BodyValue::Str(s.clone()),
            BodyValue::Bool(b) => BodyValue::Bool(*b),
            BodyValue::Other => BodyValue::Other,
        };
        body.insert(k.to_string(), v);
    }
    RequestContext {
        service: "secretsmanager".to_string(),
        operation: operation.to_string(),
        region: "us-east-1".to_string(),
        account_id: "000000000000".to_string(),
        method: "POST".to_string(),
        path: "/".to_string(),
        headers: StrMap::new(),
        query_params: StrMap::new(),
        raw_body: Vec::new(),
        request_body: body,
    }
}

fn s(v: &str) -> BodyValue {
    BodyValue::Str(v.to_string())
}

fn call(store: &mut SecretsManagerStore, op: &str, fields: &[(&str, BodyValue)]) -> DispatchResponse {
    match dispatch(store, &make_ctx(op, fields)) {
        Ok(r) => r,
        Err(_) => panic!("request refused"),
    }
}

fn call_at(store: &mut SecretsManagerStore, op: &str, fields: &[(&str, BodyValue)], now: i64, vid: &str) -> DispatchResponse {
    match dispatch_at(store, &make_ctx(op, fields), now, "abcdef", vid) {
        Ok(r) => r,
        Err(_) => panic!("request refused"),
    }
}

#[test]
fn test_create_and_get_secret() {
    let mut st = SecretsManagerStore::new();
    let r = call_at(&mut st, "CreateSecret", &[("Name", s("my-secret")), ("SecretString", s("s3cr3t!"))], 1_700_000_000_123, "v-1");
    assert_eq!(r.status_code, 200, "{}", r.body);
    assert_eq!(
        r.body,
        "{\"ARN\":\"arn:aws:secretsmanager:us-east-1:000000000000:secret:my-secret-abcdef\",\"Name\":\"my-secret\",\"VersionId\":\"v-1\"}"
    );
    assert_eq!(r.content_type, "application/x-amz-json-1.1");
    let r = call(&mut st, "GetSecretValue", &[("SecretId", s("my-secret"))]);
    assert_eq!(r.status_code, 200, "{}", r.body);
    assert_eq!(
        r.body,
        "{\"ARN\":\"arn:aws:secretsmanager:us-east-1:000000000000:secret:my-secret-abcdef\",\"CreatedDate\":1700000000,\
\"Name\":\"my-secret\",\"SecretString\":\"s3cr3t!\",\"VersionId\":\"v-1\",\"VersionStages\":[\"AWSCURRENT\"]}"
    );
    // The ARN finds the secret too.
    let r = call(
        &mut st,
        "GetSecretValue",
        &[("SecretId", s("arn:aws:secretsmanager:us-east-1:000000000000:secret:my-secret-abcdef"))],
    );
    assert_eq!(r.status_code, 200);
}

#[test]
fn test_create_secret_duplicate() {
    let mut st = SecretsManagerStore::new();
    call(&mut st, "CreateSecret", &[("Name", s("dup")), ("SecretString", s("val"))]);
    let r = call(&mut st, "CreateSecret", &[("Name", s("dup")), ("SecretString", s("val2"))]);
    assert_eq!(r.status_code, 400);
    assert_eq!(r.body, "{\"Message\":\"Secret dup already exists\",\"__type\":\"ResourceExistsException\"}");
    assert_eq!(r.content_type, "application/json");
}

#[test]
fn test_put_secret_value() {
    let mut st = SecretsManagerStore::new();
    call(&mut st, "CreateSecret", &[("Name", s("mutable")), ("SecretString", s("v1"))]);
    let r = call_at(&mut st, "PutSecretValue", &[("SecretId", s("mutable")), ("SecretString", s("v2"))], 0, "v-2");
    assert_eq!(r.status_code, 200, "{}", r.body);
    assert!(r.body.ends_with("\"VersionId\":\"v-2\",\"VersionStages\":[\"AWSCURRENT\"]}"));
    let r = call(&mut st, "GetSecretValue", &[("SecretId", s("mutable"))]);
    assert!(r.body.contains("\"SecretString\":\"v2\""));
    let secret = st.secrets.get("mutable").unwrap();
    assert_eq!(secret.versions.len(), 2);
    assert_eq!(secret.versions[0].version_stages, vec!["AWSPREVIOUS".to_string()]);
    assert_eq!(secret.versions[1].version_stages, vec!["AWSCURRENT".to_string()]);
}

#[test]
fn test_describe_secret() {
    let mut st = SecretsManagerStore::new();
    call_at(
        &mut st,
        "CreateSecret",
        &[("Name", s("described")), ("SecretString", s("x")), ("Description", s("desc1"))],
        -1,
        "v",
    );
    let r = call(&mut st, "DescribeSecret", &[("SecretId", s("described"))]);
    assert_eq!(r.status_code, 200, "{}", r.body);
    assert_eq!(
        r.body,
        "{\"ARN\":\"arn:aws:secretsmanager:us-east-1:000000000000:secret:described-abcdef\",\"Name\":\"described\",\
\"Description\":\"desc1\",\"CreatedDate\":-1,\"LastChangedDate\":-1}"
    );
}

#[test]
fn test_list_secrets() {
    let mut st = SecretsManagerStore::new();
    call(&mut st, "CreateSecret", &[("Name", s("s1")), ("SecretString", s("a"))]);
    call(&mut st, "CreateSecret", &[("Name", s("s2")), ("SecretString", s("b"))]);
    call(&mut st, "CreateSecret", &[("Name", s("s3")), ("SecretString", s("c"))]);
    call(&mut st, "DeleteSecret", &[("SecretId", s("s2"))]);
    let r = call(&mut st, "ListSecrets", &[]);
    assert_eq!(r.status_code, 200);
    assert!(r.body.starts_with("{\"SecretList\":[{\"ARN\""));
    assert!(r.body.contains("\"Name\":\"s1\""));
    assert!(!r.body.contains("\"Name\":\"s2\""));
    assert!(r.body.contains("\"Name\":\"s3\""));
    let empty = call(&mut SecretsManagerStore::new(), "ListSecrets", &[]);
    assert_eq!(empty.body, "{\"SecretList\":[]}");
}

#[test]
fn test_delete_secret() {
    let mut st = SecretsManagerStore::new();
    call(&mut st, "CreateSecret", &[("Name", s("to-delete")), ("SecretString", s("bye"))]);
    let r = call(
        &mut st,
        "DeleteSecret",
        &[("SecretId", s("to-delete")), ("ForceDeleteWithoutRecovery", BodyValue::Bool(true))],
    );
    assert_eq!(r.status_code, 200, "{}", r.body);
    let r = call(&mut st, "GetSecretValue", &[("SecretId", s("to-delete"))]);
    assert_eq!(r.status_code, 400);
}

#[test]
fn scheduled_deletion_and_restore() {
    let mut st = SecretsManagerStore::new();
    call(&mut st, "CreateSecret", &[("Name", s("later")), ("SecretString", s("x"))]);
    let r = call_at(&mut st, "DeleteSecret", &[("SecretId", s("later"))], 1_000, "unused");
    assert!(r.body.contains("\"DeletionDate\":2592001,"));
    let r = call(&mut st, "GetSecretValue", &[("SecretId", s("later"))]);
    assert_eq!(r.body, "{\"Message\":\"Secret is scheduled for deletion\",\"__type\":\"InvalidRequestException\"}");
    let r = call(&mut st, "CreateSecret", &[("Name", s("later")), ("SecretString", s("y"))]);
    assert_eq!(r.status_code, 200);
    call(&mut st, "DeleteSecret", &[("SecretId", s("later"))]);
    let r = call(&mut st, "RestoreSecret", &[("SecretId", s("later"))]);
    assert_eq!(r.status_code, 200);
    let r = call(&mut st, "GetSecretValue", &[("SecretId", s("later"))]);
    assert!(r.body.contains("\"SecretString\":\"y\""));
}

#[test]
fn test_update_secret() {
    let mut st = SecretsManagerStore::new();
    call(&mut st, "CreateSecret", &[("Name", s("updatable")), ("SecretString", s("old"))]);
    let r = call(
        &mut st,
        "UpdateSecret",
        &[("SecretId", s("updatable")), ("SecretString", s("new")), ("Description", s("updated"))],
    );
    assert_eq!(r.status_code, 200, "{}", r.body);
    let r = call(&mut st, "GetSecretValue", &[("SecretId", s("updatable"))]);
    assert!(r.body.contains("\"SecretString\":\"new\""));
    let secret = st.secrets.get("updatable").unwrap();
    assert_eq!(secret.description, "updated");
    assert!(secret.versions[0].version_stages.is_empty());
}

#[test]
fn test_get_secret_not_found() {
    let mut st = SecretsManagerStore::new();
    let r = call(&mut st, "GetSecretValue", &[("SecretId", s("nonexistent"))]);
    assert_eq!(r.status_code, 400);
    assert!(r.body.contains("ResourceNotFoundException"));
    let r = call(&mut st, "DescribeSecret", &[("SecretId", s("nonexistent"))]);
    assert_eq!(r.body, "{\"Message\":\"Secret nonexistent not found\",\"__type\":\"ResourceNotFoundException\"}");
}

#[test]
fn validation_and_unknown_operations() {
    let mut st = SecretsManagerStore::new();
    let r = call(&mut st, "CreateSecret", &[]);
    assert_eq!(r.body, "{\"Message\":\"Name is required\",\"__type\":\"ValidationException\"}");
    let r = call(&mut st, "GetSecretValue", &[("SecretId", BodyValue::Bool(true))]);
    assert_eq!(r.body, "{\"Message\":\"SecretId is required\",\"__type\":\"ValidationException\"}");
    let r = call(&mut st, "RotateSecret", &[]);
    assert_eq!(r.status_code, 501);
    assert_eq!(r.body, "{\"Message\":\"Operation not implemented: RotateSecret\",\"__type\":\"NotImplementedException\"}");
}

#[test]
fn created_secret_arn_ends_in_six_hex_digits() {
    let mut st = SecretsManagerStore::new();
    let r = call(&mut st, "CreateSecret", &[("Name", s("idtest")), ("SecretString", s("v"))]);
    let marker = "secret:idtest-";
    let start = r.body.find(marker).unwrap() + marker.len();
    let suffix: String = r.body[start..].chars().take_while(|c| *c != '"').collect();
    assert_eq!(suffix.len(), 6);
    assert!(suffix.chars().all(|c| c.is_ascii_digit() || ('a'..='f').contains(&c)));
}
