use openstack_services::http::{DispatchError, DispatchResponse, RequestContext};
use openstack_services::ses::SesStore;
use openstack_services::ses_api::{dispatch, dispatch_at};
use openstack_services::strmap::StrMap;

fn make_ctx(operation: &str, params: &[(&str, &str)]) -> RequestContext {
    let mut q = StrMap::new();
    for (k, v) in params {
        q.insert(k.to_string(), v.to_string());
    }
    RequestContext {
        service: "ses".to_string(),
        operation: operation.to_string(),
        region: "us-east-1".to_string(),
        account_id: "000000000000".to_string(),
        method: "POST".to_string(),
        path: "/".to_string(),
        headers: StrMap::new(),
        query_params: q,
        raw_body: Vec::new(),
        request_body: StrMap::new(),
    }
}

fn call(store: &mut SesStore, op: &str, params: &[(&str, &str)]) -> DispatchResponse {
    match dispatch(store, &make_ctx(op, params)) {
        Ok(r) => r,
        Err(_) => panic!("request refused"),
    }
}

fn call_at(store: &mut SesStore, op: &str, params: &[(&str, &str)], id: &str, now: i64) -> DispatchResponse {
    match dispatch_at(store, &make_ctx(op, params), "rid", id, now) {
        Ok(r) => r,
        Err(_) => panic!("request refused"),
    }
}

#[test]
fn test_verify_email_identity() {
    let mut st = SesStore::new();
    let r = call(&mut st, "VerifyEmailIdentity", &[("EmailAddress", "test@example.com")]);
    assert_eq!(r.status_code, 200);
    assert_eq!(r.content_type, "text/xml");
    assert!(r.body.contains("VerifyEmailIdentityResponse"));
    assert!(r.body.contains("RequestId"));
    assert!(st.identities.get("test@example.com").unwrap().verified);
}

#[test]
fn test_list_identities() {
    let mut st = SesStore::new();
    call(&mut st, "VerifyEmailIdentity", &[("EmailAddress", "alice@example.com")]);
    call(&mut st, "VerifyEmailIdentity", &[("EmailAddress", "bob@example.com")]);
    let r = call(&mut st, "ListIdentities", &[]);
    assert_eq!(r.status_code, 200);
    assert!(r.body.contains("<Identities>"));
    assert!(r.body.contains("alice@example.com"));
    assert!(r.body.contains("bob@example.com"));
    assert!(r.body.contains("<Identities><member>alice@example.com</member><member>bob@example.com</member></Identities>"));
}

#[test]
fn list_identities_empty_and_mixed() {
    let mut st = SesStore::new();
    let r = call(&mut st, "ListIdentities", &[]);
    assert!(r.body.contains("<ListIdentitiesResult><Identities /></ListIdentitiesResult>"));
    call(&mut st, "VerifyEmailIdentity", &[("EmailAddress", "a@example.com")]);
    call(&mut st, "VerifyDomainIdentity", &[("Domain", "example.org")]);
    let r = call(&mut st, "ListIdentities", &[]);
    assert!(r.body.contains("<Identities><member>a@example.com</member><member>example.org</member></Identities>"));
}

#[test]
fn verify_domain_identity_in_detail() {
    let mut st = SesStore::new();
    let r = call(&mut st, "VerifyDomainIdentity", &[("Domain", "mail.example.com")]);
    assert!(r.body.contains("<VerificationToken>mail-example-com-verification-token</VerificationToken>"));
}

#[test]
fn verify_domain_identity_missing_domain_in_detail() {
    let mut st = SesStore::new();
    let r = call(&mut st, "VerifyDomainIdentity", &[]);
    assert_eq!(r.status_code, 400);
    assert!(r.body.contains("<Error><Code>MissingParameter</Code><Message>Domain required</Message></Error>"));
}

#[test]
fn get_identity_verification_attributes_in_detail() {
    let mut st = SesStore::new();
    call(&mut st, "VerifyEmailIdentity", &[("EmailAddress", "v@example.com")]);
    let r = call(
        &mut st,
        "GetIdentityVerificationAttributes",
        &[("Identities.member.1", "v@example.com"), ("Identities.member.2", "nobody@example.com")],
    );
    assert!(r.body.contains(
        "<VerificationAttributes><entry><key>v@example.com</key><value><VerificationStatus>Success</VerificationStatus>\
</value></entry></VerificationAttributes>"
    ));
}

#[test]
fn send_email_multiple_recipients_in_detail() {
    let mut st = SesStore::new();
    let r = call_at(
        &mut st,
        "SendEmail",
        &[
            ("Source", "from@example.com"),
            ("Destination.ToAddresses.member.1", "a@example.com"),
            ("Destination.ToAddresses.member.2", "b@example.com"),
            ("Destination.CcAddresses.member.1", "c@example.com"),
            ("Message.Subject.Data", "Hi"),
            ("Message.Body.Text.Data", "Body"),
        ],
        "msg-1",
        0,
    );
    assert!(r.body.contains("<SendEmailResult><MessageId>msg-1</MessageId></SendEmailResult>"));
    let e = st.emails.get("msg-1").unwrap();
    assert_eq!(e.destination_to, vec!["a@example.com".to_string(), "b@example.com".to_string()]);
    assert_eq!(e.destination_cc, vec!["c@example.com".to_string()]);
    assert!(e.destination_bcc.is_empty());
    assert_eq!(e.subject, "Hi");
    assert_eq!(e.body_html, "");
    let r = call(&mut st, "SendEmail", &[]);
    assert!(r.body.contains("<Message>Source required</Message>"));
}

#[test]
fn send_raw_email_in_detail() {
    let mut st = SesStore::new();
    call_at(&mut st, "SendRawEmail", &[("RawMessage.Data", "raw")], "m", 0);
    let e = st.emails.get("m").unwrap();
    assert_eq!(e.source, "unknown");
    assert_eq!(e.body_text, "raw");
}

#[test]
fn delete_identity_in_detail() {
    let mut st = SesStore::new();
    call(&mut st, "VerifyEmailIdentity", &[("EmailAddress", "x@example.com")]);
    let r = call(&mut st, "DeleteIdentity", &[("Identity", "x@example.com")]);
    assert_eq!(r.status_code, 200);
    assert!(st.identities.get("x@example.com").is_none());
    let r = call(&mut st, "DeleteIdentity", &[("Identity", "x@example.com")]);
    assert_eq!(r.status_code, 200);
}

#[test]
fn get_send_quota_after_sends_in_detail() {
    let mut st = SesStore::new();
    let r = call(&mut st, "GetSendQuota", &[]);
    assert!(r.body.contains(
        "<Max24HourSend>50000.0</Max24HourSend><MaxSendRate>14.0</MaxSendRate><SentLast24Hours>0</SentLast24Hours>"
    ));
    call(&mut st, "SendEmail", &[("Source", "a@example.com")]);
    call(&mut st, "SendEmail", &[("Source", "a@example.com")]);
    let r = call(&mut st, "GetSendQuota", &[]);
    assert!(r.body.contains("<SentLast24Hours>2</SentLast24Hours>"));
}

#[test]
fn get_send_statistics_after_sends_in_detail() {
    let mut st = SesStore::new();
    let r = call(&mut st, "GetSendStatistics", &[]);
    assert!(r.body.contains("<SendDataPoints></SendDataPoints>"));
    call(&mut st, "SendEmail", &[("Source", "a@example.com")]);
    let r = call_at(&mut st, "GetSendStatistics", &[], "unused", 3_600_000 + 59_000);
    assert!(r.body.contains(
        "<SendDataPoints><member><Timestamp>1970-01-01T01:00:00Z</Timestamp><DeliveryAttempts>1</DeliveryAttempts>\
<Bounces>0</Bounces><Complaints>0</Complaints><Rejects>0</Rejects></member></SendDataPoints>"
    ));
}

#[test]
fn create_and_get_template_in_detail() {
    let mut st = SesStore::new();
    let r = call_at(
        &mut st,
        "CreateTemplate",
        &[("Template.TemplateName", "welcome"), ("Template.SubjectPart", "Hello"), ("Template.TextPart", "Hi {{name}}")],
        "unused",
        1_000,
    );
    assert_eq!(r.status_code, 200);
    let r = call(&mut st, "GetTemplate", &[("TemplateName", "welcome")]);
    assert!(r.body.contains(
        "<Template><TemplateName>welcome</TemplateName><SubjectPart>Hello</SubjectPart><HtmlPart></HtmlPart>\
<TextPart>Hi {{name}}</TextPart></Template>"
    ));
    let r = call(&mut st, "ListTemplates", &[]);
    assert!(r.body.contains(
        "<TemplatesMetadata><member><Name>welcome</Name><CreatedTimestamp>1970-01-01T00:00:01Z</CreatedTimestamp></member></TemplatesMetadata>"
    ));
    let r = call(&mut st, "CreateTemplate", &[("Template.TemplateName", "welcome")]);
    assert!(r.body.contains("<Code>AlreadyExists</Code><Message>Template welcome already exists</Message>"));
    let r = call(&mut st, "DeleteTemplate", &[("TemplateName", "welcome")]);
    assert_eq!(r.status_code, 200);
    let r = call(&mut st, "GetTemplate", &[("TemplateName", "welcome")]);
    assert!(r.body.contains("<Code>TemplateDoesNotExist</Code><Message>Template welcome does not exist</Message>"));
    let r = call(&mut st, "ListTemplates", &[]);
    assert!(r.body.contains("<TemplatesMetadata />"));
}

#[test]
fn send_templated_email_in_detail() {
    let mut st = SesStore::new();
    call(&mut st, "CreateTemplate", &[("Template.TemplateName", "t"), ("Template.SubjectPart", "S"), ("Template.HtmlPart", "<b>H</b>")]);
    let r = call_at(
        &mut st,
        "SendTemplatedEmail",
        &[("Source", "s@example.com"), ("Template", "t"), ("Destination.ToAddresses.member.1", "to@example.com")],
        "m-7",
        0,
    );
    assert!(r.body.contains("<MessageId>m-7</MessageId>"));
    let e = st.emails.get("m-7").unwrap();
    assert_eq!(e.subject, "S");
    assert_eq!(e.body_html, "<b>H</b>");
    let r = call(&mut st, "SendTemplatedEmail", &[("Source", "s@example.com"), ("Template", "missing")]);
    assert!(r.body.contains("Template missing does not exist"));
}

#[test]
fn get_identity_notification_attributes_in_detail() {
    let mut st = SesStore::new();
    call(&mut st, "SetIdentityFeedbackForwardingEnabled", &[("Identity", "a@example.com"), ("ForwardingEnabled", "FALSE")]);
    let r = call(
        &mut st,
        "GetIdentityNotificationAttributes",
        &[("Identities.member.1", "a@example.com"), ("Identities.member.2", "b@example.com")],
    );
    assert!(r.body.contains(
        "<NotificationAttributes><entry><key>a@example.com</key><value><ForwardingEnabled>false</ForwardingEnabled></value></entry>\
<entry><key>b@example.com</key><value><ForwardingEnabled>true</ForwardingEnabled></value></entry></NotificationAttributes>"
    ));
}

#[test]
fn unknown_operation_is_refused() {
    let mut st = SesStore::new();
    match dispatch(&mut st, &make_ctx("SendBounce", &[])) {
        Err(DispatchError::NotImplemented(op)) => assert_eq!(op, "SendBounce"),
        Ok(_) => panic!("expected a refusal"),
    }
}

#[test]
fn deleted_identity_has_no_verification_status() {
    let mut st = SesStore::new();
    call(&mut st, "VerifyEmailIdentity", &[("EmailAddress", "gone@example.com")]);
    call(&mut st, "DeleteIdentity", &[("Identity", "gone@example.com")]);
    let r = call(&mut st, "GetIdentityVerificationAttributes", &[("Identities.member.1", "gone@example.com")]);
    assert!(r.body.contains("<VerificationAttributes></VerificationAttributes>"));
}

// The original scenarios, request for request.

#[test]
fn test_verify_domain_identity() {
    let mut st = SesStore::new();
    let r = call(&mut st, "VerifyDomainIdentity", &[("Domain", "example.com")]);
    assert_eq!(r.status_code, 200);
    assert!(r.body.contains("VerifyDomainIdentityResponse"));
    assert!(r.body.contains("<VerificationToken>example-com-verification-token</VerificationToken>"));
    let r = call(&mut st, "ListIdentities", &[]);
    assert_eq!(r.status_code, 200);
    assert!(r.body.contains("example.com"));
}

#[test]
fn test_verify_domain_identity_missing_domain() {
    let mut st = SesStore::new();
    let r = call(&mut st, "VerifyDomainIdentity", &[]);
    assert_eq!(r.status_code, 400);
    assert!(r.body.contains("MissingParameter"));
    assert!(r.body.contains("Domain required"));
}

#[test]
fn test_get_identity_verification_attributes() {
    let mut st = SesStore::new();
    call(&mut st, "VerifyEmailIdentity", &[("EmailAddress", "verified@example.com")]);
    let r = call(&mut st, "GetIdentityVerificationAttributes", &[("Identities.member.1", "verified@example.com")]);
    assert_eq!(r.status_code, 200);
    assert!(r.body.contains("GetIdentityVerificationAttributesResponse"));
    assert!(r.body.contains("verified@example.com"));
    assert!(r.body.contains("Success"));
}

#[test]
fn test_get_identity_verification_attributes_missing_identity_returns_empty_result() {
    let mut st = SesStore::new();
    let r = call(&mut st, "GetIdentityVerificationAttributes", &[]);
    assert_eq!(r.status_code, 200);
    assert!(r.body.contains("GetIdentityVerificationAttributesResponse"));
    assert!(
        r.body.contains("<VerificationAttributes></VerificationAttributes>")
            || r.body.contains("<VerificationAttributes />")
    );
}

#[test]
fn test_send_email() {
    let mut st = SesStore::new();
    let r = call(
        &mut st,
        "SendEmail",
        &[
            ("Source", "sender@example.com"),
            ("Destination.ToAddresses.member.1", "recipient@example.com"),
            ("Message.Subject.Data", "Hello World"),
            ("Message.Body.Text.Data", "This is the body."),
        ],
    );
    assert_eq!(r.status_code, 200);
    assert!(r.body.contains("<MessageId>"));
    assert!(r.body.contains("SendEmailResponse"));
}

#[test]
fn test_send_email_multiple_recipients() {
    let mut st = SesStore::new();
    let r = call(
        &mut st,
        "SendEmail",
        &[
            ("Source", "noreply@example.com"),
            ("Destination.ToAddresses.member.1", "a@example.com"),
            ("Destination.ToAddresses.member.2", "b@example.com"),
            ("Destination.CcAddresses.member.1", "c@example.com"),
            ("Message.Subject.Data", "Bulk Email"),
            ("Message.Body.Html.Data", "<h1>Hello</h1>"),
        ],
    );
    assert_eq!(r.status_code, 200);
    assert!(r.body.contains("<MessageId>"));
}

#[test]
fn test_send_raw_email() {
    let mut st = SesStore::new();
    let r = call(
        &mut st,
        "SendRawEmail",
        &[
            ("Source", "raw@example.com"),
            ("RawMessage.Data", "From: raw@example.com\r\nTo: dest@example.com\r\nSubject: Raw\r\n\r\nBody"),
        ],
    );
    assert_eq!(r.status_code, 200);
    assert!(r.body.contains("<MessageId>"));
    assert!(r.body.contains("SendRawEmailResponse"));
}

#[test]
fn test_delete_identity() {
    let mut st = SesStore::new();
    call(&mut st, "VerifyEmailIdentity", &[("EmailAddress", "gone@example.com")]);
    let r = call(&mut st, "DeleteIdentity", &[("Identity", "gone@example.com")]);
    assert_eq!(r.status_code, 200);
    assert!(r.body.contains("DeleteIdentityResponse"));
    let r = call(&mut st, "ListIdentities", &[]);
    assert_eq!(r.status_code, 200);
    assert!(!r.body.contains("gone@example.com"));
}

#[test]
fn test_delete_identity_missing_identity() {
    let mut st = SesStore::new();
    let r = call(&mut st, "DeleteIdentity", &[]);
    assert_eq!(r.status_code, 400);
    assert!(r.body.contains("MissingParameter"));
    assert!(r.body.contains("Identity required"));
}

#[test]
fn test_verify_email_identity_missing_address() {
    let mut st = SesStore::new();
    let r = call(&mut st, "VerifyEmailIdentity", &[]);
    assert_eq!(r.status_code, 400);
    assert!(r.body.contains("MissingParameter"));
}

#[test]
fn test_get_send_quota_empty() {
    let mut st = SesStore::new();
    let r = call(&mut st, "GetSendQuota", &[]);
    assert_eq!(r.status_code, 200);
    assert!(r.body.contains("GetSendQuotaResponse"));
    assert!(r.body.contains("<Max24HourSend>50000.0</Max24HourSend>"));
    assert!(r.body.contains("<SentLast24Hours>0</SentLast24Hours>"));
}

#[test]
fn test_get_send_quota_after_sends() {
    let mut st = SesStore::new();
    for i in 0..3u8 {
        let to = format!("d{i}@example.com");
        call(
            &mut st,
            "SendEmail",
            &[("Source", "s@example.com"), ("Destination.ToAddresses.member.1", to.as_str()), ("Message.Subject.Data", "hi")],
        );
    }
    let r = call(&mut st, "GetSendQuota", &[]);
    assert_eq!(r.status_code, 200);
    assert!(r.body.contains("<SentLast24Hours>3</SentLast24Hours>"));
}

#[test]
fn test_get_send_statistics_empty() {
    let mut st = SesStore::new();
    let r = call(&mut st, "GetSendStatistics", &[]);
    assert_eq!(r.status_code, 200);
    assert!(r.body.contains("GetSendStatisticsResponse"));
    assert!(r.body.contains("<SendDataPoints"));
}

#[test]
fn test_get_send_statistics_after_sends() {
    let mut st = SesStore::new();
    call(
        &mut st,
        "SendEmail",
        &[("Source", "s@example.com"), ("Destination.ToAddresses.member.1", "d@example.com"), ("Message.Subject.Data", "stat test")],
    );
    let r = call(&mut st, "GetSendStatistics", &[]);
    assert_eq!(r.status_code, 200);
    assert!(r.body.contains("<DeliveryAttempts>1</DeliveryAttempts>"));
}

#[test]
fn test_create_and_get_template() {
    let mut st = SesStore::new();
    let r = call(
        &mut st,
        "CreateTemplate",
        &[
            ("Template.TemplateName", "welcome"),
            ("Template.SubjectPart", "Welcome {{name}}!"),
            ("Template.HtmlPart", "<h1>Hi {{name}}</h1>"),
            ("Template.TextPart", "Hi {{name}}"),
        ],
    );
    assert_eq!(r.status_code, 200);
    assert!(r.body.contains("CreateTemplateResponse"));
    let r = call(&mut st, "GetTemplate", &[("TemplateName", "welcome")]);
    assert_eq!(r.status_code, 200);
    assert!(r.body.contains("GetTemplateResponse"));
    assert!(r.body.contains("<TemplateName>welcome</TemplateName>"));
    assert!(r.body.contains("Welcome {{name}}!"));
}

#[test]
fn test_create_template_duplicate_fails() {
    let mut st = SesStore::new();
    call(&mut st, "CreateTemplate", &[("Template.TemplateName", "dup")]);
    let r = call(&mut st, "CreateTemplate", &[("Template.TemplateName", "dup")]);
    assert_eq!(r.status_code, 400);
    assert!(r.body.contains("AlreadyExists"));
}

#[test]
fn test_get_template_not_found() {
    let mut st = SesStore::new();
    let r = call(&mut st, "GetTemplate", &[("TemplateName", "nonexistent")]);
    assert_eq!(r.status_code, 400);
    assert!(r.body.contains("TemplateDoesNotExist"));
}

#[test]
fn test_list_templates() {
    let mut st = SesStore::new();
    for name in ["tmpl-a", "tmpl-b"] {
        call(&mut st, "CreateTemplate", &[("Template.TemplateName", name)]);
    }
    let r = call(&mut st, "ListTemplates", &[]);
    assert_eq!(r.status_code, 200);
    assert!(r.body.contains("tmpl-a"));
    assert!(r.body.contains("tmpl-b"));
}

#[test]
fn test_delete_template() {
    let mut st = SesStore::new();
    call(&mut st, "CreateTemplate", &[("Template.TemplateName", "to-delete")]);
    let r = call(&mut st, "DeleteTemplate", &[("TemplateName", "to-delete")]);
    assert_eq!(r.status_code, 200);
    let r = call(&mut st, "GetTemplate", &[("TemplateName", "to-delete")]);
    assert_eq!(r.status_code, 400);
    assert!(r.body.contains("TemplateDoesNotExist"));
}

#[test]
fn test_send_templated_email() {
    let mut st = SesStore::new();
    call(
        &mut st,
        "CreateTemplate",
        &[("Template.TemplateName", "greet"), ("Template.SubjectPart", "Hello there"), ("Template.HtmlPart", "<p>Greetings</p>")],
    );
    let r = call(
        &mut st,
        "SendTemplatedEmail",
        &[("Source", "from@example.com"), ("Template", "greet"), ("Destination.ToAddresses.member.1", "to@example.com")],
    );
    assert_eq!(r.status_code, 200);
    assert!(r.body.contains("SendTemplatedEmailResponse"));
    assert!(r.body.contains("<MessageId>"));
}

#[test]
fn test_send_templated_email_missing_template() {
    let mut st = SesStore::new();
    let r = call(
        &mut st,
        "SendTemplatedEmail",
        &[("Source", "from@example.com"), ("Template", "nonexistent"), ("Destination.ToAddresses.member.1", "to@example.com")],
    );
    assert_eq!(r.status_code, 400);
    assert!(r.body.contains("TemplateDoesNotExist"));
}

#[test]
fn test_set_identity_feedback_forwarding_enabled() {
    let mut st = SesStore::new();
    call(&mut st, "VerifyEmailIdentity", &[("EmailAddress", "notif@example.com")]);
    let r = call(
        &mut st,
        "SetIdentityFeedbackForwardingEnabled",
        &[("Identity", "notif@example.com"), ("ForwardingEnabled", "false")],
    );
    assert_eq!(r.status_code, 200);
    assert!(r.body.contains("SetIdentityFeedbackForwardingEnabledResponse"));
}

#[test]
fn test_get_identity_notification_attributes() {
    let mut st = SesStore::new();
    call(&mut st, "VerifyEmailIdentity", &[("EmailAddress", "notif2@example.com")]);
    let r = call(&mut st, "GetIdentityNotificationAttributes", &[("Identities.member.1", "notif2@example.com")]);
    assert_eq!(r.status_code, 200);
    assert!(r.body.contains("GetIdentityNotificationAttributesResponse"));
    assert!(r.body.contains("notif2@example.com"));
    assert!(r.body.contains("<ForwardingEnabled>true</ForwardingEnabled>"));
}
