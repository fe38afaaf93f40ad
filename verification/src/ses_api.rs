//! The SES request layer: query parameters in, XML documents out.
//!
//! SES writes the values it reports into its documents as they are.
//! Handlers take the request id, fresh message ids and the time as
//! arguments; `dispatch` draws them.
use vstd::prelude::*;

use crate::deps::{format_utc_hour, format_utc_seconds, utc_hour_text, utc_second_text};
use crate::http::{plain, plain_response, service_params, service_params_exec, DispatchError, DispatchResponse, RequestContext, ResponseView};
use crate::query::{indexed_values, indexed_values_exec, xml_no_result, xml_no_result_body, xml_wrap, xml_wrap_body};
use crate::ses::{
    default_notification, EmailTemplate, EmailView, Identity, IdentityNotificationAttributes, IdentityView,
    NotificationView, SesStore, SesStoreView, StoredEmail, TemplateView,
};
use crate::strmap::StrMap;
use crate::text::{bool_spec, chars_of, decimal_spec, push_bool, push_decimal, push_str, string_views};

verus! {

/// The XML namespace of SES responses.
pub open spec fn ses_ns() -> Seq<char> {
    "http://ses.amazonaws.com/doc/2010-12-01/"@
}

// ---------------------------------------------------------------------------
// Responses
// ---------------------------------------------------------------------------

/// A successful response wrapping `inner`.
pub open spec fn ses_ok(action: Seq<char>, rid: Seq<char>, inner: Seq<char>) -> ResponseView {
    plain_response(200, xml_wrap_body(ses_ns(), action, rid, inner), "text/xml"@)
}

/// A successful response without a result element.
pub open spec fn ses_ok_empty(action: Seq<char>, rid: Seq<char>) -> ResponseView {
    plain_response(200, xml_no_result_body(ses_ns(), action, rid), "text/xml"@)
}

/// A 400 error response.
pub open spec fn ses_error(code: Seq<char>, message: Seq<char>) -> ResponseView {
    plain_response(
        400,
        crate::query::xml_decl() + "<ErrorResponse xmlns=\""@ + ses_ns() + "\"><Error><Code>"@ + code + "</Code><Message>"@
            + message + "</Message></Error></ErrorResponse>"@,
        "text/xml"@,
    )
}

/// The answer for a missing required parameter.
pub open spec fn missing(name: Seq<char>) -> ResponseView {
    ses_error("MissingParameter"@, name + " required"@)
}

/// The answer for a template that does not exist.
pub open spec fn no_template(name: Seq<char>) -> ResponseView {
    ses_error("TemplateDoesNotExist"@, "Template "@ + name + " does not exist"@)
}

fn ok(action: &str, rid: &str, inner: &str) -> (r: DispatchResponse)
    ensures
        r@ == ses_ok(action@, rid@, inner@),
{
    xml_wrap("http://ses.amazonaws.com/doc/2010-12-01/", action, rid, inner)
}

fn ok_no_result(action: &str, rid: &str) -> (r: DispatchResponse)
    ensures
        r@ == ses_ok_empty(action@, rid@),
{
    xml_no_result("http://ses.amazonaws.com/doc/2010-12-01/", action, rid)
}

fn error(code: &str, message: &str) -> (r: DispatchResponse)
    ensures
        r@ == ses_error(code@, message@),
{
    let mut b = String::new();
    push_str(&mut b, "<?xml version=\"1.0\" encoding=\"UTF-8\"?>");
    push_str(&mut b, "<ErrorResponse xmlns=\"");
    push_str(&mut b, "http://ses.amazonaws.com/doc/2010-12-01/");
    push_str(&mut b, "\"><Error><Code>");
    push_str(&mut b, code);
    push_str(&mut b, "</Code><Message>");
    push_str(&mut b, message);
    push_str(&mut b, "</Message></Error></ErrorResponse>");
    proof {
        assert(b@ =~= crate::query::xml_decl() + "<ErrorResponse xmlns=\""@ + ses_ns() + "\"><Error><Code>"@ + code@
            + "</Code><Message>"@ + message@ + "</Message></Error></ErrorResponse>"@);
    }
    plain(400, b, "text/xml")
}

fn missing_param(name: &str) -> (r: DispatchResponse)
    ensures
        r@ == missing(name@),
{
    let mut m = String::new();
    push_str(&mut m, name);
    push_str(&mut m, " required");
    proof {
        assert(m@ =~= name@ + " required"@);
    }
    error("MissingParameter", m.as_str())
}

fn template_missing(name: &str) -> (r: DispatchResponse)
    ensures
        r@ == no_template(name@),
{
    let mut m = String::new();
    push_str(&mut m, "Template ");
    push_str(&mut m, name);
    push_str(&mut m, " does not exist");
    proof {
        assert(m@ =~= "Template "@ + name@ + " does not exist"@);
    }
    error("TemplateDoesNotExist", m.as_str())
}

/// `<{tag}>{text}</{tag}>`, the text written as it is.
pub open spec fn raw_element(tag: Seq<char>, text: Seq<char>) -> Seq<char> {
    "<"@ + tag + ">"@ + text + "</"@ + tag + ">"@
}

fn push_raw_element(out: &mut String, tag: &str, text: &str)
    ensures
        final(out)@ == old(out)@ + raw_element(tag@, text@),
{
    push_str(out, "<");
    push_str(out, tag);
    push_str(out, ">");
    push_str(out, text);
    push_str(out, "</");
    push_str(out, tag);
    push_str(out, ">");
    proof {
        assert(out@ =~= old(out)@ + raw_element(tag@, text@));
    }
}

/// The value of `key`, or `default`.
pub open spec fn param_or(params: Map<Seq<char>, Seq<char>>, key: Seq<char>, default: Seq<char>) -> Seq<char> {
    if params.contains_key(key) {
        params[key]
    } else {
        default
    }
}

fn param_or_exec(params: &StrMap<String>, key: &str, default: &str) -> (r: String)
    requires
        params.wf(),
    ensures
        r@ == param_or(params@, key@, default@),
{
    match params.get(key) {
        Some(v) => v.clone(),
        None => default.to_string(),
    }
}

/// The addresses of a request under `prefix`: `{prefix}.1`, `{prefix}.2`,
/// ... of its query string, while present.
pub open spec fn addresses(ctx: RequestContext, prefix: Seq<char>) -> Seq<Seq<char>> {
    indexed_values(ctx.query_params@, prefix, Seq::empty())
}

fn addresses_exec(ctx: &RequestContext, prefix: &str) -> (r: Vec<String>)
    requires
        ctx.wf(),
    ensures
        string_views(r@) == addresses(*ctx, prefix@),
{
    let r = indexed_values_exec(&ctx.query_params, prefix, "");
    proof {
        reveal_strlit("");
        assert(""@ =~= Seq::<char>::empty());
    }
    r
}

// ---------------------------------------------------------------------------
// Identities
// ---------------------------------------------------------------------------

/// What `handle_verify_email_identity` does.
pub open spec fn verify_email_outcome(s0: SesStoreView, s1: SesStoreView, p: Map<Seq<char>, Seq<char>>, rid: Seq<char>, r: ResponseView) -> bool {
    if !p.contains_key("EmailAddress"@) {
        r == missing("EmailAddress"@) && s1 == s0
    } else {
        let e = p["EmailAddress"@];
        &&& s1 == (SesStoreView {
            identities: s0.identities.insert(e, IdentityView { identity: e, verified: true }),
            ..s0
        })
        &&& r == ses_ok_empty("VerifyEmailIdentity"@, rid)
    }
}

/// VerifyEmailIdentity: records address `EmailAddress` as a verified
/// identity.
pub fn handle_verify_email_identity(store: &mut SesStore, p: &StrMap<String>, rid: &str) -> (r: DispatchResponse)
    requires
        old(store).wf(),
        p.wf(),
    ensures
        final(store).wf(),
        verify_email_outcome(old(store)@, final(store)@, p@, rid@, r@),
{
    let email = match p.get("EmailAddress") {
        Some(e) => e.clone(),
        None => {
            return missing_param("EmailAddress");
        },
    };
    store.identities.insert(email.clone(), Identity { identity: email, verified: true });
    ok_no_result("VerifyEmailIdentity", rid)
}

/// A domain's verification token: its dots turned into dashes, then
/// `-verification-token`.
pub open spec fn verification_token(domain: Seq<char>) -> Seq<char> {
    domain.map_values(
        |c: char|
            if c == '.' {
                '-'
            } else {
                c
            },
    ) + "-verification-token"@
}

/// What `handle_verify_domain_identity` does.
pub open spec fn verify_domain_outcome(s0: SesStoreView, s1: SesStoreView, p: Map<Seq<char>, Seq<char>>, rid: Seq<char>, r: ResponseView) -> bool {
    if !p.contains_key("Domain"@) {
        r == missing("Domain"@) && s1 == s0
    } else {
        let d = p["Domain"@];
        &&& s1 == (SesStoreView {
            identities: s0.identities.insert(d, IdentityView { identity: d, verified: true }),
            ..s0
        })
        &&& r == ses_ok("VerifyDomainIdentity"@, rid, raw_element("VerificationToken"@, verification_token(d)))
    }
}

/// VerifyDomainIdentity: records domain `Domain` as a verified identity and
/// answers with its verification token.
pub fn handle_verify_domain_identity(store: &mut SesStore, p: &StrMap<String>, rid: &str) -> (r: DispatchResponse)
    requires
        old(store).wf(),
        p.wf(),
    ensures
        final(store).wf(),
        verify_domain_outcome(old(store)@, final(store)@, p@, rid@, r@),
{
    let domain = match p.get("Domain") {
        Some(d) => d.clone(),
        None => {
            return missing_param("Domain");
        },
    };
    store.identities.insert(domain.clone(), Identity { identity: domain.clone(), verified: true });
    let c = chars_of(domain.as_str());
    let mut token = String::new();
    let mut i: usize = 0;
    while i < c.len()
        invariant
            i <= c@.len(),
            c@ == domain@,
            token@ == domain@.take(i as int).map_values(
                |c: char|
                    if c == '.' {
                        '-'
                    } else {
                        c
                    },
            ),
        decreases c@.len() - i,
    {
        if c[i] == '.' {
            token.push('-');
        } else {
            token.push(c[i]);
        }
        proof {
            assert(domain@.take(i + 1) =~= domain@.take(i as int).push(c@[i as int]));
        }
        i = i + 1;
    }
    push_str(&mut token, "-verification-token");
    let mut inner = String::new();
    push_raw_element(&mut inner, "VerificationToken", token.as_str());
    proof {
        assert(domain@.take(c@.len() as int) =~= domain@);
        assert(token@ =~= verification_token(domain@));
    }
    ok("VerifyDomainIdentity", rid, inner.as_str())
}

/// `<member>{id}</member>` for each identity.
pub open spec fn identity_members(ids: Seq<Seq<char>>) -> Seq<char>
    decreases ids.len(),
{
    if ids.len() == 0 {
        Seq::empty()
    } else {
        identity_members(ids.drop_last()) + raw_element("member"@, ids.last())
    }
}

/// What `handle_list_identities` answers.
pub open spec fn list_identities_outcome(s0: SesStore, rid: Seq<char>, r: ResponseView) -> bool {
    let ids = s0.identities.keys_seq();
    r == ses_ok(
        "ListIdentities"@,
        rid,
        if ids.len() == 0 {
            "<Identities />"@
        } else {
            "<Identities>"@ + identity_members(ids) + "</Identities>"@
        },
    )
}

/// ListIdentities: every identity, in the order they were first recorded.
pub fn handle_list_identities(store: &SesStore, rid: &str) -> (r: DispatchResponse)
    requires
        store.wf(),
    ensures
        list_identities_outcome(*store, rid@, r@),
{
    let ghost ids = store.identities.keys_seq();
    let n = store.identities.len();
    proof {
        store.identities.lemma_enumeration();
    }
    if n == 0 {
        return ok("ListIdentities", rid, "<Identities />");
    }
    let mut b = String::new();
    push_str(&mut b, "<Identities>");
    let ghost head = b@;
    let mut i: usize = 0;
    proof {
        assert(ids.take(0) =~= Seq::<Seq<char>>::empty());
    }
    while i < n
        invariant
            i <= n,
            n == ids.len(),
            ids == store.identities.keys_seq(),
            b@ == head + identity_members(ids.take(i as int)),
        decreases n - i,
    {
        let k = store.identities.key_at_index(i);
        push_raw_element(&mut b, "member", k.as_str());
        proof {
            assert(ids.take(i + 1).drop_last() =~= ids.take(i as int));
            assert(ids.take(i + 1).last() == k@);
            assert(b@ =~= head + identity_members(ids.take(i + 1)));
        }
        i = i + 1;
    }
    push_str(&mut b, "</Identities>");
    proof {
        assert(ids.take(n as int) =~= ids);
        assert(b@ =~= "<Identities>"@ + identity_members(ids) + "</Identities>"@);
    }
    ok("ListIdentities", rid, b.as_str())
}

/// The verification entry of `id`, when it is recorded.
pub open spec fn verification_entry(s0: SesStoreView, id: Seq<char>) -> Seq<char> {
    if s0.identities.contains_key(id) {
        "<entry><key>"@ + id + "</key><value><VerificationStatus>"@ + if s0.identities[id].verified {
            "Success"@
        } else {
            "Pending"@
        } + "</VerificationStatus></value></entry>"@
    } else {
        Seq::empty()
    }
}

fn push_verification_entry(b: &mut String, store: &SesStore, id: &str)
    requires
        store.wf(),
    ensures
        final(b)@ == old(b)@ + verification_entry(store@, id@),
{
    match store.identities.get(id) {
        Some(ident) => {
            push_str(b, "<entry><key>");
            push_str(b, id);
            push_str(b, "</key><value><VerificationStatus>");
            if ident.verified {
                push_str(b, "Success");
            } else {
                push_str(b, "Pending");
            }
            push_str(b, "</VerificationStatus></value></entry>");
        },
        None => {},
    }
    proof {
        assert(b@ =~= old(b)@ + verification_entry(store@, id@));
    }
}

/// The verification entries of the identities `ids` that are recorded.
pub open spec fn verification_entries(s0: SesStoreView, ids: Seq<Seq<char>>) -> Seq<char>
    decreases ids.len(),
{
    if ids.len() == 0 {
        Seq::empty()
    } else {
        verification_entries(s0, ids.drop_last()) + verification_entry(s0, ids.last())
    }
}

/// What `handle_get_identity_verification_attributes` answers.
pub open spec fn verification_attributes_outcome(s0: SesStoreView, ctx: RequestContext, rid: Seq<char>, r: ResponseView) -> bool {
    r == ses_ok(
        "GetIdentityVerificationAttributes"@,
        rid,
        "<VerificationAttributes>"@ + verification_entries(s0, addresses(ctx, "Identities.member"@))
            + "</VerificationAttributes>"@,
    )
}

/// GetIdentityVerificationAttributes: the verification status of each
/// recorded identity among `Identities.member.{i}`.
pub fn handle_get_identity_verification_attributes(store: &SesStore, ctx: &RequestContext, rid: &str) -> (r: DispatchResponse)
    requires
        store.wf(),
        ctx.wf(),
    ensures
        verification_attributes_outcome(store@, *ctx, rid@, r@),
{
    let ids = addresses_exec(ctx, "Identities.member");
    let ghost iv = string_views(ids@);
    let mut b = String::new();
    push_str(&mut b, "<VerificationAttributes>");
    let ghost head = b@;
    let mut i: usize = 0;
    proof {
        assert(iv.take(0) =~= Seq::<Seq<char>>::empty());
    }
    while i < ids.len()
        invariant
            i <= ids@.len(),
            iv == string_views(ids@),
            store.wf(),
            b@ == head + verification_entries(store@, iv.take(i as int)),
        decreases ids@.len() - i,
    {
        let id = &ids[i];
        push_verification_entry(&mut b, store, id.as_str());
        proof {
            assert(iv.take(i + 1).drop_last() =~= iv.take(i as int));
            assert(iv.take(i + 1).last() == id@);
            assert(b@ =~= head + verification_entries(store@, iv.take(i + 1)));
        }
        i = i + 1;
    }
    push_str(&mut b, "</VerificationAttributes>");
    proof {
        assert(iv.take(iv.len() as int) =~= iv);
        assert(b@ =~= "<VerificationAttributes>"@ + verification_entries(store@, iv) + "</VerificationAttributes>"@);
    }
    ok("GetIdentityVerificationAttributes", rid, b.as_str())
}

/// What `handle_delete_identity` does.
pub open spec fn delete_identity_outcome(s0: SesStoreView, s1: SesStoreView, p: Map<Seq<char>, Seq<char>>, rid: Seq<char>, r: ResponseView) -> bool {
    if !p.contains_key("Identity"@) {
        r == missing("Identity"@) && s1 == s0
    } else {
        s1 == (SesStoreView { identities: s0.identities.remove(p["Identity"@]), ..s0 }) && r == ses_ok_empty(
            "DeleteIdentity"@,
            rid,
        )
    }
}

/// DeleteIdentity: forgets identity `Identity`, if it is recorded.
pub fn handle_delete_identity(store: &mut SesStore, p: &StrMap<String>, rid: &str) -> (r: DispatchResponse)
    requires
        old(store).wf(),
        p.wf(),
    ensures
        final(store).wf(),
        delete_identity_outcome(old(store)@, final(store)@, p@, rid@, r@),
{
    let id = match p.get("Identity") {
        Some(i) => i,
        None => {
            return missing_param("Identity");
        },
    };
    store.identities.remove(id.as_str());
    ok_no_result("DeleteIdentity", rid)
}

// ---------------------------------------------------------------------------
// Sending
// ---------------------------------------------------------------------------

/// The email SendEmail records as message `id` at `now`.
pub open spec fn sent_email_spec(ctx: RequestContext, p: Map<Seq<char>, Seq<char>>, id: Seq<char>, now: i64) -> EmailView {
    EmailView {
        message_id: id,
        source: p["Source"@],
        destination_to: addresses(ctx, "Destination.ToAddresses.member"@),
        destination_cc: addresses(ctx, "Destination.CcAddresses.member"@),
        destination_bcc: addresses(ctx, "Destination.BccAddresses.member"@),
        subject: param_or(p, "Message.Subject.Data"@, Seq::empty()),
        body_text: param_or(p, "Message.Body.Text.Data"@, Seq::empty()),
        body_html: param_or(p, "Message.Body.Html.Data"@, Seq::empty()),
        sent_at: now,
    }
}

/// What `handle_send_email` does.
pub open spec fn send_email_outcome(
    s0: SesStoreView,
    s1: SesStoreView,
    ctx: RequestContext,
    p: Map<Seq<char>, Seq<char>>,
    rid: Seq<char>,
    id: Seq<char>,
    now: i64,
    r: ResponseView,
) -> bool {
    if !p.contains_key("Source"@) {
        r == missing("Source"@) && s1 == s0
    } else {
        &&& s1 == (SesStoreView { emails: s0.emails.insert(id, sent_email_spec(ctx, p, id, now)), ..s0 })
        &&& r == ses_ok("SendEmail"@, rid, raw_element("MessageId"@, id))
    }
}

/// SendEmail: records the email from `Source` to the listed destinations
/// as message `id`.
pub fn handle_send_email(
    store: &mut SesStore,
    ctx: &RequestContext,
    p: &StrMap<String>,
    rid: &str,
    id: &str,
    now: i64,
) -> (r: DispatchResponse)
    requires
        old(store).wf(),
        ctx.wf(),
        p.wf(),
    ensures
        final(store).wf(),
        send_email_outcome(old(store)@, final(store)@, *ctx, p@, rid@, id@, now, r@),
{
    let source = match p.get("Source") {
        Some(s) => s.clone(),
        None => {
            return missing_param("Source");
        },
    };
    let email = StoredEmail {
        message_id: id.to_string(),
        source,
        destination_to: addresses_exec(ctx, "Destination.ToAddresses.member"),
        destination_cc: addresses_exec(ctx, "Destination.CcAddresses.member"),
        destination_bcc: addresses_exec(ctx, "Destination.BccAddresses.member"),
        subject: param_or_exec(p, "Message.Subject.Data", ""),
        body_text: param_or_exec(p, "Message.Body.Text.Data", ""),
        body_html: param_or_exec(p, "Message.Body.Html.Data", ""),
        sent_at: now,
    };
    proof {
        reveal_strlit("");
        assert(""@ =~= Seq::<char>::empty());
        assert(email@ == sent_email_spec(*ctx, p@, id@, now));
    }
    store.emails.insert(id.to_string(), email);
    let mut inner = String::new();
    push_raw_element(&mut inner, "MessageId", id);
    ok("SendEmail", rid, inner.as_str())
}

/// What `handle_send_raw_email` does.
pub open spec fn send_raw_email_outcome(
    s0: SesStoreView,
    s1: SesStoreView,
    p: Map<Seq<char>, Seq<char>>,
    rid: Seq<char>,
    id: Seq<char>,
    now: i64,
    r: ResponseView,
) -> bool {
    let email = EmailView {
        message_id: id,
        source: param_or(p, "Source"@, "unknown"@),
        destination_to: Seq::empty(),
        destination_cc: Seq::empty(),
        destination_bcc: Seq::empty(),
        subject: Seq::empty(),
        body_text: param_or(p, "RawMessage.Data"@, Seq::empty()),
        body_html: Seq::empty(),
        sent_at: now,
    };
    &&& s1 == (SesStoreView { emails: s0.emails.insert(id, email), ..s0 })
    &&& r == ses_ok("SendRawEmail"@, rid, raw_element("MessageId"@, id))
}

/// SendRawEmail: records the raw message `RawMessage.Data` from `Source`
/// (default `unknown`) as message `id`.
pub fn handle_send_raw_email(store: &mut SesStore, p: &StrMap<String>, rid: &str, id: &str, now: i64) -> (r: DispatchResponse)
    requires
        old(store).wf(),
        p.wf(),
    ensures
        final(store).wf(),
        send_raw_email_outcome(old(store)@, final(store)@, p@, rid@, id@, now, r@),
{
    let email = StoredEmail {
        message_id: id.to_string(),
        source: param_or_exec(p, "Source", "unknown"),
        destination_to: Vec::new(),
        destination_cc: Vec::new(),
        destination_bcc: Vec::new(),
        subject: String::new(),
        body_text: param_or_exec(p, "RawMessage.Data", ""),
        body_html: String::new(),
        sent_at: now,
    };
    proof {
        reveal_strlit("");
        assert(""@ =~= Seq::<char>::empty());
        assert(string_views(email.destination_to@) =~= Seq::<Seq<char>>::empty());
        assert(string_views(email.destination_cc@) =~= Seq::<Seq<char>>::empty());
        assert(string_views(email.destination_bcc@) =~= Seq::<Seq<char>>::empty());
    }
    store.emails.insert(id.to_string(), email);
    let mut inner = String::new();
    push_raw_element(&mut inner, "MessageId", id);
    ok("SendRawEmail", rid, inner.as_str())
}

/// The largest count a 64-bit float holds exactly: the sent count is
/// written as an integer below it.
pub open spec fn exact_float_limit() -> nat {
    0x20_0000_0000_0000
}

/// What `handle_get_send_quota` answers: the fixed quota and the number of
/// emails sent (stated for counts a float holds exactly, which is how
/// the count is printed).
pub open spec fn send_quota_outcome(s0: SesStoreView, rid: Seq<char>, r: ResponseView) -> bool {
    s0.emails.dom().len() < exact_float_limit() ==> r == ses_ok(
        "GetSendQuota"@,
        rid,
        "<Max24HourSend>50000.0</Max24HourSend><MaxSendRate>14.0</MaxSendRate><SentLast24Hours>"@ + decimal_spec(
            s0.emails.dom().len(),
        ) + "</SentLast24Hours>"@,
    )
}

/// GetSendQuota: the sending quota and the number of emails sent.
pub fn handle_get_send_quota(store: &SesStore, rid: &str) -> (r: DispatchResponse)
    requires
        store.wf(),
    ensures
        send_quota_outcome(store@, rid@, r@),
{
    let n = store.emails.len();
    let mut b = String::new();
    push_str(&mut b, "<Max24HourSend>50000.0</Max24HourSend><MaxSendRate>14.0</MaxSendRate><SentLast24Hours>");
    push_decimal(&mut b, n as u64);
    push_str(&mut b, "</SentLast24Hours>");
    proof {
        assert(b@ =~= "<Max24HourSend>50000.0</Max24HourSend><MaxSendRate>14.0</MaxSendRate><SentLast24Hours>"@
            + decimal_spec(store@.emails.dom().len()) + "</SentLast24Hours>"@);
    }
    ok("GetSendQuota", rid, b.as_str())
}

/// What `handle_get_send_statistics_at` answers: one data point for the
/// hour of `now` with every email sent as a delivery attempt, or none when
/// nothing was sent.
pub open spec fn send_statistics_outcome(s0: SesStoreView, rid: Seq<char>, now: i64, r: ResponseView) -> bool {
    let total = s0.emails.dom().len();
    r == ses_ok(
        "GetSendStatistics"@,
        rid,
        "<SendDataPoints>"@ + if total == 0 {
            Seq::empty()
        } else {
            "<member><Timestamp>"@ + utc_hour_text(now) + "</Timestamp><DeliveryAttempts>"@ + decimal_spec(total)
                + "</DeliveryAttempts><Bounces>0</Bounces><Complaints>0</Complaints><Rejects>0</Rejects></member>"@
        } + "</SendDataPoints>"@,
    )
}

/// GetSendStatistics at time `now`.
pub fn handle_get_send_statistics_at(store: &SesStore, rid: &str, now: i64) -> (r: DispatchResponse)
    requires
        store.wf(),
    ensures
        send_statistics_outcome(store@, rid@, now, r@),
{
    let n = store.emails.len();
    let mut b = String::new();
    push_str(&mut b, "<SendDataPoints>");
    if n > 0 {
        push_str(&mut b, "<member><Timestamp>");
        let t = format_utc_hour(now);
        push_str(&mut b, t.as_str());
        push_str(&mut b, "</Timestamp><DeliveryAttempts>");
        push_decimal(&mut b, n as u64);
        push_str(&mut b, "</DeliveryAttempts><Bounces>0</Bounces><Complaints>0</Complaints><Rejects>0</Rejects></member>");
    }
    push_str(&mut b, "</SendDataPoints>");
    proof {
        let total = store@.emails.dom().len();
        assert(b@ =~= "<SendDataPoints>"@ + if total == 0 {
            Seq::empty()
        } else {
            "<member><Timestamp>"@ + utc_hour_text(now) + "</Timestamp><DeliveryAttempts>"@ + decimal_spec(total)
                + "</DeliveryAttempts><Bounces>0</Bounces><Complaints>0</Complaints><Rejects>0</Rejects></member>"@
        } + "</SendDataPoints>"@);
    }
    ok("GetSendStatistics", rid, b.as_str())
}

// ---------------------------------------------------------------------------
// Templates
// ---------------------------------------------------------------------------

/// What `handle_create_template` does.
pub open spec fn create_template_outcome(
    s0: SesStoreView,
    s1: SesStoreView,
    p: Map<Seq<char>, Seq<char>>,
    rid: Seq<char>,
    now: i64,
    r: ResponseView,
) -> bool {
    if !p.contains_key("Template.TemplateName"@) {
        r == missing("Template.TemplateName"@) && s1 == s0
    } else {
        let name = p["Template.TemplateName"@];
        if s0.templates.contains_key(name) {
            r == ses_error("AlreadyExists"@, "Template "@ + name + " already exists"@) && s1 == s0
        } else {
            let t = TemplateView {
                template_name: name,
                subject_part: param_or(p, "Template.SubjectPart"@, Seq::empty()),
                html_part: param_or(p, "Template.HtmlPart"@, Seq::empty()),
                text_part: param_or(p, "Template.TextPart"@, Seq::empty()),
                created_at: now,
            };
            &&& s1 == (SesStoreView { templates: s0.templates.insert(name, t), ..s0 })
            &&& r == ses_ok_empty("CreateTemplate"@, rid)
        }
    }
}

/// CreateTemplate: records template `Template.TemplateName` with its
/// subject, HTML and text parts.
pub fn handle_create_template(store: &mut SesStore, p: &StrMap<String>, rid: &str, now: i64) -> (r: DispatchResponse)
    requires
        old(store).wf(),
        p.wf(),
    ensures
        final(store).wf(),
        create_template_outcome(old(store)@, final(store)@, p@, rid@, now, r@),
{
    let name = match p.get("Template.TemplateName") {
        Some(n) => n.clone(),
        None => {
            return missing_param("Template.TemplateName");
        },
    };
    let subject_part = param_or_exec(p, "Template.SubjectPart", "");
    let html_part = param_or_exec(p, "Template.HtmlPart", "");
    let text_part = param_or_exec(p, "Template.TextPart", "");
    proof {
        reveal_strlit("");
        assert(""@ =~= Seq::<char>::empty());
    }
    if store.templates.contains_key(name.as_str()) {
        let mut m = String::new();
        push_str(&mut m, "Template ");
        push_str(&mut m, name.as_str());
        push_str(&mut m, " already exists");
        proof {
            assert(m@ =~= "Template "@ + name@ + " already exists"@);
        }
        return error("AlreadyExists", m.as_str());
    }
    store.templates.insert(
        name.clone(),
        EmailTemplate { template_name: name, subject_part, html_part, text_part, created_at: now },
    );
    ok_no_result("CreateTemplate", rid)
}

/// What `handle_delete_template` does.
pub open spec fn delete_template_outcome(s0: SesStoreView, s1: SesStoreView, p: Map<Seq<char>, Seq<char>>, rid: Seq<char>, r: ResponseView) -> bool {
    if !p.contains_key("TemplateName"@) {
        r == missing("TemplateName"@) && s1 == s0
    } else {
        s1 == (SesStoreView { templates: s0.templates.remove(p["TemplateName"@]), ..s0 }) && r == ses_ok_empty(
            "DeleteTemplate"@,
            rid,
        )
    }
}

/// DeleteTemplate: forgets template `TemplateName`, if there is one.
pub fn handle_delete_template(store: &mut SesStore, p: &StrMap<String>, rid: &str) -> (r: DispatchResponse)
    requires
        old(store).wf(),
        p.wf(),
    ensures
        final(store).wf(),
        delete_template_outcome(old(store)@, final(store)@, p@, rid@, r@),
{
    let name = match p.get("TemplateName") {
        Some(n) => n,
        None => {
            return missing_param("TemplateName");
        },
    };
    store.templates.remove(name.as_str());
    ok_no_result("DeleteTemplate", rid)
}

/// The `<Template>` document of a template.
pub open spec fn template_xml(t: TemplateView) -> Seq<char> {
    "<Template>"@ + raw_element("TemplateName"@, t.template_name) + raw_element("SubjectPart"@, t.subject_part)
        + raw_element("HtmlPart"@, t.html_part) + raw_element("TextPart"@, t.text_part) + "</Template>"@
}

/// What `handle_get_template` answers.
pub open spec fn get_template_outcome(s0: SesStoreView, p: Map<Seq<char>, Seq<char>>, rid: Seq<char>, r: ResponseView) -> bool {
    if !p.contains_key("TemplateName"@) {
        r == missing("TemplateName"@)
    } else {
        let name = p["TemplateName"@];
        r == if s0.templates.contains_key(name) {
            ses_ok("GetTemplate"@, rid, template_xml(s0.templates[name]))
        } else {
            no_template(name)
        }
    }
}

/// GetTemplate: the parts of template `TemplateName`.
pub fn handle_get_template(store: &SesStore, p: &StrMap<String>, rid: &str) -> (r: DispatchResponse)
    requires
        store.wf(),
        p.wf(),
    ensures
        get_template_outcome(store@, p@, rid@, r@),
{
    let name = match p.get("TemplateName") {
        Some(n) => n,
        None => {
            return missing_param("TemplateName");
        },
    };
    match store.templates.get(name.as_str()) {
        Some(t) => {
            let mut b = String::new();
            push_str(&mut b, "<Template>");
            push_raw_element(&mut b, "TemplateName", t.template_name.as_str());
            push_raw_element(&mut b, "SubjectPart", t.subject_part.as_str());
            push_raw_element(&mut b, "HtmlPart", t.html_part.as_str());
            push_raw_element(&mut b, "TextPart", t.text_part.as_str());
            push_str(&mut b, "</Template>");
            proof {
                assert(b@ =~= template_xml(t@));
            }
            ok("GetTemplate", rid, b.as_str())
        },
        None => template_missing(name.as_str()),
    }
}

/// The `<member>` entries of ListTemplates.
pub open spec fn template_members(ts: Seq<EmailTemplate>) -> Seq<char>
    decreases ts.len(),
{
    if ts.len() == 0 {
        Seq::empty()
    } else {
        template_members(ts.drop_last()) + "<member>"@ + raw_element("Name"@, ts.last()@.template_name) + raw_element(
            "CreatedTimestamp"@,
            utc_second_text(ts.last()@.created_at),
        ) + "</member>"@
    }
}

/// What `handle_list_templates` answers.
pub open spec fn list_templates_outcome(s0: SesStore, rid: Seq<char>, r: ResponseView) -> bool {
    let ts = s0.templates.vals_seq();
    r == ses_ok(
        "ListTemplates"@,
        rid,
        if ts.len() == 0 {
            "<TemplatesMetadata />"@
        } else {
            "<TemplatesMetadata>"@ + template_members(ts) + "</TemplatesMetadata>"@
        },
    )
}

/// ListTemplates: the name and creation time of every template.
pub fn handle_list_templates(store: &SesStore, rid: &str) -> (r: DispatchResponse)
    requires
        store.wf(),
    ensures
        list_templates_outcome(*store, rid@, r@),
{
    let ghost ts = store.templates.vals_seq();
    let n = store.templates.len();
    proof {
        store.templates.lemma_enumeration();
    }
    if n == 0 {
        return ok("ListTemplates", rid, "<TemplatesMetadata />");
    }
    let mut b = String::new();
    push_str(&mut b, "<TemplatesMetadata>");
    let ghost head = b@;
    let mut i: usize = 0;
    proof {
        assert(ts.take(0) =~= Seq::<EmailTemplate>::empty());
    }
    while i < n
        invariant
            i <= n,
            n == ts.len(),
            ts == store.templates.vals_seq(),
            b@ == head + template_members(ts.take(i as int)),
        decreases n - i,
    {
        let t = store.templates.value_at_index(i);
        push_str(&mut b, "<member>");
        push_raw_element(&mut b, "Name", t.template_name.as_str());
        let stamp = format_utc_seconds(t.created_at);
        push_raw_element(&mut b, "CreatedTimestamp", stamp.as_str());
        push_str(&mut b, "</member>");
        proof {
            assert(ts.take(i + 1).drop_last() =~= ts.take(i as int));
            assert(ts.take(i + 1).last() == *t);
            assert(b@ =~= head + template_members(ts.take(i + 1)));
        }
        i = i + 1;
    }
    push_str(&mut b, "</TemplatesMetadata>");
    proof {
        assert(ts.take(n as int) =~= ts);
        assert(b@ =~= "<TemplatesMetadata>"@ + template_members(ts) + "</TemplatesMetadata>"@);
    }
    ok("ListTemplates", rid, b.as_str())
}

/// What `handle_send_templated_email` does.
pub open spec fn send_templated_outcome(
    s0: SesStoreView,
    s1: SesStoreView,
    ctx: RequestContext,
    p: Map<Seq<char>, Seq<char>>,
    rid: Seq<char>,
    id: Seq<char>,
    now: i64,
    r: ResponseView,
) -> bool {
    if !p.contains_key("Source"@) {
        r == missing("Source"@) && s1 == s0
    } else if !p.contains_key("Template"@) {
        r == missing("Template"@) && s1 == s0
    } else {
        let name = p["Template"@];
        if !s0.templates.contains_key(name) {
            r == no_template(name) && s1 == s0
        } else {
            let t = s0.templates[name];
            let email = EmailView {
                message_id: id,
                source: p["Source"@],
                destination_to: addresses(ctx, "Destination.ToAddresses.member"@),
                destination_cc: addresses(ctx, "Destination.CcAddresses.member"@),
                destination_bcc: addresses(ctx, "Destination.BccAddresses.member"@),
                subject: t.subject_part,
                body_text: t.text_part,
                body_html: t.html_part,
                sent_at: now,
            };
            &&& s1 == (SesStoreView { emails: s0.emails.insert(id, email), ..s0 })
            &&& r == ses_ok("SendTemplatedEmail"@, rid, raw_element("MessageId"@, id))
        }
    }
}

/// SendTemplatedEmail: records an email from `Source` built from template
/// `Template` as message `id`.
pub fn handle_send_templated_email(
    store: &mut SesStore,
    ctx: &RequestContext,
    p: &StrMap<String>,
    rid: &str,
    id: &str,
    now: i64,
) -> (r: DispatchResponse)
    requires
        old(store).wf(),
        ctx.wf(),
        p.wf(),
    ensures
        final(store).wf(),
        send_templated_outcome(old(store)@, final(store)@, *ctx, p@, rid@, id@, now, r@),
{
    let source = match p.get("Source") {
        Some(s) => s.clone(),
        None => {
            return missing_param("Source");
        },
    };
    let name = match p.get("Template") {
        Some(t) => t,
        None => {
            return missing_param("Template");
        },
    };
    let to = addresses_exec(ctx, "Destination.ToAddresses.member");
    let cc = addresses_exec(ctx, "Destination.CcAddresses.member");
    let bcc = addresses_exec(ctx, "Destination.BccAddresses.member");
    let (subject, html, text) = match store.templates.get(name.as_str()) {
        Some(t) => (t.subject_part.clone(), t.html_part.clone(), t.text_part.clone()),
        None => {
            return template_missing(name.as_str());
        },
    };
    let email = StoredEmail {
        message_id: id.to_string(),
        source,
        destination_to: to,
        destination_cc: cc,
        destination_bcc: bcc,
        subject,
        body_text: text,
        body_html: html,
        sent_at: now,
    };
    store.emails.insert(id.to_string(), email);
    let mut inner = String::new();
    push_raw_element(&mut inner, "MessageId", id);
    ok("SendTemplatedEmail", rid, inner.as_str())
}

// ---------------------------------------------------------------------------
// Notification settings
// ---------------------------------------------------------------------------

/// Whether `ForwardingEnabled` turns forwarding on: `true` in any case, or
/// no value at all.
pub open spec fn forwarding_requested(p: Map<Seq<char>, Seq<char>>) -> bool {
    if p.contains_key("ForwardingEnabled"@) {
        crate::s3_api::eq_ignore_ascii_case(p["ForwardingEnabled"@], "true"@)
    } else {
        true
    }
}

/// The settings of `identity`, or the defaults.
pub open spec fn settings_of(s0: SesStoreView, identity: Seq<char>) -> NotificationView {
    if s0.notification_attrs.contains_key(identity) {
        s0.notification_attrs[identity]
    } else {
        default_notification()
    }
}

/// What `handle_set_feedback_forwarding` does.
pub open spec fn set_forwarding_outcome(s0: SesStoreView, s1: SesStoreView, p: Map<Seq<char>, Seq<char>>, rid: Seq<char>, r: ResponseView) -> bool {
    if !p.contains_key("Identity"@) {
        r == missing("Identity"@) && s1 == s0
    } else {
        let id = p["Identity"@];
        &&& s1 == (SesStoreView {
            notification_attrs: s0.notification_attrs.insert(
                id,
                NotificationView { forwarding_enabled: forwarding_requested(p), ..settings_of(s0, id) },
            ),
            ..s0
        })
        &&& r == ses_ok_empty("SetIdentityFeedbackForwardingEnabled"@, rid)
    }
}

/// SetIdentityFeedbackForwardingEnabled: turns feedback forwarding of
/// identity `Identity` on or off.
pub fn handle_set_feedback_forwarding(store: &mut SesStore, p: &StrMap<String>, rid: &str) -> (r: DispatchResponse)
    requires
        old(store).wf(),
        p.wf(),
    ensures
        final(store).wf(),
        set_forwarding_outcome(old(store)@, final(store)@, p@, rid@, r@),
{
    let id = match p.get("Identity") {
        Some(i) => i.clone(),
        None => {
            return missing_param("Identity");
        },
    };
    let enabled = match p.get("ForwardingEnabled") {
        Some(v) => {
            let a = chars_of(v.as_str());
            let b = chars_of("true");
            crate::s3_api::eq_ignore_ascii_case_exec(a.as_slice(), b.as_slice())
        },
        None => true,
    };
    let mut attrs = match store.notification_attrs.get(id.as_str()) {
        Some(a) => IdentityNotificationAttributes {
            bounce_topic: crate::text::copy_opt(&a.bounce_topic),
            complaint_topic: crate::text::copy_opt(&a.complaint_topic),
            delivery_topic: crate::text::copy_opt(&a.delivery_topic),
            forwarding_enabled: a.forwarding_enabled,
        },
        None => IdentityNotificationAttributes::default(),
    };
    attrs.forwarding_enabled = enabled;
    store.notification_attrs.insert(id, attrs);
    ok_no_result("SetIdentityFeedbackForwardingEnabled", rid)
}

/// `<{tag}>{topic}</{tag}>` when there is a topic.
pub open spec fn topic_xml(tag: Seq<char>, topic: Option<Seq<char>>) -> Seq<char> {
    match topic {
        Some(t) => raw_element(tag, t),
        None => Seq::empty(),
    }
}

/// The notification entry of one identity.
pub open spec fn notification_entry(id: Seq<char>, a: NotificationView) -> Seq<char> {
    "<entry><key>"@ + id + "</key><value>"@ + topic_xml("BounceTopic"@, a.bounce_topic) + topic_xml(
        "ComplaintTopic"@,
        a.complaint_topic,
    ) + topic_xml("DeliveryTopic"@, a.delivery_topic) + raw_element("ForwardingEnabled"@, bool_spec(a.forwarding_enabled))
        + "</value></entry>"@
}

/// The notification entries of the identities `ids`.
pub open spec fn notification_entries(s0: SesStoreView, ids: Seq<Seq<char>>) -> Seq<char>
    decreases ids.len(),
{
    if ids.len() == 0 {
        Seq::empty()
    } else {
        notification_entries(s0, ids.drop_last()) + notification_entry(ids.last(), settings_of(s0, ids.last()))
    }
}

fn push_topic(out: &mut String, tag: &str, topic: &Option<String>)
    ensures
        final(out)@ == old(out)@ + topic_xml(tag@, crate::text::opt_view(*topic)),
{
    match topic {
        Some(t) => push_raw_element(out, tag, t.as_str()),
        None => {
            proof {
                assert(out@ =~= old(out)@ + topic_xml(tag@, crate::text::opt_view(*topic)));
            }
        },
    }
}

fn push_notification_entry(b: &mut String, store: &SesStore, id: &str)
    requires
        store.wf(),
    ensures
        final(b)@ == old(b)@ + notification_entry(id@, settings_of(store@, id@)),
{
    push_str(b, "<entry><key>");
    push_str(b, id);
    push_str(b, "</key><value>");
    match store.notification_attrs.get(id) {
        Some(a) => {
            push_topic(b, "BounceTopic", &a.bounce_topic);
            push_topic(b, "ComplaintTopic", &a.complaint_topic);
            push_topic(b, "DeliveryTopic", &a.delivery_topic);
            let mut f = String::new();
            push_bool(&mut f, a.forwarding_enabled);
            push_raw_element(b, "ForwardingEnabled", f.as_str());
        },
        None => {
            let mut f = String::new();
            push_bool(&mut f, true);
            push_raw_element(b, "ForwardingEnabled", f.as_str());
        },
    }
    push_str(b, "</value></entry>");
    proof {
        assert(b@ =~= old(b)@ + notification_entry(id@, settings_of(store@, id@)));
    }
}

/// What `handle_get_notification_attributes` answers.
pub open spec fn notification_attributes_outcome(s0: SesStoreView, ctx: RequestContext, rid: Seq<char>, r: ResponseView) -> bool {
    r == ses_ok(
        "GetIdentityNotificationAttributes"@,
        rid,
        "<NotificationAttributes>"@ + notification_entries(s0, addresses(ctx, "Identities.member"@))
            + "</NotificationAttributes>"@,
    )
}

/// GetIdentityNotificationAttributes: the notification settings of each of
/// `Identities.member.{i}` (the defaults for an identity never configured).
pub fn handle_get_notification_attributes(store: &SesStore, ctx: &RequestContext, rid: &str) -> (r: DispatchResponse)
    requires
        store.wf(),
        ctx.wf(),
    ensures
        notification_attributes_outcome(store@, *ctx, rid@, r@),
{
    let ids = addresses_exec(ctx, "Identities.member");
    let ghost iv = string_views(ids@);
    let mut b = String::new();
    push_str(&mut b, "<NotificationAttributes>");
    let ghost head = b@;
    let mut i: usize = 0;
    proof {
        assert(iv.take(0) =~= Seq::<Seq<char>>::empty());
    }
    while i < ids.len()
        invariant
            i <= ids@.len(),
            iv == string_views(ids@),
            store.wf(),
            b@ == head + notification_entries(store@, iv.take(i as int)),
        decreases ids@.len() - i,
    {
        let id = &ids[i];
        push_notification_entry(&mut b, store, id.as_str());
        proof {
            assert(iv.take(i + 1).drop_last() =~= iv.take(i as int));
            assert(iv.take(i + 1).last() == id@);
            assert(b@ =~= head + notification_entries(store@, iv.take(i + 1)));
        }
        i = i + 1;
    }
    push_str(&mut b, "</NotificationAttributes>");
    proof {
        assert(iv.take(iv.len() as int) =~= iv);
        assert(b@ =~= "<NotificationAttributes>"@ + notification_entries(store@, iv) + "</NotificationAttributes>"@);
    }
    ok("GetIdentityNotificationAttributes", rid, b.as_str())
}

// ---------------------------------------------------------------------------
// Dispatch
// ---------------------------------------------------------------------------

/// The operations SES supports.
pub open spec fn supported_operation(op: Seq<char>) -> bool {
    op == "VerifyEmailIdentity"@ || op == "VerifyDomainIdentity"@ || op == "ListIdentities"@ || op
        == "GetIdentityVerificationAttributes"@ || op == "SendEmail"@ || op == "SendRawEmail"@ || op
        == "DeleteIdentity"@ || op == "GetSendQuota"@ || op == "GetSendStatistics"@ || op == "CreateTemplate"@ || op
        == "DeleteTemplate"@ || op == "GetTemplate"@ || op == "ListTemplates"@ || op == "SendTemplatedEmail"@ || op
        == "SetIdentityFeedbackForwardingEnabled"@ || op == "GetIdentityNotificationAttributes"@
}

/// What handling a request does, by its operation, with request id `rid`,
/// message id `id` for an email it sends, at time `now`; an operation SES
/// does not support is refused as not implemented and changes nothing.
pub open spec fn dispatch_outcome(
    s0: SesStore,
    s1: SesStore,
    ctx: RequestContext,
    rid: Seq<char>,
    id: Seq<char>,
    now: i64,
    r: Result<DispatchResponse, DispatchError>,
) -> bool {
    let op = ctx.operation@;
    let p = service_params(ctx);
    match r {
        Err(DispatchError::NotImplemented(a)) => a@ == op && s1 == s0 && !supported_operation(op),
        Ok(resp) => {
            let v = resp@;
            &&& supported_operation(op)
            &&& if op == "VerifyEmailIdentity"@ {
                verify_email_outcome(s0@, s1@, p, rid, v)
            } else if op == "VerifyDomainIdentity"@ {
                verify_domain_outcome(s0@, s1@, p, rid, v)
            } else if op == "ListIdentities"@ {
                s1 == s0 && list_identities_outcome(s0, rid, v)
            } else if op == "GetIdentityVerificationAttributes"@ {
                s1 == s0 && verification_attributes_outcome(s0@, ctx, rid, v)
            } else if op == "SendEmail"@ {
                send_email_outcome(s0@, s1@, ctx, p, rid, id, now, v)
            } else if op == "SendRawEmail"@ {
                send_raw_email_outcome(s0@, s1@, p, rid, id, now, v)
            } else if op == "DeleteIdentity"@ {
                delete_identity_outcome(s0@, s1@, p, rid, v)
            } else if op == "GetSendQuota"@ {
                s1 == s0 && send_quota_outcome(s0@, rid, v)
            } else if op == "GetSendStatistics"@ {
                s1 == s0 && send_statistics_outcome(s0@, rid, now, v)
            } else if op == "CreateTemplate"@ {
                create_template_outcome(s0@, s1@, p, rid, now, v)
            } else if op == "DeleteTemplate"@ {
                delete_template_outcome(s0@, s1@, p, rid, v)
            } else if op == "GetTemplate"@ {
                s1 == s0 && get_template_outcome(s0@, p, rid, v)
            } else if op == "ListTemplates"@ {
                s1 == s0 && list_templates_outcome(s0, rid, v)
            } else if op == "SendTemplatedEmail"@ {
                send_templated_outcome(s0@, s1@, ctx, p, rid, id, now, v)
            } else if op == "SetIdentityFeedbackForwardingEnabled"@ {
                set_forwarding_outcome(s0@, s1@, p, rid, v)
            } else {
                s1 == s0 && notification_attributes_outcome(s0@, ctx, rid, v)
            }
        },
    }
}

/// Handles one request with request id `rid` at time `now`, giving an
/// email it sends the message id `id`.
pub fn dispatch_at(store: &mut SesStore, ctx: &RequestContext, rid: &str, id: &str, now: i64) -> (r: Result<DispatchResponse, DispatchError>)
    requires
        old(store).wf(),
        ctx.wf(),
    ensures
        final(store).wf(),
        dispatch_outcome(*old(store), *final(store), *ctx, rid@, id@, now, r),
{
    let p = service_params_exec(ctx);
    let op = ctx.operation.as_str();
    let resp = if op.eq("VerifyEmailIdentity") {
        handle_verify_email_identity(store, &p, rid)
    } else if op.eq("VerifyDomainIdentity") {
        handle_verify_domain_identity(store, &p, rid)
    } else if op.eq("ListIdentities") {
        handle_list_identities(store, rid)
    } else if op.eq("GetIdentityVerificationAttributes") {
        handle_get_identity_verification_attributes(store, ctx, rid)
    } else if op.eq("SendEmail") {
        handle_send_email(store, ctx, &p, rid, id, now)
    } else if op.eq("SendRawEmail") {
        handle_send_raw_email(store, &p, rid, id, now)
    } else if op.eq("DeleteIdentity") {
        handle_delete_identity(store, &p, rid)
    } else if op.eq("GetSendQuota") {
        handle_get_send_quota(store, rid)
    } else if op.eq("GetSendStatistics") {
        handle_get_send_statistics_at(store, rid, now)
    } else if op.eq("CreateTemplate") {
        handle_create_template(store, &p, rid, now)
    } else if op.eq("DeleteTemplate") {
        handle_delete_template(store, &p, rid)
    } else if op.eq("GetTemplate") {
        handle_get_template(store, &p, rid)
    } else if op.eq("ListTemplates") {
        handle_list_templates(store, rid)
    } else if op.eq("SendTemplatedEmail") {
        handle_send_templated_email(store, ctx, &p, rid, id, now)
    } else if op.eq("SetIdentityFeedbackForwardingEnabled") {
        handle_set_feedback_forwarding(store, &p, rid)
    } else if op.eq("GetIdentityNotificationAttributes") {
        handle_get_notification_attributes(store, ctx, rid)
    } else {
        return Err(DispatchError::NotImplemented(ctx.operation.clone()));
    };
    Ok(resp)
}

/// Handles one request now, with a fresh request id and message id.
pub fn dispatch(store: &mut SesStore, ctx: &RequestContext) -> (r: Result<DispatchResponse, DispatchError>)
    requires
        old(store).wf(),
        ctx.wf(),
    ensures
        final(store).wf(),
        exists|rid: Seq<char>, id: Seq<char>, now: i64|
            crate::deps::is_uuid_text(rid) && crate::deps::is_uuid_text(id) && #[trigger] dispatch_outcome(*old(store), *final(store), *ctx, rid, id, now, r),
{
    let rid = crate::deps::new_uuid();
    let id = crate::deps::new_uuid();
    let now = crate::deps::now_millis();
    dispatch_at(store, ctx, rid.as_str(), id.as_str(), now)
}

} // verus!
