//! The SES data model: identities, sent emails, templates and the
//! notification settings of identities.
use vstd::prelude::*;

use crate::strmap::StrMap;
use crate::text::{opt_view, string_views};

verus! {

pub struct Identity {
    pub identity: String,
    pub verified: bool,
}

pub struct IdentityView {
    pub identity: Seq<char>,
    pub verified: bool,
}

impl View for Identity {
    type V = IdentityView;

    open spec fn view(&self) -> IdentityView {
        IdentityView { identity: self.identity@, verified: self.verified }
    }
}

pub struct StoredEmail {
    pub message_id: String,
    pub source: String,
    pub destination_to: Vec<String>,
    pub destination_cc: Vec<String>,
    pub destination_bcc: Vec<String>,
    pub subject: String,
    pub body_text: String,
    pub body_html: String,
    /// Milliseconds since the Unix epoch.
    pub sent_at: i64,
}

pub struct EmailView {
    pub message_id: Seq<char>,
    pub source: Seq<char>,
    pub destination_to: Seq<Seq<char>>,
    pub destination_cc: Seq<Seq<char>>,
    pub destination_bcc: Seq<Seq<char>>,
    pub subject: Seq<char>,
    pub body_text: Seq<char>,
    pub body_html: Seq<char>,
    pub sent_at: i64,
}

impl View for StoredEmail {
    type V = EmailView;

    open spec fn view(&self) -> EmailView {
        EmailView {
            message_id: self.message_id@,
            source: self.source@,
            destination_to: string_views(self.destination_to@),
            destination_cc: string_views(self.destination_cc@),
            destination_bcc: string_views(self.destination_bcc@),
            subject: self.subject@,
            body_text: self.body_text@,
            body_html: self.body_html@,
            sent_at: self.sent_at,
        }
    }
}

pub struct EmailTemplate {
    pub template_name: String,
    pub subject_part: String,
    pub html_part: String,
    pub text_part: String,
    /// Milliseconds since the Unix epoch.
    pub created_at: i64,
}

pub struct TemplateView {
    pub template_name: Seq<char>,
    pub subject_part: Seq<char>,
    pub html_part: Seq<char>,
    pub text_part: Seq<char>,
    pub created_at: i64,
}

impl View for EmailTemplate {
    type V = TemplateView;

    open spec fn view(&self) -> TemplateView {
        TemplateView {
            template_name: self.template_name@,
            subject_part: self.subject_part@,
            html_part: self.html_part@,
            text_part: self.text_part@,
            created_at: self.created_at,
        }
    }
}

pub struct IdentityNotificationAttributes {
    pub bounce_topic: Option<String>,
    pub complaint_topic: Option<String>,
    pub delivery_topic: Option<String>,
    pub forwarding_enabled: bool,
}

pub struct NotificationView {
    pub bounce_topic: Option<Seq<char>>,
    pub complaint_topic: Option<Seq<char>>,
    pub delivery_topic: Option<Seq<char>>,
    pub forwarding_enabled: bool,
}

impl View for IdentityNotificationAttributes {
    type V = NotificationView;

    open spec fn view(&self) -> NotificationView {
        NotificationView {
            bounce_topic: opt_view(self.bounce_topic),
            complaint_topic: opt_view(self.complaint_topic),
            delivery_topic: opt_view(self.delivery_topic),
            forwarding_enabled: self.forwarding_enabled,
        }
    }
}

/// The notification settings of an identity nobody configured: no topics,
/// forwarding enabled.
pub open spec fn default_notification() -> NotificationView {
    NotificationView { bounce_topic: None, complaint_topic: None, delivery_topic: None, forwarding_enabled: true }
}

impl Default for IdentityNotificationAttributes {
    /// No topics, forwarding enabled.
    fn default() -> (r: Self)
        ensures
            r@ == default_notification(),
    {
        IdentityNotificationAttributes {
            bounce_topic: None,
            complaint_topic: None,
            delivery_topic: None,
            forwarding_enabled: true,
        }
    }
}

/// One account and region's SES state.
pub struct SesStore {
    /// Identity (address or domain) to identity.
    pub identities: StrMap<Identity>,
    /// Message id to sent email.
    pub emails: StrMap<StoredEmail>,
    /// Template name to template.
    pub templates: StrMap<EmailTemplate>,
    /// Identity to its notification settings.
    pub notification_attrs: StrMap<IdentityNotificationAttributes>,
}

pub struct SesStoreView {
    pub identities: Map<Seq<char>, IdentityView>,
    pub emails: Map<Seq<char>, EmailView>,
    pub templates: Map<Seq<char>, TemplateView>,
    pub notification_attrs: Map<Seq<char>, NotificationView>,
}

impl View for SesStore {
    type V = SesStoreView;

    open spec fn view(&self) -> SesStoreView {
        SesStoreView {
            identities: self.identities@,
            emails: self.emails@,
            templates: self.templates@,
            notification_attrs: self.notification_attrs@,
        }
    }
}

impl SesStore {
    pub open spec fn wf(&self) -> bool {
        &&& self.identities.wf()
        &&& self.emails.wf()
        &&& self.templates.wf()
        &&& self.notification_attrs.wf()
    }

    /// An empty store.
    pub fn new() -> (s: Self)
        ensures
            s.wf(),
            s@.identities == Map::<Seq<char>, IdentityView>::empty(),
            s@.emails == Map::<Seq<char>, EmailView>::empty(),
            s@.templates == Map::<Seq<char>, TemplateView>::empty(),
            s@.notification_attrs == Map::<Seq<char>, NotificationView>::empty(),
    {
        SesStore {
            identities: StrMap::new(),
            emails: StrMap::new(),
            templates: StrMap::new(),
            notification_attrs: StrMap::new(),
        }
    }
}

} // verus!
