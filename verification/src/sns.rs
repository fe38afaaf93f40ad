//! The SNS data model: topics, subscriptions and their filter policies.
//!
//! Operations that read the clock or draw a fresh identifier have a
//! companion ending in `_at` that takes those values as arguments.
use vstd::prelude::*;

use crate::deps::{filter_policy_doc, filter_policy_entries, new_uuid, now_millis, policy_entries_view};
use crate::sqs::MessageAttributeValueView;
use crate::strmap::StrMap;
use crate::text::{chars_of, concat2, copy_bytes, copy_opt, ends_with_chars, opt_view, push_str};

verus! {

// ---------------------------------------------------------------------------
// Message attributes
// ---------------------------------------------------------------------------

pub struct MessageAttribute {
    pub data_type: String,
    pub string_value: Option<String>,
    pub binary_value: Option<Vec<u8>>,
}

impl View for MessageAttribute {
    type V = MessageAttributeValueView;

    open spec fn view(&self) -> MessageAttributeValueView {
        MessageAttributeValueView {
            data_type: self.data_type@,
            string_value: opt_view(self.string_value),
            binary_value: match self.binary_value {
                Some(b) => Some(b@),
                None => None,
            },
        }
    }
}

impl crate::strmap::DeepCopy for MessageAttribute {
    fn deep_copy(&self) -> (r: Self) {
        MessageAttribute {
            data_type: self.data_type.clone(),
            string_value: copy_opt(&self.string_value),
            binary_value: match &self.binary_value {
                Some(b) => Some(copy_bytes(b)),
                None => None,
            },
        }
    }
}

// ---------------------------------------------------------------------------
// Filter policies
// ---------------------------------------------------------------------------

/// Attribute name to the values allowed for it; an element is `None` when
/// the policy listed something other than a string there, which no
/// attribute matches.
pub struct FilterPolicy(pub StrMap<AllowedValues>);

/// The values a policy allows for one attribute.
pub struct AllowedValues(pub Vec<Option<String>>);

impl View for AllowedValues {
    type V = Seq<Option<Seq<char>>>;

    open spec fn view(&self) -> Seq<Option<Seq<char>>> {
        allowed_view(self.0@)
    }
}

impl crate::strmap::DeepCopy for AllowedValues {
    fn deep_copy(&self) -> (r: Self) {
        AllowedValues(copy_allowed(&self.0))
    }
}

/// The allowed values of a policy entry, as views.
pub open spec fn allowed_view(v: Seq<Option<String>>) -> Seq<Option<Seq<char>>> {
    v.map_values(|o: Option<String>| opt_view(o))
}

/// A policy's entries as a map.
pub open spec fn policy_map(es: Seq<(Seq<char>, Seq<Option<Seq<char>>>)>) -> Map<Seq<char>, Seq<Option<Seq<char>>>>
    decreases es.len(),
{
    if es.len() == 0 {
        Map::empty()
    } else {
        policy_map(es.drop_last()).insert(es.last().0, es.last().1)
    }
}

/// The string an attribute offers to a filter: its string value, or the
/// empty string.
pub open spec fn attribute_text(a: MessageAttributeValueView) -> Seq<char> {
    match a.string_value {
        Some(s) => s,
        None => Seq::empty(),
    }
}

/// Attributes pass a policy when every attribute the policy names is
/// present and its text is one of the strings the policy allows for it.
pub open spec fn policy_matches(
    policy: Map<Seq<char>, Seq<Option<Seq<char>>>>,
    attrs: Map<Seq<char>, MessageAttributeValueView>,
) -> bool {
    forall|name: Seq<char>| #[trigger]
        policy.contains_key(name) ==> attrs.contains_key(name) && policy[name].contains(
            Some(attribute_text(attrs[name])),
        )
}

impl FilterPolicy {
    pub open spec fn wf(&self) -> bool {
        self.0.wf()
    }

    /// The policy as a map from attribute name to allowed values.
    pub open spec fn view_map(&self) -> Map<Seq<char>, Seq<Option<Seq<char>>>> {
        self.0@
    }

    /// Reads a policy from its JSON text: an object whose values are all
    /// arrays; `None` for anything else.
    pub fn from_json(json: &str) -> (r: Option<Self>)
        ensures
            match filter_policy_doc(json@) {
                Some(es) => r matches Some(p) && p.wf() && p.view_map() == policy_map(es),
                None => r is None,
            },
    {
        let entries = match filter_policy_entries(json) {
            Some(e) => e,
            None => {
                return None;
            },
        };
        let ghost es = policy_entries_view(entries@);
        let mut m: StrMap<AllowedValues> = StrMap::new();
        let mut i: usize = 0;
        let n = entries.len();
        proof {
            assert(es.take(0) =~= Seq::<(Seq<char>, Seq<Option<Seq<char>>>)>::empty());
            assert(m@ =~= Map::<Seq<char>, Seq<Option<Seq<char>>>>::empty());
        }
        let mut entries = entries;
        let ghost all = entries@;
        while i < n
            invariant
                i <= n,
                n == all.len(),
                m.wf(),
                es == policy_entries_view(all),
                entries@ == all,
                m@ == policy_map(es.take(i as int)),
            decreases n - i,
        {
            let k = entries[i].0.clone();
            let v = AllowedValues(copy_allowed(&entries[i].1));
            let ghost before = m@;
            m.insert(k, v);
            proof {
                assert(es.take(i + 1).drop_last() =~= es.take(i as int));
                assert(es[i as int] == (all[i as int].0@, allowed_view(all[i as int].1@)));
            }
            i = i + 1;
        }
        proof {
            assert(es.take(n as int) =~= es);
        }
        Some(FilterPolicy(m))
    }

    /// Whether `attributes` pass this policy.
    pub fn matches(&self, attributes: &StrMap<MessageAttribute>) -> (b: bool)
        requires
            self.wf(),
            attributes.wf(),
        ensures
            b == policy_matches(self.view_map(), attributes@),
    {
        let n = self.0.len();
        proof {
            self.0.lemma_enumeration();
        }
        let mut i: usize = 0;
        while i < n
            invariant
                self.wf(),
                attributes.wf(),
                i <= n,
                n == self.0.keys_seq().len(),
                n == self.0.vals_seq().len(),
                forall|j: int|
                    0 <= j < i ==> {
                        let name = #[trigger] self.0.keys_seq()[j];
                        attributes@.contains_key(name) && self.view_map()[name].contains(
                            Some(attribute_text(attributes@[name])),
                        )
                    },
            decreases n - i,
        {
            proof {
                self.0.lemma_enumeration();
            }
            let name = self.0.key_at_index(i);
            let allowed = self.0.value_at_index(i);
            let attr = match attributes.get(name.as_str()) {
                None => {
                    proof {
                        assert(self.0@.contains_key(name@));
                        assert(self.view_map().contains_key(name@));
                        assert(!policy_matches(self.view_map(), attributes@));
                    }
                    return false;
                },
                Some(a) => a,
            };
            let text: &str = match &attr.string_value {
                Some(s) => s.as_str(),
                None => "",
            };
            proof {
                reveal_strlit("");
            }
            let allowed = &allowed.0;
            let ghost av = allowed_view(allowed@);
            let mut passes = false;
            let mut j: usize = 0;
            while j < allowed.len()
                invariant
                    j <= allowed@.len(),
                    av == allowed_view(allowed@),
                    passes == (exists|t: int| 0 <= t < j && av[t] == Some(text@)),
                decreases allowed@.len() - j,
            {
                match &allowed[j] {
                    Some(s) => {
                        if s.as_str().eq(text) {
                            passes = true;
                        }
                    },
                    None => {},
                }
                proof {
                    assert(av[j as int] == opt_view(allowed@[j as int]));
                }
                j = j + 1;
            }
            proof {
                assert(self.0@.contains_key(name@));
                assert(self.view_map().contains_key(name@));
                assert(self.view_map()[name@] == av);
                assert(text@ == attribute_text(attributes@[name@]));
                if passes {
                    let t = choose|t: int| 0 <= t < allowed@.len() && av[t] == Some(text@);
                    assert(av.contains(Some(text@)));
                } else {
                    assert(!av.contains(Some(text@)));
                    assert(!policy_matches(self.view_map(), attributes@));
                }
            }
            if !passes {
                return false;
            }
            i = i + 1;
        }
        proof {
            self.0.lemma_enumeration();
            assert forall|name: Seq<char>| #[trigger] self.view_map().contains_key(name) implies attributes@.contains_key(name)
                && self.view_map()[name].contains(Some(attribute_text(attributes@[name]))) by {
                assert(self.0@.contains_key(name));
                assert(self.0.keys_seq().contains(name));
                let j = choose|j: int| 0 <= j < self.0.keys_seq().len() && self.0.keys_seq()[j] == name;
            }
        }
        true
    }
}

/// A copy of a policy entry's allowed values.
fn copy_allowed(v: &Vec<Option<String>>) -> (r: Vec<Option<String>>)
    ensures
        allowed_view(r@) == allowed_view(v@),
{
    let mut r: Vec<Option<String>> = Vec::new();
    let mut i: usize = 0;
    while i < v.len()
        invariant
            i <= v@.len(),
            r@.len() == i,
            forall|j: int| 0 <= j < i ==> opt_view(#[trigger] r@[j]) == opt_view(v@[j]),
        decreases v@.len() - i,
    {
        r.push(copy_opt(&v[i]));
        i = i + 1;
    }
    proof {
        assert(allowed_view(r@) =~= allowed_view(v@));
    }
    r
}

// ---------------------------------------------------------------------------
// Protocols
// ---------------------------------------------------------------------------

#[derive(Debug, Clone, Copy, PartialEq, Eq, Structural)]
pub enum Protocol {
    Sqs,
    Http,
    Https,
    Lambda,
    Email,
    EmailJson,
    Sms,
    Application,
    Firehose,
}

/// The protocol's name as the API spells it.
pub open spec fn protocol_name(p: Protocol) -> Seq<char> {
    match p {
        Protocol::Sqs => "sqs"@,
        Protocol::Http => "http"@,
        Protocol::Https => "https"@,
        Protocol::Lambda => "lambda"@,
        Protocol::Email => "email"@,
        Protocol::EmailJson => "email-json"@,
        Protocol::Sms => "sms"@,
        Protocol::Application => "application"@,
        Protocol::Firehose => "firehose"@,
    }
}

/// The protocol named `s`, if any.
pub open spec fn parse_protocol_spec(s: Seq<char>) -> Option<Protocol> {
    if s == "sqs"@ {
        Some(Protocol::Sqs)
    } else if s == "http"@ {
        Some(Protocol::Http)
    } else if s == "https"@ {
        Some(Protocol::Https)
    } else if s == "lambda"@ {
        Some(Protocol::Lambda)
    } else if s == "email"@ {
        Some(Protocol::Email)
    } else if s == "email-json"@ {
        Some(Protocol::EmailJson)
    } else if s == "sms"@ {
        Some(Protocol::Sms)
    } else if s == "application"@ {
        Some(Protocol::Application)
    } else if s == "firehose"@ {
        Some(Protocol::Firehose)
    } else {
        None
    }
}

impl Protocol {
    /// The protocol named `s` (lower case, as the API spells it).
    pub fn parse(s: &str) -> (r: Option<Self>)
        ensures
            r == parse_protocol_spec(s@),
    {
        if s.eq("sqs") {
            Some(Protocol::Sqs)
        } else if s.eq("http") {
            Some(Protocol::Http)
        } else if s.eq("https") {
            Some(Protocol::Https)
        } else if s.eq("lambda") {
            Some(Protocol::Lambda)
        } else if s.eq("email") {
            Some(Protocol::Email)
        } else if s.eq("email-json") {
            Some(Protocol::EmailJson)
        } else if s.eq("sms") {
            Some(Protocol::Sms)
        } else if s.eq("application") {
            Some(Protocol::Application)
        } else if s.eq("firehose") {
            Some(Protocol::Firehose)
        } else {
            None
        }
    }

    /// The protocol's name.
    pub fn as_str(&self) -> (r: &'static str)
        ensures
            r@ == protocol_name(*self),
    {
        match self {
            Protocol::Sqs => "sqs",
            Protocol::Http => "http",
            Protocol::Https => "https",
            Protocol::Lambda => "lambda",
            Protocol::Email => "email",
            Protocol::EmailJson => "email-json",
            Protocol::Sms => "sms",
            Protocol::Application => "application",
            Protocol::Firehose => "firehose",
        }
    }
}

/// Reading back a protocol's name gives the protocol.
pub proof fn lemma_protocol_round_trip(p: Protocol)
    ensures
        parse_protocol_spec(protocol_name(p)) == Some(p),
{
    reveal_strlit("sqs");
    reveal_strlit("http");
    reveal_strlit("https");
    reveal_strlit("lambda");
    reveal_strlit("email");
    reveal_strlit("email-json");
    reveal_strlit("sms");
    reveal_strlit("application");
    reveal_strlit("firehose");
    match p {
        Protocol::Sqs => {

        },
        Protocol::Http => {
            assert("http"@.len() != "sqs"@.len());
        },
        Protocol::Https => {
            assert("https"@.len() != "sqs"@.len());
            assert("https"@.len() != "http"@.len());
        },
        Protocol::Lambda => {
            assert("lambda"@.len() != "sqs"@.len());
            assert("lambda"@.len() != "http"@.len());
            assert("lambda"@.len() != "https"@.len());
        },
        Protocol::Email => {
            assert("email"@.len() != "sqs"@.len());
            assert("email"@.len() != "http"@.len());
            assert("email"@[0] != "https"@[0]);
            assert("email"@.len() != "lambda"@.len());
        },
        Protocol::EmailJson => {
            assert("email-json"@.len() != "sqs"@.len());
            assert("email-json"@.len() != "http"@.len());
            assert("email-json"@.len() != "https"@.len());
            assert("email-json"@.len() != "lambda"@.len());
            assert("email-json"@.len() != "email"@.len());
        },
        Protocol::Sms => {
            assert("sms"@[1] != "sqs"@[1]);
            assert("sms"@.len() != "http"@.len());
            assert("sms"@.len() != "https"@.len());
            assert("sms"@.len() != "lambda"@.len());
            assert("sms"@.len() != "email"@.len());
            assert("sms"@.len() != "email-json"@.len());
        },
        Protocol::Application => {
            assert("application"@.len() != "sqs"@.len());
            assert("application"@.len() != "http"@.len());
            assert("application"@.len() != "https"@.len());
            assert("application"@.len() != "lambda"@.len());
            assert("application"@.len() != "email"@.len());
            assert("application"@.len() != "email-json"@.len());
            assert("application"@.len() != "sms"@.len());
        },
        Protocol::Firehose => {
            assert("firehose"@.len() != "sqs"@.len());
            assert("firehose"@.len() != "http"@.len());
            assert("firehose"@.len() != "https"@.len());
            assert("firehose"@.len() != "lambda"@.len());
            assert("firehose"@.len() != "email"@.len());
            assert("firehose"@.len() != "email-json"@.len());
            assert("firehose"@.len() != "sms"@.len());
            assert("firehose"@.len() != "application"@.len());
        },
    }
}

// ---------------------------------------------------------------------------
// Subscriptions
// ---------------------------------------------------------------------------

pub struct Subscription {
    pub subscription_arn: String,
    pub topic_arn: String,
    pub protocol: Protocol,
    pub endpoint: String,
    pub owner: String,
    pub raw_message_delivery: bool,
    pub filter_policy: Option<FilterPolicy>,
    pub confirmation_was_authenticated: bool,
    pub pending_confirmation: bool,
    /// Milliseconds since the Unix epoch.
    pub created: i64,
}

pub struct SubscriptionView {
    pub subscription_arn: Seq<char>,
    pub topic_arn: Seq<char>,
    pub protocol: Protocol,
    pub endpoint: Seq<char>,
    pub owner: Seq<char>,
    pub raw_message_delivery: bool,
    pub filter_policy: Option<Map<Seq<char>, Seq<Option<Seq<char>>>>>,
    pub confirmation_was_authenticated: bool,
    pub pending_confirmation: bool,
    pub created: i64,
}

impl View for Subscription {
    type V = SubscriptionView;

    open spec fn view(&self) -> SubscriptionView {
        SubscriptionView {
            subscription_arn: self.subscription_arn@,
            topic_arn: self.topic_arn@,
            protocol: self.protocol,
            endpoint: self.endpoint@,
            owner: self.owner@,
            raw_message_delivery: self.raw_message_delivery,
            filter_policy: match self.filter_policy {
                Some(p) => Some(p.view_map()),
                None => None,
            },
            confirmation_was_authenticated: self.confirmation_was_authenticated,
            pending_confirmation: self.pending_confirmation,
            created: self.created,
        }
    }
}

/// `{topic_arn}:{sub_id}`
pub open spec fn subscription_arn_spec(topic_arn: Seq<char>, sub_id: Seq<char>) -> Seq<char> {
    topic_arn + seq![':'] + sub_id
}

/// A new subscription: confirmed, raw delivery off, no filter policy.
pub open spec fn new_subscription_spec(
    topic_arn: Seq<char>,
    protocol: Protocol,
    endpoint: Seq<char>,
    owner: Seq<char>,
    sub_id: Seq<char>,
    now: i64,
) -> SubscriptionView {
    SubscriptionView {
        subscription_arn: subscription_arn_spec(topic_arn, sub_id),
        topic_arn,
        protocol,
        endpoint,
        owner,
        raw_message_delivery: false,
        filter_policy: None,
        confirmation_was_authenticated: true,
        pending_confirmation: false,
        created: now,
    }
}

impl Subscription {
    pub open spec fn wf(&self) -> bool {
        match self.filter_policy {
            Some(p) => p.wf(),
            None => true,
        }
    }

    /// A subscription of `endpoint` to `topic_arn` with id `sub_id`,
    /// created at `now`.
    pub fn new_at(topic_arn: &str, protocol: Protocol, endpoint: &str, owner: &str, sub_id: &str, now: i64) -> (s: Self)
        ensures
            s.wf(),
            s@ == new_subscription_spec(topic_arn@, protocol, endpoint@, owner@, sub_id@, now),
    {
        let mut arn = String::new();
        push_str(&mut arn, topic_arn);
        arn.push(':');
        push_str(&mut arn, sub_id);
        proof {
            assert(arn@ =~= subscription_arn_spec(topic_arn@, sub_id@));
        }
        Subscription {
            subscription_arn: arn,
            topic_arn: topic_arn.to_string(),
            protocol,
            endpoint: endpoint.to_string(),
            owner: owner.to_string(),
            raw_message_delivery: false,
            filter_policy: None,
            confirmation_was_authenticated: true,
            pending_confirmation: false,
            created: now,
        }
    }

    /// A subscription created now with a fresh id.
    pub fn new(topic_arn: &str, protocol: Protocol, endpoint: &str, owner: &str) -> (s: Self)
        ensures
            s.wf(),
            exists|id: Seq<char>, now: i64| crate::deps::is_uuid_text(id) && s@ == #[trigger] new_subscription_spec(topic_arn@, protocol, endpoint@, owner@, id, now),
    {
        let id = new_uuid();
        let now = now_millis();
        Subscription::new_at(topic_arn, protocol, endpoint, owner, id.as_str(), now)
    }
}

// ---------------------------------------------------------------------------
// Topics
// ---------------------------------------------------------------------------

pub struct Topic {
    pub topic_arn: String,
    pub name: String,
    pub display_name: String,
    pub owner: String,
    pub region: String,
    pub created: i64,
    pub fifo: bool,
    pub content_based_deduplication: bool,
    pub policy: Option<String>,
    pub delivery_policy: Option<String>,
    pub kms_master_key_id: Option<String>,
}

pub struct TopicView {
    pub topic_arn: Seq<char>,
    pub name: Seq<char>,
    pub display_name: Seq<char>,
    pub owner: Seq<char>,
    pub region: Seq<char>,
    pub created: i64,
    pub fifo: bool,
    pub content_based_deduplication: bool,
    pub policy: Option<Seq<char>>,
    pub delivery_policy: Option<Seq<char>>,
    pub kms_master_key_id: Option<Seq<char>>,
}

impl View for Topic {
    type V = TopicView;

    open spec fn view(&self) -> TopicView {
        TopicView {
            topic_arn: self.topic_arn@,
            name: self.name@,
            display_name: self.display_name@,
            owner: self.owner@,
            region: self.region@,
            created: self.created,
            fifo: self.fifo,
            content_based_deduplication: self.content_based_deduplication,
            policy: opt_view(self.policy),
            delivery_policy: opt_view(self.delivery_policy),
            kms_master_key_id: opt_view(self.kms_master_key_id),
        }
    }
}

/// `arn:aws:sns:{region}:{account_id}:{name}`
pub open spec fn topic_arn_spec(region: Seq<char>, account_id: Seq<char>, name: Seq<char>) -> Seq<char> {
    seq!['a', 'r', 'n', ':', 'a', 'w', 's', ':', 's', 'n', 's', ':'] + region + seq![':'] + account_id + seq![':'] + name
}

/// `.fifo`
pub open spec fn fifo_suffix() -> Seq<char> {
    seq!['.', 'f', 'i', 'f', 'o']
}

/// A new topic: its display name is its name, FIFO when the name ends in
/// `.fifo`, with no policies.
pub open spec fn new_topic_spec(name: Seq<char>, account_id: Seq<char>, region: Seq<char>, now: i64) -> TopicView {
    TopicView {
        topic_arn: topic_arn_spec(region, account_id, name),
        name,
        display_name: name,
        owner: account_id,
        region,
        created: now,
        fifo: fifo_suffix().len() <= name.len() && name.subrange(name.len() - fifo_suffix().len(), name.len() as int)
            == fifo_suffix(),
        content_based_deduplication: false,
        policy: None,
        delivery_policy: None,
        kms_master_key_id: None,
    }
}

fn topic_arn_exec(region: &str, account_id: &str, name: &str) -> (r: String)
    ensures
        r@ == topic_arn_spec(region@, account_id@, name@),
{
    let mut r = String::new();
    r.push('a');
    r.push('r');
    r.push('n');
    r.push(':');
    r.push('a');
    r.push('w');
    r.push('s');
    r.push(':');
    r.push('s');
    r.push('n');
    r.push('s');
    r.push(':');
    push_str(&mut r, region);
    r.push(':');
    push_str(&mut r, account_id);
    r.push(':');
    push_str(&mut r, name);
    proof {
        assert(r@ =~= topic_arn_spec(region@, account_id@, name@));
    }
    r
}

impl Topic {
    /// A new topic named `name`, created at `now`.
    pub fn new_at(name: &str, account_id: &str, region: &str, now: i64) -> (t: Self)
        ensures
            t@ == new_topic_spec(name@, account_id@, region@, now),
    {
        let nc = chars_of(name);
        let suffix = ['.', 'f', 'i', 'f', 'o'];
        let fifo = ends_with_chars(nc.as_slice(), suffix.as_slice());
        proof {
            assert(suffix@ =~= fifo_suffix());
        }
        Topic {
            topic_arn: topic_arn_exec(region, account_id, name),
            name: name.to_string(),
            display_name: name.to_string(),
            owner: account_id.to_string(),
            region: region.to_string(),
            created: now,
            fifo,
            content_based_deduplication: false,
            policy: None,
            delivery_policy: None,
            kms_master_key_id: None,
        }
    }

    /// A new topic created now.
    pub fn new(name: &str, account_id: &str, region: &str) -> (t: Self)
        ensures
            exists|now: i64| t@ == #[trigger] new_topic_spec(name@, account_id@, region@, now),
    {
        let now = now_millis();
        Topic::new_at(name, account_id, region, now)
    }
}

/// The topic `create_topic` makes: a new topic with the attributes
/// `DisplayName`, `Policy`, `KmsMasterKeyId` and `ContentBasedDeduplication`
/// (true exactly when `true`) applied.
pub open spec fn created_topic_spec(
    name: Seq<char>,
    account_id: Seq<char>,
    region: Seq<char>,
    attrs: Map<Seq<char>, Seq<char>>,
    now: i64,
) -> TopicView {
    let t = new_topic_spec(name, account_id, region, now);
    TopicView {
        display_name: if attrs.contains_key("DisplayName"@) {
            attrs["DisplayName"@]
        } else {
            t.display_name
        },
        policy: if attrs.contains_key("Policy"@) {
            Some(attrs["Policy"@])
        } else {
            t.policy
        },
        kms_master_key_id: if attrs.contains_key("KmsMasterKeyId"@) {
            Some(attrs["KmsMasterKeyId"@])
        } else {
            t.kms_master_key_id
        },
        content_based_deduplication: if attrs.contains_key("ContentBasedDeduplication"@) {
            attrs["ContentBasedDeduplication"@] == "true"@
        } else {
            t.content_based_deduplication
        },
        ..t
    }
}

// ---------------------------------------------------------------------------
// The store
// ---------------------------------------------------------------------------

pub struct SnsStore {
    /// Topic ARN to topic.
    pub topics: StrMap<Topic>,
    /// Subscription ARN to subscription.
    pub subscriptions: StrMap<Subscription>,
}

pub struct SnsStoreView {
    pub topics: Map<Seq<char>, TopicView>,
    pub subscriptions: Map<Seq<char>, SubscriptionView>,
}

impl View for SnsStore {
    type V = SnsStoreView;

    open spec fn view(&self) -> SnsStoreView {
        SnsStoreView { topics: self.topics@, subscriptions: self.subscriptions@ }
    }
}

pub open spec fn subs_wf(subs: Seq<Subscription>) -> bool {
    forall|i: int| 0 <= i < subs.len() ==> (#[trigger] subs[i]).wf()
}

/// The subscriptions not to topic `arn`.
pub open spec fn without_topic(subs: Map<Seq<char>, SubscriptionView>, arn: Seq<char>) -> Map<Seq<char>, SubscriptionView> {
    subs.restrict(Set::new(|k: Seq<char>| subs.contains_key(k) && subs[k].topic_arn != arn))
}

impl SnsStore {
    pub open spec fn wf(&self) -> bool {
        &&& self.topics.wf()
        &&& self.subscriptions.wf()
        &&& subs_wf(self.subscriptions.vals_seq())
    }

    /// An empty store.
    pub fn new() -> (s: Self)
        ensures
            s.wf(),
            s@.topics == Map::<Seq<char>, TopicView>::empty(),
            s@.subscriptions == Map::<Seq<char>, SubscriptionView>::empty(),
    {
        SnsStore { topics: StrMap::new(), subscriptions: StrMap::new() }
    }

    /// Creates topic `name` at `now` unless a topic with its ARN exists
    /// (then nothing changes); returns the topic with that ARN.
    pub fn create_topic_at(
        &mut self,
        name: &str,
        account_id: &str,
        region: &str,
        attrs: &StrMap<String>,
        now: i64,
    ) -> (t: &Topic)
        requires
            old(self).wf(),
            attrs.wf(),
        ensures
            final(self).wf(),
            old(self)@.topics.contains_key(topic_arn_spec(region@, account_id@, name@)) ==> final(self)@ == old(self)@,
            !old(self)@.topics.contains_key(topic_arn_spec(region@, account_id@, name@)) ==> final(self)@ == (SnsStoreView {
                topics: old(self)@.topics.insert(
                    topic_arn_spec(region@, account_id@, name@),
                    created_topic_spec(name@, account_id@, region@, attrs@, now),
                ),
                ..old(self)@
            }),
            t@ == final(self)@.topics[topic_arn_spec(region@, account_id@, name@)],
    {
        let arn = topic_arn_exec(region, account_id, name);
        if !self.topics.contains_key(arn.as_str()) {
            let mut topic = Topic::new_at(name, account_id, region, now);
            if let Some(v) = attrs.get("DisplayName") {
                topic.display_name = v.clone();
            }
            if let Some(v) = attrs.get("Policy") {
                topic.policy = Some(v.clone());
            }
            if let Some(v) = attrs.get("KmsMasterKeyId") {
                topic.kms_master_key_id = Some(v.clone());
            }
            if let Some(v) = attrs.get("ContentBasedDeduplication") {
                topic.content_based_deduplication = v.as_str().eq("true");
            }
            self.topics.insert(arn.clone(), topic);
        }
        self.topics.get(arn.as_str()).unwrap()
    }

    /// Creates topic `name` now (see `create_topic_at`).
    pub fn create_topic(&mut self, name: &str, account_id: &str, region: &str, attrs: &StrMap<String>) -> (t: &Topic)
        requires
            old(self).wf(),
            attrs.wf(),
        ensures
            final(self).wf(),
            old(self)@.topics.contains_key(topic_arn_spec(region@, account_id@, name@)) ==> final(self)@ == old(self)@,
            !old(self)@.topics.contains_key(topic_arn_spec(region@, account_id@, name@)) ==> exists|now: i64|
                final(self)@ == (SnsStoreView {
                    topics: old(self)@.topics.insert(
                        topic_arn_spec(region@, account_id@, name@),
                        #[trigger] created_topic_spec(name@, account_id@, region@, attrs@, now),
                    ),
                    ..old(self)@
                }),
            t@ == final(self)@.topics[topic_arn_spec(region@, account_id@, name@)],
    {
        let now = now_millis();
        self.create_topic_at(name, account_id, region, attrs, now)
    }

    /// Deletes topic `topic_arn` and every subscription to it; whether it
    /// existed.
    pub fn delete_topic(&mut self, topic_arn: &str) -> (b: bool)
        requires
            old(self).wf(),
        ensures
            final(self).wf(),
            b == old(self)@.topics.contains_key(topic_arn@),
            b ==> final(self)@ == (SnsStoreView {
                topics: old(self)@.topics.remove(topic_arn@),
                subscriptions: without_topic(old(self)@.subscriptions, topic_arn@),
            }),
            !b ==> final(self)@ == old(self)@,
    {
        if self.topics.remove(topic_arn).is_none() {
            proof {
                assert(self.topics@ =~= old(self).topics@);
            }
            return false;
        }
        let n = self.subscriptions.len();
        proof {
            self.subscriptions.lemma_enumeration();
        }
        let ghost old_subs = self.subscriptions;
        let mut kept: StrMap<Subscription> = StrMap::new();
        let mut old_map = StrMap::new();
        std::mem::swap(&mut old_map, &mut self.subscriptions);
        let mut i: usize = 0;
        while i < n
            invariant
                i <= n,
                old_map == old_subs,
                old_subs.wf(),
                subs_wf(old_subs.vals_seq()),
                n == old_subs.keys_seq().len(),
                n == old_subs.vals_seq().len(),
                kept.wf(),
                subs_wf(kept.vals_seq()),
                kept@ == without_topic(old_subs@, topic_arn@).restrict(old_subs.keys_seq().take(i as int).to_set()),
            decreases n - i,
        {
            proof {
                old_subs.lemma_enumeration();
            }
            let s = old_map.value_at_index(i);
            let k = old_map.key_at_index(i);
            let ghost before = kept;
            if !s.topic_arn.as_str().eq(topic_arn) {
                kept.insert(k.clone(), copy_subscription(s));
                proof {
                    if before@.contains_key(k@) {
                        before.lemma_pos(k@);
                    }
                    assert forall|j: int| 0 <= j < kept.vals_seq().len() implies (#[trigger] kept.vals_seq()[j]).wf() by {
                        if j < before.vals_seq().len() && (!before@.contains_key(k@) || j != before.pos(k@)) {
                            assert(kept.vals_seq()[j] == before.vals_seq()[j]);
                        }
                    }
                }
            }
            proof {
                let ks = old_subs.keys_seq();
                assert(ks.take(i + 1).to_set() =~= ks.take(i as int).to_set().insert(ks[i as int])) by {
                    assert(ks.take(i + 1) =~= ks.take(i as int).push(ks[i as int]));
                    ks.take(i as int).lemma_push_to_set_commute(ks[i as int]);
                }
                assert(kept@ =~= without_topic(old_subs@, topic_arn@).restrict(ks.take(i + 1).to_set()));
            }
            i = i + 1;
        }
        proof {
            let ks = old_subs.keys_seq();
            assert(ks.take(n as int) =~= ks);
            assert forall|k: Seq<char>| without_topic(old_subs@, topic_arn@).contains_key(k) implies ks.to_set().contains(k) by {
                assert(old_subs@.contains_key(k));
                assert(ks.contains(k));
            }
            assert(kept@ =~= without_topic(old_subs@, topic_arn@));
        }
        self.subscriptions = kept;
        true
    }

    /// The topic `topic_arn`.
    pub fn get_topic(&self, topic_arn: &str) -> (r: Option<&Topic>)
        requires
            self.wf(),
        ensures
            match r {
                Some(t) => self@.topics.contains_key(topic_arn@) && t@ == self@.topics[topic_arn@],
                None => !self@.topics.contains_key(topic_arn@),
            },
    {
        self.topics.get(topic_arn)
    }

    /// The topics, in the order they were created.
    pub fn list_topics(&self) -> (r: Vec<&Topic>)
        requires
            self.wf(),
        ensures
            r@.len() == self.topics.vals_seq().len(),
            forall|i: int| 0 <= i < r@.len() ==> *(#[trigger] r@[i]) == self.topics.vals_seq()[i],
    {
        let n = self.topics.len();
        proof {
            self.topics.lemma_enumeration();
        }
        let mut r: Vec<&Topic> = Vec::new();
        let mut i: usize = 0;
        while i < n
            invariant
                i <= n,
                n == self.topics.vals_seq().len(),
                r@.len() == i,
                forall|j: int| 0 <= j < i ==> *(#[trigger] r@[j]) == self.topics.vals_seq()[j],
            decreases n - i,
        {
            r.push(self.topics.value_at_index(i));
            i = i + 1;
        }
        r
    }

    /// Subscribes `endpoint` to `topic_arn` with id `sub_id` at `now`;
    /// returns the subscription ARN, or `None` when there is no such topic.
    pub fn subscribe_at(
        &mut self,
        topic_arn: &str,
        protocol: Protocol,
        endpoint: &str,
        account_id: &str,
        sub_id: &str,
        now: i64,
    ) -> (r: Option<String>)
        requires
            old(self).wf(),
        ensures
            final(self).wf(),
            !old(self)@.topics.contains_key(topic_arn@) ==> r is None && final(self)@ == old(self)@,
            old(self)@.topics.contains_key(topic_arn@) ==> (r matches Some(a) && a@ == subscription_arn_spec(topic_arn@, sub_id@))
                && final(self)@ == (SnsStoreView {
                subscriptions: old(self)@.subscriptions.insert(
                    subscription_arn_spec(topic_arn@, sub_id@),
                    new_subscription_spec(topic_arn@, protocol, endpoint@, account_id@, sub_id@, now),
                ),
                ..old(self)@
            }),
    {
        if !self.topics.contains_key(topic_arn) {
            return None;
        }
        let sub = Subscription::new_at(topic_arn, protocol, endpoint, account_id, sub_id, now);
        let arn = sub.subscription_arn.clone();
        let ghost before = self.subscriptions;
        let ghost sv = sub;
        self.subscriptions.insert(arn.clone(), sub);
        proof {
            if before@.contains_key(arn@) {
                before.lemma_pos(arn@);
            }
            assert forall|j: int| 0 <= j < self.subscriptions.vals_seq().len() implies (#[trigger] self.subscriptions.vals_seq()[j]).wf() by {
                if j < before.vals_seq().len() && (!before@.contains_key(arn@) || j != before.pos(arn@)) {
                    assert(self.subscriptions.vals_seq()[j] == before.vals_seq()[j]);
                } else {
                    assert(self.subscriptions.vals_seq()[j] == sv);
                }
            }
        }
        Some(arn)
    }

    /// Subscribes `endpoint` to `topic_arn` now with a fresh id.
    pub fn subscribe(&mut self, topic_arn: &str, protocol: Protocol, endpoint: &str, account_id: &str) -> (r: Option<String>)
        requires
            old(self).wf(),
        ensures
            final(self).wf(),
            !old(self)@.topics.contains_key(topic_arn@) ==> r is None && final(self)@ == old(self)@,
            old(self)@.topics.contains_key(topic_arn@) ==> exists|id: Seq<char>, now: i64|
                crate::deps::is_uuid_text(id) && (r matches Some(a) && a@ == subscription_arn_spec(topic_arn@, id)) && final(self)@ == (SnsStoreView {
                    subscriptions: old(self)@.subscriptions.insert(
                        subscription_arn_spec(topic_arn@, id),
                        #[trigger] new_subscription_spec(topic_arn@, protocol, endpoint@, account_id@, id, now),
                    ),
                    ..old(self)@
                }),
    {
        let id = new_uuid();
        let now = now_millis();
        self.subscribe_at(topic_arn, protocol, endpoint, account_id, id.as_str(), now)
    }

    /// Removes subscription `subscription_arn`; whether it existed.
    pub fn unsubscribe(&mut self, subscription_arn: &str) -> (b: bool)
        requires
            old(self).wf(),
        ensures
            final(self).wf(),
            b == old(self)@.subscriptions.contains_key(subscription_arn@),
            final(self)@ == (SnsStoreView {
                subscriptions: old(self)@.subscriptions.remove(subscription_arn@),
                ..old(self)@
            }),
    {
        match self.subscriptions.find_pos(subscription_arn) {
            Some(i) => {
                let ghost before = self.subscriptions;
                proof {
                    before.lemma_pos(subscription_arn@);
                }
                self.subscriptions.remove_at_index(i);
                proof {
                    assert forall|j: int| 0 <= j < self.subscriptions.vals_seq().len() implies (#[trigger] self.subscriptions.vals_seq()[j]).wf() by {
                        if j < i {
                            assert(self.subscriptions.vals_seq()[j] == before.vals_seq()[j]);
                        } else {
                            assert(self.subscriptions.vals_seq()[j] == before.vals_seq()[j + 1]);
                        }
                    }
                }
                true
            },
            None => {
                proof {
                    assert(self.subscriptions@.remove(subscription_arn@) =~= self.subscriptions@);
                }
                false
            },
        }
    }

    /// The subscription `subscription_arn`.
    pub fn get_subscription(&self, subscription_arn: &str) -> (r: Option<&Subscription>)
        requires
            self.wf(),
        ensures
            match r {
                Some(s) => self@.subscriptions.contains_key(subscription_arn@) && s@ == self@.subscriptions[subscription_arn@]
                    && s.wf(),
                None => !self@.subscriptions.contains_key(subscription_arn@),
            },
    {
        match self.subscriptions.find_pos(subscription_arn) {
            Some(i) => {
                proof {
                    self.subscriptions.lemma_pos(subscription_arn@);
                }
                Some(self.subscriptions.value_at_index(i))
            },
            None => None,
        }
    }

    /// The subscriptions, in the order they were made.
    pub fn list_subscriptions(&self) -> (r: Vec<&Subscription>)
        requires
            self.wf(),
        ensures
            r@.len() == self.subscriptions.vals_seq().len(),
            forall|i: int| 0 <= i < r@.len() ==> *(#[trigger] r@[i]) == self.subscriptions.vals_seq()[i],
    {
        let n = self.subscriptions.len();
        proof {
            self.subscriptions.lemma_enumeration();
        }
        let mut r: Vec<&Subscription> = Vec::new();
        let mut i: usize = 0;
        while i < n
            invariant
                i <= n,
                n == self.subscriptions.vals_seq().len(),
                r@.len() == i,
                forall|j: int| 0 <= j < i ==> *(#[trigger] r@[j]) == self.subscriptions.vals_seq()[j],
            decreases n - i,
        {
            r.push(self.subscriptions.value_at_index(i));
            i = i + 1;
        }
        r
    }

    /// The subscriptions to `topic_arn`, in the order they were made.
    pub fn list_subscriptions_by_topic(&self, topic_arn: &str) -> (r: Vec<&Subscription>)
        requires
            self.wf(),
        ensures
            r@.map_values(|s: &Subscription| *s) == self.subscriptions.vals_seq().filter(
                |s: Subscription| s.topic_arn@ == topic_arn@,
            ),
    {
        let ghost vals = self.subscriptions.vals_seq();
        let n = self.subscriptions.len();
        proof {
            self.subscriptions.lemma_enumeration();
        }
        let mut r: Vec<&Subscription> = Vec::new();
        let mut i: usize = 0;
        while i < n
            invariant
                i <= n,
                n == vals.len(),
                vals == self.subscriptions.vals_seq(),
                r@.map_values(|s: &Subscription| *s) == vals.take(i as int).filter(|s: Subscription| s.topic_arn@ == topic_arn@),
            decreases n - i,
        {
            let s = self.subscriptions.value_at_index(i);
            let ghost before = r@;
            proof {
                reveal(Seq::filter);
                assert(vals.take(i + 1).drop_last() =~= vals.take(i as int));
            }
            if s.topic_arn.as_str().eq(topic_arn) {
                r.push(s);
                proof {
                    assert(r@.map_values(|s: &Subscription| *s) =~= before.map_values(|s: &Subscription| *s).push(*s));
                }
            }
            i = i + 1;
        }
        proof {
            assert(vals.take(n as int) =~= vals);
        }
        r
    }
}

/// A copy of a subscription with the same view.
fn copy_subscription(s: &Subscription) -> (r: Subscription)
    requires
        s.wf(),
    ensures
        r.wf(),
        r@ == s@,
{
    Subscription {
        subscription_arn: s.subscription_arn.clone(),
        topic_arn: s.topic_arn.clone(),
        protocol: s.protocol,
        endpoint: s.endpoint.clone(),
        owner: s.owner.clone(),
        raw_message_delivery: s.raw_message_delivery,
        filter_policy: match &s.filter_policy {
            Some(p) => Some(FilterPolicy(p.0.deep_copy())),
            None => None,
        },
        confirmation_was_authenticated: s.confirmation_was_authenticated,
        pending_confirmation: s.pending_confirmation,
        created: s.created,
    }
}

/// The topic after SetTopicAttributes sets `name` to `value`: the display
/// name, policy, delivery policy, KMS key or content-based deduplication
/// (true exactly for `true`); other names change nothing.
pub open spec fn topic_attribute_set(t: TopicView, name: Seq<char>, value: Seq<char>) -> TopicView {
    if name == "DisplayName"@ {
        TopicView { display_name: value, ..t }
    } else if name == "Policy"@ {
        TopicView { policy: Some(value), ..t }
    } else if name == "DeliveryPolicy"@ {
        TopicView { delivery_policy: Some(value), ..t }
    } else if name == "KmsMasterKeyId"@ {
        TopicView { kms_master_key_id: Some(value), ..t }
    } else if name == "ContentBasedDeduplication"@ {
        TopicView { content_based_deduplication: value == "true"@, ..t }
    } else {
        t
    }
}

/// The subscription after SetSubscriptionAttributes sets `name` to
/// `value`: raw delivery (true exactly for `true`) or the filter policy
/// (read from JSON; unreadable text removes it); other names change
/// nothing.
pub open spec fn subscription_attribute_set(s: SubscriptionView, name: Seq<char>, value: Seq<char>) -> SubscriptionView {
    if name == "RawMessageDelivery"@ {
        SubscriptionView { raw_message_delivery: value == "true"@, ..s }
    } else if name == "FilterPolicy"@ {
        SubscriptionView {
            filter_policy: match filter_policy_doc(value) {
                Some(es) => Some(policy_map(es)),
                None => None,
            },
            ..s
        }
    } else {
        s
    }
}

impl SnsStore {
    /// Sets attribute `name` of topic `topic_arn`; false when there is no
    /// such topic.
    pub fn set_topic_attribute(&mut self, topic_arn: &str, name: &str, value: &str) -> (found: bool)
        requires
            old(self).wf(),
        ensures
            final(self).wf(),
            found == old(self)@.topics.contains_key(topic_arn@),
            found ==> final(self)@ == (SnsStoreView {
                topics: old(self)@.topics.insert(
                    topic_arn@,
                    topic_attribute_set(old(self)@.topics[topic_arn@], name@, value@),
                ),
                ..old(self)@
            }),
            !found ==> final(self)@ == old(self)@,
    {
        let ghost t0 = self.topics;
        proof {
            if t0@.contains_key(topic_arn@) {
                t0.lemma_pos(topic_arn@);
            }
        }
        let found = match self.topics.get_mut(topic_arn) {
            Some(t) => {
                if name.eq("DisplayName") {
                    t.display_name = value.to_string();
                } else if name.eq("Policy") {
                    t.policy = Some(value.to_string());
                } else if name.eq("DeliveryPolicy") {
                    t.delivery_policy = Some(value.to_string());
                } else if name.eq("KmsMasterKeyId") {
                    t.kms_master_key_id = Some(value.to_string());
                } else if name.eq("ContentBasedDeduplication") {
                    t.content_based_deduplication = value.eq("true");
                }
                true
            },
            None => false,
        };
        proof {
            if found {
                StrMap::lemma_update_at(&t0, &self.topics, topic_arn@);
            }
        }
        found
    }

    /// Sets attribute `name` of subscription `subscription_arn`; false when
    /// there is no such subscription.
    pub fn set_subscription_attribute(&mut self, subscription_arn: &str, name: &str, value: &str) -> (found: bool)
        requires
            old(self).wf(),
        ensures
            final(self).wf(),
            found == old(self)@.subscriptions.contains_key(subscription_arn@),
            found ==> final(self)@ == (SnsStoreView {
                subscriptions: old(self)@.subscriptions.insert(
                    subscription_arn@,
                    subscription_attribute_set(old(self)@.subscriptions[subscription_arn@], name@, value@),
                ),
                ..old(self)@
            }),
            !found ==> final(self)@ == old(self)@,
    {
        let ghost s0 = self.subscriptions;
        proof {
            if s0@.contains_key(subscription_arn@) {
                s0.lemma_pos(subscription_arn@);
                assert(s0.vals_seq()[s0.pos(subscription_arn@)].wf());
            }
        }
        let found = match self.subscriptions.get_mut(subscription_arn) {
            Some(s) => {
                if name.eq("RawMessageDelivery") {
                    s.raw_message_delivery = value.eq("true");
                } else if name.eq("FilterPolicy") {
                    s.filter_policy = FilterPolicy::from_json(value);
                }
                true
            },
            None => false,
        };
        proof {
            if found {
                StrMap::lemma_update_at(&s0, &self.subscriptions, subscription_arn@);
                assert forall|j: int| 0 <= j < self.subscriptions.vals_seq().len() implies (#[trigger] self.subscriptions.vals_seq()[j]).wf() by {
                    if j != s0.pos(subscription_arn@) {
                        assert(self.subscriptions.vals_seq()[j] == s0.vals_seq()[j]);
                    }
                }
            }
        }
        found
    }
}

/// After a topic is deleted, no subscription refers to it.
pub proof fn lemma_delete_topic_removes_subscriptions(subs: Map<Seq<char>, SubscriptionView>, arn: Seq<char>)
    ensures
        forall|k: Seq<char>| #[trigger] without_topic(subs, arn).contains_key(k) ==> without_topic(subs, arn)[k].topic_arn != arn,
        forall|k: Seq<char>| #[trigger] subs.contains_key(k) && subs[k].topic_arn != arn ==> without_topic(subs, arn).contains_key(k)
            && without_topic(subs, arn)[k] == subs[k],
{
}

/// The body digest SNS reports: the first 16 bytes of the SHA-256 digest
/// of `data`, in lowercase hex.
pub fn md5_hex(data: &[u8]) -> (r: String)
    ensures
        r@ == crate::sqs::md5_hex_spec(data@),
{
    crate::sqs::md5_hex(data)
}

} // verus!
