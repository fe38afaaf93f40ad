//! The SQS data model: messages, queues and the per-account store.
//!
//! Times are milliseconds since the Unix epoch.  Every operation that reads
//! the clock or draws a fresh identifier has a companion ending in `_at`
//! that takes those values as arguments and whose contract is exact.
use vstd::prelude::*;
use vstd::string::StringSliceAdditionalSpecFns;

use crate::deps::{
    clock_bound, hex_encode, hex_encode_spec, new_uuid, now_millis, redrive_fields,
    redrive_fields_spec, sha256, sha256_spec,
};
use crate::strmap::{DeepCopy, StrMap};
use crate::text::{
    bool_spec, chars_eq, chars_of, concat2, copy_bytes, copy_opt, decimal_spec, ends_with_chars,
    opt_view, parse_u32, parse_unsigned_spec, push_decimal, push_i64, push_str,
    signed_decimal_spec, starts_with_chars, string_views,
};

verus! {

// ---------------------------------------------------------------------------
// Message attribute value
// ---------------------------------------------------------------------------

pub struct MessageAttributeValue {
    pub data_type: String,
    pub string_value: Option<String>,
    pub binary_value: Option<Vec<u8>>,
}

pub struct MessageAttributeValueView {
    pub data_type: Seq<char>,
    pub string_value: Option<Seq<char>>,
    pub binary_value: Option<Seq<u8>>,
}

impl View for MessageAttributeValue {
    type V = MessageAttributeValueView;

    open spec fn view(&self) -> MessageAttributeValueView {
        MessageAttributeValueView {
            data_type: self.data_type@,
            string_value: opt_view(self.string_value),
            binary_value: match self.binary_value {
                Some(b) => Some(b@),
                None => None,
            },
        }
    }
}

impl DeepCopy for MessageAttributeValue {
    fn deep_copy(&self) -> (r: Self) {
        MessageAttributeValue {
            data_type: self.data_type.clone(),
            string_value: copy_opt(&self.string_value),
            binary_value: match &self.binary_value {
                Some(b) => Some(copy_bytes(b)),
                None => None,
            },
        }
    }
}

// ---------------------------------------------------------------------------
// Body digest
// ---------------------------------------------------------------------------

/// The digest reported for a message body: the first 16 bytes of the
/// SHA-256 digest of its UTF-8 bytes, in lowercase hex.
pub open spec fn md5_hex_spec(data: Seq<u8>) -> Seq<char> {
    hex_encode_spec(sha256_spec(data).subrange(0, 16))
}

/// The body digest of `data`.
pub fn md5_hex(data: &[u8]) -> (r: String)
    ensures
        r@ == md5_hex_spec(data@),
{
    let d = sha256(data);
    let mut first: Vec<u8> = Vec::new();
    let mut i: usize = 0;
    while i < 16
        invariant
            i <= 16,
            d@.len() == 32,
            first@ == d@.subrange(0, i as int),
        decreases 16 - i,
    {
        first.push(d[i]);
        proof {
            assert(d@.subrange(0, i + 1) =~= d@.subrange(0, i as int).push(d@[i as int]));
        }
        i = i + 1;
    }
    hex_encode(first.as_slice())
}

// ---------------------------------------------------------------------------
// SqsMessage
// ---------------------------------------------------------------------------

pub struct SqsMessage {
    pub message_id: String,
    pub receipt_handle: String,
    pub body: String,
    pub md5_of_body: String,
    /// System attributes.
    pub attributes: StrMap<String>,
    pub message_attributes: StrMap<MessageAttributeValue>,
    pub sent_at: i64,
    /// When the message becomes visible again (`None`: visible now).
    pub visible_after: Option<i64>,
    /// How many times the message has been received.
    pub receive_count: u32,
    pub delay_seconds: u32,
    pub message_group_id: Option<String>,
    pub message_deduplication_id: Option<String>,
    pub sequence_number: u64,
}

pub struct SqsMessageView {
    pub message_id: Seq<char>,
    pub receipt_handle: Seq<char>,
    pub body: Seq<char>,
    pub md5_of_body: Seq<char>,
    pub attributes: Map<Seq<char>, Seq<char>>,
    pub message_attributes: Map<Seq<char>, MessageAttributeValueView>,
    pub sent_at: i64,
    pub visible_after: Option<i64>,
    pub receive_count: u32,
    pub delay_seconds: u32,
    pub message_group_id: Option<Seq<char>>,
    pub message_deduplication_id: Option<Seq<char>>,
    pub sequence_number: u64,
}

impl View for SqsMessage {
    type V = SqsMessageView;

    open spec fn view(&self) -> SqsMessageView {
        SqsMessageView {
            message_id: self.message_id@,
            receipt_handle: self.receipt_handle@,
            body: self.body@,
            md5_of_body: self.md5_of_body@,
            attributes: self.attributes@,
            message_attributes: self.message_attributes@,
            sent_at: self.sent_at,
            visible_after: self.visible_after,
            receive_count: self.receive_count,
            delay_seconds: self.delay_seconds,
            message_group_id: opt_view(self.message_group_id),
            message_deduplication_id: opt_view(self.message_deduplication_id),
            sequence_number: self.sequence_number,
        }
    }
}

pub open spec fn str_approx_first_receive() -> Seq<char> {
    seq![
        'A', 'p', 'p', 'r', 'o', 'x', 'i', 'm', 'a', 't', 'e', 'F', 'i', 'r', 's', 't', 'R', 'e',
        'c', 'e', 'i', 'v', 'e', 'T', 'i', 'm', 'e', 's', 't', 'a', 'm', 'p',
    ]
}

pub open spec fn str_approx_receive_count() -> Seq<char> {
    seq![
        'A', 'p', 'p', 'r', 'o', 'x', 'i', 'm', 'a', 't', 'e', 'R', 'e', 'c', 'e', 'i', 'v', 'e',
        'C', 'o', 'u', 'n', 't',
    ]
}

pub open spec fn str_sent_timestamp() -> Seq<char> {
    seq!['S', 'e', 'n', 't', 'T', 'i', 'm', 'e', 's', 't', 'a', 'm', 'p']
}

/// The instant `secs` seconds after `now`, or `None` for zero seconds.
pub open spec fn deadline(now: i64, secs: u32) -> Option<i64> {
    if secs > 0 {
        Some((now + secs * 1000) as i64)
    } else {
        None
    }
}

/// Whether a message whose visibility ends at `visible_after` is visible
/// at `now`.
pub open spec fn visible_at(visible_after: Option<i64>, now: i64) -> bool {
    match visible_after {
        None => true,
        Some(t) => now >= t,
    }
}

/// The system attributes of a message sent at `now`.
pub open spec fn initial_attributes(now: i64) -> Map<Seq<char>, Seq<char>> {
    Map::empty().insert(str_approx_first_receive(), seq!['0']).insert(
        str_approx_receive_count(),
        seq!['0'],
    ).insert(str_sent_timestamp(), signed_decimal_spec(now as int))
}

/// The message that `SqsMessage::new` builds from its arguments, the
/// identifiers it drew and the time it read.
pub open spec fn new_message_spec(
    body: Seq<char>,
    delay_seconds: u32,
    message_attributes: Map<Seq<char>, MessageAttributeValueView>,
    message_group_id: Option<Seq<char>>,
    dedup_id: Option<Seq<char>>,
    sequence_number: u64,
    message_id: Seq<char>,
    receipt_handle: Seq<char>,
    now: i64,
) -> SqsMessageView {
    SqsMessageView {
        message_id,
        receipt_handle,
        body,
        md5_of_body: md5_hex_spec(vstd::utf8::encode_utf8(body)),
        attributes: initial_attributes(now),
        message_attributes,
        sent_at: now,
        visible_after: deadline(now, delay_seconds),
        receive_count: 0,
        delay_seconds,
        message_group_id,
        message_deduplication_id: dedup_id,
        sequence_number,
    }
}

/// A message after a receive at `now` with visibility timeout `vt`, under
/// the fresh receipt handle `handle`.
pub open spec fn received_spec(m: SqsMessageView, vt: u32, now: i64, handle: Seq<char>) -> SqsMessageView {
    let count: u32 = if m.receive_count == u32::MAX {
        0
    } else {
        (m.receive_count + 1) as u32
    };
    SqsMessageView {
        receipt_handle: handle,
        receive_count: count,
        attributes: m.attributes.insert(str_approx_receive_count(), decimal_spec(count as nat)),
        visible_after: deadline(now, vt),
        ..m
    }
}

fn lit_approx_first_receive() -> (r: String)
    ensures
        r@ == str_approx_first_receive(),
{
    let r = String::from_str("ApproximateFirstReceiveTimestamp");
    proof {
        reveal_strlit("ApproximateFirstReceiveTimestamp");
    }
    r
}

fn lit_approx_receive_count() -> (r: String)
    ensures
        r@ == str_approx_receive_count(),
{
    let r = String::from_str("ApproximateReceiveCount");
    proof {
        reveal_strlit("ApproximateReceiveCount");
    }
    r
}

fn lit_sent_timestamp() -> (r: String)
    ensures
        r@ == str_sent_timestamp(),
{
    let r = String::from_str("SentTimestamp");
    proof {
        reveal_strlit("SentTimestamp");
    }
    r
}

fn deadline_exec(now: i64, secs: u32) -> (r: Option<i64>)
    requires
        -clock_bound() <= now <= clock_bound(),
    ensures
        r == deadline(now, secs),
{
    if secs > 0 {
        Some(now + (secs as i64) * 1000)
    } else {
        None
    }
}

impl SqsMessage {
    pub open spec fn wf(&self) -> bool {
        self.attributes.wf() && self.message_attributes.wf()
    }

    /// A new message with fresh identifiers, sent now.
    pub fn new(
        body: String,
        delay_seconds: u32,
        message_attributes: StrMap<MessageAttributeValue>,
        message_group_id: Option<String>,
        dedup_id: Option<String>,
        sequence_number: u64,
    ) -> (m: Self)
        requires
            message_attributes.wf(),
        ensures
            m.wf(),
            exists|id: Seq<char>, handle: Seq<char>, now: i64|
                crate::deps::is_uuid_text(id) && crate::deps::is_uuid_text(handle) && m@ == new_message_spec(
                    body@,
                    delay_seconds,
                    message_attributes@,
                    opt_view(message_group_id),
                    opt_view(dedup_id),
                    sequence_number,
                    id,
                    handle,
                    now,
                ),
    {
        let message_id = new_uuid();
        let receipt_handle = new_uuid();
        let now = now_millis();
        Self::new_at(
            body,
            delay_seconds,
            message_attributes,
            message_group_id,
            dedup_id,
            sequence_number,
            message_id,
            receipt_handle,
            now,
        )
    }

    /// The message sent at `now` under the given identifiers.
    pub fn new_at(
        body: String,
        delay_seconds: u32,
        message_attributes: StrMap<MessageAttributeValue>,
        message_group_id: Option<String>,
        dedup_id: Option<String>,
        sequence_number: u64,
        message_id: String,
        receipt_handle: String,
        now: i64,
    ) -> (m: Self)
        requires
            message_attributes.wf(),
            -clock_bound() <= now <= clock_bound(),
        ensures
            m.wf(),
            m@ == new_message_spec(
                body@,
                delay_seconds,
                message_attributes@,
                opt_view(message_group_id),
                opt_view(dedup_id),
                sequence_number,
                message_id@,
                receipt_handle@,
                now,
            ),
    {
        let md5 = md5_hex(body.as_str().as_bytes());
        let visible_after = deadline_exec(now, delay_seconds);
        let mut attributes: StrMap<String> = StrMap::new();
        let zero1 = String::from_str("0");
        let zero2 = String::from_str("0");
        proof {
            reveal_strlit("0");
            assert(zero1@ =~= seq!['0']);
            assert(zero2@ =~= seq!['0']);
        }
        attributes.insert(lit_approx_first_receive(), zero1);
        attributes.insert(lit_approx_receive_count(), zero2);
        let mut ts = String::new();
        push_i64(&mut ts, now);
        attributes.insert(lit_sent_timestamp(), ts);
        proof {
            reveal_strlit("0");
            assert(ts@ =~= signed_decimal_spec(now as int));
        }
        let m = SqsMessage {
            message_id,
            receipt_handle,
            body,
            md5_of_body: md5,
            attributes,
            message_attributes,
            sent_at: now,
            visible_after,
            receive_count: 0,
            delay_seconds,
            message_group_id,
            message_deduplication_id: dedup_id,
            sequence_number,
        };
        proof {
            assert(m.attributes@ == initial_attributes(now));
            assert(m.md5_of_body@ == md5_hex_spec(vstd::utf8::encode_utf8(m.body@)));
        }
        m
    }

    /// Whether the message is visible at `now`.
    pub fn is_visible_at(&self, now: i64) -> (b: bool)
        ensures
            b == visible_at(self.visible_after, now),
    {
        match self.visible_after {
            None => true,
            Some(t) => now >= t,
        }
    }

    /// Whether the message is visible now.
    pub fn is_visible(&self) -> (b: bool)
        ensures
            exists|now: i64| b == visible_at(self.visible_after, now),
    {
        let now = now_millis();
        self.is_visible_at(now)
    }

    /// Records a receive at `now` under the receipt handle `handle`.  The
    /// receive count wraps around at `u32::MAX`.
    pub fn begin_receive_at(&mut self, visibility_timeout_secs: u32, now: i64, handle: String)
        requires
            old(self).wf(),
            -clock_bound() <= now <= clock_bound(),
        ensures
            final(self).wf(),
            final(self)@ == received_spec(old(self)@, visibility_timeout_secs, now, handle@),
    {
        self.receipt_handle = handle;
        self.receive_count = if self.receive_count == u32::MAX {
            0
        } else {
            self.receive_count + 1
        };
        let mut count = String::new();
        push_decimal(&mut count, self.receive_count as u64);
        self.attributes.insert(lit_approx_receive_count(), count);
        self.visible_after = deadline_exec(now, visibility_timeout_secs);
        proof {
            assert(count@ =~= decimal_spec(self.receive_count as nat));
        }
    }

    /// Records a receive now, under a fresh receipt handle.
    pub fn begin_receive(&mut self, visibility_timeout_secs: u32)
        requires
            old(self).wf(),
        ensures
            final(self).wf(),
            exists|now: i64, handle: Seq<char>|
                crate::deps::is_uuid_text(handle) && final(self)@ == received_spec(old(self)@, visibility_timeout_secs, now, handle),
    {
        let now = now_millis();
        let handle = new_uuid();
        self.begin_receive_at(visibility_timeout_secs, now, handle);
    }

    /// A copy of the message.
    pub fn copy(&self) -> (r: Self)
        requires
            self.wf(),
        ensures
            r.wf(),
            r@ == self@,
    {
        SqsMessage {
            message_id: self.message_id.clone(),
            receipt_handle: self.receipt_handle.clone(),
            body: self.body.clone(),
            md5_of_body: self.md5_of_body.clone(),
            attributes: self.attributes.deep_copy(),
            message_attributes: self.message_attributes.deep_copy(),
            sent_at: self.sent_at,
            visible_after: self.visible_after,
            receive_count: self.receive_count,
            delay_seconds: self.delay_seconds,
            message_group_id: copy_opt(&self.message_group_id),
            message_deduplication_id: copy_opt(&self.message_deduplication_id),
            sequence_number: self.sequence_number,
        }
    }
}

// ---------------------------------------------------------------------------
// Redrive policy
// ---------------------------------------------------------------------------

pub struct RedrivePolicy {
    pub dead_letter_target_arn: String,
    pub max_receive_count: u32,
}

pub struct RedrivePolicyView {
    pub dead_letter_target_arn: Seq<char>,
    pub max_receive_count: u32,
}

impl View for RedrivePolicy {
    type V = RedrivePolicyView;

    open spec fn view(&self) -> RedrivePolicyView {
        RedrivePolicyView {
            dead_letter_target_arn: self.dead_letter_target_arn@,
            max_receive_count: self.max_receive_count,
        }
    }
}

pub open spec fn redrive_view(r: Option<RedrivePolicy>) -> Option<RedrivePolicyView> {
    match r {
        Some(p) => Some(p@),
        None => None,
    }
}

// ---------------------------------------------------------------------------
// Sequences of messages
// ---------------------------------------------------------------------------

pub open spec fn views(s: Seq<SqsMessage>) -> Seq<SqsMessageView> {
    s.map_values(|m: SqsMessage| m@)
}

/// How many of `msgs` are visible at `now`.
pub open spec fn count_visible(msgs: Seq<SqsMessageView>, now: i64) -> nat
    decreases msgs.len(),
{
    if msgs.len() == 0 {
        0
    } else {
        count_visible(msgs.drop_last(), now) + if visible_at(msgs.last().visible_after, now) {
            1nat
        } else {
            0nat
        }
    }
}

/// The outcome of changing, at `now`, the visibility of the message with
/// receipt handle `h` in `q`, leaving `q2` and reporting `found`.
pub open spec fn visibility_changed(
    q: SqsQueueView,
    q2: SqsQueueView,
    h: Seq<char>,
    visibility_timeout: u32,
    now: i64,
    found: bool,
) -> bool {
    match first_with_handle(q.messages, h, 0) {
        Some(p) => found && q2 == (SqsQueueView {
            messages: q.messages.update(
                p,
                SqsMessageView { visible_after: deadline(now, visibility_timeout), ..q.messages[p] },
            ),
            ..q
        }),
        None => !found && q2 == q,
    }
}

/// How many of `msgs` are not visible at `now`.
pub open spec fn count_invisible(msgs: Seq<SqsMessageView>, now: i64) -> nat
    decreases msgs.len(),
{
    if msgs.len() == 0 {
        0
    } else {
        count_invisible(msgs.drop_last(), now) + if visible_at(msgs.last().visible_after, now) {
            0nat
        } else {
            1nat
        }
    }
}

/// Every message is either visible or not: the two counts add up to the
/// number of messages.
pub proof fn lemma_visible_counts_partition(msgs: Seq<SqsMessageView>, now: i64)
    ensures
        count_visible(msgs, now) + count_invisible(msgs, now) == msgs.len(),
    decreases msgs.len(),
{
    if msgs.len() > 0 {
        lemma_visible_counts_partition(msgs.drop_last(), now);
    }
}

/// Whether a receive of at most `max` messages at `now` takes message `i`:
/// it is visible and fewer than `max` visible messages come before it.
pub open spec fn is_selected(msgs: Seq<SqsMessageView>, now: i64, max: nat, i: int) -> bool {
    visible_at(msgs[i].visible_after, now) && count_visible(msgs.take(i), now) < max
}

/// The outcome of receiving at most `max` messages at `now` from `q`,
/// leaving `q2` and returning (the views of) `r`: the messages taken are
/// those `is_selected` picks, each under the next handle of `handles`; they
/// come back in queue order; nothing else changes.
pub open spec fn receive_outcome(
    q: SqsQueueView,
    q2: SqsQueueView,
    r: Seq<SqsMessageView>,
    max: nat,
    visibility_timeout: Option<u32>,
    now: i64,
    handles: Seq<Seq<char>>,
) -> bool {
    let vt = match visibility_timeout {
        Some(v) => v,
        None => q.visibility_timeout,
    };
    let msgs = q.messages;
    &&& q2 == (SqsQueueView { messages: q2.messages, ..q })
    &&& q2.messages.len() == msgs.len()
    &&& forall|i: int|
        0 <= i < msgs.len() ==> #[trigger] q2.messages[i] == if is_selected(msgs, now, max, i) {
            received_spec(msgs[i], vt, now, handles[count_visible(msgs.take(i), now) as int])
        } else {
            msgs[i]
        }
    &&& r.len() == if count_visible(msgs, now) < max {
        count_visible(msgs, now)
    } else {
        max
    }
    &&& forall|i: int|
        0 <= i < msgs.len() && #[trigger] is_selected(msgs, now, max, i) ==> r[count_visible(
            msgs.take(i),
            now,
        ) as int] == q2.messages[i]
}

/// `msgs` without the messages whose receipt handle is `h`.
pub open spec fn without_handle(msgs: Seq<SqsMessageView>, h: Seq<char>) -> Seq<SqsMessageView>
    decreases msgs.len(),
{
    if msgs.len() == 0 {
        Seq::empty()
    } else if msgs.last().receipt_handle == h {
        without_handle(msgs.drop_last(), h)
    } else {
        without_handle(msgs.drop_last(), h).push(msgs.last())
    }
}

/// The messages of `msgs` received fewer than `max` times (`below`), or
/// at least `max` times (`!below`).
pub open spec fn by_receive_count(msgs: Seq<SqsMessageView>, max: u32, below: bool) -> Seq<
    SqsMessageView,
>
    decreases msgs.len(),
{
    if msgs.len() == 0 {
        Seq::empty()
    } else if (msgs.last().receive_count < max) == below {
        by_receive_count(msgs.drop_last(), max, below).push(msgs.last())
    } else {
        by_receive_count(msgs.drop_last(), max, below)
    }
}

/// The position of the first message with receipt handle `h`.
pub open spec fn first_with_handle(msgs: Seq<SqsMessageView>, h: Seq<char>, from: int) -> Option<int>
    decreases msgs.len() - from,
{
    if from < 0 || from >= msgs.len() {
        None
    } else if msgs[from].receipt_handle == h {
        Some(from)
    } else {
        first_with_handle(msgs, h, from + 1)
    }
}

pub proof fn lemma_count_visible_bound(msgs: Seq<SqsMessageView>, now: i64)
    ensures
        count_visible(msgs, now) <= msgs.len(),
    decreases msgs.len(),
{
    if msgs.len() > 0 {
        lemma_count_visible_bound(msgs.drop_last(), now);
    }
}

pub proof fn lemma_count_visible_prefix(msgs: Seq<SqsMessageView>, now: i64, k: int, i: int)
    requires
        0 <= k <= i <= msgs.len(),
    ensures
        count_visible(msgs.take(k), now) <= count_visible(msgs.take(i), now),
        k < i && visible_at(msgs[k].visible_after, now) ==> count_visible(msgs.take(k), now) + 1
            <= count_visible(msgs.take(i), now),
    decreases i - k,
{
    if k < i {
        lemma_count_visible_prefix(msgs, now, k, i - 1);
        assert(msgs.take(i).drop_last() =~= msgs.take(i - 1));
        if k == i - 1 {
            assert(msgs.take(i).last() == msgs[k]);
        }
    }
}

proof fn lemma_first_with_handle(msgs: Seq<SqsMessageView>, h: Seq<char>, from: int)
    requires
        0 <= from,
    ensures
        match first_with_handle(msgs, h, from) {
            Some(p) => from <= p < msgs.len() && msgs[p].receipt_handle == h && forall|j: int|
                from <= j < p ==> msgs[j].receipt_handle != h,
            None => forall|j: int| from <= j < msgs.len() ==> msgs[j].receipt_handle != h,
        },
    decreases msgs.len() - from,
{
    if from < msgs.len() && msgs[from].receipt_handle != h {
        lemma_first_with_handle(msgs, h, from + 1);
    }
}

// ---------------------------------------------------------------------------
// SqsQueue
// ---------------------------------------------------------------------------

pub struct SqsQueue {
    pub name: String,
    pub url: String,
    pub arn: String,
    pub created: i64,
    pub last_modified: i64,
    /// Default visibility timeout in seconds.
    pub visibility_timeout: u32,
    /// Message retention period in seconds.
    pub message_retention_period: u32,
    /// Largest message in bytes.
    pub maximum_message_size: u32,
    /// Default delay in seconds.
    pub delay_seconds: u32,
    pub receive_message_wait_time_seconds: u32,
    pub fifo: bool,
    pub content_based_deduplication: bool,
    pub redrive_policy: Option<RedrivePolicy>,
    pub policy: Option<String>,
    /// The messages, oldest first.
    pub messages: Vec<SqsMessage>,
    pub sequence_counter: u64,
    /// Deduplication ids seen, each with the id of the message it admitted.
    pub dedup_ids: StrMap<String>,
}

pub struct SqsQueueView {
    pub name: Seq<char>,
    pub url: Seq<char>,
    pub arn: Seq<char>,
    pub created: i64,
    pub last_modified: i64,
    pub visibility_timeout: u32,
    pub message_retention_period: u32,
    pub maximum_message_size: u32,
    pub delay_seconds: u32,
    pub receive_message_wait_time_seconds: u32,
    pub fifo: bool,
    pub content_based_deduplication: bool,
    pub redrive_policy: Option<RedrivePolicyView>,
    pub policy: Option<Seq<char>>,
    pub messages: Seq<SqsMessageView>,
    pub sequence_counter: u64,
    pub dedup_ids: Map<Seq<char>, Seq<char>>,
}

impl View for SqsQueue {
    type V = SqsQueueView;

    open spec fn view(&self) -> SqsQueueView {
        SqsQueueView {
            name: self.name@,
            url: self.url@,
            arn: self.arn@,
            created: self.created,
            last_modified: self.last_modified,
            visibility_timeout: self.visibility_timeout,
            message_retention_period: self.message_retention_period,
            maximum_message_size: self.maximum_message_size,
            delay_seconds: self.delay_seconds,
            receive_message_wait_time_seconds: self.receive_message_wait_time_seconds,
            fifo: self.fifo,
            content_based_deduplication: self.content_based_deduplication,
            redrive_policy: redrive_view(self.redrive_policy),
            policy: opt_view(self.policy),
            messages: views(self.messages@),
            sequence_counter: self.sequence_counter,
            dedup_ids: self.dedup_ids@,
        }
    }
}

pub open spec fn str_fifo_suffix() -> Seq<char> {
    seq!['.', 'f', 'i', 'f', 'o']
}

pub open spec fn ends_with_spec(s: Seq<char>, p: Seq<char>) -> bool {
    p.len() <= s.len() && s.subrange(s.len() - p.len(), s.len() as int) == p
}

pub open spec fn starts_with_spec(s: Seq<char>, p: Seq<char>) -> bool {
    p.len() <= s.len() && s.subrange(0, p.len() as int) == p
}

/// `{base_url}/{account_id}/{name}`
pub open spec fn queue_url_spec(base_url: Seq<char>, account_id: Seq<char>, name: Seq<char>) -> Seq<char> {
    base_url + seq!['/'] + account_id + seq!['/'] + name
}

/// `arn:aws:sqs:{region}:{account_id}:{name}`
pub open spec fn queue_arn_spec(region: Seq<char>, account_id: Seq<char>, name: Seq<char>) -> Seq<char> {
    seq!['a', 'r', 'n', ':', 'a', 'w', 's', ':', 's', 'q', 's', ':'] + region + seq![':']
        + account_id + seq![':'] + name
}

/// A new, empty queue with the default settings, created at `now`.
pub open spec fn new_queue_spec(
    name: Seq<char>,
    base_url: Seq<char>,
    account_id: Seq<char>,
    region: Seq<char>,
    now: i64,
) -> SqsQueueView {
    SqsQueueView {
        name,
        url: queue_url_spec(base_url, account_id, name),
        arn: queue_arn_spec(region, account_id, name),
        created: now,
        last_modified: now,
        visibility_timeout: 30,
        message_retention_period: 345600,
        maximum_message_size: 262144,
        delay_seconds: 0,
        receive_message_wait_time_seconds: 0,
        fifo: ends_with_spec(name, str_fifo_suffix()),
        content_based_deduplication: false,
        redrive_policy: None,
        policy: None,
        messages: Seq::empty(),
        sequence_counter: 0,
        dedup_ids: Map::empty(),
    }
}

/// Whether a send with deduplication id `dedup_id` is dropped as a
/// duplicate: only on FIFO queues, for an id seen before.
pub open spec fn is_duplicate(q: SqsQueueView, dedup_id: Option<Seq<char>>) -> bool {
    q.fifo && dedup_id is Some && q.dedup_ids.contains_key(dedup_id->0)
}

/// The queue after admitting `m` (a message built from a send).
pub open spec fn admitted_spec(q: SqsQueueView, m: SqsMessageView) -> SqsQueueView {
    SqsQueueView {
        messages: q.messages.push(m),
        sequence_counter: m.sequence_number,
        dedup_ids: match m.message_deduplication_id {
            Some(d) => q.dedup_ids.insert(d, m.message_id),
            None => q.dedup_ids,
        },
        ..q
    }
}

/// The message that a send to `q` builds.
pub open spec fn sent_message_spec(
    q: SqsQueueView,
    body: Seq<char>,
    delay_override: Option<u32>,
    message_attributes: Map<Seq<char>, MessageAttributeValueView>,
    message_group_id: Option<Seq<char>>,
    dedup_id: Option<Seq<char>>,
    message_id: Seq<char>,
    receipt_handle: Seq<char>,
    now: i64,
) -> SqsMessageView {
    new_message_spec(
        body,
        match delay_override {
            Some(d) => d,
            None => q.delay_seconds,
        },
        message_attributes,
        message_group_id,
        dedup_id,
        next_sequence(q.sequence_counter),
        message_id,
        receipt_handle,
        now,
    )
}

/// The next sequence number after `c`, wrapping at `u64::MAX`.
pub open spec fn next_sequence(c: u64) -> u64 {
    if c == u64::MAX {
        0
    } else {
        (c + 1) as u64
    }
}

fn lit_fifo_suffix() -> (r: Vec<char>)
    ensures
        r@ == str_fifo_suffix(),
{
    let r = vec!['.', 'f', 'i', 'f', 'o'];
    proof {
        assert(r@ =~= str_fifo_suffix());
    }
    r
}

impl SqsQueue {
    pub open spec fn wf(&self) -> bool {
        &&& self.dedup_ids.wf()
        &&& forall|i: int| 0 <= i < self.messages@.len() ==> (#[trigger] self.messages@[i]).wf()
    }

    /// A new queue named `name`, created now.
    pub fn new(name: String, base_url: &str, account_id: &str, region: &str) -> (q: Self)
        ensures
            q.wf(),
            exists|now: i64| q@ == new_queue_spec(name@, base_url@, account_id@, region@, now),
    {
        let now = now_millis();
        Self::new_at(name, base_url, account_id, region, now)
    }

    /// A new queue named `name`, created at `now`.
    pub fn new_at(name: String, base_url: &str, account_id: &str, region: &str, now: i64) -> (q: Self)
        ensures
            q.wf(),
            q@ == new_queue_spec(name@, base_url@, account_id@, region@, now),
    {
        let name_chars = chars_of(name.as_str());
        let suffix = lit_fifo_suffix();
        let is_fifo = ends_with_chars(name_chars.as_slice(), suffix.as_slice());
        let mut url = String::new();
        push_str(&mut url, base_url);
        url.push('/');
        push_str(&mut url, account_id);
        url.push('/');
        push_str(&mut url, name.as_str());
        let mut arn = String::new();
        push_str(&mut arn, "arn:aws:sqs:");
        push_str(&mut arn, region);
        arn.push(':');
        push_str(&mut arn, account_id);
        arn.push(':');
        push_str(&mut arn, name.as_str());
        proof {
            reveal_strlit("arn:aws:sqs:");
            assert(url@ =~= queue_url_spec(base_url@, account_id@, name@));
            assert(arn@ =~= queue_arn_spec(region@, account_id@, name@));
        }
        let q = SqsQueue {
            name,
            url,
            arn,
            created: now,
            last_modified: now,
            visibility_timeout: 30,
            message_retention_period: 345600,
            maximum_message_size: 262144,
            delay_seconds: 0,
            receive_message_wait_time_seconds: 0,
            fifo: is_fifo,
            content_based_deduplication: false,
            redrive_policy: None,
            policy: None,
            messages: Vec::new(),
            sequence_counter: 0,
            dedup_ids: StrMap::new(),
        };
        proof {
            assert(q@.messages =~= Seq::<SqsMessageView>::empty());
        }
        q
    }

    /// Sends a message.  A FIFO queue drops a message whose deduplication
    /// id it has seen (the result is then `None` and the queue unchanged);
    /// otherwise the message gets the next sequence number and fresh
    /// identifiers, is appended, and a copy is returned.
    pub fn send_message(
        &mut self,
        body: String,
        delay_override: Option<u32>,
        message_attributes: StrMap<MessageAttributeValue>,
        message_group_id: Option<String>,
        dedup_id: Option<String>,
    ) -> (r: Option<SqsMessage>)
        requires
            old(self).wf(),
            message_attributes.wf(),
        ensures
            final(self).wf(),
            is_duplicate(old(self)@, opt_view(dedup_id)) ==> r is None && final(self)@ == old(
                self,
            )@,
            !is_duplicate(old(self)@, opt_view(dedup_id)) ==> exists|id: Seq<char>, handle: Seq<char>, now: i64|
                crate::deps::is_uuid_text(id) && crate::deps::is_uuid_text(handle) && (r matches Some(msg) && msg@ == #[trigger] sent_message_spec(
                    old(self)@,
                    body@,
                    delay_override,
                    message_attributes@,
                    opt_view(message_group_id),
                    opt_view(dedup_id),
                    id,
                    handle,
                    now,
                ) && final(self)@ == admitted_spec(old(self)@, msg@)),
    {
        let message_id = new_uuid();
        let receipt_handle = new_uuid();
        let now = now_millis();
        self.send_message_at(
            body,
            delay_override,
            message_attributes,
            message_group_id,
            dedup_id,
            message_id,
            receipt_handle,
            now,
        )
    }

    /// `send_message` with the message's identifiers and the time given.
    pub fn send_message_at(
        &mut self,
        body: String,
        delay_override: Option<u32>,
        message_attributes: StrMap<MessageAttributeValue>,
        message_group_id: Option<String>,
        dedup_id: Option<String>,
        message_id: String,
        receipt_handle: String,
        now: i64,
    ) -> (r: Option<SqsMessage>)
        requires
            old(self).wf(),
            message_attributes.wf(),
            -clock_bound() <= now <= clock_bound(),
        ensures
            final(self).wf(),
            is_duplicate(old(self)@, opt_view(dedup_id)) ==> r is None && final(self)@ == old(
                self,
            )@,
            !is_duplicate(old(self)@, opt_view(dedup_id)) ==> (r matches Some(msg) && msg@
                == sent_message_spec(
                old(self)@,
                body@,
                delay_override,
                message_attributes@,
                opt_view(message_group_id),
                opt_view(dedup_id),
                message_id@,
                receipt_handle@,
                now,
            ) && final(self)@ == admitted_spec(old(self)@, msg@)),
    {
        let delay = match delay_override {
            Some(d) => d,
            None => self.delay_seconds,
        };
        if self.fifo {
            if let Some(did) = &dedup_id {
                if self.dedup_ids.contains_key(did.as_str()) {
                    return None;
                }
            }
        }
        self.sequence_counter = if self.sequence_counter == u64::MAX {
            0
        } else {
            self.sequence_counter + 1
        };
        let seq = self.sequence_counter;
        let dedup_copy = copy_opt(&dedup_id);
        let msg = SqsMessage::new_at(
            body,
            delay,
            message_attributes,
            message_group_id,
            dedup_id,
            seq,
            message_id,
            receipt_handle,
            now,
        );
        if let Some(did) = dedup_copy {
            self.dedup_ids.insert(did, msg.message_id.clone());
        }
        let copy = msg.copy();
        let ghost before = self.messages@;
        self.messages.push(msg);
        proof {
            assert(views(self.messages@) =~= views(before).push(copy@));
            assert forall|i: int| 0 <= i < self.messages@.len() implies (
            #[trigger] self.messages@[i]).wf() by {
                if i < before.len() {
                    assert(self.messages@[i] == before[i]);
                }
            }
        }
        Some(copy)
    }

    /// Receives up to `max_number` messages visible at `now`, oldest first:
    /// each one taken gets the next receipt handle from `handles`, one more
    /// receive, and becomes invisible for `visibility_timeout` seconds (the
    /// queue's default when `None`).  Copies of the taken messages are
    /// returned in queue order.
    pub fn receive_messages_at(
        &mut self,
        max_number: usize,
        visibility_timeout: Option<u32>,
        now: i64,
        handles: Vec<String>,
    ) -> (r: Vec<SqsMessage>)
        requires
            old(self).wf(),
            -clock_bound() <= now <= clock_bound(),
            handles@.len() >= max_number || handles@.len() >= old(self).messages@.len(),
        ensures
            final(self).wf(),
            forall|k: int| 0 <= k < r@.len() ==> (#[trigger] r@[k]).wf(),
            receive_outcome(
                old(self)@,
                final(self)@,
                views(r@),
                max_number as nat,
                visibility_timeout,
                now,
                string_views(handles@),
            ),
    {
        let vt = match visibility_timeout {
            Some(v) => v,
            None => self.visibility_timeout,
        };
        let ghost msgs = self@.messages;
        let ghost old_q = self@;
        let ghost hv = string_views(handles@);
        let mut received: Vec<SqsMessage> = Vec::new();
        let mut i: usize = 0;
        let mut h: usize = 0;
        proof {
            assert(msgs.take(0) =~= Seq::<SqsMessageView>::empty());
        }
        while i < self.messages.len()
            invariant
                -clock_bound() <= now <= clock_bound(),
                i <= self.messages@.len(),
                self.messages@.len() == msgs.len(),
                handles@.len() >= max_number || handles@.len() >= msgs.len(),
                hv == string_views(handles@),
                vt == (match visibility_timeout {
                    Some(v) => v,
                    None => old_q.visibility_timeout,
                }),
                self.dedup_ids.wf(),
                forall|k: int| 0 <= k < self.messages@.len() ==> (#[trigger] self.messages@[k]).wf(),
                forall|k: int| 0 <= k < received@.len() ==> (#[trigger] received@[k]).wf(),
                received@.len() == if count_visible(msgs.take(i as int), now) < max_number {
                    count_visible(msgs.take(i as int), now)
                } else {
                    max_number as nat
                },
                h == received@.len(),
                self@ == (SqsQueueView { messages: self@.messages, ..old_q }),
                forall|k: int|
                    0 <= k < i ==> #[trigger] self.messages@[k]@ == if is_selected(
                        msgs,
                        now,
                        max_number as nat,
                        k,
                    ) {
                        received_spec(msgs[k], vt, now, hv[count_visible(msgs.take(k), now) as int])
                    } else {
                        msgs[k]
                    },
                forall|k: int| i <= k < msgs.len() ==> #[trigger] self.messages@[k]@ == msgs[k],
                forall|k: int|
                    0 <= k < i && #[trigger] is_selected(msgs, now, max_number as nat, k)
                        ==> received@[count_visible(msgs.take(k), now) as int]@ == self.messages@[k]@,
                forall|k: int|
                    0 <= k < i && #[trigger] is_selected(msgs, now, max_number as nat, k)
                        ==> count_visible(msgs.take(k), now) < received@.len(),
            decreases msgs.len() - i,
        {
            let ghost cvi = count_visible(msgs.take(i as int), now);
            proof {
                assert(msgs.take(i + 1).drop_last() =~= msgs.take(i as int));
                assert(msgs.take(i + 1).last() == msgs[i as int]);
                assert(self.messages@[i as int]@ == msgs[i as int]);
                lemma_count_visible_bound(msgs.take(i as int), now);
            }
            let ghost before = self.messages@;
            if received.len() < max_number && self.messages[i].is_visible_at(now) {
                proof {
                    assert(is_selected(msgs, now, max_number as nat, i as int));
                    assert(cvi == h);
                    assert(h < handles@.len());
                }
                let handle = handles[h].clone();
                self.messages[i].begin_receive_at(vt, now, handle);
                let c = self.messages[i].copy();
                received.push(c);
                h = h + 1;
                proof {
                    assert(hv[cvi as int] == handles@[cvi as int]@);
                    assert(self.messages@[i as int]@ == received_spec(msgs[i as int], vt, now, hv[cvi as int]));
                    assert forall|k: int| 0 <= k < self.messages@.len() && k != i implies #[trigger] self.messages@[k]
                        == before[k] by {}
                    assert(views(self.messages@) =~= views(before).update(i as int, self.messages@[i as int]@));
                    assert(received@[cvi as int]@ == self.messages@[i as int]@);
                    assert forall|k: int|
                        0 <= k < i && #[trigger] is_selected(msgs, now, max_number as nat, k)
                        implies received@[count_visible(msgs.take(k), now) as int]@ == self.messages@[k]@ by {
                        lemma_count_visible_prefix(msgs, now, k, i as int);
                    }
                }
            } else {
                proof {
                    assert(!is_selected(msgs, now, max_number as nat, i as int));
                }
            }
            proof {
                assert forall|k: int|
                    0 <= k < i + 1 && #[trigger] is_selected(msgs, now, max_number as nat, k)
                    implies count_visible(msgs.take(k), now) < received@.len() by {
                    lemma_count_visible_prefix(msgs, now, k, i + 1);
                }
            }
            i = i + 1;
        }
        proof {
            assert(msgs.take(msgs.len() as int) =~= msgs);
            assert(views(self.messages@).len() == msgs.len());
            assert forall|k: int| 0 <= k < msgs.len() implies #[trigger] views(self.messages@)[k] == self.messages@[k]@ by {}
            assert forall|k: int| 0 <= k < received@.len() implies #[trigger] views(received@)[k] == received@[k]@ by {}
            let q2 = self@;
            let r2 = views(received@);
            assert(q2 == (SqsQueueView { messages: q2.messages, ..old_q }));
            assert(q2.messages.len() == msgs.len());
            assert(forall|ii: int|
                0 <= ii < msgs.len() ==> #[trigger] q2.messages[ii] == if is_selected(msgs, now, max_number as nat, ii) {
                    received_spec(msgs[ii], vt, now, hv[count_visible(msgs.take(ii), now) as int])
                } else {
                    msgs[ii]
                });
            assert(r2.len() == if count_visible(msgs, now) < max_number {
                count_visible(msgs, now)
            } else {
                max_number as nat
            });
            assert(forall|ii: int|
                0 <= ii < msgs.len() && #[trigger] is_selected(msgs, now, max_number as nat, ii) ==> r2[count_visible(
                    msgs.take(ii),
                    now,
                ) as int] == q2.messages[ii]);
        }
        received
    }

    /// Receives up to `max_number` visible messages now; each one taken gets
    /// a fresh receipt handle.
    pub fn receive_messages(&mut self, max_number: usize, visibility_timeout: Option<u32>) -> (r: Vec<
        SqsMessage,
    >)
        requires
            old(self).wf(),
        ensures
            final(self).wf(),
            forall|k: int| 0 <= k < r@.len() ==> (#[trigger] r@[k]).wf(),
            exists|now: i64, handles: Seq<Seq<char>>|
                (forall|k: int| 0 <= k < handles.len() ==> crate::deps::is_uuid_text(#[trigger] handles[k])) && #[trigger] receive_outcome(
                    old(self)@,
                    final(self)@,
                    views(r@),
                    max_number as nat,
                    visibility_timeout,
                    now,
                    handles,
                ),
    {
        let now = now_millis();
        let n = if max_number < self.messages.len() {
            max_number
        } else {
            self.messages.len()
        };
        let mut handles: Vec<String> = Vec::new();
        let mut j: usize = 0;
        while j < n
            invariant
                j <= n,
                handles@.len() == j,
                forall|k: int| 0 <= k < j ==> crate::deps::is_uuid_text(#[trigger] handles@[k]@),
            decreases n - j,
        {
            handles.push(new_uuid());
            j = j + 1;
        }
        let ghost hs = string_views(handles@);
        let r = self.receive_messages_at(max_number, visibility_timeout, now, handles);
        proof {
            assert forall|k: int| 0 <= k < n implies #[trigger] hs[k] == handles@[k]@ by {}
            assert forall|k: int| 0 <= k < hs.len() implies crate::deps::is_uuid_text(#[trigger] hs[k]) by {
                assert(hs[k] == handles@[k]@);
            }
        }
        r
    }

    /// Deletes every message whose receipt handle is `receipt_handle`;
    /// the result says whether there was one.
    pub fn delete_message(&mut self, receipt_handle: &str) -> (found: bool)
        requires
            old(self).wf(),
        ensures
            final(self).wf(),
            final(self)@ == (SqsQueueView {
                messages: without_handle(old(self)@.messages, receipt_handle@),
                ..old(self)@
            }),
            found == exists|i: int|
                0 <= i < old(self)@.messages.len() && #[trigger] old(self)@.messages[i].receipt_handle
                    == receipt_handle@,
    {
        let ghost old_q = self@;
        let mut old_msgs: Vec<SqsMessage> = Vec::new();
        std::mem::swap(&mut old_msgs, &mut self.messages);
        let ghost all = old_msgs@;
        let mut found = false;
        proof {
            assert(views(all) == old_q.messages);
            assert(views(all.take(0)) =~= Seq::<SqsMessageView>::empty());
            assert(views(self.messages@) =~= Seq::<SqsMessageView>::empty());
        }
        for m in it: old_msgs.into_iter()
            invariant
                it.seq() == all,
                forall|k: int| 0 <= k < all.len() ==> (#[trigger] all[k]).wf(),
                forall|k: int| 0 <= k < self.messages@.len() ==> (#[trigger] self.messages@[k]).wf(),
                views(self.messages@) == without_handle(views(all.take(it.index() as int)), receipt_handle@),
                found == exists|j: int|
                    0 <= j < it.index() && #[trigger] all[j]@.receipt_handle == receipt_handle@,
                self@ == (SqsQueueView { messages: self@.messages, ..old_q }),
                self.dedup_ids.wf(),
        {
            let ghost idx = it.index() as int;
            proof {
                assert(views(all.take(idx + 1)).drop_last() =~= views(all.take(idx)));
                assert(views(all.take(idx + 1)).last() == all[idx]@);
                assert(m == all[idx]);
            }
            if m.receipt_handle.as_str().eq(receipt_handle) {
                found = true;
                proof {
                    assert(all[idx]@.receipt_handle == receipt_handle@);
                }
            } else {
                let ghost before = self.messages@;
                self.messages.push(m);
                proof {
                    assert(views(self.messages@) =~= views(before).push(all[idx]@));
                    assert(all[idx]@.receipt_handle != receipt_handle@);
                }
            }
        }
        proof {
            assert(all.take(all.len() as int) =~= all);
            assert(views(all) =~= old_q.messages);
            assert(found == exists|i: int|
                0 <= i < old_q.messages.len() && #[trigger] old_q.messages[i].receipt_handle
                    == receipt_handle@) by {
                if found {
                    let j = choose|j: int| 0 <= j < all.len() && #[trigger] all[j]@.receipt_handle == receipt_handle@;
                    assert(old_q.messages[j].receipt_handle == receipt_handle@);
                }
                if exists|i: int|
                    0 <= i < old_q.messages.len() && #[trigger] old_q.messages[i].receipt_handle
                        == receipt_handle@ {
                    let i = choose|i: int|
                        0 <= i < old_q.messages.len() && #[trigger] old_q.messages[i].receipt_handle
                            == receipt_handle@;
                    assert(all[i]@.receipt_handle == receipt_handle@);
                }
            }
        }
        found
    }

    /// Sets the visibility of the first message with receipt handle
    /// `receipt_handle` to end `visibility_timeout` seconds after `now`
    /// (visible at once for zero); the result says whether there was one.
    pub fn change_visibility_at(&mut self, receipt_handle: &str, visibility_timeout: u32, now: i64) -> (found: bool)
        requires
            old(self).wf(),
            -clock_bound() <= now <= clock_bound(),
        ensures
            final(self).wf(),
            visibility_changed(old(self)@, final(self)@, receipt_handle@, visibility_timeout, now, found),
    {
        let ghost msgs = self@.messages;
        let ghost old_q = self@;
        let mut i: usize = 0;
        proof {
            lemma_first_with_handle(msgs, receipt_handle@, 0);
        }
        while i < self.messages.len()
            invariant
                -clock_bound() <= now <= clock_bound(),
                self.wf(),
                self@ == old_q,
                old(self)@ == old_q,
                msgs == old_q.messages,
                i <= self.messages@.len(),
                views(self.messages@) == msgs,
                self.messages@.len() == msgs.len(),
                forall|j: int| 0 <= j < i ==> msgs[j].receipt_handle != receipt_handle@,
            decreases self.messages@.len() - i,
        {
            proof {
                assert(views(self.messages@)[i as int] == self.messages@[i as int]@);
            }
            if self.messages[i].receipt_handle.as_str().eq(receipt_handle) {
                let ghost before = self.messages@;
                self.messages[i].visible_after = deadline_exec(now, visibility_timeout);
                proof {
                    lemma_first_with_handle(msgs, receipt_handle@, 0);
                    assert(first_with_handle(msgs, receipt_handle@, 0) == Some(i as int));
                    assert forall|k: int| 0 <= k < self.messages@.len() && k != i implies #[trigger] self.messages@[k]
                        == before[k] by {}
                    assert(views(self.messages@) =~= msgs.update(
                        i as int,
                        SqsMessageView {
                            visible_after: deadline(now, visibility_timeout),
                            ..msgs[i as int]
                        },
                    ));
                    assert(self.messages@[i as int].wf());
                    assert(self@ == (SqsQueueView { messages: views(self.messages@), ..old_q }));
                    assert(self@ == (SqsQueueView {
                        messages: old_q.messages.update(
                            i as int,
                            SqsMessageView {
                                visible_after: deadline(now, visibility_timeout),
                                ..old_q.messages[i as int]
                            },
                        ),
                        ..old_q
                    }));
                }
                return true;
            }
            i = i + 1;
        }
        proof {
            assert(first_with_handle(msgs, receipt_handle@, 0) is None);
        }
        false
    }

    /// `change_visibility_at` with the time read now.
    pub fn change_visibility(&mut self, receipt_handle: &str, visibility_timeout: u32) -> (found: bool)
        requires
            old(self).wf(),
        ensures
            final(self).wf(),
            exists|now: i64|
                #[trigger] visibility_changed(
                    old(self)@,
                    final(self)@,
                    receipt_handle@,
                    visibility_timeout,
                    now,
                    found,
                ),
    {
        let now = now_millis();
        self.change_visibility_at(receipt_handle, visibility_timeout, now)
    }

    /// Removes every message.
    pub fn purge(&mut self)
        requires
            old(self).wf(),
        ensures
            final(self).wf(),
            final(self)@ == (SqsQueueView { messages: Seq::empty(), ..old(self)@ }),
    {
        self.messages.clear();
        proof {
            assert(views(self.messages@) =~= Seq::<SqsMessageView>::empty());
        }
    }

    /// How many messages are visible at `now`.
    pub fn approximate_number_of_messages_at(&self, now: i64) -> (n: usize)
        ensures
            n == count_visible(self@.messages, now),
    {
        let mut n: usize = 0;
        let mut i: usize = 0;
        proof {
            assert(self@.messages.take(0) =~= Seq::<SqsMessageView>::empty());
        }
        while i < self.messages.len()
            invariant
                i <= self.messages@.len(),
                n == count_visible(self@.messages.take(i as int), now),
                n <= i,
            decreases self.messages@.len() - i,
        {
            proof {
                assert(self@.messages.take(i + 1).drop_last() =~= self@.messages.take(i as int));
                assert(self@.messages.take(i + 1).last() == self.messages@[i as int]@);
            }
            if self.messages[i].is_visible_at(now) {
                n = n + 1;
            }
            i = i + 1;
        }
        proof {
            assert(self@.messages.take(self@.messages.len() as int) =~= self@.messages);
        }
        n
    }

    /// How many messages are not visible at `now`.
    pub fn approximate_number_of_messages_not_visible_at(&self, now: i64) -> (n: usize)
        ensures
            n == count_invisible(self@.messages, now),
    {
        let mut n: usize = 0;
        let mut i: usize = 0;
        proof {
            assert(self@.messages.take(0) =~= Seq::<SqsMessageView>::empty());
        }
        while i < self.messages.len()
            invariant
                i <= self.messages@.len(),
                n == count_invisible(self@.messages.take(i as int), now),
                n <= i,
            decreases self.messages@.len() - i,
        {
            proof {
                assert(self@.messages.take(i + 1).drop_last() =~= self@.messages.take(i as int));
                assert(self@.messages.take(i + 1).last() == self.messages@[i as int]@);
            }
            if !self.messages[i].is_visible_at(now) {
                n = n + 1;
            }
            i = i + 1;
        }
        proof {
            assert(self@.messages.take(self@.messages.len() as int) =~= self@.messages);
        }
        n
    }

    /// How many messages are visible now.
    pub fn approximate_number_of_messages(&self) -> (n: usize)
        ensures
            exists|now: i64| n == count_visible(self@.messages, now),
    {
        let now = now_millis();
        self.approximate_number_of_messages_at(now)
    }

    /// How many messages are not visible now.
    pub fn approximate_number_of_messages_not_visible(&self) -> (n: usize)
        ensures
            exists|now: i64| n == count_invisible(self@.messages, now),
    {
        let now = now_millis();
        self.approximate_number_of_messages_not_visible_at(now)
    }

    /// Copies of the messages due for the dead-letter queue: with a redrive
    /// policy, those received at least its maximum number of times; none
    /// without one.
    pub fn messages_for_dlq(&self) -> (r: Vec<SqsMessage>)
        requires
            self.wf(),
        ensures
            views(r@) == match self.redrive_policy {
                Some(rp) => by_receive_count(self@.messages, rp.max_receive_count, false),
                None => Seq::empty(),
            },
    {
        let mut r: Vec<SqsMessage> = Vec::new();
        match &self.redrive_policy {
            None => {
                proof {
                    assert(views(r@) =~= Seq::<SqsMessageView>::empty());
                }
                r
            },
            Some(rp) => {
                let max = rp.max_receive_count;
                let mut i: usize = 0;
                proof {
                    assert(self@.messages.take(0) =~= Seq::<SqsMessageView>::empty());
                    assert(views(r@) =~= Seq::<SqsMessageView>::empty());
                }
                while i < self.messages.len()
                    invariant
                        i <= self.messages@.len(),
                        self.wf(),
                        views(r@) == by_receive_count(self@.messages.take(i as int), max, false),
                    decreases self.messages@.len() - i,
                {
                    proof {
                        assert(self@.messages.take(i + 1).drop_last() =~= self@.messages.take(i as int));
                        assert(self@.messages.take(i + 1).last() == self.messages@[i as int]@);
                    }
                    if self.messages[i].receive_count >= max {
                        let ghost before = r@;
                        let c = self.messages[i].copy();
                        r.push(c);
                        proof {
                            assert(views(r@) =~= views(before).push(self.messages@[i as int]@));
                        }
                    }
                    i = i + 1;
                }
                proof {
                    assert(self@.messages.take(self@.messages.len() as int) =~= self@.messages);
                }
                r
            },
        }
    }

    /// With a redrive policy, removes the messages received at least its
    /// maximum number of times.
    pub fn remove_dlq_candidates(&mut self)
        requires
            old(self).wf(),
        ensures
            final(self).wf(),
            final(self)@ == match old(self).redrive_policy {
                Some(rp) => (SqsQueueView {
                    messages: by_receive_count(old(self)@.messages, rp.max_receive_count, true),
                    ..old(self)@
                }),
                None => old(self)@,
            },
    {
        let max = match &self.redrive_policy {
            Some(rp) => rp.max_receive_count,
            None => {
                return ;
            },
        };
        let ghost old_q = self@;
        let mut old_msgs: Vec<SqsMessage> = Vec::new();
        std::mem::swap(&mut old_msgs, &mut self.messages);
        let ghost all = old_msgs@;
        proof {
            assert(views(all) == old_q.messages);
            assert(views(all.take(0)) =~= Seq::<SqsMessageView>::empty());
            assert(views(self.messages@) =~= Seq::<SqsMessageView>::empty());
        }
        for m in it: old_msgs.into_iter()
            invariant
                it.seq() == all,
                forall|k: int| 0 <= k < all.len() ==> (#[trigger] all[k]).wf(),
                forall|k: int| 0 <= k < self.messages@.len() ==> (#[trigger] self.messages@[k]).wf(),
                views(self.messages@) == by_receive_count(views(all.take(it.index() as int)), max, true),
                self@ == (SqsQueueView { messages: self@.messages, ..old_q }),
                self.dedup_ids.wf(),
        {
            let ghost idx = it.index() as int;
            proof {
                assert(views(all.take(idx + 1)).drop_last() =~= views(all.take(idx)));
                assert(views(all.take(idx + 1)).last() == all[idx]@);
                assert(m == all[idx]);
            }
            if m.receive_count < max {
                let ghost before = self.messages@;
                self.messages.push(m);
                proof {
                    assert(views(self.messages@) =~= views(before).push(all[idx]@));
                }
            }
        }
        proof {
            assert(all.take(all.len() as int) =~= all);
            assert(views(all) =~= old_q.messages);
        }
    }
}

// ---------------------------------------------------------------------------
// Queue attributes
// ---------------------------------------------------------------------------

/// The value that attribute `key` of `attrs` sets on a `u32` setting whose
/// value is `cur`: the attribute's number when it parses, else `cur`.
pub open spec fn u32_attribute(attrs: Map<Seq<char>, Seq<char>>, key: Seq<char>, cur: u32) -> u32 {
    if attrs.contains_key(key) && parse_unsigned_spec(attrs[key], u32::MAX as nat) is Some {
        parse_unsigned_spec(attrs[key], u32::MAX as nat)->0 as u32
    } else {
        cur
    }
}

/// The optional string view of a pair's first field.
pub open spec fn redrive_arg_view(r: Option<(Option<String>, Option<u64>)>) -> Option<(Option<Seq<char>>, Option<u64>)> {
    match r {
        Some((a, n)) => Some((opt_view(a), n)),
        None => None,
    }
}

/// `q` after applying the attributes `attrs` at `now`, where `redrive` is
/// what the redrive policy document in `attrs` (if any) reads as: numeric
/// settings take the attribute's value when it parses as a `u32`,
/// `ContentBasedDeduplication` is set to whether the value is `true`, a
/// readable redrive policy replaces the old one (a missing target reads as
/// empty, a missing count as 3), and the queue is marked modified at `now`.
pub open spec fn attributes_applied(
    q: SqsQueueView,
    attrs: Map<Seq<char>, Seq<char>>,
    now: i64,
    redrive: Option<(Option<Seq<char>>, Option<u64>)>,
) -> SqsQueueView {
    SqsQueueView {
        visibility_timeout: u32_attribute(attrs, "VisibilityTimeout"@, q.visibility_timeout),
        message_retention_period: u32_attribute(
            attrs,
            "MessageRetentionPeriod"@,
            q.message_retention_period,
        ),
        maximum_message_size: u32_attribute(attrs, "MaximumMessageSize"@, q.maximum_message_size),
        delay_seconds: u32_attribute(attrs, "DelaySeconds"@, q.delay_seconds),
        receive_message_wait_time_seconds: u32_attribute(
            attrs,
            "ReceiveMessageWaitTimeSeconds"@,
            q.receive_message_wait_time_seconds,
        ),
        content_based_deduplication: if attrs.contains_key("ContentBasedDeduplication"@) {
            attrs["ContentBasedDeduplication"@] == "true"@
        } else {
            q.content_based_deduplication
        },
        redrive_policy: if attrs.contains_key("RedrivePolicy"@) {
            match redrive {
                Some((arn, max)) => Some(
                    RedrivePolicyView {
                        dead_letter_target_arn: match arn {
                            Some(a) => a,
                            None => Seq::empty(),
                        },
                        max_receive_count: match max {
                            Some(n) => n as u32,
                            None => 3,
                        },
                    },
                ),
                None => q.redrive_policy,
            }
        } else {
            q.redrive_policy
        },
        last_modified: now,
        ..q
    }
}

/// What the redrive policy in `attrs`, if any, reads as.
pub open spec fn redrive_of(attrs: Map<Seq<char>, Seq<char>>) -> Option<(Option<Seq<char>>, Option<u64>)> {
    if attrs.contains_key("RedrivePolicy"@) {
        redrive_fields_spec(attrs["RedrivePolicy"@])
    } else {
        None
    }
}

fn u32_attribute_exec(attrs: &StrMap<String>, key: &str, cur: u32) -> (r: u32)
    requires
        attrs.wf(),
    ensures
        r == u32_attribute(attrs@, key@, cur),
{
    match attrs.get(key) {
        Some(v) => {
            let chars = chars_of(v.as_str());
            match parse_u32(chars.as_slice()) {
                Some(n) => n,
                None => cur,
            }
        },
        None => cur,
    }
}

/// Applies the attributes `attrs` at `now`, `redrive` being what the
/// redrive policy in `attrs` reads as.
pub fn apply_queue_attributes_at(
    q: &mut SqsQueue,
    attrs: &StrMap<String>,
    now: i64,
    redrive: Option<(Option<String>, Option<u64>)>,
)
    requires
        old(q).wf(),
        attrs.wf(),
    ensures
        final(q).wf(),
        final(q)@ == attributes_applied(old(q)@, attrs@, now, redrive_arg_view(redrive)),
{
    q.visibility_timeout = u32_attribute_exec(attrs, "VisibilityTimeout", q.visibility_timeout);
    q.message_retention_period = u32_attribute_exec(
        attrs,
        "MessageRetentionPeriod",
        q.message_retention_period,
    );
    q.maximum_message_size = u32_attribute_exec(attrs, "MaximumMessageSize", q.maximum_message_size);
    q.delay_seconds = u32_attribute_exec(attrs, "DelaySeconds", q.delay_seconds);
    q.receive_message_wait_time_seconds = u32_attribute_exec(
        attrs,
        "ReceiveMessageWaitTimeSeconds",
        q.receive_message_wait_time_seconds,
    );
    if let Some(v) = attrs.get("ContentBasedDeduplication") {
        q.content_based_deduplication = v.as_str().eq("true");
    }
    if attrs.contains_key("RedrivePolicy") {
        if let Some((arn, max)) = redrive {
            let arn_s = match arn {
                Some(a) => a,
                None => String::new(),
            };
            let max_n: u32 = match max {
                Some(n) => n as u32,
                None => 3,
            };
            q.redrive_policy = Some(
                RedrivePolicy { dead_letter_target_arn: arn_s, max_receive_count: max_n },
            );
        }
    }
    q.last_modified = now;
}

/// Applies the attributes `attrs` now, reading the redrive policy document
/// in them as JSON.
pub fn apply_queue_attributes(q: &mut SqsQueue, attrs: &StrMap<String>)
    requires
        old(q).wf(),
        attrs.wf(),
    ensures
        final(q).wf(),
        exists|now: i64| final(q)@ == #[trigger] attributes_applied(old(q)@, attrs@, now, redrive_of(attrs@)),
{
    let redrive = match attrs.get("RedrivePolicy") {
        Some(v) => redrive_fields(v.as_str()),
        None => None,
    };
    let now = now_millis();
    apply_queue_attributes_at(q, attrs, now, redrive);
}

// ---------------------------------------------------------------------------
// SqsStore
// ---------------------------------------------------------------------------

/// The queues of one account and region, by name.
pub struct SqsStore {
    pub queues: StrMap<SqsQueue>,
}

/// The queues of `qs` whose name starts with `prefix`, in order.
pub open spec fn with_name_prefix(qs: Seq<SqsQueueView>, prefix: Seq<char>) -> Seq<SqsQueueView>
    decreases qs.len(),
{
    if qs.len() == 0 {
        Seq::empty()
    } else if starts_with_spec(qs.last().name, prefix) {
        with_name_prefix(qs.drop_last(), prefix).push(qs.last())
    } else {
        with_name_prefix(qs.drop_last(), prefix)
    }
}

/// The last `/`-separated segment of `url`.
pub open spec fn last_segment(url: Seq<char>) -> Seq<char>
    decreases url.len(),
{
    if url.len() == 0 {
        Seq::empty()
    } else if url.last() == '/' {
        Seq::empty()
    } else {
        last_segment(url.drop_last()).push(url.last())
    }
}

/// The last `/`-separated segment of `url`.
pub fn last_segment_exec(url: &str) -> (r: String)
    ensures
        r@ == last_segment(url@),
{
    let v = chars_of(url);
    let mut start: usize = v.len();
    proof {
        assert(v@.take(v@.len() as int) =~= v@);
        assert(v@ + v@.subrange(v@.len() as int, v@.len() as int) =~= v@);
    }
    while start > 0 && v[start - 1] != '/'
        invariant
            start <= v@.len(),
            v@ == url@,
            last_segment(url@) == last_segment(v@.take(start as int)) + v@.subrange(
                start as int,
                v@.len() as int,
            ),
        decreases start,
    {
        proof {
            assert(v@.take(start as int).drop_last() =~= v@.take(start - 1));
            assert(v@.take(start as int).last() == v@[start - 1]);
            assert(v@.subrange(start - 1, v@.len() as int) =~= seq![v@[start - 1]] + v@.subrange(
                start as int,
                v@.len() as int,
            ));
            assert(last_segment(v@.take(start - 1)).push(v@[start - 1]) + v@.subrange(
                start as int,
                v@.len() as int,
            ) =~= last_segment(v@.take(start - 1)) + v@.subrange(start - 1, v@.len() as int));
        }
        start = start - 1;
    }
    proof {
        if start > 0 {
            assert(v@.take(start as int).last() == '/');
        } else {
            assert(v@.take(0) =~= Seq::<char>::empty());
        }
        assert(last_segment(v@.take(start as int)) =~= Seq::<char>::empty());
        assert(Seq::<char>::empty() + v@.subrange(start as int, v@.len() as int) =~= v@.subrange(
            start as int,
            v@.len() as int,
        ));
    }
    let seg = crate::text::slice_chars(v.as_slice(), start, v.len());
    crate::text::string_of(seg.as_slice())
}

impl SqsStore {
    pub open spec fn wf(&self) -> bool {
        &&& self.queues.wf()
        &&& forall|i: int|
            0 <= i < self.queues.vals_seq().len() ==> (#[trigger] self.queues.vals_seq()[i]).wf()
    }

    /// The queues in storage order.
    pub open spec fn queue_seq(&self) -> Seq<SqsQueueView> {
        self.queues.vals_seq().map_values(|q: SqsQueue| q@)
    }

    pub fn new() -> (s: Self)
        ensures
            s.wf(),
            s.queues@ == Map::<Seq<char>, SqsQueueView>::empty(),
    {
        let s = SqsStore { queues: StrMap::new() };
        proof {
            s.queues.lemma_enumeration();
        }
        s
    }

    /// Creates the queue `name` with the attributes `attrs` unless it
    /// exists; either way returns the queue of that name.
    pub fn create_queue(
        &mut self,
        name: String,
        base_url: &str,
        account_id: &str,
        region: &str,
        attributes: &StrMap<String>,
    ) -> (r: &SqsQueue)
        requires
            old(self).wf(),
            attributes.wf(),
        ensures
            final(self).wf(),
            old(self).queues@.contains_key(name@) ==> final(self).queues@ == old(self).queues@,
            !old(self).queues@.contains_key(name@) ==> exists|t1: i64, t2: i64|
                final(self).queues@ == old(self).queues@.insert(
                    name@,
                    #[trigger] attributes_applied(
                        new_queue_spec(name@, base_url@, account_id@, region@, t1),
                        attributes@,
                        t2,
                        redrive_of(attributes@),
                    ),
                ),
            final(self).queues@.contains_key(name@),
            r@ == final(self).queues@[name@],
    {
        if !self.queues.contains_key(name.as_str()) {
            let mut q = SqsQueue::new(name.clone(), base_url, account_id, region);
            apply_queue_attributes(&mut q, attributes);
            let ghost old_s = *self;
            self.queues.insert(name.clone(), q);
            proof {
                assert forall|i: int| 0 <= i < self.queues.vals_seq().len() implies (
                #[trigger] self.queues.vals_seq()[i]).wf() by {
                    if i < old_s.queues.vals_seq().len() {
                        assert(old_s.queues.vals_seq()[i].wf());
                    }
                }
            }
        }
        self.queues.get(name.as_str()).unwrap()
    }

    pub fn get_queue_by_name(&self, name: &str) -> (r: Option<&SqsQueue>)
        requires
            self.wf(),
        ensures
            match r {
                Some(q) => self.queues@.contains_key(name@) && q@ == self.queues@[name@] && q.wf(),
                None => !self.queues@.contains_key(name@),
            },
    {
        let r = self.queues.get(name);
        proof {
            if let Some(q) = r {
                self.queues.lemma_pos(name@);
                assert(self.queues.vals_seq()[self.queues.pos(name@)].wf());
            }
        }
        r
    }

    /// A mutable reference to the queue named `name`.
    pub fn get_queue_by_name_mut(&mut self, name: &str) -> (r: Option<&mut SqsQueue>)
        requires
            old(self).wf(),
        ensures
            match r {
                Some(q) => {
                    &&& old(self).queues@.contains_key(name@)
                    &&& q@ == old(self).queues@[name@]
                    &&& q.wf()
                    &&& final(self).queues.keys_seq() == old(self).queues.keys_seq()
                    &&& final(self).queues.vals_seq() == old(self).queues.vals_seq().update(
                        old(self).queues.pos(name@),
                        *final(q),
                    )
                },
                None => !old(self).queues@.contains_key(name@) && *final(self) == *old(self),
            },
    {
        proof {
            if self.queues@.contains_key(name@) {
                self.queues.lemma_pos(name@);
                assert(self.queues.vals_seq()[self.queues.pos(name@)].wf());
            }
        }
        self.queues.get_mut(name)
    }

    /// A store whose queues are those of `old_s` but for the one at the
    /// position of `name`, which is well formed, has that queue in place of
    /// the old one.
    pub proof fn lemma_queue_replaced(old_s: &Self, new_s: &Self, name: Seq<char>)
        requires
            old_s.wf(),
            old_s.queues@.contains_key(name),
            new_s.queues.keys_seq() == old_s.queues.keys_seq(),
            new_s.queues.vals_seq().len() == old_s.queues.vals_seq().len(),
            forall|j: int|
                0 <= j < old_s.queues.vals_seq().len() && j != old_s.queues.pos(name)
                    ==> new_s.queues.vals_seq()[j] == old_s.queues.vals_seq()[j],
            new_s.queues.vals_seq()[old_s.queues.pos(name)].wf(),
        ensures
            new_s.wf(),
            new_s.queues@ == old_s.queues@.insert(
                name,
                new_s.queues.vals_seq()[old_s.queues.pos(name)]@,
            ),
    {
        StrMap::lemma_update_at(&old_s.queues, &new_s.queues, name);
        assert forall|i: int| 0 <= i < new_s.queues.vals_seq().len() implies (
        #[trigger] new_s.queues.vals_seq()[i]).wf() by {
            if i != old_s.queues.pos(name) {
                assert(old_s.queues.vals_seq()[i].wf());
            }
        }
    }

    fn position_by_url(&self, url: &str) -> (r: Option<usize>)
        requires
            self.wf(),
        ensures
            match r {
                Some(i) => i < self.queue_seq().len() && self.queue_seq()[i as int].url == url@
                    && forall|j: int| 0 <= j < i ==> self.queue_seq()[j].url != url@,
                None => forall|j: int|
                    0 <= j < self.queue_seq().len() ==> self.queue_seq()[j].url != url@,
            },
    {
        let n = self.queues.len();
        proof {
            self.queues.lemma_enumeration();
        }
        let mut i: usize = 0;
        while i < n
            invariant
                self.wf(),
                n == self.queue_seq().len(),
                i <= n,
                forall|j: int| 0 <= j < i ==> self.queue_seq()[j].url != url@,
            decreases n - i,
        {
            let q = self.queues.value_at_index(i);
            if q.url.as_str().eq(url) {
                return Some(i);
            }
            i = i + 1;
        }
        None
    }

    /// The first queue, in storage order, whose URL is `url`.
    pub fn get_queue_by_url(&self, url: &str) -> (r: Option<&SqsQueue>)
        requires
            self.wf(),
        ensures
            match r {
                Some(q) => q@.url == url@ && self.queue_seq().contains(q@),
                None => forall|j: int|
                    0 <= j < self.queue_seq().len() ==> self.queue_seq()[j].url != url@,
            },
    {
        match self.position_by_url(url) {
            Some(i) => {
                let q = self.queues.value_at_index(i);
                proof {
                    assert(self.queue_seq()[i as int] == q@);
                }
                Some(q)
            },
            None => None,
        }
    }

    /// A mutable reference to the first queue, in storage order, whose URL
    /// is `url`.
    pub fn get_queue_by_url_mut(&mut self, url: &str) -> (r: Option<&mut SqsQueue>)
        requires
            old(self).wf(),
        ensures
            match r {
                Some(q) => exists|i: int|
                    0 <= i < old(self).queue_seq().len() && old(self).queue_seq()[i] == q@
                        && q@.url == url@ && q.wf()
                        && final(self).queues.keys_seq() == old(self).queues.keys_seq()
                        && #[trigger] final(self).queues.vals_seq() == old(self).queues.vals_seq().update(i, *final(q)),
                None => (forall|j: int|
                    0 <= j < old(self).queue_seq().len() ==> old(self).queue_seq()[j].url != url@)
                    && *final(self) == *old(self),
            },
    {
        match self.position_by_url(url) {
            Some(i) => {
                proof {
                    assert(self.queues.vals_seq()[i as int].wf());
                }
                Some(self.queues.value_at_index_mut(i))
            },
            None => None,
        }
    }

    /// The last `/`-separated segment of `url`, the name of the queue it
    /// addresses.
    pub fn queue_name_from_url(&self, url: &str) -> (r: Option<String>)
        ensures
            r matches Some(n) && n@ == last_segment(url@),
    {
        Some(last_segment_exec(url))
    }

    /// Deletes the queue named `name`; the result says whether it existed.
    pub fn delete_queue(&mut self, name: &str) -> (b: bool)
        requires
            old(self).wf(),
        ensures
            final(self).wf(),
            b == old(self).queues@.contains_key(name@),
            final(self).queues@ == old(self).queues@.remove(name@),
    {
        let ghost old_s = *self;
        proof {
            old_s.queues.lemma_enumeration();
        }
        match self.queues.find_pos(name) {
            Some(i) => {
                let _q = self.queues.remove_at_index(i);
                proof {
                    assert forall|j: int| 0 <= j < self.queues.vals_seq().len() implies (
                    #[trigger] self.queues.vals_seq()[j]).wf() by {
                        if j < i {
                            assert(old_s.queues.vals_seq()[j].wf());
                        } else {
                            assert(old_s.queues.vals_seq()[j + 1].wf());
                        }
                    }
                }
                true
            },
            None => {
                proof {
                    assert(old_s.queues@.remove(name@) =~= old_s.queues@);
                }
                false
            },
        }
    }

    /// The queues whose name starts with `prefix`, in storage order.
    pub fn list_queues(&self, prefix: &str) -> (r: Vec<&SqsQueue>)
        requires
            self.wf(),
        ensures
            r@.map_values(|q: &SqsQueue| q@) == with_name_prefix(self.queue_seq(), prefix@),
    {
        let p = chars_of(prefix);
        let n = self.queues.len();
        proof {
            self.queues.lemma_enumeration();
        }
        let mut r: Vec<&SqsQueue> = Vec::new();
        let mut i: usize = 0;
        proof {
            assert(self.queue_seq().take(0) =~= Seq::<SqsQueueView>::empty());
            assert(r@.map_values(|q: &SqsQueue| q@) =~= Seq::<SqsQueueView>::empty());
        }
        while i < n
            invariant
                self.wf(),
                n == self.queue_seq().len(),
                i <= n,
                p@ == prefix@,
                r@.map_values(|q: &SqsQueue| q@) == with_name_prefix(self.queue_seq().take(i as int), prefix@),
            decreases n - i,
        {
            let q = self.queues.value_at_index(i);
            let name = chars_of(q.name.as_str());
            proof {
                assert(self.queue_seq().take(i + 1).drop_last() =~= self.queue_seq().take(i as int));
                assert(self.queue_seq().take(i + 1).last() == q@);
            }
            if starts_with_chars(name.as_slice(), p.as_slice()) {
                let ghost before = r@;
                r.push(q);
                proof {
                    assert(r@.map_values(|q: &SqsQueue| q@) =~= before.map_values(|q: &SqsQueue| q@).push(q@));
                }
            }
            i = i + 1;
        }
        proof {
            assert(self.queue_seq().take(n as int) =~= self.queue_seq());
        }
        r
    }
}

} // verus!
