//! Chats: a per-pair conversation interleaving free-text messages, applied
//! transfers and payment requests, with a `last_activity` recency key.

use vstd::prelude::*;
use crate::textseq::{contains_str, deep_strs, dup_opt_string, dup_strings, opt_str_view};

verus! {

pub type ChatId = String;

/// A free-text message.
pub struct Message {
    pub sender_id: String,
    pub content: String,
    pub timestamp: u64,
    pub read_by: Vec<String>,
}

pub struct MessageV {
    pub sender_id: Seq<char>,
    pub content: Seq<char>,
    pub timestamp: u64,
    pub read_by: Seq<Seq<char>>,
}

impl View for Message {
    type V = MessageV;

    open spec fn view(&self) -> MessageV {
        MessageV {
            sender_id: self.sender_id@,
            content: self.content@,
            timestamp: self.timestamp,
            read_by: deep_strs(self.read_by@),
        }
    }
}

/// A transfer mirrored into the conversation.
pub struct Transaction {
    pub sender_id: String,
    pub timestamp: u64,
    pub note: Option<String>,
    pub amount: u64,
    pub tx_id: u64,
    pub read_by: Vec<String>,
}

pub struct TransactionV {
    pub sender_id: Seq<char>,
    pub timestamp: u64,
    pub note: Option<Seq<char>>,
    pub amount: u64,
    pub tx_id: u64,
    pub read_by: Seq<Seq<char>>,
}

impl View for Transaction {
    type V = TransactionV;

    open spec fn view(&self) -> TransactionV {
        TransactionV {
            sender_id: self.sender_id@,
            timestamp: self.timestamp,
            note: opt_str_view(self.note),
            amount: self.amount,
            tx_id: self.tx_id,
            read_by: deep_strs(self.read_by@),
        }
    }
}

/// A payment request embedded in the conversation.  `sender_id` is the
/// requesting party; `payment_at` and `tx_id` are set once, on fulfillment.
pub struct RequestPayment {
    pub sender_id: String,
    pub requested_at: u64,
    pub amount: u64,
    pub payment_at: Option<u64>,
    pub tx_id: Option<u64>,
    pub expires_at: u64,
    pub note: Option<String>,
    pub read_by: Vec<String>,
}

pub struct RequestPaymentV {
    pub sender_id: Seq<char>,
    pub requested_at: u64,
    pub amount: u64,
    pub payment_at: Option<u64>,
    pub tx_id: Option<u64>,
    pub expires_at: u64,
    pub note: Option<Seq<char>>,
    pub read_by: Seq<Seq<char>>,
}

impl View for RequestPayment {
    type V = RequestPaymentV;

    open spec fn view(&self) -> RequestPaymentV {
        RequestPaymentV {
            sender_id: self.sender_id@,
            requested_at: self.requested_at,
            amount: self.amount,
            payment_at: self.payment_at,
            tx_id: self.tx_id,
            expires_at: self.expires_at,
            note: opt_str_view(self.note),
            read_by: deep_strs(self.read_by@),
        }
    }
}

/// One timeline event.
pub enum MessageOrTransaction {
    Message(Message),
    Transaction(Transaction),
    RequestPayment(RequestPayment),
}

pub enum MessageOrTransactionV {
    Message(MessageV),
    Transaction(TransactionV),
    RequestPayment(RequestPaymentV),
}

impl View for MessageOrTransaction {
    type V = MessageOrTransactionV;

    open spec fn view(&self) -> MessageOrTransactionV {
        match self {
            MessageOrTransaction::Message(m) => MessageOrTransactionV::Message(m@),
            MessageOrTransaction::Transaction(t) => MessageOrTransactionV::Transaction(t@),
            MessageOrTransaction::RequestPayment(r) => MessageOrTransactionV::RequestPayment(r@),
        }
    }
}

impl MessageOrTransaction {
    /// An owned copy of this event.
    pub fn duplicate(&self) -> (r: MessageOrTransaction)
        ensures
            r@ == self@,
    {
        match self {
            MessageOrTransaction::Message(m) => MessageOrTransaction::Message(
                Message {
                    sender_id: m.sender_id.clone(),
                    content: m.content.clone(),
                    timestamp: m.timestamp,
                    read_by: dup_strings(&m.read_by),
                },
            ),
            MessageOrTransaction::Transaction(t) => MessageOrTransaction::Transaction(
                Transaction {
                    sender_id: t.sender_id.clone(),
                    timestamp: t.timestamp,
                    note: dup_opt_string(&t.note),
                    amount: t.amount,
                    tx_id: t.tx_id,
                    read_by: dup_strings(&t.read_by),
                },
            ),
            MessageOrTransaction::RequestPayment(q) => MessageOrTransaction::RequestPayment(
                RequestPayment {
                    sender_id: q.sender_id.clone(),
                    requested_at: q.requested_at,
                    amount: q.amount,
                    payment_at: q.payment_at,
                    tx_id: q.tx_id,
                    expires_at: q.expires_at,
                    note: dup_opt_string(&q.note),
                    read_by: dup_strings(&q.read_by),
                },
            ),
        }
    }
}

/// The abstract values of a timeline.
pub open spec fn events_view(s: Seq<MessageOrTransaction>) -> Seq<MessageOrTransactionV> {
    Seq::new(s.len(), |i: int| s[i]@)
}

/// A conversation between two participants.
pub struct Chat {
    pub id: ChatId,
    pub participants: Vec<String>,
    pub messages: Vec<MessageOrTransaction>,
    pub last_activity: u64,
}

pub struct ChatV {
    pub id: Seq<char>,
    pub participants: Seq<Seq<char>>,
    pub messages: Seq<MessageOrTransactionV>,
    pub last_activity: u64,
}

impl View for Chat {
    type V = ChatV;

    open spec fn view(&self) -> ChatV {
        ChatV {
            id: self.id@,
            participants: deep_strs(self.participants@),
            messages: events_view(self.messages@),
            last_activity: self.last_activity,
        }
    }
}

impl Chat {
    /// Whether `pay_id` is one of the participants.
    pub fn is_participant(&self, pay_id: &String) -> (r: bool)
        ensures
            r == self@.participants.contains(pay_id@),
    {
        contains_str(&self.participants, pay_id)
    }

    /// An owned copy of this chat.
    pub fn duplicate(&self) -> (r: Chat)
        ensures
            r@ == self@,
    {
        let n = self.messages.len();
        let mut msgs: Vec<MessageOrTransaction> = Vec::new();
        let mut i: usize = 0;
        while i < n
            invariant
                i <= n,
                n == self.messages@.len(),
                msgs@.len() == i,
                forall|j: int| 0 <= j < i ==> msgs@[j]@ == self.messages@[j]@,
            decreases n - i,
        {
            msgs.push(self.messages[i].duplicate());
            i = i + 1;
        }
        let r = Chat {
            id: self.id.clone(),
            participants: dup_strings(&self.participants),
            messages: msgs,
            last_activity: self.last_activity,
        };
        proof {
            assert(events_view(r.messages@) =~= events_view(self.messages@));
        }
        r
    }
}

/// The chat a first qualifying event creates for a pair of aliases.
pub open spec fn fresh_chat_v(id: Seq<char>, a: Seq<char>, b: Seq<char>, now: u64) -> ChatV {
    ChatV { id, participants: seq![a, b], messages: Seq::empty(), last_activity: now }
}

/// The read-set of an event.
pub open spec fn event_read_by(e: MessageOrTransactionV) -> Seq<Seq<char>> {
    match e {
        MessageOrTransactionV::Message(m) => m.read_by,
        MessageOrTransactionV::Transaction(t) => t.read_by,
        MessageOrTransactionV::RequestPayment(q) => q.read_by,
    }
}

/// The same event with its read-set replaced.
pub open spec fn event_with_read_by(
    e: MessageOrTransactionV,
    rb: Seq<Seq<char>>,
) -> MessageOrTransactionV {
    match e {
        MessageOrTransactionV::Message(m) => MessageOrTransactionV::Message(
            MessageV { read_by: rb, ..m },
        ),
        MessageOrTransactionV::Transaction(t) => MessageOrTransactionV::Transaction(
            TransactionV { read_by: rb, ..t },
        ),
        MessageOrTransactionV::RequestPayment(q) => MessageOrTransactionV::RequestPayment(
            RequestPaymentV { read_by: rb, ..q },
        ),
    }
}

/// Marks events read by `alias` from the newest backwards, stopping at the
/// first event `alias` has already read.
pub open spec fn mark_read_spec(
    msgs: Seq<MessageOrTransactionV>,
    alias: Seq<char>,
) -> Seq<MessageOrTransactionV>
    decreases msgs.len(),
{
    if msgs.len() == 0 {
        msgs
    } else {
        let last = msgs.last();
        if event_read_by(last).contains(alias) {
            msgs
        } else {
            mark_read_spec(msgs.drop_last(), alias).push(
                event_with_read_by(last, event_read_by(last).push(alias)),
            )
        }
    }
}

/// Whether `alias` has read `e`.
pub fn event_is_read_by(e: &MessageOrTransaction, alias: &String) -> (r: bool)
    ensures
        r == event_read_by(e@).contains(alias@),
{
    match e {
        MessageOrTransaction::Message(m) => contains_str(&m.read_by, alias),
        MessageOrTransaction::Transaction(t) => contains_str(&t.read_by, alias),
        MessageOrTransaction::RequestPayment(q) => contains_str(&q.read_by, alias),
    }
}

impl Chat {
    /// Marks this chat's events as read by `alias`, newest backwards, up to
    /// the first event `alias` has already read.
    pub fn mark_read(&mut self, alias: &String)
        ensures
            final(self).id == old(self).id,
            final(self).participants == old(self).participants,
            final(self).last_activity == old(self).last_activity,
            events_view(final(self).messages@) == mark_read_spec(
                events_view(old(self).messages@),
                alias@,
            ),
    {
        let ghost orig = events_view(old(self).messages@);
        let mut i: usize = self.messages.len();
        proof {
            assert(events_view(self.messages@).skip(i as int) =~= Seq::empty());
            assert(orig.take(i as int) =~= orig);
        }
        loop
            invariant
                orig == events_view(old(self).messages@),
                i <= orig.len(),
                self.messages@.len() == orig.len(),
                self.id == old(self).id,
                self.participants == old(self).participants,
                self.last_activity == old(self).last_activity,
                forall|j: int| 0 <= j < i ==> events_view(self.messages@)[j] == orig[j],
                mark_read_spec(orig, alias@) == mark_read_spec(orig.take(i as int), alias@)
                    + events_view(self.messages@).skip(i as int),
            decreases i,
        {
            let ghost cur = events_view(self.messages@);
            if i == 0 {
                proof {
                    assert(mark_read_spec(orig.take(0), alias@) =~= Seq::empty());
                    assert(cur.skip(0) =~= cur);
                    assert(mark_read_spec(orig, alias@) =~= cur);
                }
                return ;
            }
            let mut e = self.messages.remove(i - 1);
            proof {
                assert(orig.take(i as int).last() == orig[i - 1]);
                assert(orig.take(i as int).drop_last() =~= orig.take(i - 1));
            }
            if event_is_read_by(&e, alias) {
                self.messages.insert(i - 1, e);
                proof {
                    assert(events_view(self.messages@) =~= cur);
                    assert(mark_read_spec(orig.take(i as int), alias@) == orig.take(i as int));
                    assert(mark_read_spec(orig, alias@) =~= cur);
                }
                return ;
            }
            let ghost e0 = e@;
            match &mut e {
                MessageOrTransaction::Message(m) => m.read_by.push(alias.clone()),
                MessageOrTransaction::Transaction(t) => t.read_by.push(alias.clone()),
                MessageOrTransaction::RequestPayment(q) => q.read_by.push(alias.clone()),
            }
            proof {
                match &e {
                    MessageOrTransaction::Message(m) => {
                        assert(deep_strs(m.read_by@) =~= event_read_by(e0).push(alias@));
                    },
                    MessageOrTransaction::Transaction(t) => {
                        assert(deep_strs(t.read_by@) =~= event_read_by(e0).push(alias@));
                    },
                    MessageOrTransaction::RequestPayment(q) => {
                        assert(deep_strs(q.read_by@) =~= event_read_by(e0).push(alias@));
                    },
                }
                assert(e@ == event_with_read_by(e0, event_read_by(e0).push(alias@)));
            }
            self.messages.insert(i - 1, e);
            proof {
                let cur2 = events_view(self.messages@);
                assert(cur2 =~= cur.update(i - 1, e@));
                assert(cur2.skip(i - 1) =~= seq![e@] + cur.skip(i as int));
                assert(mark_read_spec(orig.take(i as int), alias@) == mark_read_spec(
                    orig.take(i - 1),
                    alias@,
                ).push(event_with_read_by(e0, event_read_by(e0).push(alias@))));
                assert(mark_read_spec(orig.take(i as int), alias@) + cur.skip(i as int)
                    =~= mark_read_spec(orig.take(i - 1), alias@) + cur2.skip(i - 1));
            }
            i = i - 1;
        }
    }
}

/// The largest request timestamp for which the expiry computation fits in 64
/// bits.
pub const MAX_REQUEST_TIMESTAMP: u64 = 18_446_657_673_000_000_000;

/// Nanoseconds per second.
pub const NANOS_PER_SEC: u64 = 1_000_000_000;

/// The grace window past a request's nominal expiry within which fulfillment
/// is still accepted: 30 minutes, in nanoseconds.
pub const REQUEST_GRACE_NANOS: u64 = 1_800_000_000_000;

/// Seconds per day.
pub const SECS_PER_DAY: u64 = 86_400;

/// The nominal expiry of a request made at `t` nanoseconds: `t` in whole
/// seconds, truncated to the minute, plus 24 hours, back in nanoseconds.
pub open spec fn expiry_spec(t: u64) -> int {
    ((t / 1_000_000_000u64) - (t / 1_000_000_000u64) % 60u64 + 86_400) * 1_000_000_000
}

/// Computes the 24-hour expiry of a payment request made at `nanosec_time`.
pub fn get_24h_expiry(nanosec_time: u64) -> (r: u64)
    requires
        nanosec_time <= MAX_REQUEST_TIMESTAMP,
    ensures
        r == expiry_spec(nanosec_time),
{
    let in_sec = nanosec_time / NANOS_PER_SEC;
    let seconds_in_time = in_sec % 60;
    let next_24h = in_sec - seconds_in_time + SECS_PER_DAY;
    proof {
        assert(in_sec <= MAX_REQUEST_TIMESTAMP / NANOS_PER_SEC);
        assert(next_24h * NANOS_PER_SEC <= u64::MAX) by (nonlinear_arith)
            requires
                next_24h <= 18_446_657_673u64 + 86_400,
        ;
    }
    next_24h * NANOS_PER_SEC
}

} // verus!
