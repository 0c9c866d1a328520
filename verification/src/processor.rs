//! The payment worker's policy: how it retries a payment, what it does with
//! each queued message, and the queue it reads from.

use vstd::prelude::*;
use crate::delivery::{Delivery, DeliveryOutcome, DeliveryView};

verus! {

broadcast use vstd::string::group_string_axioms;

/// The worker's retry settings.
pub struct PaymentProcessor {
    /// The backoff rule: one delay per round, in milliseconds.
    pub backoff_ms: Vec<u64>,
    /// How long one request to a processor may take, in seconds.
    pub http_timeout_secs: u64,
}

impl PaymentProcessor {
    /// Three rounds, waiting 250 ms, 500 ms and 2 s before the fallback
    /// processor is tried; requests time out after ten seconds.
    pub fn new() -> (p: PaymentProcessor)
        ensures
            p.backoff_ms@ == seq![250u64, 500u64, 2000u64],
            p.http_timeout_secs == 10,
    {
        let mut backoff_ms: Vec<u64> = Vec::new();
        backoff_ms.push(250);
        backoff_ms.push(500);
        backoff_ms.push(2000);
        PaymentProcessor { backoff_ms, http_timeout_secs: 10 }
    }

    /// A fresh delivery of one payment under this backoff rule.
    pub fn delivery(&self) -> (d: Delivery)
        ensures
            d@ == DeliveryView::initial(self.backoff_ms@),
    {
        let backoff_ms = self.backoff_ms.clone();
        assert(backoff_ms@ =~= self.backoff_ms@);
        Delivery::new(backoff_ms)
    }
}

/// What becomes of a queued message once it has been handled.
#[derive(Clone, Copy, Debug, PartialEq, Eq, Structural)]
pub enum Disposition {
    /// The payload could not be read as a payment: it is dropped.
    Discard,
    /// The payment was processed and recorded.
    Complete,
    /// The payment could not be handled: it is published to the queue again.
    Requeue,
}

/// The fate of a message whose payload read as a payment (`Some`, with how
/// its delivery ended) or did not (`None`).
pub open spec fn disposition_of(outcome: Option<DeliveryOutcome>) -> Disposition {
    match outcome {
        None => Disposition::Discard,
        Some(DeliveryOutcome::Processed(_)) => Disposition::Complete,
        Some(_) => Disposition::Requeue,
    }
}

/// Decides the fate of a handled message.
pub fn message_disposition(outcome: Option<DeliveryOutcome>) -> (d: Disposition)
    ensures
        d == disposition_of(outcome),
{
    match outcome {
        None => Disposition::Discard,
        Some(o) => if o.is_processed() {
            Disposition::Complete
        } else {
            Disposition::Requeue
        },
    }
}

/// A payment message is published again exactly when it was read but not
/// processed and recorded; an unreadable message is never published again.
pub proof fn lemma_requeue_exactly_unfinished(outcome: Option<DeliveryOutcome>)
    ensures
        (disposition_of(outcome) == Disposition::Requeue) <==> (outcome is Some && !(
        outcome->Some_0 is Processed)),
        (disposition_of(outcome) == Disposition::Discard) <==> outcome is None,
{
}

/// How long the stream keeps a message.
#[derive(Clone, Copy, Debug, PartialEq, Eq, Structural)]
pub enum Retention {
    /// Up to the stream's limits.
    Limits,
    /// While some consumer that is interested in it has not acknowledged it.
    Interest,
    /// Until one consumer has acknowledged it.
    WorkQueue,
}

/// Which messages a consumer acknowledges.
#[derive(Clone, Copy, Debug, PartialEq, Eq, Structural)]
pub enum AckMode {
    /// Each message on its own.
    Explicit,
    /// None: a delivered message counts as acknowledged.
    Unacknowledged,
    /// A message and every one before it.
    Cumulative,
}

/// How fast stored messages are handed out.
#[derive(Clone, Copy, Debug, PartialEq, Eq, Structural)]
pub enum Replay {
    /// As fast as the consumer takes them.
    Instant,
    /// At the pace they were published at.
    Original,
}

/// The durable queue payments wait in.
pub struct QueueSettings {
    /// Name of the stream that keeps the messages.
    pub stream: String,
    /// The subject payments are published on.
    pub subject: String,
    /// Name of the worker's durable consumer.
    pub consumer: String,
    /// How often a message is handed out before it is given up.
    pub max_deliver: i64,
    pub retention: Retention,
    pub ack: AckMode,
    pub replay: Replay,
}

/// The queue: stream `payments` on subject `payments`, read by the durable
/// consumer `payment-processor`, each message handed out at most three times.
/// The stream keeps a message while an interested consumer has not
/// acknowledged it; the consumer acknowledges each message on its own and
/// takes stored messages as fast as it can.
pub fn queue_settings() -> (q: QueueSettings)
    ensures
        q.stream@ == "payments"@,
        q.subject@ == "payments"@,
        q.consumer@ == "payment-processor"@,
        q.max_deliver == 3,
        q.retention == Retention::Interest,
        q.ack == AckMode::Explicit,
        q.replay == Replay::Instant,
{
    QueueSettings {
        stream: String::from_str("payments"),
        subject: String::from_str("payments"),
        consumer: String::from_str("payment-processor"),
        max_deliver: 3,
        retention: Retention::Interest,
        ack: AckMode::Explicit,
        replay: Replay::Instant,
    }
}

} // verus!
