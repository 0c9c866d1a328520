//! The retry policy that carries one payment to a payment processor.
//!
//! A delivery works through the backoff rule round by round. Each round first
//! offers the payment to the default processor; if that fails it waits for the
//! round's backoff delay and offers the payment to the fallback processor. The
//! first processor that accepts the payment is recorded with it, and the
//! delivery ends; a failed record is not retried. When every round has failed
//! on both processors the delivery ends exhausted.
//!
//! The sending, waiting and recording are done by the caller: `Delivery` only
//! says what to do next (`Action`) and learns how it went (`Event`).

use vstd::prelude::*;
use crate::gateway::Gateway;

verus! {

/// How a delivery ended.
#[derive(Clone, Copy, Debug, PartialEq, Eq, Structural)]
pub enum DeliveryOutcome {
    /// The gateway accepted the payment and it was recorded.
    Processed(Gateway),
    /// The gateway accepted the payment but recording it failed.
    NotRecorded(Gateway),
    /// No gateway accepted the payment in any round.
    Exhausted,
}

impl DeliveryOutcome {
    /// Whether the payment was handled completely.
    pub fn is_processed(&self) -> (ok: bool)
        ensures
            ok == (*self is Processed),
    {
        match self {
            DeliveryOutcome::Processed(_) => true,
            _ => false,
        }
    }
}

/// Where a delivery stands.
#[derive(Clone, Copy, Debug, PartialEq, Eq, Structural)]
pub enum Phase {
    /// Waiting for the answer of the default processor in the current round.
    AwaitDefault,
    /// Waiting for the current round's backoff delay to elapse.
    Backoff,
    /// Waiting for the answer of the fallback processor in the current round.
    AwaitFallback,
    /// Waiting for the record of a payment the given gateway accepted.
    Recording(Gateway),
    /// The delivery has ended.
    Finished(DeliveryOutcome),
}

/// What the caller is to do next.
#[derive(Clone, Copy, Debug, PartialEq, Eq, Structural)]
pub enum Action {
    /// Offer the payment to this gateway's processor.
    Send(Gateway),
    /// Wait this many milliseconds.
    Sleep(u64),
    /// Record the payment as handled by this gateway.
    Record(Gateway),
    /// Stop: the delivery has ended so.
    Finish(DeliveryOutcome),
}

/// What the caller reports back.
#[derive(Clone, Copy, Debug, PartialEq, Eq, Structural)]
pub enum Event {
    SendSucceeded,
    SendFailed,
    SleepElapsed,
    RecordSucceeded,
    RecordFailed,
}

/// The mathematical state of a delivery.
pub struct DeliveryView {
    /// Backoff delay of each round, in milliseconds.
    pub backoff_ms: Seq<u64>,
    /// The current round.
    pub round: nat,
    pub phase: Phase,
}

impl DeliveryView {
    /// The state a delivery starts in.
    pub open spec fn initial(backoff_ms: Seq<u64>) -> DeliveryView {
        if backoff_ms.len() == 0 {
            DeliveryView { backoff_ms, round: 0, phase: Phase::Finished(DeliveryOutcome::Exhausted) }
        } else {
            DeliveryView { backoff_ms, round: 0, phase: Phase::AwaitDefault }
        }
    }

    /// A delivery that has not ended stands in one of its rounds.
    pub open spec fn well_formed(self) -> bool {
        !(self.phase is Finished) ==> self.round < self.backoff_ms.len()
    }

    /// The action the delivery is waiting on.
    pub open spec fn pending(self) -> Action {
        match self.phase {
            Phase::AwaitDefault => Action::Send(Gateway::Default),
            Phase::Backoff => Action::Sleep(self.backoff_ms[self.round as int]),
            Phase::AwaitFallback => Action::Send(Gateway::Fallback),
            Phase::Recording(g) => Action::Record(g),
            Phase::Finished(o) => Action::Finish(o),
        }
    }

    /// Whether `e` reports on the pending action.
    pub open spec fn accepts(self, e: Event) -> bool {
        match self.phase {
            Phase::AwaitDefault | Phase::AwaitFallback => e is SendSucceeded || e is SendFailed,
            Phase::Backoff => e is SleepElapsed,
            Phase::Recording(_) => e is RecordSucceeded || e is RecordFailed,
            Phase::Finished(_) => false,
        }
    }

    /// The state after `e` is reported; an event that does not report on the
    /// pending action changes nothing.
    pub open spec fn next(self, e: Event) -> DeliveryView {
        match (self.phase, e) {
            (Phase::AwaitDefault, Event::SendSucceeded) =>
                DeliveryView { phase: Phase::Recording(Gateway::Default), ..self },
            (Phase::AwaitDefault, Event::SendFailed) => DeliveryView { phase: Phase::Backoff, ..self },
            (Phase::Backoff, Event::SleepElapsed) => DeliveryView { phase: Phase::AwaitFallback, ..self },
            (Phase::AwaitFallback, Event::SendSucceeded) =>
                DeliveryView { phase: Phase::Recording(Gateway::Fallback), ..self },
            (Phase::AwaitFallback, Event::SendFailed) => if self.round + 1 < self.backoff_ms.len() {
                DeliveryView { round: self.round + 1, phase: Phase::AwaitDefault, ..self }
            } else {
                DeliveryView { phase: Phase::Finished(DeliveryOutcome::Exhausted), ..self }
            },
            (Phase::Recording(g), Event::RecordSucceeded) =>
                DeliveryView { phase: Phase::Finished(DeliveryOutcome::Processed(g)), ..self },
            (Phase::Recording(g), Event::RecordFailed) =>
                DeliveryView { phase: Phase::Finished(DeliveryOutcome::NotRecorded(g)), ..self },
            _ => self,
        }
    }
}

/// One payment's way through the retry policy.
pub struct Delivery {
    backoff_ms: Vec<u64>,
    round: usize,
    phase: Phase,
}

impl View for Delivery {
    type V = DeliveryView;

    closed spec fn view(&self) -> DeliveryView {
        DeliveryView { backoff_ms: self.backoff_ms@, round: self.round as nat, phase: self.phase }
    }
}

impl Delivery {
    #[verifier::type_invariant]
    spec fn inv(self) -> bool {
        !(self.phase is Finished) ==> self.round < self.backoff_ms.len()
    }

    /// Starts a delivery under the given backoff rule (one delay, in
    /// milliseconds, per round).
    pub fn new(backoff_ms: Vec<u64>) -> (d: Delivery)
        ensures
            d@ == DeliveryView::initial(backoff_ms@),
    {
        if backoff_ms.len() == 0 {
            Delivery { backoff_ms, round: 0, phase: Phase::Finished(DeliveryOutcome::Exhausted) }
        } else {
            Delivery { backoff_ms, round: 0, phase: Phase::AwaitDefault }
        }
    }

    /// The action the delivery is waiting on.
    pub fn pending_action(&self) -> (a: Action)
        ensures
            a == self@.pending(),
    {
        proof {
            use_type_invariant(self);
        }
        match self.phase {
            Phase::AwaitDefault => Action::Send(Gateway::Default),
            Phase::Backoff => Action::Sleep(self.backoff_ms[self.round]),
            Phase::AwaitFallback => Action::Send(Gateway::Fallback),
            Phase::Recording(g) => Action::Record(g),
            Phase::Finished(o) => Action::Finish(o),
        }
    }

    /// How the delivery ended, once it has.
    pub fn outcome(&self) -> (o: Option<DeliveryOutcome>)
        ensures
            o == (match self@.phase {
                Phase::Finished(out) => Some(out),
                _ => None,
            }),
    {
        match self.phase {
            Phase::Finished(out) => Some(out),
            _ => None,
        }
    }

    /// Reports how the pending action went, and returns the next action.
    pub fn step(&mut self, event: Event) -> (a: Action)
        ensures
            final(self)@ == old(self)@.next(event),
            a == final(self)@.pending(),
    {
        proof {
            use_type_invariant(&*self);
        }
        match (self.phase, event) {
            (Phase::AwaitDefault, Event::SendSucceeded) => {
                self.phase = Phase::Recording(Gateway::Default);
            },
            (Phase::AwaitDefault, Event::SendFailed) => {
                self.phase = Phase::Backoff;
            },
            (Phase::Backoff, Event::SleepElapsed) => {
                self.phase = Phase::AwaitFallback;
            },
            (Phase::AwaitFallback, Event::SendSucceeded) => {
                self.phase = Phase::Recording(Gateway::Fallback);
            },
            (Phase::AwaitFallback, Event::SendFailed) => {
                if self.round + 1 < self.backoff_ms.len() {
                    self.round = self.round + 1;
                    self.phase = Phase::AwaitDefault;
                } else {
                    self.phase = Phase::Finished(DeliveryOutcome::Exhausted);
                }
            },
            (Phase::Recording(g), Event::RecordSucceeded) => {
                self.phase = Phase::Finished(DeliveryOutcome::Processed(g));
            },
            (Phase::Recording(g), Event::RecordFailed) => {
                self.phase = Phase::Finished(DeliveryOutcome::NotRecorded(g));
            },
            _ => {},
        }
        self.pending_action()
    }
}

/// The most reports a delivery can still take before it ends.
pub open spec fn events_left(v: DeliveryView) -> nat {
    let rounds_left: int = v.backoff_ms.len() - v.round;
    match v.phase {
        Phase::AwaitDefault => (3 * rounds_left + 1) as nat,
        Phase::Backoff => (3 * rounds_left) as nat,
        Phase::AwaitFallback => (3 * rounds_left - 1) as nat,
        Phase::Recording(_) => 1,
        Phase::Finished(_) => 0,
    }
}

/// Counting offers from zero, the offer the delivery is at: two per round,
/// the default processor's first.
pub open spec fn attempt_index(v: DeliveryView) -> int {
    2 * v.round + if v.phase is AwaitFallback { 1int } else { 0int }
}

/// The processor that receives offer number `k`.
pub open spec fn attempt_gateway(k: int) -> Gateway {
    if k % 2 == 0 {
        Gateway::Default
    } else {
        Gateway::Fallback
    }
}

/// The first offer in `from..to` that `accepted` says a processor takes.
pub open spec fn first_accepted(accepted: Seq<bool>, from: int, to: int) -> Option<int>
    decreases to - from,
{
    if from >= to {
        None
    } else if accepted[from] {
        Some(from)
    } else {
        first_accepted(accepted, from + 1, to)
    }
}

/// The outcome of the retry policy over `rounds` rounds when offer `k` is
/// taken exactly if `accepted[k]`, and a record succeeds exactly if
/// `record_ok`: the first taken offer decides the gateway, and the record
/// decides whether the payment counts as processed.
pub open spec fn policy_outcome(rounds: nat, accepted: Seq<bool>, record_ok: bool) -> DeliveryOutcome {
    match first_accepted(accepted, 0, 2 * rounds as int) {
        Some(k) => if record_ok {
            DeliveryOutcome::Processed(attempt_gateway(k))
        } else {
            DeliveryOutcome::NotRecorded(attempt_gateway(k))
        },
        None => DeliveryOutcome::Exhausted,
    }
}

/// The report that the surroundings described by `accepted` and `record_ok`
/// give on the pending action.
pub open spec fn report(v: DeliveryView, accepted: Seq<bool>, record_ok: bool) -> Event {
    match v.pending() {
        Action::Send(_) => if accepted[attempt_index(v)] {
            Event::SendSucceeded
        } else {
            Event::SendFailed
        },
        Action::Sleep(_) => Event::SleepElapsed,
        Action::Record(_) => if record_ok {
            Event::RecordSucceeded
        } else {
            Event::RecordFailed
        },
        Action::Finish(_) => Event::SleepElapsed,
    }
}

/// The state after `steps` rounds of performing the pending action in the
/// surroundings described by `accepted` and `record_ok`, and reporting back.
pub open spec fn run(v: DeliveryView, accepted: Seq<bool>, record_ok: bool, steps: nat) -> DeliveryView
    decreases steps,
{
    if steps == 0 {
        v
    } else {
        run(v.next(report(v, accepted, record_ok)), accepted, record_ok, (steps - 1) as nat)
    }
}

/// Every step keeps a delivery inside its rounds.
pub proof fn lemma_step_keeps_well_formed(v: DeliveryView, e: Event)
    requires
        v.well_formed(),
    ensures
        v.next(e).well_formed(),
{
}

/// A delivery starts well formed, and with at most three reports per round
/// and one more ahead of it.
pub proof fn lemma_initial(backoff_ms: Seq<u64>)
    ensures
        DeliveryView::initial(backoff_ms).well_formed(),
        events_left(DeliveryView::initial(backoff_ms)) <= 3 * backoff_ms.len() + 1,
        backoff_ms.len() == 0 <==> DeliveryView::initial(backoff_ms).phase
            == Phase::Finished(DeliveryOutcome::Exhausted),
{
}

/// A report on the pending action always brings a delivery closer to its end;
/// any other report leaves it as it is.
pub proof fn lemma_progress(v: DeliveryView, e: Event)
    requires
        v.well_formed(),
    ensures
        v.accepts(e) ==> events_left(v.next(e)) < events_left(v),
        !v.accepts(e) ==> v.next(e) == v,
{
}

/// Once a delivery has ended it stays ended, announcing its outcome.
pub proof fn lemma_finished_is_final(v: DeliveryView, e: Event)
    requires
        v.phase is Finished,
    ensures
        v.next(e) == v,
        v.pending() == Action::Finish(v.phase->Finished_0),
{
}

/// Offers go out two per round, the default processor first, and never more
/// than two per round of the backoff rule.
pub proof fn lemma_offer_targets(v: DeliveryView)
    requires
        v.well_formed(),
        v.pending() is Send,
    ensures
        v.pending() == Action::Send(attempt_gateway(attempt_index(v))),
        0 <= attempt_index(v) < 2 * v.backoff_ms.len(),
{
}

/// A new offer is made only after the previous one failed (and, for the
/// fallback processor, after the round's backoff delay), and it is the next
/// one in order.
pub proof fn lemma_offers_in_order(v: DeliveryView, e: Event)
    requires
        v.well_formed(),
        v.accepts(e),
        v.next(e).pending() is Send,
    ensures
        attempt_index(v.next(e)) == attempt_index(v) + 1,
        v.next(e).pending() == Action::Send(Gateway::Fallback) ==> v.phase is Backoff && e
            is SleepElapsed,
        v.next(e).pending() == Action::Send(Gateway::Default) ==> v.phase is AwaitFallback && e
            is SendFailed && v.next(e).round == v.round + 1,
{
}

/// A payment is recorded only under the gateway that has just taken it.
pub proof fn lemma_record_after_acceptance(v: DeliveryView, e: Event, g: Gateway)
    requires
        v.accepts(e),
        v.next(e).pending() == Action::Record(g),
    ensures
        v.pending() == Action::Send(g),
        e is SendSucceeded,
{
}

/// The wait in each round lasts that round's backoff delay.
pub proof fn lemma_backoff_delay(v: DeliveryView, e: Event)
    requires
        v.well_formed(),
        v.accepts(e),
        v.next(e).pending() is Sleep,
    ensures
        v.phase is AwaitDefault && e is SendFailed,
        v.next(e).pending() == Action::Sleep(v.backoff_ms[v.round as int]),
{
}

/// A delivery ends exhausted only when both processors failed in the last
/// round (or the backoff rule has no rounds at all).
pub proof fn lemma_exhausted_after_last_round(v: DeliveryView, e: Event)
    requires
        v.well_formed(),
        v.accepts(e),
        v.next(e).phase == Phase::Finished(DeliveryOutcome::Exhausted),
    ensures
        v.phase is AwaitFallback,
        e is SendFailed,
        v.round + 1 == v.backoff_ms.len(),
{
}

proof fn lemma_run_finished(v: DeliveryView, accepted: Seq<bool>, record_ok: bool, steps: nat)
    requires
        v.phase is Finished,
    ensures
        run(v, accepted, record_ok, steps) == v,
    decreases steps,
{
    if steps > 0 {
        lemma_run_finished(v.next(report(v, accepted, record_ok)), accepted, record_ok, (steps - 1) as nat);
    }
}

proof fn lemma_run_from_round(v: DeliveryView, accepted: Seq<bool>, record_ok: bool, steps: nat)
    requires
        v.phase is AwaitDefault,
        v.round < v.backoff_ms.len(),
        accepted.len() >= 2 * v.backoff_ms.len(),
        steps >= 3 * (v.backoff_ms.len() - v.round) + 1,
    ensures
        run(v, accepted, record_ok, steps).phase == Phase::Finished(
            match first_accepted(accepted, 2 * v.round as int, 2 * v.backoff_ms.len() as int) {
                Some(k) => if record_ok {
                    DeliveryOutcome::Processed(attempt_gateway(k))
                } else {
                    DeliveryOutcome::NotRecorded(attempt_gateway(k))
                },
                None => DeliveryOutcome::Exhausted,
            },
        ),
    decreases v.backoff_ms.len() - v.round,
{
    let n: int = v.backoff_ms.len() as int;
    let r: int = v.round as int;
    let v1 = v.next(report(v, accepted, record_ok));
    assert(run(v, accepted, record_ok, steps) == run(v1, accepted, record_ok, (steps - 1) as nat));
    assert(attempt_index(v) == 2 * r);
    assert(first_accepted(accepted, 2 * r, 2 * n) == if accepted[2 * r] {
        Some(2 * r)
    } else {
        first_accepted(accepted, 2 * r + 1, 2 * n)
    });
    assert((2 * r) % 2 == 0);
    if accepted[2 * r] {
        let v2 = v1.next(report(v1, accepted, record_ok));
        assert(run(v1, accepted, record_ok, (steps - 1) as nat) == run(v2, accepted, record_ok, (steps - 2) as nat));
        lemma_run_finished(v2, accepted, record_ok, (steps - 2) as nat);
    } else {
        let v2 = v1.next(report(v1, accepted, record_ok));
        let v3 = v2.next(report(v2, accepted, record_ok));
        assert(run(v1, accepted, record_ok, (steps - 1) as nat) == run(v2, accepted, record_ok, (steps - 2) as nat));
        assert(run(v2, accepted, record_ok, (steps - 2) as nat) == run(v3, accepted, record_ok, (steps - 3) as nat));
        assert(attempt_index(v2) == 2 * r + 1);
        assert((2 * r + 1) % 2 == 1);
        assert(first_accepted(accepted, 2 * r + 1, 2 * n) == if accepted[2 * r + 1] {
            Some(2 * r + 1)
        } else {
            first_accepted(accepted, 2 * r + 2, 2 * n)
        });
        if accepted[2 * r + 1] {
            let v4 = v3.next(report(v3, accepted, record_ok));
            assert(run(v3, accepted, record_ok, (steps - 3) as nat) == run(v4, accepted, record_ok, (steps - 4) as nat));
            lemma_run_finished(v4, accepted, record_ok, (steps - 4) as nat);
        } else if r + 1 < n {
            lemma_run_from_round(v3, accepted, record_ok, (steps - 3) as nat);
        } else {
            assert(first_accepted(accepted, 2 * r + 2, 2 * n) == None::<int>);
            lemma_run_finished(v3, accepted, record_ok, (steps - 3) as nat);
        }
    }
}

/// The retry policy: driven by surroundings in which offer `k` is taken
/// exactly if `accepted[k]` and a record succeeds exactly if `record_ok`, a
/// delivery ends, within three reports per round and one more, with the
/// outcome the policy prescribes: the first processor to take the payment,
/// recorded or not; exhausted when no offer in any round was taken.
pub proof fn lemma_delivery_follows_policy(
    backoff_ms: Seq<u64>,
    accepted: Seq<bool>,
    record_ok: bool,
    steps: nat,
)
    requires
        accepted.len() >= 2 * backoff_ms.len(),
        steps >= 3 * backoff_ms.len() + 1,
    ensures
        run(DeliveryView::initial(backoff_ms), accepted, record_ok, steps).phase == Phase::Finished(
            policy_outcome(backoff_ms.len(), accepted, record_ok),
        ),
{
    let v = DeliveryView::initial(backoff_ms);
    if backoff_ms.len() == 0 {
        lemma_run_finished(v, accepted, record_ok, steps);
    } else {
        lemma_run_from_round(v, accepted, record_ok, steps);
    }
}

} // verus!
