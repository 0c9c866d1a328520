use rinha_rust_warp::delivery::{Action, Delivery, DeliveryOutcome, Event};
use rinha_rust_warp::gateway::Gateway;
use rinha_rust_warp::processor::PaymentProcessor;

/// Runs a delivery against processors that take offer `k` exactly when
/// `accepted[k]`, and a store whose records succeed exactly when `record_ok`;
/// returns the actions in the order they were issued.
fn drive(backoff: Vec<u64>, accepted: &[bool], record_ok: bool) -> Vec<Action> {
    let mut delivery = Delivery::new(backoff);
    let mut action = delivery.pending_action();
    let mut actions = vec![action];
    let mut offer = 0;
    loop {
        let event = match action {
            Action::Send(_) => {
                let ok = accepted[offer];
                offer += 1;
                if ok { Event::SendSucceeded } else { Event::SendFailed }
            }
            Action::Sleep(_) => Event::SleepElapsed,
            Action::Record(_) => {
                if record_ok { Event::RecordSucceeded } else { Event::RecordFailed }
            }
            Action::Finish(_) => break,
        };
        action = delivery.step(event);
        actions.push(action);
    }
    actions
}

#[test]
fn default_gateway_takes_payment_first_time() {
    let actions = drive(vec![250, 500, 2000], &[true], true);
    assert_eq!(
        actions,
        vec![
            Action::Send(Gateway::Default),
            Action::Record(Gateway::Default),
            Action::Finish(DeliveryOutcome::Processed(Gateway::Default)),
        ]
    );
}

#[test]
fn fallback_is_tried_after_the_round_backoff() {
    let actions = drive(vec![250, 500, 2000], &[false, true], true);
    assert_eq!(
        actions,
        vec![
            Action::Send(Gateway::Default),
            Action::Sleep(250),
            Action::Send(Gateway::Fallback),
            Action::Record(Gateway::Fallback),
            Action::Finish(DeliveryOutcome::Processed(Gateway::Fallback)),
        ]
    );
}

#[test]
fn second_round_uses_second_delay() {
    let actions = drive(vec![250, 500, 2000], &[false, false, false, true], true);
    assert_eq!(
        actions,
        vec![
            Action::Send(Gateway::Default),
            Action::Sleep(250),
            Action::Send(Gateway::Fallback),
            Action::Send(Gateway::Default),
            Action::Sleep(500),
            Action::Send(Gateway::Fallback),
            Action::Record(Gateway::Fallback),
            Action::Finish(DeliveryOutcome::Processed(Gateway::Fallback)),
        ]
    );
}

#[test]
fn every_round_failing_exhausts_the_delivery() {
    let actions = drive(vec![250, 500, 2000], &[false; 6], true);
    let sends = actions.iter().filter(|a| matches!(a, Action::Send(_))).count();
    let sleeps: Vec<u64> = actions
        .iter()
        .filter_map(|a| if let Action::Sleep(ms) = a { Some(*ms) } else { None })
        .collect();
    assert_eq!(sends, 6);
    assert_eq!(sleeps, vec![250, 500, 2000]);
    assert_eq!(actions.last(), Some(&Action::Finish(DeliveryOutcome::Exhausted)));
    assert!(!actions.iter().any(|a| matches!(a, Action::Record(_))));
}

#[test]
fn failed_record_is_not_retried() {
    let actions = drive(vec![250, 500, 2000], &[true], false);
    assert_eq!(
        actions,
        vec![
            Action::Send(Gateway::Default),
            Action::Record(Gateway::Default),
            Action::Finish(DeliveryOutcome::NotRecorded(Gateway::Default)),
        ]
    );
}

#[test]
fn empty_backoff_rule_never_sends() {
    let delivery = Delivery::new(Vec::new());
    assert_eq!(delivery.pending_action(), Action::Finish(DeliveryOutcome::Exhausted));
    assert_eq!(delivery.outcome(), Some(DeliveryOutcome::Exhausted));
}

#[test]
fn unrelated_report_changes_nothing() {
    let mut delivery = Delivery::new(vec![100]);
    assert_eq!(delivery.step(Event::RecordSucceeded), Action::Send(Gateway::Default));
    assert_eq!(delivery.step(Event::SleepElapsed), Action::Send(Gateway::Default));
    assert_eq!(delivery.outcome(), None);
    assert_eq!(delivery.step(Event::SendFailed), Action::Sleep(100));
}

#[test]
fn finished_delivery_stays_finished() {
    let mut delivery = Delivery::new(vec![100]);
    delivery.step(Event::SendSucceeded);
    let done = delivery.step(Event::RecordSucceeded);
    assert_eq!(done, Action::Finish(DeliveryOutcome::Processed(Gateway::Default)));
    for event in [Event::SendSucceeded, Event::SendFailed, Event::SleepElapsed, Event::RecordFailed] {
        assert_eq!(delivery.step(event), done);
    }
}

#[test]
fn processor_rule_has_three_rounds() {
    let processor = PaymentProcessor::new();
    assert_eq!(processor.backoff_ms, vec![250, 500, 2000]);
    assert_eq!(processor.http_timeout_secs, 10);
    let delivery = processor.delivery();
    assert_eq!(delivery.pending_action(), Action::Send(Gateway::Default));
}

#[test]
fn outcome_reports_processing() {
    assert!(DeliveryOutcome::Processed(Gateway::Fallback).is_processed());
    assert!(!DeliveryOutcome::NotRecorded(Gateway::Default).is_processed());
    assert!(!DeliveryOutcome::Exhausted.is_processed());
}
