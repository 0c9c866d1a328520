use rinha_rust_warp::gateway::Gateway;
use rinha_rust_warp::summary::{
    counts_fit_i32, payment_summary, summarize_by_gateway, PaymentSummaryFilters, SummaryAnswer, SummaryWindow,
    SUMMARY_LOOKBACK_MICROS,
};

fn labels(names: &[&str]) -> Vec<String> {
    names.iter().map(|s| s.to_string()).collect()
}

#[test]
fn counts_rows_per_gateway() {
    let rows = labels(&["default", "fallback", "default", "other", "default"]);
    let summary = summarize_by_gateway(&rows);
    assert_eq!(summary.default.total_requests, 3);
    assert_eq!(summary.default.rows, vec![0, 2, 4]);
    assert_eq!(summary.fallback.total_requests, 1);
    assert_eq!(summary.fallback.rows, vec![1]);
}

#[test]
fn no_rows_gives_zero_totals() {
    let summary = summarize_by_gateway(&Vec::new());
    assert_eq!(summary.default.total_requests, 0);
    assert!(summary.default.rows.is_empty());
    assert_eq!(summary.fallback.total_requests, 0);
    assert!(summary.fallback.rows.is_empty());
}

#[test]
fn labels_match_exactly() {
    let rows = labels(&["Default", "default ", "fallbacks", ""]);
    let summary = summarize_by_gateway(&rows);
    assert_eq!(summary.default.total_requests, 0);
    assert_eq!(summary.fallback.total_requests, 0);
}

#[test]
fn stored_labels_are_counted_under_their_gateway() {
    let saved = [Gateway::Fallback, Gateway::Default, Gateway::Fallback, Gateway::Fallback];
    let rows: Vec<String> = saved.iter().map(|g| g.to_string().to_string()).collect();
    let summary = summarize_by_gateway(&rows);
    assert_eq!(summary.default.total_requests, 1);
    assert_eq!(summary.fallback.total_requests, 3);
    assert_eq!(
        (summary.default.total_requests + summary.fallback.total_requests) as usize,
        saved.len()
    );
}

#[test]
fn window_defaults_to_last_thirty_days() {
    let now = 1_725_000_000_000_000;
    let filters = PaymentSummaryFilters { from: None, to: None };
    assert_eq!(
        filters.window(now),
        SummaryWindow { from: now - 2_592_000_000_000, to: now }
    );
    assert_eq!(SUMMARY_LOOKBACK_MICROS, 30 * 24 * 60 * 60 * 1_000_000);
}

#[test]
fn window_keeps_given_bounds() {
    let filters = PaymentSummaryFilters { from: Some(10), to: Some(20) };
    assert_eq!(filters.window(1_000_000_000), SummaryWindow { from: 10, to: 20 });
    let only_to = PaymentSummaryFilters { from: None, to: Some(5) };
    assert_eq!(
        only_to.window(3_000_000_000_000),
        SummaryWindow { from: 3_000_000_000_000 - 2_592_000_000_000, to: 5 }
    );
}

#[test]
fn unreadable_rows_give_failure_reply() {
    match payment_summary(None) {
        SummaryAnswer::Unavailable(r) => {
            assert_eq!(r.status, 500);
            assert_eq!(r.body, "Failed to query the database");
        }
        SummaryAnswer::Totals(_) => panic!("expected the failure reply"),
    }
}

#[test]
fn readable_rows_give_totals() {
    let rows = labels(&["fallback", "default", "fallback"]);
    match payment_summary(Some(&rows)) {
        SummaryAnswer::Totals(s) => {
            assert_eq!(s.default.total_requests, 1);
            assert_eq!(s.fallback.total_requests, 2);
            assert_eq!(s.fallback.rows, vec![0, 2]);
        }
        SummaryAnswer::Unavailable(_) => panic!("expected totals"),
    }
}

#[test]
fn one_more_row_adds_one_in_any_order() {
    let before = labels(&["default", "fallback", "default"]);
    let after = labels(&["fallback", "default", "fallback", "default"]);
    let b = summarize_by_gateway(&before);
    let a = summarize_by_gateway(&after);
    assert_eq!(a.fallback.total_requests, b.fallback.total_requests + 1);
    assert_eq!(a.default.total_requests, b.default.total_requests);
}

#[test]
fn fewer_rows_never_count_more() {
    let all = labels(&["default", "fallback", "default", "default"]);
    let some = labels(&["default", "default"]);
    let s_all = summarize_by_gateway(&all);
    let s_some = summarize_by_gateway(&some);
    assert!(s_some.default.total_requests <= s_all.default.total_requests);
    assert!(s_some.fallback.total_requests <= s_all.fallback.total_requests);
}

#[test]
fn small_row_sets_fit() {
    assert!(counts_fit_i32(&Vec::new()));
    assert!(counts_fit_i32(&labels(&["default", "x"])));
}
