//! The per-gateway summary of stored payments.
//!
//! Each stored payment carries the label of the gateway that processed it.
//! The summary counts, for the default and for the fallback gateway, the
//! stored payments that carry its label, and names the rows they stand in,
//! so that their amounts can be added up.

use vstd::prelude::*;
use crate::gateway::{Gateway, gateway_label};
use crate::replies::{Reply, summary_unavailable_reply};

verus! {

broadcast use vstd::string::group_string_axioms;

/// Thirty days, in microseconds: how far back a summary reaches by default.
pub const SUMMARY_LOOKBACK_MICROS: i64 = 2_592_000_000_000;

/// Optional bounds of a summary, in microseconds since the Unix epoch.
#[derive(Clone, Copy, Debug, PartialEq, Eq, Structural)]
pub struct PaymentSummaryFilters {
    pub from: Option<i64>,
    pub to: Option<i64>,
}

/// The time span a summary covers, bounds included, in microseconds since the
/// Unix epoch.
#[derive(Clone, Copy, Debug, PartialEq, Eq, Structural)]
pub struct SummaryWindow {
    pub from: i64,
    pub to: i64,
}

impl PaymentSummaryFilters {
    /// The span to summarise at time `now`: the given bounds, or else the
    /// thirty days that end at `now`.
    pub fn window(&self, now: i64) -> (w: SummaryWindow)
        requires
            self.from is None ==> now - SUMMARY_LOOKBACK_MICROS >= i64::MIN,
        ensures
            w.from == (match self.from {
                Some(from) => from as int,
                None => now - SUMMARY_LOOKBACK_MICROS,
            }),
            w.to == (match self.to {
                Some(to) => to,
                None => now,
            }),
    {
        let from = match self.from {
            Some(from) => from,
            None => now - SUMMARY_LOOKBACK_MICROS,
        };
        let to = match self.to {
            Some(to) => to,
            None => now,
        };
        SummaryWindow { from, to }
    }
}

/// The positions, in order, of the rows that carry `label`.
pub open spec fn label_rows(labels: Seq<Seq<char>>, label: Seq<char>) -> Seq<int>
    decreases labels.len(),
{
    if labels.len() == 0 {
        Seq::empty()
    } else {
        label_rows(labels.drop_last(), label) + if labels.last() == label {
            seq![labels.len() - 1]
        } else {
            Seq::empty()
        }
    }
}

/// How many rows carry `label`.
pub open spec fn label_count(labels: Seq<Seq<char>>, label: Seq<char>) -> nat {
    label_rows(labels, label).len()
}

/// No label is carried by more rows than an `i32` counts.
pub open spec fn counts_fit(labels: Seq<Seq<char>>) -> bool {
    forall|label: Seq<char>| #[trigger] label_count(labels, label) <= i32::MAX
}

/// The stored payments of one gateway.
pub struct GatewayTotals {
    /// How many stored payments carry the gateway's label.
    pub total_requests: i32,
    /// The positions of those payments among the rows, in order.
    pub rows: Vec<usize>,
}

impl GatewayTotals {
    /// `labels` holds this gateway's stored payments exactly at `rows`.
    pub open spec fn tallies(&self, labels: Seq<Seq<char>>, label: Seq<char>) -> bool {
        &&& self.rows@.map_values(|i: usize| i as int) == label_rows(labels, label)
        &&& self.total_requests == label_count(labels, label)
    }
}

/// The summary of stored payments by gateway.
pub struct PaymentsSummary {
    pub default: GatewayTotals,
    pub fallback: GatewayTotals,
}

proof fn lemma_label_count_prefix(labels: Seq<Seq<char>>, label: Seq<char>, k: int)
    requires
        0 <= k <= labels.len(),
    ensures
        label_count(labels.take(k), label) <= label_count(labels, label),
    decreases labels.len(),
{
    if k < labels.len() {
        assert(labels.drop_last().take(k) =~= labels.take(k));
        lemma_label_count_prefix(labels.drop_last(), label, k);
    } else {
        assert(labels.take(k) =~= labels);
    }
}

fn tally_gateway(labels: &Vec<String>, gateway: Gateway) -> (t: GatewayTotals)
    requires
        counts_fit(labels.deep_view()),
    ensures
        t.tallies(labels.deep_view(), gateway_label(gateway)),
{
    let ghost all = labels.deep_view();
    let ghost label = gateway_label(gateway);
    let wanted = String::from_str(gateway.to_string());
    let mut rows: Vec<usize> = Vec::new();
    let mut count: i32 = 0;
    for i in 0..labels.len()
        invariant
            all == labels.deep_view(),
            label == gateway_label(gateway),
            wanted@ == label,
            counts_fit(all),
            rows@.map_values(|j: usize| j as int) == label_rows(all.take(i as int), label),
            count == label_count(all.take(i as int), label),
    {
        let ghost before = all.take(i as int);
        let ghost after = all.take(i + 1);
        assert(after.drop_last() =~= before);
        assert(after.last() == labels@[i as int]@);
        if labels[i] == wanted {
            proof {
                lemma_label_count_prefix(all, label, i + 1);
                assert(label_count(all, label) <= i32::MAX);
            }
            count = count + 1;
            rows.push(i);
        }
        assert(rows@.map_values(|j: usize| j as int) =~= label_rows(after, label));
    }
    assert(all.take(labels.len() as int) =~= all);
    GatewayTotals { total_requests: count, rows }
}

/// Summarises stored payments by the gateway label of each row.
pub fn summarize_by_gateway(labels: &Vec<String>) -> (s: PaymentsSummary)
    requires
        counts_fit(labels.deep_view()),
    ensures
        s.default.tallies(labels.deep_view(), gateway_label(Gateway::Default)),
        s.fallback.tallies(labels.deep_view(), gateway_label(Gateway::Fallback)),
{
    PaymentsSummary {
        default: tally_gateway(labels, Gateway::Default),
        fallback: tally_gateway(labels, Gateway::Fallback),
    }
}

/// The answer to a summary request.
pub enum SummaryAnswer {
    /// The stored payments could not be read.
    Unavailable(Reply),
    /// The per-gateway totals.
    Totals(PaymentsSummary),
}

/// Answers a summary request from the gateway labels of the stored payments
/// in its window, or `None` when they could not be read: the per-gateway
/// totals, or else 500 `Failed to query the database`.
pub fn payment_summary(queried: Option<&Vec<String>>) -> (answer: SummaryAnswer)
    requires
        queried matches Some(labels) ==> counts_fit(labels.deep_view()),
    ensures
        queried is None ==> (answer matches SummaryAnswer::Unavailable(r) && r.status == 500
            && r.body@ == "Failed to query the database"@),
        queried matches Some(labels) ==> (answer matches SummaryAnswer::Totals(s)
            && s.default.tallies(labels.deep_view(), gateway_label(Gateway::Default))
            && s.fallback.tallies(labels.deep_view(), gateway_label(Gateway::Fallback))),
{
    match queried {
        None => SummaryAnswer::Unavailable(summary_unavailable_reply()),
        Some(labels) => SummaryAnswer::Totals(summarize_by_gateway(labels)),
    }
}

/// Whether every label's count fits in an `i32`, so that the rows can be
/// summarised.
pub fn counts_fit_i32(labels: &Vec<String>) -> (fit: bool)
    ensures
        fit == counts_fit(labels.deep_view()),
{
    let ghost all = labels.deep_view();
    if labels.len() <= i32::MAX as usize {
        proof {
            lemma_counts_fit_for_few_rows(all);
        }
        return true;
    }
    for i in 0..labels.len()
        invariant
            all == labels.deep_view(),
            forall|k: int| 0 <= k < i ==> #[trigger] label_count(all, all[k]) <= i32::MAX,
    {
        let ghost label = all[i as int];
        let mut count: usize = 0;
        for j in 0..labels.len()
            invariant
                all == labels.deep_view(),
                label == all[i as int],
                0 <= i < labels.len(),
                count == label_count(all.take(j as int), label),
                count <= j,
        {
            let ghost before = all.take(j as int);
            let ghost after = all.take(j + 1);
            assert(after.drop_last() =~= before);
            assert(after.last() == labels@[j as int]@);
            if labels[j] == labels[i] {
                count = count + 1;
            }
        }
        assert(all.take(labels.len() as int) =~= all);
        if count > i32::MAX as usize {
            return false;
        }
    }
    proof {
        assert forall|label: Seq<char>| #[trigger] label_count(all, label) <= i32::MAX by {
            if label_count(all, label) > 0 {
                lemma_label_rows_exact(all, label);
                let k = label_rows(all, label)[0];
                assert(all[k] == label);
            }
        }
    }
    true
}

/// How many of the payments in `saved` were processed by `g`.
pub open spec fn gateway_count(saved: Seq<Gateway>, g: Gateway) -> nat
    decreases saved.len(),
{
    if saved.len() == 0 {
        0
    } else {
        gateway_count(saved.drop_last(), g) + if saved.last() == g {
            1nat
        } else {
            0nat
        }
    }
}

/// The rows listed for a label are exactly the rows that carry it, each once
/// and in order.
pub proof fn lemma_label_rows_exact(labels: Seq<Seq<char>>, label: Seq<char>)
    ensures
        forall|j: int|
            0 <= j < label_rows(labels, label).len() ==> {
                &&& 0 <= #[trigger] label_rows(labels, label)[j] < labels.len()
                &&& labels[label_rows(labels, label)[j]] == label
            },
        forall|j: int, k: int|
            0 <= j < k < label_rows(labels, label).len() ==> label_rows(labels, label)[j]
                < label_rows(labels, label)[k],
        forall|i: int|
            0 <= i < labels.len() && #[trigger] labels[i] == label ==> label_rows(
                labels,
                label,
            ).contains(i),
    decreases labels.len(),
{
    if labels.len() > 0 {
        let init = labels.drop_last();
        lemma_label_rows_exact(init, label);
        let p = label_rows(init, label);
        let q: Seq<int> = if labels.last() == label {
            seq![labels.len() - 1]
        } else {
            Seq::empty()
        };
        let rows = label_rows(labels, label);
        assert(rows == p + q);
        assert forall|j: int| 0 <= j < rows.len() implies {
            &&& 0 <= #[trigger] rows[j] < labels.len()
            &&& labels[rows[j]] == label
        } by {
            if j < p.len() {
                assert(rows[j] == p[j]);
                assert(labels[p[j]] == init[p[j]]);
            }
        }
        assert forall|j: int, k: int| 0 <= j < k < rows.len() implies rows[j] < rows[k] by {
            if k >= p.len() {
                if j < p.len() {
                    assert(rows[j] == p[j]);
                }
            } else {
                assert(rows[j] == p[j] && rows[k] == p[k]);
            }
        }
        assert forall|i: int| 0 <= i < labels.len() && #[trigger] labels[i] == label implies rows.contains(i) by {
            if i < labels.len() - 1 {
                assert(init[i] == labels[i]);
                let j = choose|j: int| 0 <= j < p.len() && p[j] == i;
                assert(rows[j] == i);
            } else {
                assert(rows[p.len() as int] == i);
            }
        }
    }
}

/// Every payment stored under a gateway's label is counted for that gateway:
/// over the labels written for a sequence of processed payments, each
/// gateway's count is the number of payments it processed, and the two counts
/// together cover every payment.
pub proof fn lemma_summary_counts_saved_payments(saved: Seq<Gateway>)
    ensures
        label_count(saved.map_values(|g: Gateway| gateway_label(g)), gateway_label(Gateway::Default))
            == gateway_count(saved, Gateway::Default),
        label_count(saved.map_values(|g: Gateway| gateway_label(g)), gateway_label(Gateway::Fallback))
            == gateway_count(saved, Gateway::Fallback),
        gateway_count(saved, Gateway::Default) + gateway_count(saved, Gateway::Fallback)
            == saved.len(),
    decreases saved.len(),
{
    if saved.len() > 0 {
        let init = saved.drop_last();
        lemma_summary_counts_saved_payments(init);
        let labels = saved.map_values(|g: Gateway| gateway_label(g));
        assert(labels.drop_last() =~= init.map_values(|g: Gateway| gateway_label(g)));
        assert(labels.last() == gateway_label(saved.last()));
        assert(gateway_label(Gateway::Default) != gateway_label(Gateway::Fallback)) by {
            assert(gateway_label(Gateway::Default).len() != gateway_label(Gateway::Fallback).len());
        }
        assert(gateway_label(Gateway::Default) == gateway_label(Gateway::Default));
    }
}

/// A label is carried by at most every row, so counts fit whenever the rows
/// do.
pub proof fn lemma_counts_fit_for_few_rows(labels: Seq<Seq<char>>)
    requires
        labels.len() <= i32::MAX,
    ensures
        counts_fit(labels),
{
    assert forall|label: Seq<char>| #[trigger] label_count(labels, label) <= i32::MAX by {
        lemma_label_count_at_most_rows(labels, label);
    }
}

proof fn lemma_label_count_at_most_rows(labels: Seq<Seq<char>>, label: Seq<char>)
    ensures
        label_count(labels, label) <= labels.len(),
    decreases labels.len(),
{
    if labels.len() > 0 {
        lemma_label_count_at_most_rows(labels.drop_last(), label);
    }
}

/// Two different labels are never counted on the same row, so their counts
/// add up to at most the number of rows.
pub proof fn lemma_label_counts_disjoint(labels: Seq<Seq<char>>, a: Seq<char>, b: Seq<char>)
    requires
        a != b,
    ensures
        label_count(labels, a) + label_count(labels, b) <= labels.len(),
    decreases labels.len(),
{
    if labels.len() > 0 {
        lemma_label_counts_disjoint(labels.drop_last(), a, b);
    }
}

/// A label's count is its multiplicity among the rows: it does not depend on
/// the order in which the rows come back.
pub proof fn lemma_label_count_is_multiplicity(labels: Seq<Seq<char>>, label: Seq<char>)
    ensures
        label_count(labels, label) == labels.to_multiset().count(label),
    decreases labels.len(),
{
    broadcast use vstd::seq_lib::group_to_multiset_ensures;

    if labels.len() == 0 {
        assert(labels.to_multiset() =~= vstd::multiset::Multiset::empty());
    } else {
        let init = labels.drop_last();
        lemma_label_count_is_multiplicity(init, label);
        assert(init.push(labels.last()) =~= labels);
    }
}

/// Rows that are the same up to order give the same counts.
pub proof fn lemma_count_ignores_order(a: Seq<Seq<char>>, b: Seq<Seq<char>>, label: Seq<char>)
    requires
        a.to_multiset() == b.to_multiset(),
    ensures
        label_count(a, label) == label_count(b, label),
{
    lemma_label_count_is_multiplicity(a, label);
    lemma_label_count_is_multiplicity(b, label);
}

/// Storing one more payment adds one to the count of its label and leaves
/// every other count as it was, whatever order the rows come back in.
pub proof fn lemma_one_more_row(before: Seq<Seq<char>>, after: Seq<Seq<char>>, stored: Seq<char>, label: Seq<char>)
    requires
        after.to_multiset() == before.to_multiset().insert(stored),
    ensures
        label_count(after, label) == label_count(before, label) + if label == stored {
            1nat
        } else {
            0nat
        },
{
    lemma_label_count_is_multiplicity(before, label);
    lemma_label_count_is_multiplicity(after, label);
}

/// Summarising some of the rows never counts more for a label than
/// summarising all of them: a narrower window gives no larger count.
pub proof fn lemma_fewer_rows_no_larger_count(some: Seq<Seq<char>>, all: Seq<Seq<char>>, label: Seq<char>)
    requires
        some.to_multiset().subset_of(all.to_multiset()),
    ensures
        label_count(some, label) <= label_count(all, label),
{
    lemma_label_count_is_multiplicity(some, label);
    lemma_label_count_is_multiplicity(all, label);
}

} // verus!
