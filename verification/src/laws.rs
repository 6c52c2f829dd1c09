//! What holds of a scan as a whole.

use vstd::prelude::*;

use crate::aggregate::{
    failure_report, lemma_failure_report_concat, lemma_outcomes_partition, lemma_sort_by_sequence,
    lemma_success_has_outcome, lemma_successes_concat, ordered_batch, sort_by_sequence,
    sorted_by_sequence, successes,
};
use crate::collector::CandidateView;
use crate::extract::{extraction, outcome_of, probe_of_content};
use crate::outcome::{FailureRecordView, ImageRecordView, ProbeOutcomeView, ProbeResultView};
use crate::probe::failure_text;

verus! {

/// Every candidate ends either in the batch or in the failure report: the two
/// together are as many as the candidates that were read.
pub proof fn lemma_every_candidate_accounted_for(
    readings: Seq<(CandidateView, Result<Seq<u8>, Seq<char>>)>,
    source_root: Seq<char>,
    http_prefix: Seq<char>,
)
    ensures
        ordered_batch(extraction(readings, source_root, http_prefix)).len() + failure_report(
            extraction(readings, source_root, http_prefix),
        ).len() == readings.len(),
{
    lemma_outcomes_partition(extraction(readings, source_root, http_prefix));
}

/// The batch of a scan is in ascending order of sequence number; each of its
/// records is well formed, and its sequence number is one above the discovery
/// index of a candidate that was read.
pub proof fn lemma_batch_in_discovery_order(
    readings: Seq<(CandidateView, Result<Seq<u8>, Seq<char>>)>,
    source_root: Seq<char>,
    http_prefix: Seq<char>,
)
    ensures
        sorted_by_sequence(ordered_batch(extraction(readings, source_root, http_prefix))),
        forall|k: int|
            0 <= k < ordered_batch(extraction(readings, source_root, http_prefix)).len()
                ==> (#[trigger] ordered_batch(
                extraction(readings, source_root, http_prefix),
            )[k]).well_formed(),
        forall|k: int|
            0 <= k < ordered_batch(extraction(readings, source_root, http_prefix)).len()
                ==> exists|i: int|
                0 <= i < readings.len() && #[trigger] ordered_batch(
                    extraction(readings, source_root, http_prefix),
                )[k].idx == (#[trigger] readings[i]).0.index + 1,
{
    let outcomes = extraction(readings, source_root, http_prefix);
    let all = successes(outcomes);
    let batch = ordered_batch(outcomes);
    lemma_sort_by_sequence(all);
    assert forall|k: int| 0 <= k < batch.len() implies (#[trigger] batch[k]).well_formed() && (
    exists|i: int|
        0 <= i < readings.len() && #[trigger] batch[k].idx == (#[trigger] readings[i]).0.index
            + 1) by {
        let record = batch[k];
        assert(batch.contains(record));
        batch.to_multiset_ensures();
        all.to_multiset_ensures();
        assert(batch.to_multiset().count(record) > 0);
        assert(all.to_multiset().count(record) > 0);
        assert(all.contains(record));
        let j = choose|j: int| 0 <= j < all.len() && all[j] == record;
        lemma_success_has_outcome(outcomes, j);
        let i = choose|i: int|
            0 <= i < outcomes.len() && (#[trigger] outcomes[i]).result == ProbeResultView::Success(
                all[j],
            );
        assert(outcomes[i] == outcome_of(readings[i].0, readings[i].1, source_root, http_prefix));
        assert(record.idx == readings[i].0.index + 1);
    }
}

/// No two records have the same sequence number.
pub open spec fn distinct_sequence_numbers(records: Seq<ImageRecordView>) -> bool {
    forall|i: int, j: int| 0 <= i < j < records.len() ==> records[i].idx != records[j].idx
}

/// Outcomes that are the same but for their order have the same successes but
/// for their order.
proof fn lemma_successes_of_rearranged(a: Seq<ProbeOutcomeView>, b: Seq<ProbeOutcomeView>)
    requires
        a.to_multiset() == b.to_multiset(),
    ensures
        successes(a).to_multiset() == successes(b).to_multiset(),
    decreases a.len(),
{
    a.to_multiset_ensures();
    b.to_multiset_ensures();
    if a.len() == 0 {
        assert(b.len() == 0);
    } else {
        let x = a.last();
        let front = a.drop_last();
        assert(front.push(x) =~= a);
        vstd::seq_lib::to_multiset_build(front, x);
        assert(a.contains(x));
        assert(a.to_multiset().count(x) > 0);
        assert(b.to_multiset().count(x) > 0);
        assert(b.contains(x));
        let j = choose|j: int| 0 <= j < b.len() && b[j] == x;
        let rest = b.remove(j);
        vstd::seq_lib::to_multiset_remove(b, j);
        assert(front.to_multiset() =~= a.to_multiset().remove(x));
        lemma_successes_of_rearranged(front, rest);
        let left = b.take(j);
        let right = b.skip(j + 1);
        assert(b =~= left + seq![x] + right);
        assert(rest =~= left + right);
        lemma_successes_concat(left, seq![x]);
        lemma_successes_concat(left + seq![x], right);
        lemma_successes_concat(left, right);
        let single = seq![x];
        assert(single.last() == x);
        assert(single.drop_last().len() == 0);
        assert(successes(single.drop_last()) =~= Seq::<ImageRecordView>::empty());
        match x.result {
            ProbeResultView::Success(r) => {
                assert(successes(seq![x]) =~= seq![r]);
                assert(successes(b) =~= (successes(left) + successes(right)).insert(
                    successes(left).len() as int,
                    r,
                ));
                vstd::seq_lib::to_multiset_insert(
                    successes(left) + successes(right),
                    successes(left).len() as int,
                    r,
                );
                vstd::seq_lib::to_multiset_build(successes(front), r);
            },
            ProbeResultView::Failure(_) => {
                assert(successes(seq![x]) =~= Seq::<ImageRecordView>::empty());
                assert(successes(b) =~= successes(rest));
            },
        }
    }
}

/// Two sorted sequences that hold the same records are the same sequence,
/// where no sequence number occurs twice.
proof fn lemma_sorted_is_unique(s: Seq<ImageRecordView>, t: Seq<ImageRecordView>)
    requires
        sorted_by_sequence(s),
        sorted_by_sequence(t),
        distinct_sequence_numbers(s),
        s.to_multiset() == t.to_multiset(),
    ensures
        s == t,
    decreases s.len(),
{
    s.to_multiset_ensures();
    t.to_multiset_ensures();
    if s.len() == 0 {
        assert(t.len() == 0);
        assert(s =~= t);
    } else {
        let m = s.last();
        let n = t.last();
        assert(s.contains(m));
        assert(s.to_multiset().count(m) > 0);
        assert(t.to_multiset().count(m) > 0);
        assert(t.contains(m));
        let p = choose|p: int| 0 <= p < t.len() && t[p] == m;
        assert(t.contains(n));
        assert(t.to_multiset().count(n) > 0);
        assert(s.to_multiset().count(n) > 0);
        assert(s.contains(n));
        let q = choose|q: int| 0 <= q < s.len() && s[q] == n;
        assert(t[p].idx <= t[t.len() - 1].idx);
        assert(s[q].idx <= s[s.len() - 1].idx);
        assert(q == s.len() - 1);
        assert(m == n);
        let sf = s.drop_last();
        let tf = t.drop_last();
        assert(sf =~= s.remove(s.len() - 1));
        assert(tf =~= t.remove(t.len() - 1));
        vstd::seq_lib::to_multiset_remove(s, s.len() - 1);
        vstd::seq_lib::to_multiset_remove(t, t.len() - 1);
        assert forall|i: int, j: int| 0 <= i <= j < sf.len() implies sf[i].idx <= sf[j].idx by {
            assert(sf[i] == s[i] && sf[j] == s[j]);
        }
        assert forall|i: int, j: int| 0 <= i <= j < tf.len() implies tf[i].idx <= tf[j].idx by {
            assert(tf[i] == t[i] && tf[j] == t[j]);
        }
        assert forall|i: int, j: int| 0 <= i < j < sf.len() implies sf[i].idx != sf[j].idx by {
            assert(sf[i] == s[i] && sf[j] == s[j]);
        }
        lemma_sorted_is_unique(sf, tf);
        assert(s =~= sf.push(m));
        assert(t =~= tf.push(n));
    }
}

/// Where no sequence number occurs twice among the records, none occurs twice
/// among those records once sorted.
proof fn lemma_sort_keeps_distinct(records: Seq<ImageRecordView>)
    requires
        distinct_sequence_numbers(records),
    ensures
        distinct_sequence_numbers(sort_by_sequence(records)),
{
    let sorted = sort_by_sequence(records);
    lemma_sort_by_sequence(records);
    records.to_multiset_ensures();
    sorted.to_multiset_ensures();
    assert forall|i: int, j: int| 0 <= i < j < sorted.len() implies sorted[i].idx
        != sorted[j].idx by {
        if sorted[i].idx == sorted[j].idx {
            let x = sorted[i];
            let y = sorted[j];
            assert(sorted.contains(x) && sorted.contains(y));
            assert(sorted.to_multiset().count(x) > 0 && sorted.to_multiset().count(y) > 0);
            assert(records.to_multiset().count(x) > 0 && records.to_multiset().count(y) > 0);
            assert(records.contains(x) && records.contains(y));
            let a = choose|a: int| 0 <= a < records.len() && records[a] == x;
            let b = choose|b: int| 0 <= b < records.len() && records[b] == y;
            assert(a == b);
            // x == y occurs at two places of the sorted sequence, so at least twice
            // in it, and so at least twice among the records.
            let without = sorted.remove(i);
            vstd::seq_lib::to_multiset_remove(sorted, i);
            without.to_multiset_ensures();
            assert(without[j - 1] == y);
            assert(without.contains(y));
            assert(without.to_multiset().count(y) > 0);
            assert(records.to_multiset().count(x) >= 2);
            let fewer = records.remove(a);
            vstd::seq_lib::to_multiset_remove(records, a);
            fewer.to_multiset_ensures();
            assert(fewer.to_multiset().count(x) > 0);
            assert(fewer.contains(x));
            let c = choose|c: int| 0 <= c < fewer.len() && fewer[c] == x;
            if c < a {
                assert(records[c] == x);
            } else {
                assert(records[c + 1] == x);
            }
        }
    }
}

/// The batch does not depend on the order in which the outcomes arrive:
/// outcomes that are the same but for their order give the same batch, where
/// no two successes carry the same sequence number.
pub proof fn lemma_batch_ignores_arrival_order(
    a: Seq<ProbeOutcomeView>,
    b: Seq<ProbeOutcomeView>,
)
    requires
        a.to_multiset() == b.to_multiset(),
        distinct_sequence_numbers(successes(a)),
    ensures
        ordered_batch(a) == ordered_batch(b),
{
    lemma_successes_of_rearranged(a, b);
    lemma_sort_by_sequence(successes(a));
    lemma_sort_by_sequence(successes(b));
    lemma_sort_keeps_distinct(successes(a));
    lemma_sorted_is_unique(ordered_batch(a), ordered_batch(b));
}

/// No two successful outcomes carry the same sequence number.
pub open spec fn distinct_successes(outcomes: Seq<ProbeOutcomeView>) -> bool {
    forall|i: int, j: int|
        0 <= i < j < outcomes.len() ==> match ((#[trigger] outcomes[i]).result, (
            #[trigger] outcomes[j]).result) {
            (ProbeResultView::Success(first), ProbeResultView::Success(second)) => first.idx
                != second.idx,
            _ => true,
        }
}

/// Successful outcomes with different sequence numbers give records with
/// different sequence numbers.
pub proof fn lemma_successes_are_distinct(outcomes: Seq<ProbeOutcomeView>)
    requires
        distinct_successes(outcomes),
    ensures
        distinct_sequence_numbers(successes(outcomes)),
    decreases outcomes.len(),
{
    if outcomes.len() > 0 {
        let front = outcomes.drop_last();
        let last = outcomes.len() - 1;
        assert forall|i: int, j: int| 0 <= i < j < front.len() implies match ((
            #[trigger] front[i]).result, (#[trigger] front[j]).result) {
            (ProbeResultView::Success(first), ProbeResultView::Success(second)) => first.idx
                != second.idx,
            _ => true,
        } by {
            assert(front[i] == outcomes[i] && front[j] == outcomes[j]);
        }
        lemma_successes_are_distinct(front);
        let found = successes(outcomes);
        match outcomes[last].result {
            ProbeResultView::Success(record) => {
                assert forall|a: int, b: int| 0 <= a < b < found.len() implies found[a].idx
                    != found[b].idx by {
                    if b == found.len() - 1 {
                        lemma_success_has_outcome(front, a);
                        let i = choose|i: int|
                            0 <= i < front.len() && (#[trigger] front[i]).result
                                == ProbeResultView::Success(successes(front)[a]);
                        assert(outcomes[i] == front[i]);
                        assert(outcomes[i].result is Success && outcomes[last].result is Success);
                    } else {
                        assert(found[a] == successes(front)[a] && found[b] == successes(front)[b]);
                    }
                }
            },
            ProbeResultView::Failure(_) => {},
        }
    }
}

/// The batch of a scan does not depend on the order in which the probes
/// finish: where no two candidates have the same discovery index, outcomes
/// that are those of the scan but for their order give the batch of the scan.
pub proof fn lemma_scan_ignores_arrival_order(
    readings: Seq<(CandidateView, Result<Seq<u8>, Seq<char>>)>,
    source_root: Seq<char>,
    http_prefix: Seq<char>,
    arrived: Seq<ProbeOutcomeView>,
)
    requires
        forall|i: int, j: int|
            0 <= i < j < readings.len() ==> (#[trigger] readings[i]).0.index != (
            #[trigger] readings[j]).0.index,
        arrived.to_multiset() == extraction(readings, source_root, http_prefix).to_multiset(),
    ensures
        ordered_batch(arrived) == ordered_batch(extraction(readings, source_root, http_prefix)),
{
    let outcomes = extraction(readings, source_root, http_prefix);
    assert forall|i: int, j: int| 0 <= i < j < outcomes.len() implies match ((
        #[trigger] outcomes[i]).result, (#[trigger] outcomes[j]).result) {
        (ProbeResultView::Success(first), ProbeResultView::Success(second)) => first.idx
            != second.idx,
        _ => true,
    } by {
        assert(readings[i].0.index != readings[j].0.index);
    }
    lemma_successes_are_distinct(outcomes);
    lemma_batch_ignores_arrival_order(outcomes, arrived);
}

/// A file that cannot be decoded is reported once and leaves no trace in the
/// batch, nor does it change what becomes of the other files: the batch is
/// that of the scan without the file, and the report is that of the scan
/// without the file with one record for the file, at its place.
pub proof fn lemma_failed_file_is_reported_once(
    readings: Seq<(CandidateView, Result<Seq<u8>, Seq<char>>)>,
    source_root: Seq<char>,
    http_prefix: Seq<char>,
    k: int,
)
    requires
        0 <= k < readings.len(),
        probe_of_content(readings[k].0.path, readings[k].1) is Err,
    ensures
        ordered_batch(extraction(readings, source_root, http_prefix)) == ordered_batch(
            extraction(readings.remove(k), source_root, http_prefix),
        ),
        failure_report(extraction(readings, source_root, http_prefix)) == failure_report(
            extraction(readings.remove(k), source_root, http_prefix),
        ).insert(
            failure_report(extraction(readings.take(k), source_root, http_prefix)).len() as int,
            FailureRecordView {
                path: readings[k].0.path,
                message: failure_text(
                    readings[k].0.path,
                    probe_of_content(readings[k].0.path, readings[k].1)->Err_0.message,
                ),
            },
        ),
{
    let left = extraction(readings.take(k), source_root, http_prefix);
    let right = extraction(readings.skip(k + 1), source_root, http_prefix);
    let outcome = outcome_of(readings[k].0, readings[k].1, source_root, http_prefix);
    let single = seq![outcome];
    assert(extraction(readings, source_root, http_prefix) =~= left + single + right);
    assert(extraction(readings.remove(k), source_root, http_prefix) =~= left + right);
    lemma_successes_concat(left, single);
    lemma_successes_concat(left + single, right);
    lemma_successes_concat(left, right);
    lemma_failure_report_concat(left, single);
    lemma_failure_report_concat(left + single, right);
    lemma_failure_report_concat(left, right);
    assert(single.last() == outcome);
    assert(single.drop_last().len() == 0);
    assert(successes(single.drop_last()) =~= Seq::<ImageRecordView>::empty());
    assert(failure_report(single.drop_last()) =~= Seq::<FailureRecordView>::empty());
    assert(successes(single) =~= Seq::<ImageRecordView>::empty());
    assert(successes(left + single + right) =~= successes(left + right));
    let failure = outcome.result->Failure_0;
    assert(failure_report(single) =~= seq![failure]);
    assert(failure_report(left + single + right) =~= failure_report(left + right).insert(
        failure_report(left).len() as int,
        failure,
    ));
}

} // verus!
