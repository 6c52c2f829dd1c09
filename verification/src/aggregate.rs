//! Parting probe outcomes into the ordered batch and the failure report.

use vstd::prelude::*;

use crate::outcome::{
    FailureRecord, FailureRecordView, ImageRecord, ImageRecordView, ProbeOutcome, ProbeOutcomeView,
    ProbeResult, ProbeResultView,
};

verus! {

/// The records of the successful outcomes, in the order of the outcomes.
pub open spec fn successes(outcomes: Seq<ProbeOutcomeView>) -> Seq<ImageRecordView>
    decreases outcomes.len(),
{
    if outcomes.len() == 0 {
        Seq::empty()
    } else {
        let before = successes(outcomes.drop_last());
        match outcomes.last().result {
            ProbeResultView::Success(r) => before.push(r),
            ProbeResultView::Failure(_) => before,
        }
    }
}

/// The records of the failed outcomes, in the order of the outcomes.
pub open spec fn failure_report(outcomes: Seq<ProbeOutcomeView>) -> Seq<FailureRecordView>
    decreases outcomes.len(),
{
    if outcomes.len() == 0 {
        Seq::empty()
    } else {
        let before = failure_report(outcomes.drop_last());
        match outcomes.last().result {
            ProbeResultView::Success(_) => before,
            ProbeResultView::Failure(f) => before.push(f),
        }
    }
}

/// No record has a greater sequence number than one behind it.
pub open spec fn sorted_by_sequence(records: Seq<ImageRecordView>) -> bool {
    forall|i: int, j: int| 0 <= i <= j < records.len() ==> records[i].idx <= records[j].idx
}

/// `record` put into `records` behind the last record whose sequence number
/// is not greater than its own.
pub open spec fn insert_by_sequence(
    records: Seq<ImageRecordView>,
    record: ImageRecordView,
) -> Seq<ImageRecordView>
    decreases records.len(),
{
    if records.len() == 0 || records.last().idx <= record.idx {
        records.push(record)
    } else {
        insert_by_sequence(records.drop_last(), record).push(records.last())
    }
}

/// `records` in ascending order of sequence number; records with the same
/// number keep the order they came in.
pub open spec fn sort_by_sequence(records: Seq<ImageRecordView>) -> Seq<ImageRecordView>
    decreases records.len(),
{
    if records.len() == 0 {
        Seq::empty()
    } else {
        insert_by_sequence(sort_by_sequence(records.drop_last()), records.last())
    }
}

/// The batch that a sequence of outcomes gives: its successes in ascending
/// order of sequence number.
pub open spec fn ordered_batch(outcomes: Seq<ProbeOutcomeView>) -> Seq<ImageRecordView> {
    sort_by_sequence(successes(outcomes))
}

/// Where every record from `at` on has a greater sequence number than
/// `record`, and the one before `at` has not, `insert_by_sequence` inserts
/// `record` at `at`.
proof fn lemma_insert_position(records: Seq<ImageRecordView>, record: ImageRecordView, at: int)
    requires
        0 <= at <= records.len(),
        forall|j: int| at <= j < records.len() ==> records[j].idx > record.idx,
        at == 0 || records[at - 1].idx <= record.idx,
    ensures
        insert_by_sequence(records, record) == records.insert(at, record),
    decreases records.len() - at,
{
    if at == records.len() {
        assert(records.push(record) =~= records.insert(at, record));
    } else {
        let front = records.drop_last();
        lemma_insert_position(front, record, at);
        assert(front.insert(at, record).push(records.last()) =~= records.insert(at, record));
    }
}

/// The position at which `insert_by_sequence` puts a record.
pub open spec fn insertion_point(records: Seq<ImageRecordView>, record: ImageRecordView) -> int
    decreases records.len(),
{
    if records.len() == 0 || records.last().idx <= record.idx {
        records.len() as int
    } else {
        insertion_point(records.drop_last(), record)
    }
}

/// `insert_by_sequence` inserts at `insertion_point`, behind every record with
/// a sequence number that is not greater and before every other.
pub proof fn lemma_insert_by_sequence_is_insert(
    records: Seq<ImageRecordView>,
    record: ImageRecordView,
)
    ensures
        0 <= insertion_point(records, record) <= records.len(),
        insert_by_sequence(records, record) == records.insert(
            insertion_point(records, record),
            record,
        ),
        forall|j: int|
            insertion_point(records, record) <= j < records.len() ==> records[j].idx > record.idx,
        insertion_point(records, record) > 0 ==> records[insertion_point(records, record)
            - 1].idx <= record.idx,
    decreases records.len(),
{
    if records.len() == 0 || records.last().idx <= record.idx {
    } else {
        let front = records.drop_last();
        lemma_insert_by_sequence_is_insert(front, record);
        let at = insertion_point(front, record);
        assert forall|j: int| at <= j < records.len() implies records[j].idx > record.idx by {
            if j < front.len() {
                assert(records[j] == front[j]);
            }
        }
        if at > 0 {
            assert(records[at - 1] == front[at - 1]);
        }
    }
    lemma_insert_position(records, record, insertion_point(records, record));
}

/// Inserting into a sorted sequence leaves it sorted.
pub proof fn lemma_insert_keeps_sorted(records: Seq<ImageRecordView>, record: ImageRecordView)
    requires
        sorted_by_sequence(records),
    ensures
        sorted_by_sequence(insert_by_sequence(records, record)),
{
    lemma_insert_by_sequence_is_insert(records, record);
    let at = insertion_point(records, record);
    let out = records.insert(at, record);
    assert forall|i: int, j: int| 0 <= i <= j < out.len() implies out[i].idx <= out[j].idx by {
        if j < at {
            assert(out[i] == records[i] && out[j] == records[j]);
        } else if j == at {
            if i < at {
                assert(out[i] == records[i]);
                assert(records[i].idx <= records[at - 1].idx);
            }
        } else {
            assert(out[j] == records[j - 1]);
            if i < at {
                assert(out[i] == records[i]);
            } else if i > at {
                assert(out[i] == records[i - 1]);
            }
        }
    }
}

/// Inserting adds the record and nothing else.
pub proof fn lemma_insert_adds_one(records: Seq<ImageRecordView>, record: ImageRecordView)
    ensures
        insert_by_sequence(records, record).to_multiset() == records.to_multiset().insert(record),
        insert_by_sequence(records, record).len() == records.len() + 1,
{
    lemma_insert_by_sequence_is_insert(records, record);
    vstd::seq_lib::to_multiset_insert(records, insertion_point(records, record), record);
}

/// What `sort_by_sequence` gives is sorted and holds the same records, each as
/// often as before.
pub proof fn lemma_sort_by_sequence(records: Seq<ImageRecordView>)
    ensures
        sorted_by_sequence(sort_by_sequence(records)),
        sort_by_sequence(records).to_multiset() == records.to_multiset(),
        sort_by_sequence(records).len() == records.len(),
    decreases records.len(),
{
    if records.len() == 0 {
        assert(records =~= Seq::empty());
    } else {
        let front = records.drop_last();
        lemma_sort_by_sequence(front);
        lemma_insert_keeps_sorted(sort_by_sequence(front), records.last());
        lemma_insert_adds_one(sort_by_sequence(front), records.last());
        assert(front.push(records.last()) =~= records);
        vstd::seq_lib::to_multiset_build(front, records.last());
    }
}

/// Every outcome is a success or a failure, so the two parts together are as
/// long as the sequence of outcomes.
pub proof fn lemma_outcomes_partition(outcomes: Seq<ProbeOutcomeView>)
    ensures
        successes(outcomes).len() + failure_report(outcomes).len() == outcomes.len(),
        ordered_batch(outcomes).len() + failure_report(outcomes).len() == outcomes.len(),
    decreases outcomes.len(),
{
    if outcomes.len() > 0 {
        lemma_outcomes_partition(outcomes.drop_last());
    }
    lemma_sort_by_sequence(successes(outcomes));
}

/// The successes of two runs of outcomes, one behind the other, are the
/// successes of the first followed by those of the second.
pub proof fn lemma_successes_concat(a: Seq<ProbeOutcomeView>, b: Seq<ProbeOutcomeView>)
    ensures
        successes(a + b) == successes(a) + successes(b),
    decreases b.len(),
{
    if b.len() == 0 {
        assert(a + b =~= a);
        assert(successes(a) + successes(b) =~= successes(a));
    } else {
        lemma_successes_concat(a, b.drop_last());
        assert((a + b).drop_last() =~= a + b.drop_last());
        assert((a + b).last() == b.last());
        assert(successes(a + b) =~= successes(a) + successes(b));
    }
}

/// The failures of two runs of outcomes, one behind the other, are the
/// failures of the first followed by those of the second.
pub proof fn lemma_failure_report_concat(a: Seq<ProbeOutcomeView>, b: Seq<ProbeOutcomeView>)
    ensures
        failure_report(a + b) == failure_report(a) + failure_report(b),
    decreases b.len(),
{
    if b.len() == 0 {
        assert(a + b =~= a);
        assert(failure_report(a) + failure_report(b) =~= failure_report(a));
    } else {
        lemma_failure_report_concat(a, b.drop_last());
        assert((a + b).drop_last() =~= a + b.drop_last());
        assert((a + b).last() == b.last());
        assert(failure_report(a + b) =~= failure_report(a) + failure_report(b));
    }
}

/// Every record among the successes is the record of a successful outcome.
pub proof fn lemma_success_has_outcome(outcomes: Seq<ProbeOutcomeView>, k: int)
    requires
        0 <= k < successes(outcomes).len(),
    ensures
        exists|i: int|
            0 <= i < outcomes.len() && (#[trigger] outcomes[i]).result == ProbeResultView::Success(
                successes(outcomes)[k],
            ),
    decreases outcomes.len(),
{
    let front = outcomes.drop_last();
    if k < successes(front).len() {
        lemma_success_has_outcome(front, k);
        let i = choose|i: int|
            0 <= i < front.len() && (#[trigger] front[i]).result == ProbeResultView::Success(
                successes(front)[k],
            );
        assert(outcomes[i] == front[i]);
    } else {
        assert(outcomes[outcomes.len() - 1].result == ProbeResultView::Success(
            successes(outcomes)[k],
        ));
    }
}

/// Puts `record` into the sorted `batch`, behind the records whose sequence
/// number is not greater.
fn place(batch: &mut Vec<ImageRecord>, record: ImageRecord)
    ensures
        final(batch).deep_view() == insert_by_sequence(old(batch).deep_view(), record@),
{
    let ghost before = batch.deep_view();
    let mut at: usize = batch.len();
    while at > 0 && batch[at - 1].idx > record.idx
        invariant
            at <= batch.len(),
            batch.deep_view() == before,
            forall|j: int| at <= j < before.len() ==> before[j].idx > record@.idx,
        decreases at,
    {
        assert(before[at - 1] == batch[at - 1]@);
        at = at - 1;
    }
    proof {
        if at > 0 {
            assert(before[at - 1] == batch[at - 1]@);
        }
        lemma_insert_position(before, record@, at as int);
    }
    batch.insert(at, record);
    assert(batch.deep_view() =~= before.insert(at as int, record@));
}

/// Parts the outcomes into the batch to store and the failures to report.
///
/// The batch holds the record of every successful outcome, in ascending order
/// of sequence number whatever the order of the outcomes; the report holds the
/// record of every failed outcome, in the order of the outcomes.
pub fn aggregate(outcomes: Vec<ProbeOutcome>) -> (parts: (Vec<ImageRecord>, Vec<FailureRecord>))
    ensures
        parts.0.deep_view() == ordered_batch(outcomes.deep_view()),
        parts.1.deep_view() == failure_report(outcomes.deep_view()),
        sorted_by_sequence(parts.0.deep_view()),
        parts.0.deep_view().to_multiset() == successes(outcomes.deep_view()).to_multiset(),
        parts.0.len() + parts.1.len() == outcomes.len(),
{
    let ghost all = outcomes.deep_view();
    let ghost given = outcomes@;
    let mut batch: Vec<ImageRecord> = Vec::new();
    let mut failures: Vec<FailureRecord> = Vec::new();
    for outcome in it: outcomes
        invariant
            it.seq() == given,
            all.len() == given.len(),
            forall|k: int| 0 <= k < given.len() ==> all[k] == given[k]@,
            batch.deep_view() == ordered_batch(all.take(it.index() as int)),
            failures.deep_view() == failure_report(all.take(it.index() as int)),
    {
        let ghost seen = all.take(it.index() as int);
        let ghost next = all.take(it.index() + 1);
        assert(next.drop_last() =~= seen);
        assert(next.last() == outcome@);
        match outcome.result {
            ProbeResult::Success(record) => {
                assert(successes(next).drop_last() =~= successes(seen));
                place(&mut batch, record);
            },
            ProbeResult::Failure(failure) => {
                let ghost reported = failures.deep_view();
                failures.push(failure);
                assert(failures.deep_view() =~= reported.push(failure@));
            },
        }
    }
    proof {
        assert(all.take(all.len() as int) =~= all);
        lemma_sort_by_sequence(successes(all));
        lemma_outcomes_partition(all);
    }
    (batch, failures)
}

} // verus!
