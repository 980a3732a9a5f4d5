//! The progress store: one record for each pair of milestone and member.

use vstd::prelude::*;
use crate::find::{first_index, first_match, lemma_first_index, lemma_first_index_is};
use crate::json::{Json, JsonValue};
use crate::percent::{Percent, FULL_UNITS};

verus! {

/// The progress of one member toward one milestone.
#[derive(Debug, PartialEq, Eq)]
pub struct ProgressRecord {
    pub milestone_id: i32,
    pub member_id: i64,
    /// The detail from which the percentage was computed, kept for display.
    pub current_progress: Json,
    pub percent_complete: Percent,
    /// When the record was last written.
    pub last_updated: i64,
}

/// The content of a progress record; `units` is the percentage in millionths
/// of a percentage point.
pub struct RecordValue {
    pub milestone_id: i32,
    pub member_id: i64,
    pub detail: JsonValue,
    pub units: nat,
    pub last_updated: i64,
}

impl View for ProgressRecord {
    type V = RecordValue;

    open spec fn view(&self) -> RecordValue {
        RecordValue {
            milestone_id: self.milestone_id,
            member_id: self.member_id,
            detail: self.current_progress@,
            units: self.percent_complete.value(),
            last_updated: self.last_updated,
        }
    }
}

/// The contents of a sequence of records.
pub open spec fn record_values(records: Seq<ProgressRecord>) -> Seq<RecordValue> {
    Seq::new(records.len(), |i: int| records[i]@)
}

/// Whether a record is that of the given milestone and member.
pub open spec fn keyed(milestone_id: i32, member_id: i64) -> spec_fn(RecordValue) -> bool {
    |r: RecordValue| r.milestone_id == milestone_id && r.member_id == member_id
}

/// The record of a member for a milestone. A missing record stands for no
/// progress at all.
pub open spec fn record_of(records: Seq<RecordValue>, milestone_id: i32, member_id: i64) -> Option<
    RecordValue,
> {
    first_match(records, keyed(milestone_id, member_id))
}

/// The records after `record` has been written: it takes the place of the
/// record with its milestone and member, or comes last where there was none.
pub open spec fn upserted(records: Seq<RecordValue>, record: RecordValue) -> Seq<RecordValue> {
    let i = first_index(records, keyed(record.milestone_id, record.member_id));
    if i < records.len() {
        records.update(i, record)
    } else {
        records.push(record)
    }
}

/// The records that remain once those of a milestone are gone.
pub open spec fn without_milestone(records: Seq<RecordValue>, milestone_id: i32) -> Seq<RecordValue> {
    records.filter(|r: RecordValue| r.milestone_id != milestone_id)
}

/// No two records are for the same milestone and member.
pub open spec fn distinct_keys(records: Seq<RecordValue>) -> bool {
    forall|i: int, j: int|
        0 <= i < j < records.len() ==> !(#[trigger] records[i].milestone_id
            == #[trigger] records[j].milestone_id && records[i].member_id == records[j].member_id)
}

/// Every percentage lies between 0 and 100.
pub open spec fn percentages_in_range(records: Seq<RecordValue>) -> bool {
    forall|i: int| 0 <= i < records.len() ==> (#[trigger] records[i]).units <= FULL_UNITS
}

/// After a record has been written, it is the record of its milestone and
/// member, and every other pair has the record that it had.
pub proof fn lemma_upsert_lookup(
    records: Seq<RecordValue>,
    record: RecordValue,
    milestone_id: i32,
    member_id: i64,
)
    ensures
        record_of(upserted(records, record), milestone_id, member_id) == if milestone_id
            == record.milestone_id && member_id == record.member_id {
            Some(record)
        } else {
            record_of(records, milestone_id, member_id)
        },
{
    let written = keyed(record.milestone_id, record.member_id);
    let wanted = keyed(milestone_id, member_id);
    let i = first_index(records, written);
    let p = first_index(records, wanted);
    let after = upserted(records, record);
    lemma_first_index(records, written);
    lemma_first_index(records, wanted);
    if milestone_id == record.milestone_id && member_id == record.member_id {
        assert forall|j: int| 0 <= j < i implies !wanted(#[trigger] after[j]) by {}
        lemma_first_index_is(after, wanted, i);
    } else {
        assert forall|j: int| 0 <= j < p implies !wanted(#[trigger] after[j]) by {}
        if p == records.len() && after.len() > records.len() {
            lemma_first_index_is(after, wanted, p + 1);
        } else {
            lemma_first_index_is(after, wanted, p);
        }
    }
}

/// Writing a record with a percentage in range keeps the records in form.
pub proof fn lemma_upsert_keeps_form(records: Seq<RecordValue>, record: RecordValue)
    requires
        distinct_keys(records),
        percentages_in_range(records),
        record.units <= FULL_UNITS,
    ensures
        distinct_keys(upserted(records, record)),
        percentages_in_range(upserted(records, record)),
{
    let wanted = keyed(record.milestone_id, record.member_id);
    let after = upserted(records, record);
    lemma_first_index(records, wanted);
    assert forall|a: int, b: int| 0 <= a < b < after.len() implies !(#[trigger] after[a].milestone_id
        == #[trigger] after[b].milestone_id && after[a].member_id == after[b].member_id) by {}
    assert forall|k: int| 0 <= k < after.len() implies (#[trigger] after[k]).units
        <= FULL_UNITS by {}
}

/// Dropping the records of a milestone keeps the records in form.
pub proof fn lemma_without_milestone_keeps_form(records: Seq<RecordValue>, milestone_id: i32)
    requires
        distinct_keys(records),
        percentages_in_range(records),
    ensures
        distinct_keys(without_milestone(records, milestone_id)),
        percentages_in_range(without_milestone(records, milestone_id)),
        forall|i: int|
            0 <= i < without_milestone(records, milestone_id).len() ==> (
            #[trigger] without_milestone(records, milestone_id)[i]).milestone_id != milestone_id,
    decreases records.len(),
{
    let keep = |r: RecordValue| r.milestone_id != milestone_id;
    let after = records.filter(keep);
    if records.len() > 0 {
        let front = records.drop_last();
        let last = records.last();
        assert(front.push(last) =~= records);
        lemma_without_milestone_keeps_form(front, milestone_id);
        Seq::lemma_filter_push(front, last, keep);
        let before = front.filter(keep);
        if keep(last) {
            assert forall|a: int, b: int| 0 <= a < b < after.len() implies !(
            #[trigger] after[a].milestone_id == #[trigger] after[b].milestone_id
                && after[a].member_id == after[b].member_id) by {
                if b == after.len() - 1 {
                    front.lemma_filter_contains_rev(keep, before[a]);
                    let k = choose|k: int| 0 <= k < front.len() && front[k] == before[a];
                    assert(records[k] == before[a]);
                }
            }
        }
    } else {
        assert(after.len() == 0) by {
            records.lemma_filter_len(keep);
        }
    }
}

/// The progress records of a group.
#[derive(Debug, PartialEq, Eq)]
pub struct ProgressStore {
    records: Vec<ProgressRecord>,
}

impl View for ProgressStore {
    type V = Seq<RecordValue>;

    closed spec fn view(&self) -> Seq<RecordValue> {
        record_values(self.records@)
    }
}

impl ProgressStore {
    /// At most one record for each pair of milestone and member, and every
    /// percentage in range.
    pub open spec fn well_formed(self) -> bool {
        distinct_keys(self@) && percentages_in_range(self@)
    }

    /// A store without records.
    pub fn new() -> (r: ProgressStore)
        ensures
            r@ == Seq::<RecordValue>::empty(),
            r.well_formed(),
    {
        ProgressStore { records: Vec::new() }
    }

    /// The number of records.
    pub fn len(&self) -> (r: usize)
        ensures
            r == self@.len(),
    {
        self.records.len()
    }

    /// The record at position `i`.
    pub fn record(&self, i: usize) -> (r: &ProgressRecord)
        requires
            i < self@.len(),
        ensures
            r@ == self@[i as int],
    {
        &self.records[i]
    }

    fn position(&self, milestone_id: i32, member_id: i64) -> (r: usize)
        ensures
            r == first_index(self@, keyed(milestone_id, member_id)),
            r <= self@.len(),
    {
        let ghost wanted = keyed(milestone_id, member_id);
        let mut i: usize = 0;
        while i < self.records.len()
            invariant
                i <= self.records.len(),
                wanted == keyed(milestone_id, member_id),
                forall|j: int| 0 <= j < i ==> !wanted(#[trigger] self@[j]),
            decreases self.records.len() - i,
        {
            if self.records[i].milestone_id == milestone_id && self.records[i].member_id
                == member_id {
                proof {
                    lemma_first_index_is(self@, wanted, i as int);
                }
                return i;
            }
            i += 1;
        }
        proof {
            lemma_first_index_is(self@, wanted, i as int);
        }
        i
    }

    /// The record of a member for a milestone.
    pub fn get(&self, milestone_id: i32, member_id: i64) -> (r: Option<&ProgressRecord>)
        ensures
            match r {
                Some(record) => record_of(self@, milestone_id, member_id) == Some(record@),
                None => record_of(self@, milestone_id, member_id) is None,
            },
    {
        let i = self.position(milestone_id, member_id);
        if i < self.records.len() {
            Some(&self.records[i])
        } else {
            None
        }
    }

    /// Removes every record of a milestone.
    pub fn remove_milestone(&mut self, milestone_id: i32)
        requires
            old(self).well_formed(),
        ensures
            final(self)@ == without_milestone(old(self)@, milestone_id),
            final(self).well_formed(),
    {
        let ghost keep = |r: RecordValue| r.milestone_id != milestone_id;
        let ghost before = self@;
        let ghost mut k: int = 0;
        let mut i: usize = 0;
        proof {
            assert(before.take(0).filter(keep) =~= Seq::<RecordValue>::empty()) by {
                before.take(0).lemma_filter_len(keep);
            }
        }
        while i < self.records.len()
            invariant
                keep == (|r: RecordValue| r.milestone_id != milestone_id),
                0 <= k <= before.len(),
                i <= self.records.len(),
                self.records.len() - i == before.len() - k,
                self@.take(i as int) == before.take(k).filter(keep),
                self@.skip(i as int) == before.skip(k),
            decreases before.len() - k,
        {
            let ghost now = self@;
            proof {
                assert(before[k] == before.skip(k)[0]);
                assert(before.take(k + 1) =~= before.take(k).push(before[k]));
                Seq::lemma_filter_push(before.take(k), before[k], keep);
            }
            if self.records[i].milestone_id == milestone_id {
                self.records.remove(i);
                proof {
                    let behind = self@.skip(i as int);
                    assert forall|j: int| 0 <= j < behind.len() implies #[trigger] behind[j]
                        == before.skip(k + 1)[j] by {
                        assert(now.skip(i as int)[j + 1] == before.skip(k)[j + 1]);
                    }
                }
            } else {
                proof {
                    let behind = now.skip(i + 1);
                    assert forall|j: int| 0 <= j < behind.len() implies #[trigger] behind[j]
                        == before.skip(k + 1)[j] by {
                        assert(now.skip(i as int)[j + 1] == before.skip(k)[j + 1]);
                    }
                }
                i += 1;
            }
            proof {
                k = k + 1;
            }
        }
        proof {
            assert(before.take(k) =~= before);
            lemma_without_milestone_keeps_form(before, milestone_id);
        }
    }

    /// Writes the progress of a member toward a milestone at the time `now`:
    /// a new record where the pair had none, else the pair's record with its
    /// detail, percentage and time replaced.
    pub fn upsert(
        &mut self,
        milestone_id: i32,
        member_id: i64,
        current_progress: Json,
        percent_complete: Percent,
        now: i64,
    )
        requires
            old(self).well_formed(),
        ensures
            final(self)@ == upserted(
                old(self)@,
                RecordValue {
                    milestone_id,
                    member_id,
                    detail: current_progress@,
                    units: percent_complete.value(),
                    last_updated: now,
                },
            ),
            final(self).well_formed(),
    {
        proof {
            use_type_invariant(&percent_complete);
            lemma_first_index(self@, keyed(milestone_id, member_id));
            lemma_upsert_keeps_form(
                self@,
                RecordValue {
                    milestone_id,
                    member_id,
                    detail: current_progress@,
                    units: percent_complete.value(),
                    last_updated: now,
                },
            );
        }
        let i = self.position(milestone_id, member_id);
        let record = ProgressRecord {
            milestone_id,
            member_id,
            current_progress,
            percent_complete,
            last_updated: now,
        };
        if i < self.records.len() {
            self.records.set(i, record);
        } else {
            self.records.push(record);
        }
    }
}

} // verus!
