//! What holds of the state of a group whatever is done to it.

use vstd::prelude::*;
use crate::completion::{completed_members, lemma_unanimity, member_complete, unanimous};
use crate::find::{first_index, lemma_first_index, lemma_first_index_is};
use crate::group::MemberValue;
use crate::group_milestones::{lemma_positions_kept, with_id, BoardValue};
use crate::json::JsonValue;
use crate::milestone::MilestoneValue;
use crate::progress::{kind_of, progress_of, Facets, Progress};
use crate::store::{keyed, lemma_upsert_lookup, record_of, upserted, RecordValue};

verus! {

/// Writing the progress of a member a second time replaces the record that
/// the first time wrote, wherever it stands.
pub proof fn lemma_upsert_twice(records: Seq<RecordValue>, first: RecordValue, second: RecordValue)
    requires
        first.milestone_id == second.milestone_id,
        first.member_id == second.member_id,
    ensures
        upserted(upserted(records, first), second) == upserted(records, second),
{
    let wanted = keyed(first.milestone_id, first.member_id);
    let i = first_index(records, wanted);
    let once = upserted(records, first);
    lemma_first_index(records, wanted);
    assert forall|j: int| 0 <= j < i implies !wanted(#[trigger] once[j]) by {}
    lemma_first_index_is(once, wanted, i);
}

/// Evaluating a milestone never takes completion back: whatever the progress
/// records say by now, a milestone that is completed stays exactly as it is,
/// with the time at which it was completed. Every other milestone is left
/// alone too.
pub proof fn lemma_evaluation_keeps_completed(board: BoardValue, milestone_id: i32, now: i64)
    ensures
        board.evaluated(milestone_id, now).milestones.len() == board.milestones.len(),
        board.evaluated(milestone_id, now).members == board.members,
        board.evaluated(milestone_id, now).progress == board.progress,
        forall|k: int|
            0 <= k < board.milestones.len() && (#[trigger] board.milestones[k]).completed
                ==> board.evaluated(milestone_id, now).milestones[k] == board.milestones[k],
        forall|k: int|
            0 <= k < board.milestones.len() && k != board.position(milestone_id)
                ==> board.evaluated(milestone_id, now).milestones[k]
                == #[trigger] board.milestones[k],
{
    lemma_first_index(board.milestones, with_id(milestone_id));
}

/// The rule of completion: after the evaluation a milestone of the group is
/// completed if and only if it was completed before, or the group has a
/// member and every member has a record for the milestone at exactly one
/// hundred percent.
pub proof fn lemma_completion_rule(board: BoardValue, milestone_id: i32, now: i64)
    requires
        board.has_milestone(milestone_id),
    ensures
        board.evaluated(milestone_id, now).milestones[board.position(milestone_id)].completed <==> (
        board.milestones[board.position(milestone_id)].completed || (board.members.len() > 0
            && forall|i: int|
            0 <= i < board.members.len() ==> member_complete(
                board.progress,
                milestone_id,
                (#[trigger] board.members[i]).member_id,
            ))),
{
    lemma_first_index(board.milestones, with_id(milestone_id));
    lemma_unanimity(board.members, board.progress, milestone_id);
}

/// Recording the same progress of a member toward a milestone a second time
/// changes nothing but the time of the record: the detail and the percentage
/// that are stored are those of the first time, and the milestone is not
/// completed a second time, so the time of its completion stays. At one and
/// the same time, the second recording changes nothing at all.
pub proof fn lemma_recording_twice(
    board: BoardValue,
    milestone_id: i32,
    member_id: i64,
    detail: JsonValue,
    units: nat,
    first_time: i64,
    second_time: i64,
)
    ensures
        ({
            let once = board.progress_recorded(milestone_id, member_id, detail, units, first_time);
            let twice = once.progress_recorded(milestone_id, member_id, detail, units, second_time);
            &&& twice.members == once.members
            &&& twice.milestones == once.milestones
            &&& twice.progress == upserted(
                board.progress,
                RecordValue { milestone_id, member_id, detail, units, last_updated: second_time },
            )
            &&& first_time == second_time ==> twice == once
        }),
{
    let first = RecordValue { milestone_id, member_id, detail, units, last_updated: first_time };
    let second = RecordValue { milestone_id, member_id, detail, units, last_updated: second_time };
    let written = BoardValue { progress: upserted(board.progress, first), ..board };
    let once = written.evaluated(milestone_id, first_time);
    let rewritten = BoardValue { progress: upserted(once.progress, second), ..once };
    let twice = rewritten.evaluated(milestone_id, second_time);
    lemma_upsert_twice(board.progress, first, second);
    lemma_first_index(board.milestones, with_id(milestone_id));
    lemma_first_index(once.milestones, with_id(milestone_id));
    lemma_positions_kept(board.milestones, once.milestones, milestone_id);
    assert forall|m: i64|
        member_complete(once.progress, milestone_id, m)
            == member_complete(rewritten.progress, milestone_id, m) by {
        lemma_upsert_lookup(board.progress, first, milestone_id, m);
        lemma_upsert_lookup(board.progress, second, milestone_id, m);
    }
    lemma_same_units_same_verdict(once.progress, rewritten.progress, board.members, milestone_id);
}

/// Records that agree on the percentage of every member for a milestone give
/// the same verdict on its completion.
pub proof fn lemma_same_units_same_verdict(
    before: Seq<RecordValue>,
    after: Seq<RecordValue>,
    members: Seq<MemberValue>,
    milestone_id: i32,
)
    requires
        forall|member_id: i64|
            member_complete(before, milestone_id, member_id)
                == member_complete(after, milestone_id, member_id),
    ensures
        completed_members(members, before, milestone_id)
            == completed_members(members, after, milestone_id),
        unanimous(members, before, milestone_id) == unanimous(members, after, milestone_id),
    decreases members.len(),
{
    if members.len() > 0 {
        lemma_same_units_same_verdict(before, after, members.drop_last(), milestone_id);
    }
}

/// Whether two records hold the same progress: they are for the same
/// milestone and member and agree on detail and percentage. The times at
/// which they were written may differ.
pub open spec fn same_progress(a: RecordValue, b: RecordValue) -> bool {
    a.milestone_id == b.milestone_id && a.member_id == b.member_id && a.detail == b.detail
        && a.units == b.units
}

/// Whether two stores hold the same progress, record by record.
pub open spec fn same_records(a: Seq<RecordValue>, b: Seq<RecordValue>) -> bool {
    a.len() == b.len() && forall|i: int| 0 <= i < a.len() ==> same_progress(#[trigger] a[i], b[i])
}

/// The progress that a snapshot yields toward a milestone.
pub open spec fn computed(milestone: MilestoneValue, facets: Facets) -> Progress {
    progress_of(kind_of(milestone.milestone_type), milestone.target_data, facets)
}

/// Whether two milestones are the same but for their completion.
pub open spec fn same_goal(a: MilestoneValue, b: MilestoneValue) -> bool {
    b == (MilestoneValue { completed: b.completed, completed_at: b.completed_at, ..a })
}

/// Whether the milestone at position `k` needs nothing more from a snapshot
/// that was applied at the time `time`: it is completed, or the member's
/// record holds what the snapshot yields and the milestone is not completed
/// by the group.
pub open spec fn settled_at(
    board: BoardValue,
    k: int,
    member_id: i64,
    facets: Facets,
    time: i64,
) -> bool {
    let milestone = board.milestones[k];
    milestone.completed || match milestone.milestone_id {
        Some(id) => record_of(board.progress, id, member_id) == Some(
            RecordValue {
                milestone_id: id,
                member_id,
                detail: computed(milestone, facets).detail,
                units: computed(milestone, facets).units as nat,
                last_updated: time,
            },
        ) && !unanimous(board.members, board.progress, id),
        None => false,
    }
}

/// Whether `now` is a state on the way from `start` through the milestones,
/// the first `k` of them done: the members are those of the start, every
/// milestone is the same but for its completion, the milestones that were
/// completed and those that are still to come are as they were, and the
/// first `k` are settled. Every milestone has a time of completion exactly
/// while it is completed.
pub open spec fn on_the_way(
    start: BoardValue,
    now: BoardValue,
    k: int,
    member_id: i64,
    facets: Facets,
    time: i64,
) -> bool {
    &&& now.members == start.members
    &&& now.milestones.len() == start.milestones.len()
    &&& forall|j: int|
        0 <= j < start.milestones.len() ==> same_goal(
            start.milestones[j],
            #[trigger] now.milestones[j],
        )
    &&& forall|j: int|
        0 <= j < start.milestones.len() && (j >= k || start.milestones[j].completed)
            ==> #[trigger] now.milestones[j] == start.milestones[j]
    &&& forall|j: int| 0 <= j < k ==> settled_at(now, j, member_id, facets, time)
    &&& forall|j: int|
        0 <= j < start.milestones.len() ==> (#[trigger] now.milestones[j]).consistent()
}

/// Stores that hold the same progress find the record of a pair at the same
/// place, and give every member the same standing.
pub proof fn lemma_same_records_lookup(
    a: Seq<RecordValue>,
    b: Seq<RecordValue>,
    milestone_id: i32,
    member_id: i64,
)
    requires
        same_records(a, b),
    ensures
        first_index(a, keyed(milestone_id, member_id)) == first_index(
            b,
            keyed(milestone_id, member_id),
        ),
        member_complete(a, milestone_id, member_id) == member_complete(b, milestone_id, member_id),
{
    let wanted = keyed(milestone_id, member_id);
    let i = first_index(b, wanted);
    lemma_first_index(b, wanted);
    assert forall|j: int| 0 <= j < i implies !wanted(#[trigger] a[j]) by {}
    lemma_first_index_is(a, wanted, i);
}

/// Stores that hold the same progress give the same verdict on a milestone.
pub proof fn lemma_same_records_verdict(
    a: Seq<RecordValue>,
    b: Seq<RecordValue>,
    members: Seq<MemberValue>,
    milestone_id: i32,
)
    requires
        same_records(a, b),
    ensures
        unanimous(members, a, milestone_id) == unanimous(members, b, milestone_id),
{
    assert forall|m: i64|
        member_complete(a, milestone_id, m) == member_complete(b, milestone_id, m) by {
        lemma_same_records_lookup(a, b, milestone_id, m);
    }
    lemma_same_units_same_verdict(a, b, members, milestone_id);
}

/// Writing a record for one milestone changes the verdict on no other.
pub proof fn lemma_upsert_elsewhere(
    records: Seq<RecordValue>,
    record: RecordValue,
    members: Seq<MemberValue>,
    milestone_id: i32,
)
    requires
        record.milestone_id != milestone_id,
    ensures
        unanimous(members, upserted(records, record), milestone_id) == unanimous(
            members,
            records,
            milestone_id,
        ),
{
    assert forall|m: i64|
        member_complete(upserted(records, record), milestone_id, m) == member_complete(
            records,
            milestone_id,
            m,
        ) by {
        lemma_upsert_lookup(records, record, milestone_id, m);
    }
    lemma_same_units_same_verdict(upserted(records, record), records, members, milestone_id);
}

/// Where every milestone has an identity of its own, the milestone at a
/// position is found at that position.
pub proof fn lemma_found_in_place(start: BoardValue, now: BoardValue, k: int)
    requires
        start.consistent(),
        now.milestones.len() == start.milestones.len(),
        forall|j: int|
            0 <= j < start.milestones.len() ==> same_goal(
                start.milestones[j],
                #[trigger] now.milestones[j],
            ),
        0 <= k < start.milestones.len(),
    ensures
        start.milestones[k].milestone_id is Some,
        now.position(start.milestones[k].milestone_id->0) == k,
{
    let id = start.milestones[k].milestone_id->0;
    assert forall|j: int| 0 <= j < k implies !with_id(id)(#[trigger] now.milestones[j]) by {}
    lemma_first_index_is(now.milestones, with_id(id), k);
}

/// Applying a snapshot to the milestones that are still to come settles
/// every milestone.
pub proof fn lemma_settles(
    start: BoardValue,
    now: BoardValue,
    k: int,
    member_id: i64,
    facets: Facets,
    time: i64,
)
    requires
        start.consistent(),
        0 <= k <= start.milestones.len(),
        on_the_way(start, now, k, member_id, facets, time),
    ensures
        on_the_way(
            start,
            now.applied(start.milestones.skip(k), member_id, facets, time),
            start.milestones.len() as int,
            member_id,
            facets,
            time,
        ),
    decreases start.milestones.len() - k,
{
    let remaining = start.milestones.skip(k);
    if k < start.milestones.len() {
        let milestone = remaining[0];
        assert(remaining.drop_first() =~= start.milestones.skip(k + 1));
        let next = now.applied_to(milestone, member_id, facets, time);
        lemma_found_in_place(start, now, k);
        let id = milestone.milestone_id->0;
        if !milestone.completed {
            let progress = computed(milestone, facets);
            let record = RecordValue {
                milestone_id: id,
                member_id,
                detail: progress.detail,
                units: progress.units as nat,
                last_updated: time,
            };
            assert forall|j: int| 0 <= j < start.milestones.len() implies same_goal(
                start.milestones[j],
                #[trigger] next.milestones[j],
            ) by {}
            assert forall|j: int|
                0 <= j < start.milestones.len() && (j >= k + 1
                    || start.milestones[j].completed) implies #[trigger] next.milestones[j]
                == start.milestones[j] by {}
            assert forall|j: int| 0 <= j < start.milestones.len() implies (
            #[trigger] next.milestones[j]).consistent() by {}
            assert forall|j: int| 0 <= j < k + 1 implies settled_at(
                next,
                j,
                member_id,
                facets,
                time,
            ) by {
                if j < k {
                    assert(settled_at(now, j, member_id, facets, time));
                    if !now.milestones[j].completed {
                        let other = now.milestones[j].milestone_id->0;
                        lemma_upsert_lookup(now.progress, record, other, member_id);
                        lemma_upsert_elsewhere(now.progress, record, now.members, other);
                    }
                } else {
                    lemma_upsert_lookup(now.progress, record, id, member_id);
                }
            }
        }
        lemma_settles(start, next, k + 1, member_id, facets, time);
    }
}

/// Applying a snapshot again to a state in which every milestone is settled
/// changes nothing but the times of the records.
pub proof fn lemma_settled_stays(
    settled: BoardValue,
    now: BoardValue,
    k: int,
    member_id: i64,
    facets: Facets,
    first_time: i64,
    second_time: i64,
)
    requires
        settled.consistent(),
        forall|j: int|
            0 <= j < settled.milestones.len() ==> settled_at(
                settled,
                j,
                member_id,
                facets,
                first_time,
            ),
        0 <= k <= settled.milestones.len(),
        now.members == settled.members,
        now.milestones == settled.milestones,
        same_records(now.progress, settled.progress),
        first_time == second_time ==> now.progress == settled.progress,
    ensures
        ({
            let after = now.applied(settled.milestones.skip(k), member_id, facets, second_time);
            &&& after.members == settled.members
            &&& after.milestones == settled.milestones
            &&& same_records(after.progress, settled.progress)
            &&& first_time == second_time ==> after.progress == settled.progress
        }),
    decreases settled.milestones.len() - k,
{
    let remaining = settled.milestones.skip(k);
    if k < settled.milestones.len() {
        let milestone = remaining[0];
        assert(remaining.drop_first() =~= settled.milestones.skip(k + 1));
        let next = now.applied_to(milestone, member_id, facets, second_time);
        assert(settled_at(settled, k, member_id, facets, first_time));
        if !milestone.completed {
            let id = milestone.milestone_id->0;
            let progress = computed(milestone, facets);
            let record = RecordValue {
                milestone_id: id,
                member_id,
                detail: progress.detail,
                units: progress.units as nat,
                last_updated: second_time,
            };
            let wanted = keyed(id, member_id);
            lemma_first_index(settled.progress, wanted);
            lemma_same_records_lookup(now.progress, settled.progress, id, member_id);
            let rewritten = upserted(now.progress, record);
            assert(same_records(rewritten, settled.progress)) by {
                assert forall|j: int| 0 <= j < rewritten.len() implies same_progress(
                    #[trigger] rewritten[j],
                    settled.progress[j],
                ) by {}
            }
            if first_time == second_time {
                assert(rewritten =~= settled.progress);
            }
            lemma_same_records_verdict(rewritten, settled.progress, settled.members, id);
        }
        lemma_settled_stays(settled, next, k + 1, member_id, facets, first_time, second_time);
    }
}

/// Applying the same snapshot of a member's state a second time changes
/// nothing but the times of the member's records: every record holds the
/// detail and the percentage that it held, and no milestone is completed a
/// second time. At one and the same time, the second application changes
/// nothing at all.
pub proof fn lemma_snapshot_twice(
    board: BoardValue,
    member_id: i64,
    facets: Facets,
    first_time: i64,
    second_time: i64,
)
    requires
        board.consistent(),
    ensures
        ({
            let once = board.snapshot_applied(member_id, facets, first_time);
            let twice = once.snapshot_applied(member_id, facets, second_time);
            &&& twice.members == once.members
            &&& twice.milestones == once.milestones
            &&& same_records(twice.progress, once.progress)
            &&& first_time == second_time ==> twice == once
        }),
{
    let once = board.snapshot_applied(member_id, facets, first_time);
    assert(board.milestones.skip(0) =~= board.milestones);
    assert forall|j: int| 0 <= j < board.milestones.len() implies same_goal(
        board.milestones[j],
        #[trigger] board.milestones[j],
    ) by {}
    lemma_settles(board, board, 0, member_id, facets, first_time);
    lemma_snapshot_keeps_form(board, member_id, facets, first_time);
    assert(once.milestones.skip(0) =~= once.milestones);
    lemma_settled_stays(once, once, 0, member_id, facets, first_time, second_time);
}

/// Applying a snapshot leaves a consistent state consistent. It changes no
/// member and no milestone but for the completion of milestones that were not
/// completed: a milestone that is completed stays exactly as it is.
pub proof fn lemma_snapshot_keeps_form(
    board: BoardValue,
    member_id: i64,
    facets: Facets,
    time: i64,
)
    requires
        board.consistent(),
    ensures
        ({
            let after = board.snapshot_applied(member_id, facets, time);
            &&& after.consistent()
            &&& after.members == board.members
            &&& after.milestones.len() == board.milestones.len()
            &&& forall|j: int|
                0 <= j < board.milestones.len() ==> same_goal(
                    board.milestones[j],
                    #[trigger] after.milestones[j],
                )
            &&& forall|j: int|
                0 <= j < board.milestones.len() && board.milestones[j].completed
                    ==> #[trigger] after.milestones[j] == board.milestones[j]
        }),
{
    let after = board.snapshot_applied(member_id, facets, time);
    assert(board.milestones.skip(0) =~= board.milestones);
    assert forall|j: int| 0 <= j < board.milestones.len() implies same_goal(
        board.milestones[j],
        #[trigger] board.milestones[j],
    ) by {}
    lemma_settles(board, board, 0, member_id, facets, time);
    lemma_applied_keeps_records(board, board, 0, member_id, facets, time);
    assert forall|i: int| 0 <= i < after.milestones.len() implies (
    #[trigger] after.milestones[i]).milestone_id is Some && after.milestones[i].consistent() by {}
    assert forall|i: int, j: int| 0 <= i < j < after.milestones.len() implies (
    #[trigger] after.milestones[i]).milestone_id != (#[trigger] after.milestones[j]).milestone_id by {}
    assert forall|r: int| 0 <= r < after.progress.len() implies after.has_milestone(
        (#[trigger] after.progress[r]).milestone_id,
    ) by {
        let id = after.progress[r].milestone_id;
        lemma_first_index(board.milestones, with_id(id));
        let at = board.position(id);
        crate::group_milestones::lemma_position_found(after.milestones, id, at);
    }
}

/// Every record that a snapshot leaves behind is for a milestone of the group.
pub proof fn lemma_applied_keeps_records(
    start: BoardValue,
    now: BoardValue,
    k: int,
    member_id: i64,
    facets: Facets,
    time: i64,
)
    requires
        start.consistent(),
        0 <= k <= start.milestones.len(),
        forall|r: int|
            0 <= r < now.progress.len() ==> start.has_milestone(
                (#[trigger] now.progress[r]).milestone_id,
            ),
    ensures
        forall|r: int|
            0 <= r < now.applied(
                start.milestones.skip(k),
                member_id,
                facets,
                time,
            ).progress.len() ==> start.has_milestone(
                (#[trigger] now.applied(
                    start.milestones.skip(k),
                    member_id,
                    facets,
                    time,
                ).progress[r]).milestone_id,
            ),
    decreases start.milestones.len() - k,
{
    let remaining = start.milestones.skip(k);
    if k < start.milestones.len() {
        let milestone = remaining[0];
        assert(remaining.drop_first() =~= start.milestones.skip(k + 1));
        let next = now.applied_to(milestone, member_id, facets, time);
        if !milestone.completed {
            let id = milestone.milestone_id->0;
            crate::group_milestones::lemma_position_found(start.milestones, id, k);
            lemma_first_index(now.progress, keyed(id, member_id));
            assert forall|r: int| 0 <= r < next.progress.len() implies start.has_milestone(
                (#[trigger] next.progress[r]).milestone_id,
            ) by {}
        }
        lemma_applied_keeps_records(start, next, k + 1, member_id, facets, time);
    }
}

} // verus!
