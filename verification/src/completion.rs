//! Deciding whether a milestone is completed: every current member of the
//! group must have reached the full mark.

use vstd::prelude::*;
use crate::group::{member_values, Member, MemberValue};
use crate::percent::FULL_UNITS;
use crate::store::{record_of, ProgressStore, RecordValue};

verus! {

/// Whether a member has a record for the milestone that stands at exactly one
/// hundred percent. A member without a record has not.
pub open spec fn member_complete(records: Seq<RecordValue>, milestone_id: i32, member_id: i64) -> bool {
    match record_of(records, milestone_id, member_id) {
        Some(record) => record.units == FULL_UNITS,
        None => false,
    }
}

/// How many of the members have completed their part of the milestone.
pub open spec fn completed_members(
    members: Seq<MemberValue>,
    records: Seq<RecordValue>,
    milestone_id: i32,
) -> nat
    decreases members.len(),
{
    if members.len() == 0 {
        0
    } else {
        completed_members(members.drop_last(), records, milestone_id) + if member_complete(
            records,
            milestone_id,
            members.last().member_id,
        ) {
            1nat
        } else {
            0nat
        }
    }
}

/// The rule of completion on the two counts: there is at least one member, and
/// as many members have completed their part as there are members.
pub open spec fn counts_complete(total_members: nat, completed_members: nat) -> bool {
    total_members > 0 && completed_members == total_members
}

/// Whether the current members of the group have completed the milestone
/// between them.
pub open spec fn unanimous(members: Seq<MemberValue>, records: Seq<RecordValue>, milestone_id: i32) -> bool {
    counts_complete(members.len(), completed_members(members, records, milestone_id))
}

/// No more members have completed their part than there are members.
pub proof fn lemma_completed_members_bound(
    members: Seq<MemberValue>,
    records: Seq<RecordValue>,
    milestone_id: i32,
)
    ensures
        completed_members(members, records, milestone_id) <= members.len(),
    decreases members.len(),
{
    if members.len() > 0 {
        lemma_completed_members_bound(members.drop_last(), records, milestone_id);
    }
}

/// A milestone is completed by its group if and only if the group has a
/// member and every member has a record at exactly one hundred percent. One
/// member short of that, through a missing record or a lower percentage, and
/// it is not.
pub proof fn lemma_unanimity(members: Seq<MemberValue>, records: Seq<RecordValue>, milestone_id: i32)
    ensures
        unanimous(members, records, milestone_id) <==> members.len() > 0 && forall|i: int|
            0 <= i < members.len() ==> member_complete(
                records,
                milestone_id,
                (#[trigger] members[i]).member_id,
            ),
        forall|i: int|
            0 <= i < members.len() && !member_complete(
                records,
                milestone_id,
                (#[trigger] members[i]).member_id,
            ) ==> !unanimous(members, records, milestone_id),
    decreases members.len(),
{
    if members.len() > 0 {
        let front = members.drop_last();
        lemma_unanimity(front, records, milestone_id);
        lemma_completed_members_bound(front, records, milestone_id);
        if unanimous(members, records, milestone_id) {
            assert forall|i: int| 0 <= i < members.len() implies member_complete(
                records,
                milestone_id,
                (#[trigger] members[i]).member_id,
            ) by {
                if i < front.len() {
                    assert(front[i] == members[i]);
                }
            }
        }
        if forall|i: int|
            0 <= i < members.len() ==> member_complete(
                records,
                milestone_id,
                (#[trigger] members[i]).member_id,
            ) {
            assert forall|i: int| 0 <= i < front.len() implies member_complete(
                records,
                milestone_id,
                (#[trigger] front[i]).member_id,
            ) by {}
        }
    }
}

/// Applies the rule of completion to the two counts.
pub fn should_complete(total_members: usize, completed_members: usize) -> (r: bool)
    ensures
        r == counts_complete(total_members as nat, completed_members as nat),
{
    total_members > 0 && total_members == completed_members
}

/// Counts the members that have a record for the milestone at exactly one
/// hundred percent.
pub fn count_completed_members(members: &Vec<Member>, store: &ProgressStore, milestone_id: i32) -> (r:
    usize)
    ensures
        r == completed_members(member_values(members@), store@, milestone_id),
        r <= members.len(),
{
    let ghost all = member_values(members@);
    let mut count: usize = 0;
    let mut i: usize = 0;
    while i < members.len()
        invariant
            i <= members.len(),
            all == member_values(members@),
            count == completed_members(all.take(i as int), store@, milestone_id),
            count <= i,
        decreases members.len() - i,
    {
        proof {
            assert(all.take(i + 1).drop_last() =~= all.take(i as int));
        }
        let full = match store.get(milestone_id, members[i].member_id) {
            Some(record) => record.percent_complete.is_complete(),
            None => false,
        };
        if full {
            count += 1;
        }
        i += 1;
    }
    assert(all.take(members.len() as int) =~= all);
    count
}

/// Decides whether the current members have completed the milestone between them.
pub fn is_unanimous(members: &Vec<Member>, store: &ProgressStore, milestone_id: i32) -> (r: bool)
    ensures
        r == unanimous(member_values(members@), store@, milestone_id),
{
    should_complete(members.len(), count_completed_members(members, store, milestone_id))
}

} // verus!
