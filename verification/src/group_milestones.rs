//! The milestones of one group, the progress of its members toward them, and
//! the operations that change them.

use vstd::prelude::*;
use vstd::string::StringExecFns;
use crate::completion::{is_unanimous, unanimous};
use crate::error::ApiError;
use crate::find::{first_index, lemma_first_index, lemma_first_index_is};
use crate::group::{get_member_id, member_id_of, member_values, Member, MemberValue};
use crate::json::{Json, JsonValue};
use crate::milestone::{GroupMilestone, MilestoneValue};
use crate::percent::Percent;
use crate::progress::{facets_of, kind_of, milestone_kind, progress_of, read_snapshot, snapshot_progress, Facets, GroupMember};
use crate::store::{upserted, without_milestone, ProgressStore, RecordValue};

verus! {

/// The contents of a sequence of milestones.
pub open spec fn milestone_values(milestones: Seq<GroupMilestone>) -> Seq<MilestoneValue> {
    Seq::new(milestones.len(), |i: int| milestones[i]@)
}

/// Whether a milestone has the given identity.
pub open spec fn with_id(milestone_id: i32) -> spec_fn(MilestoneValue) -> bool {
    |m: MilestoneValue| m.milestone_id == Some(milestone_id)
}

/// The state of a group: its current members, its milestones and the progress
/// records of its milestones.
pub struct BoardValue {
    pub members: Seq<MemberValue>,
    pub milestones: Seq<MilestoneValue>,
    pub progress: Seq<RecordValue>,
}

impl BoardValue {
    /// The position of the milestone with the given identity among the
    /// milestones; their number where the group has no such milestone.
    pub open spec fn position(self, milestone_id: i32) -> int {
        first_index(self.milestones, with_id(milestone_id))
    }

    /// Whether the milestone belongs to the group.
    pub open spec fn has_milestone(self, milestone_id: i32) -> bool {
        self.position(milestone_id) < self.milestones.len()
    }

    /// Every milestone has an identity of its own and a time of completion
    /// exactly while it is completed; every progress record is that of a
    /// milestone of the group.
    pub open spec fn consistent(self) -> bool {
        &&& forall|i: int|
            0 <= i < self.milestones.len() ==> (#[trigger] self.milestones[i]).milestone_id is Some
                && self.milestones[i].consistent()
        &&& forall|i: int, j: int|
            0 <= i < j < self.milestones.len() ==> (#[trigger] self.milestones[i]).milestone_id != (
            #[trigger] self.milestones[j]).milestone_id
        &&& forall|k: int|
            0 <= k < self.progress.len() ==> self.has_milestone(
                (#[trigger] self.progress[k]).milestone_id,
            )
    }

    /// The state after the completion of a milestone has been evaluated at the
    /// time `now`: the milestone becomes completed where it was not and the
    /// members have completed it between them; everything else stays.
    pub open spec fn evaluated(self, milestone_id: i32, now: i64) -> BoardValue {
        let i = self.position(milestone_id);
        if i < self.milestones.len() && unanimous(self.members, self.progress, milestone_id) {
            BoardValue {
                milestones: self.milestones.update(i, self.milestones[i].completed_at_time(now)),
                ..self
            }
        } else {
            self
        }
    }

    /// The state after the status of a milestone has been set by hand.
    pub open spec fn status_set(self, milestone_id: i32, completed: bool, now: i64) -> BoardValue {
        let i = self.position(milestone_id);
        BoardValue {
            milestones: self.milestones.update(i, self.milestones[i].with_status(completed, now)),
            ..self
        }
    }

    /// The state after the progress of a member toward a milestone has been
    /// written at the time `now` and the milestone's completion evaluated.
    pub open spec fn progress_recorded(
        self,
        milestone_id: i32,
        member_id: i64,
        detail: JsonValue,
        units: nat,
        now: i64,
    ) -> BoardValue {
        BoardValue {
            progress: upserted(
                self.progress,
                RecordValue { milestone_id, member_id, detail, units, last_updated: now },
            ),
            ..self
        }.evaluated(milestone_id, now)
    }

    /// The state after the progress of a member has been written without
    /// evaluating anything.
    pub open spec fn progress_restored(self, record: RecordValue) -> BoardValue {
        BoardValue { progress: upserted(self.progress, record), ..self }
    }

    /// The state after a snapshot of a member's state has been applied to the
    /// milestones `remaining`, one after the other: for each of them that is not
    /// completed, the member's progress is computed from the snapshot and
    /// recorded.
    pub open spec fn applied(
        self,
        remaining: Seq<MilestoneValue>,
        member_id: i64,
        facets: Facets,
        now: i64,
    ) -> BoardValue
        decreases remaining.len(),
    {
        if remaining.len() == 0 {
            self
        } else {
            self.applied_to(remaining[0], member_id, facets, now).applied(
                remaining.drop_first(),
                member_id,
                facets,
                now,
            )
        }
    }

    /// The state after a snapshot has been applied to one milestone.
    pub open spec fn applied_to(
        self,
        milestone: MilestoneValue,
        member_id: i64,
        facets: Facets,
        now: i64,
    ) -> BoardValue {
        match milestone.milestone_id {
            Some(id) => if milestone.completed {
                self
            } else {
                let progress = progress_of(
                    kind_of(milestone.milestone_type),
                    milestone.target_data,
                    facets,
                );
                self.progress_recorded(id, member_id, progress.detail, progress.units as nat, now)
            },
            None => self,
        }
    }

    /// The state after a snapshot of a member's state has been applied to
    /// every milestone of the group that is not completed.
    pub open spec fn snapshot_applied(self, member_id: i64, facets: Facets, now: i64) -> BoardValue {
        self.applied(self.milestones, member_id, facets, now)
    }

    /// The state after a milestone has been deleted, and its progress records
    /// with it.
    pub open spec fn milestone_deleted(self, milestone_id: i32) -> BoardValue {
        BoardValue {
            milestones: self.milestones.remove(self.position(milestone_id)),
            progress: without_milestone(self.progress, milestone_id),
            ..self
        }
    }

    /// The state after a milestone has been added.
    pub open spec fn milestone_added(self, milestone: MilestoneValue) -> BoardValue {
        BoardValue { milestones: self.milestones.push(milestone), ..self }
    }
}

/// Milestones that keep their identities keep their positions.
pub proof fn lemma_positions_kept(before: Seq<MilestoneValue>, after: Seq<MilestoneValue>, milestone_id: i32)
    requires
        before.len() == after.len(),
        forall|i: int|
            0 <= i < before.len() ==> (#[trigger] before[i]).milestone_id == after[i].milestone_id,
    ensures
        first_index(after, with_id(milestone_id)) == first_index(before, with_id(milestone_id)),
{
    let wanted = with_id(milestone_id);
    let i = first_index(before, wanted);
    lemma_first_index(before, wanted);
    assert forall|j: int| 0 <= j < i implies !wanted(#[trigger] after[j]) by {
        assert(!wanted(before[j]));
    }
    lemma_first_index_is(after, wanted, i);
}

/// A milestone that is among the milestones is found among them.
pub proof fn lemma_position_found(milestones: Seq<MilestoneValue>, milestone_id: i32, at: int)
    requires
        0 <= at < milestones.len(),
        milestones[at].milestone_id == Some(milestone_id),
    ensures
        first_index(milestones, with_id(milestone_id)) <= at,
{
    let wanted = with_id(milestone_id);
    lemma_first_index(milestones, wanted);
}

/// The largest identity among the milestones, zero where there is none above it.
pub open spec fn largest_id(milestones: Seq<MilestoneValue>) -> int
    decreases milestones.len(),
{
    if milestones.len() == 0 {
        0
    } else {
        let front = largest_id(milestones.drop_last());
        match milestones.last().milestone_id {
            Some(id) => if id > front {
                id as int
            } else {
                front
            },
            None => front,
        }
    }
}

/// No milestone has an identity above the largest one.
pub proof fn lemma_largest_id(milestones: Seq<MilestoneValue>)
    ensures
        0 <= largest_id(milestones) <= i32::MAX,
        forall|i: int|
            0 <= i < milestones.len() ==> match (#[trigger] milestones[i]).milestone_id {
                Some(id) => id <= largest_id(milestones),
                None => true,
            },
    decreases milestones.len(),
{
    if milestones.len() > 0 {
        let front = milestones.drop_last();
        lemma_largest_id(front);
        assert forall|i: int| 0 <= i < milestones.len() implies match (
        #[trigger] milestones[i]).milestone_id {
            Some(id) => id <= largest_id(milestones),
            None => true,
        } by {
            if i < front.len() {
                assert(front[i] == milestones[i]);
            }
        }
    }
}

/// Whether a milestone that was stored before can be put back on the board:
/// it has an identity that no milestone of the group has, and a time of
/// completion exactly if it is completed.
pub open spec fn restorable(board: BoardValue, milestone: MilestoneValue) -> bool {
    match milestone.milestone_id {
        Some(id) => !board.has_milestone(id) && milestone.consistent(),
        None => false,
    }
}

/// The detail that a request to record progress carries: the value under
/// `current_progress`, and the empty detail where there is none.
pub open spec fn requested_detail(progress: JsonValue) -> JsonValue {
    match progress.get("current_progress"@) {
        Some(value) => value,
        None => crate::progress::empty_detail(),
    }
}

/// What a request to set the status asks for: the boolean under
/// `completed`, and not completed where there is none.
pub open spec fn requested_status(status: JsonValue) -> bool {
    match status.get("completed"@) {
        Some(value) => value.as_bool() == Some(true),
        None => false,
    }
}

/// The milestones of a group with the progress of its members.
#[derive(Debug, PartialEq, Eq)]
pub struct MilestoneBoard {
    members: Vec<Member>,
    milestones: Vec<GroupMilestone>,
    progress: ProgressStore,
}

impl View for MilestoneBoard {
    type V = BoardValue;

    closed spec fn view(&self) -> BoardValue {
        BoardValue {
            members: member_values(self.members@),
            milestones: milestone_values(self.milestones@),
            progress: self.progress@,
        }
    }
}

impl MilestoneBoard {
    /// What holds of every board: its state is consistent, no two progress
    /// records are for the same milestone and member, and every percentage
    /// lies between 0 and 100.
    pub closed spec fn well_formed(self) -> bool {
        self@.consistent() && self.progress.well_formed()
    }

    /// A board always holds a consistent state.
    pub proof fn lemma_consistent(self)
        requires
            self.well_formed(),
        ensures
            self@.consistent(),
            crate::store::distinct_keys(self@.progress),
            crate::store::percentages_in_range(self@.progress),
    {
    }

    /// The board of a group with the given members and no milestones yet.
    pub fn new(members: Vec<Member>) -> (r: MilestoneBoard)
        ensures
            r.well_formed(),
            r@.members == member_values(members@),
            r@.milestones.len() == 0,
            r@.progress.len() == 0,
    {
        MilestoneBoard { members, milestones: Vec::new(), progress: ProgressStore::new() }
    }

    /// The current members of the group.
    pub fn members(&self) -> (r: &Vec<Member>)
        ensures
            member_values(r@) == self@.members,
    {
        &self.members
    }

    /// The milestones of the group.
    pub fn milestones(&self) -> (r: &Vec<GroupMilestone>)
        ensures
            milestone_values(r@) == self@.milestones,
    {
        &self.milestones
    }

    /// The progress records of the group's milestones.
    pub fn progress(&self) -> (r: &ProgressStore)
        ensures
            r@ == self@.progress,
    {
        &self.progress
    }

    /// Evaluates the completion of a milestone at the time `now`, and tells
    /// whether the milestone became completed by it. A milestone that is
    /// completed already, or one that the group does not have, is left alone.
    pub fn check_milestone_completion(&mut self, milestone_id: i32, now: i64) -> (r: bool)
        requires
            old(self).well_formed(),
        ensures
            final(self).well_formed(),
            final(self)@ == old(self)@.evaluated(milestone_id, now),
            r == (old(self)@.has_milestone(milestone_id) && unanimous(
                old(self)@.members,
                old(self)@.progress,
                milestone_id,
            ) && !old(self)@.milestones[old(self)@.position(milestone_id)].completed),
    {
        let i = self.find(milestone_id);
        if i < self.milestones.len() && is_unanimous(&self.members, &self.progress, milestone_id) {
            let ghost before = self@;
            let fresh = !self.milestones[i].completed;
            let mut milestone = self.milestones.remove(i);
            milestone.mark_completed(now);
            self.milestones.insert(i, milestone);
            proof {
                assert(self@.milestones =~= before.milestones.update(
                    i as int,
                    before.milestones[i as int].completed_at_time(now),
                ));
                assert forall|k: int| 0 <= k < self@.progress.len() implies self@.has_milestone(
                    (#[trigger] self@.progress[k]).milestone_id,
                ) by {
                    lemma_positions_kept(
                        before.milestones,
                        self@.milestones,
                        self@.progress[k].milestone_id,
                    );
                }
            }
            fresh
        } else {
            false
        }
    }

    /// Sets the status of a milestone by hand at the time `now`, whatever the
    /// members' progress: completed where the request says so, else not
    /// completed. A milestone that the group does not have is not found.
    pub fn update_milestone_status(&mut self, milestone_id: i32, status: &Json, now: i64) -> (r:
        Result<(), ApiError>)
        requires
            old(self).well_formed(),
        ensures
            final(self).well_formed(),
            match r {
                Ok(_) => old(self)@.has_milestone(milestone_id) && final(self)@ == old(
                    self,
                )@.status_set(milestone_id, requested_status(status@), now),
                Err(e) => !old(self)@.has_milestone(milestone_id) && final(self)@ == old(self)@
                    && e.is_not_found("Milestone not found"@),
            },
    {
        let i = self.find(milestone_id);
        if i >= self.milestones.len() {
            return Err(ApiError::NotFound(String::from_str("Milestone not found")));
        }
        let completed = match status.get("completed") {
            Some(value) => match value.as_bool() {
                Some(flag) => flag,
                None => false,
            },
            None => false,
        };
        let ghost before = self@;
        let mut milestone = self.milestones.remove(i);
        milestone.set_status(completed, now);
        self.milestones.insert(i, milestone);
        proof {
            assert(self@.milestones =~= before.milestones.update(
                i as int,
                before.milestones[i as int].with_status(completed, now),
            ));
            assert forall|k: int| 0 <= k < self@.progress.len() implies self@.has_milestone(
                (#[trigger] self@.progress[k]).milestone_id,
            ) by {
                lemma_positions_kept(
                    before.milestones,
                    self@.milestones,
                    self@.progress[k].milestone_id,
                );
            }
        }
        Ok(())
    }

    /// Writes the progress of a member toward a milestone of the group at the
    /// time `now`, evaluates the milestone's completion, and tells whether the
    /// milestone became completed by it.
    fn record_progress(
        &mut self,
        milestone_id: i32,
        member_id: i64,
        current_progress: Json,
        percent_complete: Percent,
        now: i64,
    ) -> (r: bool)
        requires
            old(self).well_formed(),
            old(self)@.has_milestone(milestone_id),
        ensures
            final(self).well_formed(),
            final(self)@ == old(self)@.progress_recorded(
                milestone_id,
                member_id,
                current_progress@,
                percent_complete.value(),
                now,
            ),
            r == (unanimous(final(self)@.members, final(self)@.progress, milestone_id) && !old(
                self,
            )@.milestones[old(self)@.position(milestone_id)].completed),
    {
        let ghost before = self@;
        proof {
            lemma_first_index(before.progress, crate::store::keyed(milestone_id, member_id));
        }
        self.progress.upsert(milestone_id, member_id, current_progress, percent_complete, now);
        proof {
            assert forall|k: int| 0 <= k < self@.progress.len() implies self@.has_milestone(
                (#[trigger] self@.progress[k]).milestone_id,
            ) by {}
        }
        self.check_milestone_completion(milestone_id, now)
    }

    /// Records by hand the progress of the member called `member_name` toward
    /// a milestone, at the time `now`: the detail that the request carries and
    /// the given percentage. The milestone's completion is evaluated
    /// afterwards. A milestone that the group does not have is not found, nor
    /// is a name that no member bears; nothing changes then.
    pub fn update_member_progress(
        &mut self,
        milestone_id: i32,
        member_name: &str,
        progress: &Json,
        percent_complete: Percent,
        now: i64,
    ) -> (r: Result<(), ApiError>)
        requires
            old(self).well_formed(),
        ensures
            final(self).well_formed(),
            match r {
                Ok(_) => old(self)@.has_milestone(milestone_id) && match member_id_of(
                    old(self)@.members,
                    member_name@,
                ) {
                    Some(member_id) => final(self)@ == old(self)@.progress_recorded(
                        milestone_id,
                        member_id,
                        requested_detail(progress@),
                        percent_complete.value(),
                        now,
                    ),
                    None => false,
                },
                Err(e) => final(self)@ == old(self)@ && if !old(self)@.has_milestone(
                    milestone_id,
                ) {
                    e.is_not_found("Milestone not found"@)
                } else {
                    member_id_of(old(self)@.members, member_name@) is None && e.is_not_found(
                        "Member not found"@,
                    )
                },
            },
    {
        let i = self.find(milestone_id);
        if i >= self.milestones.len() {
            return Err(ApiError::NotFound(String::from_str("Milestone not found")));
        }
        let member_id = match get_member_id(&self.members, member_name) {
            Ok(id) => id,
            Err(e) => {
                return Err(e);
            },
        };
        let detail = match progress.get("current_progress") {
            Some(value) => value.clone(),
            None => crate::progress::empty_object(),
        };
        self.record_progress(milestone_id, member_id, detail, percent_complete, now);
        Ok(())
    }

    /// Deletes a milestone together with its progress records. A milestone
    /// that the group does not have is not found.
    pub fn delete_milestone(&mut self, milestone_id: i32) -> (r: Result<(), ApiError>)
        requires
            old(self).well_formed(),
        ensures
            final(self).well_formed(),
            match r {
                Ok(_) => old(self)@.has_milestone(milestone_id) && final(self)@ == old(
                    self,
                )@.milestone_deleted(milestone_id),
                Err(e) => !old(self)@.has_milestone(milestone_id) && final(self)@ == old(self)@
                    && e.is_not_found("Milestone not found"@),
            },
    {
        let i = self.find(milestone_id);
        if i >= self.milestones.len() {
            return Err(ApiError::NotFound(String::from_str("Milestone not found")));
        }
        let ghost before = self@;
        proof {
            lemma_first_index(before.milestones, with_id(milestone_id));
        }
        self.milestones.remove(i);
        self.progress.remove_milestone(milestone_id);
        proof {
            let after = self@;
            assert(after.milestones =~= before.milestones.remove(i as int));
            crate::store::lemma_without_milestone_keeps_form(before.progress, milestone_id);
            assert forall|k: int| 0 <= k < after.progress.len() implies after.has_milestone(
                (#[trigger] after.progress[k]).milestone_id,
            ) by {
                let other = after.progress[k].milestone_id;
                before.progress.lemma_filter_contains_rev(
                    |r: RecordValue| r.milestone_id != milestone_id,
                    after.progress[k],
                );
                let at = choose|at: int|
                    0 <= at < before.progress.len() && before.progress[at] == after.progress[k];
                let p = before.position(other);
                lemma_first_index(before.milestones, with_id(other));
                if p < i {
                    lemma_position_found(after.milestones, other, p);
                } else {
                    lemma_position_found(after.milestones, other, p - 1);
                }
            }
        }
        Ok(())
    }

    /// Adds a milestone to the group at the time `now`: it gets an identity
    /// of its own, starts then and is not completed. The identity is
    /// returned. Nothing is added once the identities have run out.
    pub fn create_group_milestone(&mut self, milestone_data: GroupMilestone, now: i64) -> (r: Result<
        i32,
        ApiError,
    >)
        requires
            old(self).well_formed(),
        ensures
            final(self).well_formed(),
            match r {
                Ok(id) => id == largest_id(old(self)@.milestones) + 1 && final(self)@ == old(
                    self,
                )@.milestone_added(milestone_data@.created(id, now)),
                Err(e) => largest_id(old(self)@.milestones) == i32::MAX && final(self)@ == old(
                    self,
                )@ && e.is_validation_failure("No identity left for the milestone"@),
            },
    {
        let largest = self.largest();
        if largest == i32::MAX {
            return Err(
                ApiError::ValidationFailure(String::from_str("No identity left for the milestone")),
            );
        }
        let id = largest + 1;
        let ghost before = self@;
        proof {
            lemma_largest_id(before.milestones);
        }
        self.milestones.push(milestone_data.create(id, now));
        proof {
            self.lemma_added(before, milestone_data@.created(id, now));
        }
        Ok(id)
    }

    /// Puts back a milestone that was stored before, as it is. A milestone
    /// without an identity, with the identity of another milestone of the
    /// group, or with a time of completion that does not go with its status,
    /// is refused.
    pub fn restore_milestone(&mut self, milestone: GroupMilestone) -> (r: Result<(), ApiError>)
        requires
            old(self).well_formed(),
        ensures
            final(self).well_formed(),
            match r {
                Ok(_) => restorable(old(self)@, milestone@) && final(self)@ == old(
                    self,
                )@.milestone_added(milestone@),
                Err(e) => !restorable(old(self)@, milestone@) && final(self)@ == old(self)@
                    && e.is_validation_failure("Milestone cannot be restored"@),
            },
    {
        let fits = match milestone.milestone_id {
            Some(id) => self.find(id) >= self.milestones.len() && milestone.completed
                == milestone.completed_at.is_some(),
            None => false,
        };
        if !fits {
            return Err(
                ApiError::ValidationFailure(String::from_str("Milestone cannot be restored")),
            );
        }
        let ghost before = self@;
        let ghost added = milestone@;
        proof {
            lemma_first_index(before.milestones, with_id(added.milestone_id->0));
        }
        self.milestones.push(milestone);
        proof {
            self.lemma_added(before, added);
        }
        Ok(())
    }

    proof fn lemma_added(self, before: BoardValue, added: MilestoneValue)
        requires
            before.consistent(),
            added.consistent(),
            added.milestone_id is Some,
            forall|i: int|
                0 <= i < before.milestones.len() ==> (#[trigger] before.milestones[i]).milestone_id
                    != added.milestone_id,
            self@.members == before.members,
            self@.progress == before.progress,
            self@.milestones =~= before.milestones.push(added),
        ensures
            self@ == before.milestone_added(added),
            self@.consistent(),
    {
        let after = self@;
        assert forall|k: int| 0 <= k < after.progress.len() implies after.has_milestone(
            (#[trigger] after.progress[k]).milestone_id,
        ) by {
            let other = after.progress[k].milestone_id;
            let p = before.position(other);
            lemma_first_index(before.milestones, with_id(other));
            lemma_position_found(after.milestones, other, p);
        }
    }

    fn largest(&self) -> (r: i32)
        ensures
            r == largest_id(self@.milestones),
    {
        let ghost all = self@.milestones;
        let mut largest: i32 = 0;
        let mut i: usize = 0;
        while i < self.milestones.len()
            invariant
                i <= self.milestones.len(),
                all == milestone_values(self.milestones@),
                largest == largest_id(all.take(i as int)),
            decreases self.milestones.len() - i,
        {
            proof {
                assert(all.take(i + 1).drop_last() =~= all.take(i as int));
            }
            match self.milestones[i].milestone_id {
                Some(id) => {
                    if id > largest {
                        largest = id;
                    }
                },
                None => {},
            }
            i += 1;
        }
        assert(all.take(self.milestones.len() as int) =~= all);
        largest
    }

    /// Puts back a progress record that was stored before, with the time at
    /// which it was written. Nothing is evaluated. A record of a milestone
    /// that the group does not have is not found.
    pub fn restore_progress(
        &mut self,
        milestone_id: i32,
        member_id: i64,
        current_progress: Json,
        percent_complete: Percent,
        last_updated: i64,
    ) -> (r: Result<(), ApiError>)
        requires
            old(self).well_formed(),
        ensures
            final(self).well_formed(),
            match r {
                Ok(_) => old(self)@.has_milestone(milestone_id) && final(self)@ == old(
                    self,
                )@.progress_restored(
                    RecordValue {
                        milestone_id,
                        member_id,
                        detail: current_progress@,
                        units: percent_complete.value(),
                        last_updated,
                    },
                ),
                Err(e) => !old(self)@.has_milestone(milestone_id) && final(self)@ == old(self)@
                    && e.is_not_found("Milestone not found"@),
            },
    {
        let i = self.find(milestone_id);
        if i >= self.milestones.len() {
            return Err(ApiError::NotFound(String::from_str("Milestone not found")));
        }
        let ghost before = self@;
        proof {
            lemma_first_index(before.progress, crate::store::keyed(milestone_id, member_id));
        }
        self.progress.upsert(
            milestone_id,
            member_id,
            current_progress,
            percent_complete,
            last_updated,
        );
        proof {
            assert forall|k: int| 0 <= k < self@.progress.len() implies self@.has_milestone(
                (#[trigger] self@.progress[k]).milestone_id,
            ) by {}
        }
        Ok(())
    }

    /// Applies a snapshot of the state of the member called `member_name` at
    /// the time `now`: for every milestone of the group that is not completed,
    /// the member's progress is computed from the snapshot and recorded, and
    /// the milestone's completion evaluated. A name that no member bears is
    /// not found, and nothing changes then.
    pub fn auto_update_milestone_progress(
        &mut self,
        member_name: &str,
        member_data: &GroupMember,
        now: i64,
    ) -> (r: Result<(), ApiError>)
        requires
            old(self).well_formed(),
        ensures
            final(self).well_formed(),
            match r {
                Ok(_) => match member_id_of(old(self)@.members, member_name@) {
                    Some(member_id) => final(self)@ == old(self)@.snapshot_applied(
                        member_id,
                        facets_of(*member_data),
                        now,
                    ),
                    None => false,
                },
                Err(e) => final(self)@ == old(self)@ && member_id_of(
                    old(self)@.members,
                    member_name@,
                ) is None && e.is_not_found("Member not found"@),
            },
    {
        let member_id = match get_member_id(&self.members, member_name) {
            Ok(id) => id,
            Err(e) => {
                return Err(e);
            },
        };
        let snapshot = read_snapshot(member_data);
        let ghost facets = facets_of(*member_data);
        let ghost start = self@;
        let mut k: usize = 0;
        proof {
            assert(start.milestones.skip(0) =~= start.milestones);
        }
        while k < self.milestones.len()
            invariant
                self.well_formed(),
                k <= self.milestones.len(),
                snapshot@ == facets,
                self@.milestones.len() == start.milestones.len(),
                forall|j: int|
                    k <= j < start.milestones.len() ==> #[trigger] self@.milestones[j]
                        == start.milestones[j],
                start.snapshot_applied(member_id, facets, now) == self@.applied(
                    start.milestones.skip(k as int),
                    member_id,
                    facets,
                    now,
                ),
            decreases self.milestones.len() - k,
        {
            let ghost before = self@;
            let ghost remaining = start.milestones.skip(k as int);
            proof {
                assert(remaining.drop_first() =~= start.milestones.skip(k + 1));
            }
            let pending = match self.milestones[k].milestone_id {
                Some(id) => if self.milestones[k].completed {
                    None
                } else {
                    Some(id)
                },
                None => None,
            };
            match pending {
                Some(id) => {
                    let kind = milestone_kind(self.milestones[k].milestone_type.as_str());
                    let (detail, percent) = snapshot_progress(
                        kind,
                        &self.milestones[k].target_data,
                        &snapshot,
                    );
                    proof {
                        lemma_position_found(before.milestones, id, k as int);
                        lemma_first_index(before.milestones, with_id(id));
                    }
                    self.record_progress(id, member_id, detail, percent, now);
                },
                None => {},
            }
            k += 1;
        }
        Ok(())
    }

    fn find(&self, milestone_id: i32) -> (r: usize)
        ensures
            r == self@.position(milestone_id),
            r <= self@.milestones.len(),
    {
        let ghost all = self@.milestones;
        let ghost wanted = with_id(milestone_id);
        let mut i: usize = 0;
        while i < self.milestones.len()
            invariant
                i <= self.milestones.len(),
                all == milestone_values(self.milestones@),
                wanted == with_id(milestone_id),
                forall|j: int| 0 <= j < i ==> !wanted(#[trigger] all[j]),
            decreases self.milestones.len() - i,
        {
            let found = match self.milestones[i].milestone_id {
                Some(id) => id == milestone_id,
                None => false,
            };
            if found {
                proof {
                    lemma_first_index_is(all, wanted, i as int);
                }
                return i;
            }
            i += 1;
        }
        proof {
            lemma_first_index_is(all, wanted, i as int);
        }
        i
    }
}

} // verus!
