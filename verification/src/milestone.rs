//! Milestones and the ways in which one becomes completed.

use vstd::prelude::*;
use crate::json::{Json, JsonValue};
use crate::progress::facet_value;

verus! {

/// A goal that a group has set itself. Times are counted on the clock of the
/// caller, who passes the current time to every operation that records one.
#[derive(Debug, PartialEq, Eq)]
pub struct GroupMilestone {
    /// The identity of the milestone; none before it has been stored.
    pub milestone_id: Option<i32>,
    pub title: String,
    pub description: String,
    /// The name of the milestone's type, which decides how progress is computed.
    pub milestone_type: String,
    /// What is to be reached, in the form that the type asks for.
    pub target_data: Json,
    /// Reserved for a finer rule of completion; not consulted.
    pub completion_criteria: Option<Json>,
    pub start_date: i64,
    pub end_date: Option<i64>,
    pub completed: bool,
    /// When the milestone was completed; set exactly while it is completed.
    pub completed_at: Option<i64>,
    pub created_at: i64,
}

/// The content of a milestone.
pub struct MilestoneValue {
    pub milestone_id: Option<i32>,
    pub title: Seq<char>,
    pub description: Seq<char>,
    pub milestone_type: Seq<char>,
    pub target_data: JsonValue,
    pub completion_criteria: Option<JsonValue>,
    pub start_date: i64,
    pub end_date: Option<i64>,
    pub completed: bool,
    pub completed_at: Option<i64>,
    pub created_at: i64,
}

impl View for GroupMilestone {
    type V = MilestoneValue;

    open spec fn view(&self) -> MilestoneValue {
        MilestoneValue {
            milestone_id: self.milestone_id,
            title: self.title@,
            description: self.description@,
            milestone_type: self.milestone_type@,
            target_data: self.target_data@,
            completion_criteria: facet_value(self.completion_criteria),
            start_date: self.start_date,
            end_date: self.end_date,
            completed: self.completed,
            completed_at: self.completed_at,
            created_at: self.created_at,
        }
    }
}

impl MilestoneValue {
    /// The time of completion is set exactly while the milestone is completed.
    pub open spec fn consistent(self) -> bool {
        self.completed_at is Some <==> self.completed
    }

    /// The milestone as it is first stored at the time `now` under the
    /// identity `id`: it starts then and is not completed.
    pub open spec fn created(self, id: i32, now: i64) -> MilestoneValue {
        MilestoneValue {
            milestone_id: Some(id),
            start_date: now,
            completed: false,
            completed_at: None,
            created_at: now,
            ..self
        }
    }

    /// The milestone after its status has been set by hand at the time `now`.
    pub open spec fn with_status(self, completed: bool, now: i64) -> MilestoneValue {
        MilestoneValue {
            completed,
            completed_at: if completed {
                Some(now)
            } else {
                None
            },
            ..self
        }
    }

    /// The milestone after it has been found completed at the time `now`. A
    /// milestone that is completed already stays as it is.
    pub open spec fn completed_at_time(self, now: i64) -> MilestoneValue {
        if self.completed {
            self
        } else {
            MilestoneValue { completed: true, completed_at: Some(now), ..self }
        }
    }
}

impl Clone for GroupMilestone {
    /// A copy with the same content.
    fn clone(&self) -> (r: GroupMilestone)
        ensures
            r@ == self@,
    {
        GroupMilestone {
            milestone_id: self.milestone_id,
            title: self.title.clone(),
            description: self.description.clone(),
            milestone_type: self.milestone_type.clone(),
            target_data: self.target_data.clone(),
            completion_criteria: match &self.completion_criteria {
                Some(criteria) => Some(criteria.clone()),
                None => None,
            },
            start_date: self.start_date,
            end_date: self.end_date,
            completed: self.completed,
            completed_at: self.completed_at,
            created_at: self.created_at,
        }
    }
}

impl GroupMilestone {
    /// Prepares a milestone for being stored at the time `now` under the
    /// identity `id`.
    pub fn create(self, id: i32, now: i64) -> (r: GroupMilestone)
        ensures
            r@ == self@.created(id, now),
            r@.consistent(),
    {
        let mut r = self;
        r.milestone_id = Some(id);
        r.start_date = now;
        r.completed = false;
        r.completed_at = None;
        r.created_at = now;
        r
    }

    /// Sets the status by hand, whatever the members' progress.
    pub fn set_status(&mut self, completed: bool, now: i64)
        ensures
            final(self)@ == old(self)@.with_status(completed, now),
            final(self)@.consistent(),
    {
        self.completed = completed;
        self.completed_at = if completed {
            Some(now)
        } else {
            None
        };
    }

    /// Marks the milestone as completed at the time `now`, unless it is
    /// completed already.
    pub fn mark_completed(&mut self, now: i64)
        ensures
            final(self)@ == old(self)@.completed_at_time(now),
            old(self)@.consistent() ==> final(self)@.consistent(),
    {
        if !self.completed {
            self.completed = true;
            self.completed_at = Some(now);
        }
    }
}

} // verus!
