//! Slayer tasks as members report them.

use vstd::prelude::*;

verus! {

/// A new slayer task of a member.
#[derive(Clone, Debug, PartialEq, Eq)]
pub struct SlayerTaskSubmission {
    /// Name of the monster assigned.
    pub monster_name: String,
    /// Number of monsters to kill.
    pub quantity: i32,
    /// The slayer master who assigned the task.
    pub slayer_master: String,
    /// The member's streak of tasks.
    pub task_streak: Option<i32>,
    /// The member's slayer points.
    pub slayer_points: Option<i32>,
    /// Whether the task is a boss task.
    pub is_boss_task: Option<bool>,
}

/// The slayer points and the streak of tasks of a member.
#[derive(Clone, Copy, Debug, PartialEq, Eq)]
pub struct SlayerStats {
    pub slayer_points: i32,
    pub task_streak: i32,
}

impl SlayerTaskSubmission {
    /// Whether the task is a boss task; it is none unless the report says so.
    pub fn boss_task(&self) -> (r: bool)
        ensures
            r == (self.is_boss_task == Some(true)),
    {
        match self.is_boss_task {
            Some(flag) => flag,
            None => false,
        }
    }

    /// The points and the streak that are stored with the task: zero each
    /// where the report leaves them out.
    pub fn stats(&self) -> (r: SlayerStats)
        ensures
            r.slayer_points == (match self.slayer_points {
                Some(points) => points,
                None => 0,
            }),
            r.task_streak == (match self.task_streak {
                Some(streak) => streak,
                None => 0,
            }),
    {
        SlayerStats {
            slayer_points: match self.slayer_points {
                Some(points) => points,
                None => 0,
            },
            task_streak: match self.task_streak {
                Some(streak) => streak,
                None => 0,
            },
        }
    }
}

/// The points and the streak of a member: zero each for a member of whom
/// nothing is stored.
pub fn stats_or_none(stored: Option<SlayerStats>) -> (r: SlayerStats)
    ensures
        r == (match stored {
            Some(stats) => stats,
            None => SlayerStats { slayer_points: 0, task_streak: 0 },
        }),
{
    match stored {
        Some(stats) => stats,
        None => SlayerStats { slayer_points: 0, task_streak: 0 },
    }
}

} // verus!
