//! What the game client's plugin reports, and the points it earns.

use vstd::prelude::*;
use vstd::string::StringExecFns;
use crate::custom_config::CustomConfig;
use crate::text::same_text;

verus! {

/// The answer to a report of the plugin.
#[derive(Debug, PartialEq, Eq)]
pub struct PluginUpdateResponse {
    pub status: String,
    /// The points that this report earned.
    pub points_awarded: i32,
    /// The names of the activities that this report completed.
    pub activities_completed: Vec<String>,
    /// The member's points after the report.
    pub new_total_points: Option<i32>,
}

/// The points for killing a boss of the given difficulty: those of an easy
/// boss where no difficulty, or an unknown one, is given.
pub open spec fn boss_points_of(config: CustomConfig, difficulty: Option<Seq<char>>) -> i32 {
    match difficulty {
        Some(d) => if d == "medium"@ {
            config.boss_points_medium
        } else if d == "hard"@ {
            config.boss_points_hard
        } else {
            config.boss_points_easy
        },
        None => config.boss_points_easy,
    }
}

/// The points for killing a boss of the given difficulty.
pub fn boss_points(config: &CustomConfig, difficulty: Option<&str>) -> (r: i32)
    ensures
        r == boss_points_of(
            *config,
            match difficulty {
                Some(d) => Some(d@),
                None => None,
            },
        ),
{
    match difficulty {
        Some(d) => if same_text(d, "medium") {
            config.boss_points_medium
        } else if same_text(d, "hard") {
            config.boss_points_hard
        } else {
            config.boss_points_easy
        },
        None => config.boss_points_easy,
    }
}

/// The points for reaching a skill level: levels 92 and 99 earn points, no other does.
pub fn skill_level_points(config: &CustomConfig, level: i32) -> (r: Option<i32>)
    ensures
        r == (if level == 99 {
            Some(config.skill_level_99_points)
        } else if level == 92 {
            Some(config.skill_level_92_points)
        } else {
            None::<i32>
        }),
{
    if level == 99 {
        Some(config.skill_level_99_points)
    } else if level == 92 {
        Some(config.skill_level_92_points)
    } else {
        None
    }
}

/// The pattern that finds the activities whose name contains `name`.
pub fn name_pattern(name: &str) -> (r: String)
    ensures
        r@ == "%"@ + name@ + "%"@,
{
    let mut pattern = String::from_str("%");
    pattern.append(name);
    pattern.append("%");
    pattern
}

/// The sum of `a` and `b`, kept within the 32-bit integers.
pub open spec fn bounded_sum(a: i32, b: i32) -> i32 {
    if a + b > i32::MAX {
        i32::MAX
    } else if a + b < i32::MIN {
        i32::MIN
    } else {
        (a + b) as i32
    }
}

impl PluginUpdateResponse {
    /// The answer to a report that has earned nothing yet.
    pub fn new() -> (r: PluginUpdateResponse)
        ensures
            r.status@ == "success"@,
            r.points_awarded == 0,
            r.activities_completed@.len() == 0,
            r.new_total_points is None,
    {
        PluginUpdateResponse {
            status: String::from_str("success"),
            points_awarded: 0,
            activities_completed: Vec::new(),
            new_total_points: None,
        }
    }

    /// Notes that the report completed an activity worth `point_value` points.
    pub fn award(&mut self, activity_name: String, point_value: i32)
        ensures
            final(self).points_awarded == bounded_sum(old(self).points_awarded, point_value),
            final(self).activities_completed@ == old(self).activities_completed@.push(
                activity_name,
            ),
            final(self).status == old(self).status,
            final(self).new_total_points == old(self).new_total_points,
    {
        let sum: i64 = self.points_awarded as i64 + point_value as i64;
        self.points_awarded = if sum > i32::MAX as i64 {
            i32::MAX
        } else if sum < i32::MIN as i64 {
            i32::MIN
        } else {
            sum as i32
        };
        self.activities_completed.push(activity_name);
    }

    /// Notes the member's points after the report: the low 32 bits of their sum.
    pub fn set_total(&mut self, total: i64)
        ensures
            final(self).new_total_points == Some(total as i32),
            final(self).points_awarded == old(self).points_awarded,
            final(self).activities_completed == old(self).activities_completed,
            final(self).status == old(self).status,
    {
        self.new_total_points = Some(#[verifier::truncate] (total as i32));
    }
}

} // verus!
