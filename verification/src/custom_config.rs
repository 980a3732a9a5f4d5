//! Settings of the scoring features, with their defaults.

use vstd::prelude::*;
use crate::find::{lemma_lookup_skip, lookup};
use crate::text::{decimal_i32, lowercase, parse_i32, same_text, to_lowercase};

verus! {

/// Settings of the scoring features.
pub struct CustomConfig {
    /// Points awarded for a boss kill, by difficulty.
    pub boss_points_easy: i32,
    pub boss_points_medium: i32,
    pub boss_points_hard: i32,
    /// Points awarded for reaching a skill level.
    pub skill_level_92_points: i32,
    pub skill_level_99_points: i32,
    /// Points awarded for collection log entries.
    pub collection_points_per_item: i32,
    pub collection_set_completion_bonus: i32,
    /// Number of days of activity history that are kept.
    pub activity_history_days: i32,
    /// Features that can be switched off.
    pub enable_group_challenges: bool,
    pub enable_leaderboards: bool,
    /// Cache lifetimes in seconds.
    pub points_cache_ttl: i32,
    pub activities_cache_ttl: i32,
}

/// The names and values of environment variables, as text.
pub open spec fn variables(vars: Seq<(String, String)>) -> Seq<(Seq<char>, Seq<char>)> {
    Seq::new(vars.len(), |i: int| (vars[i].0@, vars[i].1@))
}

/// The integer setting `name`: the value of the first variable of that name
/// where it writes a 32-bit integer, else `default`.
pub open spec fn int_setting(vars: Seq<(Seq<char>, Seq<char>)>, name: Seq<char>, default: i32) -> i32 {
    match lookup(vars, name) {
        Some(text) => match decimal_i32(text) {
            Some(v) => v,
            None => default,
        },
        None => default,
    }
}

/// What a lowercase word says of a switch; `default` where it is none of the known words.
pub open spec fn flag_of(lowered: Seq<char>, default: bool) -> bool {
    if lowered == "true"@ || lowered == "1"@ || lowered == "yes"@ || lowered == "y"@ || lowered
        == "on"@ {
        true
    } else if lowered == "false"@ || lowered == "0"@ || lowered == "no"@ || lowered == "n"@
        || lowered == "off"@ {
        false
    } else {
        default
    }
}

/// The switch `name`: what the first variable of that name says once put in
/// lowercase, else `default`.
pub open spec fn bool_setting(vars: Seq<(Seq<char>, Seq<char>)>, name: Seq<char>, default: bool) -> bool {
    match lookup(vars, name) {
        Some(text) => flag_of(lowercase(text), default),
        None => default,
    }
}

/// The settings that hold where nothing is configured.
pub open spec fn default_settings() -> CustomConfig {
    CustomConfig {
        boss_points_easy: 10,
        boss_points_medium: 25,
        boss_points_hard: 50,
        skill_level_92_points: 25,
        skill_level_99_points: 50,
        collection_points_per_item: 1,
        collection_set_completion_bonus: 25,
        activity_history_days: 30,
        enable_group_challenges: true,
        enable_leaderboards: true,
        points_cache_ttl: 60,
        activities_cache_ttl: 300,
    }
}

/// The settings that a set of environment variables asks for.
pub open spec fn settings_from(vars: Seq<(Seq<char>, Seq<char>)>) -> CustomConfig {
    CustomConfig {
        boss_points_easy: int_setting(vars, "CUSTOM_BOSS_POINTS_EASY"@, 10),
        boss_points_medium: int_setting(vars, "CUSTOM_BOSS_POINTS_MEDIUM"@, 25),
        boss_points_hard: int_setting(vars, "CUSTOM_BOSS_POINTS_HARD"@, 50),
        skill_level_92_points: int_setting(vars, "CUSTOM_SKILL_LEVEL_92_POINTS"@, 25),
        skill_level_99_points: int_setting(vars, "CUSTOM_SKILL_LEVEL_99_POINTS"@, 50),
        collection_points_per_item: int_setting(vars, "CUSTOM_COLLECTION_POINTS_PER_ITEM"@, 1),
        collection_set_completion_bonus: int_setting(
            vars,
            "CUSTOM_COLLECTION_SET_COMPLETION_BONUS"@,
            25,
        ),
        activity_history_days: int_setting(vars, "CUSTOM_ACTIVITY_HISTORY_DAYS"@, 30),
        enable_group_challenges: bool_setting(vars, "CUSTOM_ENABLE_GROUP_CHALLENGES"@, true),
        enable_leaderboards: bool_setting(vars, "CUSTOM_ENABLE_LEADERBOARDS"@, true),
        points_cache_ttl: int_setting(vars, "CUSTOM_POINTS_CACHE_TTL"@, 60),
        activities_cache_ttl: int_setting(vars, "CUSTOM_ACTIVITIES_CACHE_TTL"@, 300),
    }
}

impl Default for CustomConfig {
    fn default() -> (r: Self)
        ensures
            r == default_settings(),
    {
        CustomConfig {
            boss_points_easy: 10,
            boss_points_medium: 25,
            boss_points_hard: 50,
            skill_level_92_points: 25,
            skill_level_99_points: 50,
            collection_points_per_item: 1,
            collection_set_completion_bonus: 25,
            activity_history_days: 30,
            enable_group_challenges: true,
            enable_leaderboards: true,
            points_cache_ttl: 60,
            activities_cache_ttl: 300,
        }
    }
}

impl CustomConfig {
    /// Builds the settings from environment variables, given as pairs of name
    /// and value; a setting that is missing or unreadable keeps its default.
    pub fn from_env(vars: &Vec<(String, String)>) -> (r: Self)
        ensures
            r == settings_from(variables(vars@)),
    {
        CustomConfig {
            boss_points_easy: get_env_int(vars, "CUSTOM_BOSS_POINTS_EASY", 10),
            boss_points_medium: get_env_int(vars, "CUSTOM_BOSS_POINTS_MEDIUM", 25),
            boss_points_hard: get_env_int(vars, "CUSTOM_BOSS_POINTS_HARD", 50),
            skill_level_92_points: get_env_int(vars, "CUSTOM_SKILL_LEVEL_92_POINTS", 25),
            skill_level_99_points: get_env_int(vars, "CUSTOM_SKILL_LEVEL_99_POINTS", 50),
            collection_points_per_item: get_env_int(vars, "CUSTOM_COLLECTION_POINTS_PER_ITEM", 1),
            collection_set_completion_bonus: get_env_int(
                vars,
                "CUSTOM_COLLECTION_SET_COMPLETION_BONUS",
                25,
            ),
            activity_history_days: get_env_int(vars, "CUSTOM_ACTIVITY_HISTORY_DAYS", 30),
            enable_group_challenges: get_env_bool(vars, "CUSTOM_ENABLE_GROUP_CHALLENGES", true),
            enable_leaderboards: get_env_bool(vars, "CUSTOM_ENABLE_LEADERBOARDS", true),
            points_cache_ttl: get_env_int(vars, "CUSTOM_POINTS_CACHE_TTL", 60),
            activities_cache_ttl: get_env_int(vars, "CUSTOM_ACTIVITIES_CACHE_TTL", 300),
        }
    }
}

/// The value of the first variable called `name`.
pub fn env_var<'a>(vars: &'a Vec<(String, String)>, name: &str) -> (r: Option<&'a str>)
    ensures
        match r {
            Some(text) => lookup(variables(vars@), name@) == Some(text@),
            None => lookup(variables(vars@), name@) is None,
        },
{
    let ghost all = variables(vars@);
    assert(all.skip(0) =~= all);
    let mut i: usize = 0;
    while i < vars.len()
        invariant
            i <= vars.len(),
            all == variables(vars@),
            lookup(all, name@) == lookup(all.skip(i as int), name@),
        decreases vars.len() - i,
    {
        if same_text(vars[i].0.as_str(), name) {
            assert(all.skip(i as int)[0] == all[i as int]);
            return Some(vars[i].1.as_str());
        }
        proof {
            lemma_lookup_skip(all, name@, i as int);
        }
        i += 1;
    }
    None
}

/// An integer setting, `default` where the variable is missing or writes no
/// 32-bit integer.
pub fn get_env_int(vars: &Vec<(String, String)>, name: &str, default: i32) -> (r: i32)
    ensures
        r == int_setting(variables(vars@), name@, default),
{
    match env_var(vars, name) {
        Some(text) => match parse_i32(text) {
            Some(v) => v,
            None => default,
        },
        None => default,
    }
}

/// What a word, already in lowercase, says of a switch.
pub fn flag_value(lowered: &str, default: bool) -> (r: bool)
    ensures
        r == flag_of(lowered@, default),
{
    if same_text(lowered, "true") || same_text(lowered, "1") || same_text(lowered, "yes")
        || same_text(lowered, "y") || same_text(lowered, "on") {
        true
    } else if same_text(lowered, "false") || same_text(lowered, "0") || same_text(lowered, "no")
        || same_text(lowered, "n") || same_text(lowered, "off") {
        false
    } else {
        default
    }
}

/// A switch, `default` where the variable is missing or says nothing known.
pub fn get_env_bool(vars: &Vec<(String, String)>, name: &str, default: bool) -> (r: bool)
    ensures
        r == bool_setting(variables(vars@), name@, default),
{
    match env_var(vars, name) {
        Some(text) => {
            let lowered = to_lowercase(text);
            flag_value(lowered.as_str(), default)
        },
        None => default,
    }
}

} // verus!
