//! How far a member has come toward a milestone, computed from a snapshot of
//! the member's state.

use vstd::prelude::*;
use vstd::string::StringExecFns;
use crate::error::ApiError;
use crate::json::{entry_values, lemma_object_value, parse, parsed, Json, JsonValue};
use crate::percent::{lemma_ratio_bounds, lemma_ratio_clamped, ratio_units, Percent, FULL_UNITS};
use crate::text::{lowercase, same_text, to_lowercase, underscore_spaces, underscored};

verus! {

/// The kinds of milestone. Progress toward a custom milestone is never computed.
#[derive(Clone, Copy, Debug, PartialEq, Eq)]
pub enum MilestoneKind {
    SkillTotal,
    BossKc,
    CollectionLog,
    QuestCompletion,
    AchievementDiary,
    Custom,
}

/// The kind that a milestone type names; every unknown name is a custom milestone.
pub open spec fn kind_of(milestone_type: Seq<char>) -> MilestoneKind {
    if milestone_type == "skill_total"@ {
        MilestoneKind::SkillTotal
    } else if milestone_type == "boss_kc"@ {
        MilestoneKind::BossKc
    } else if milestone_type == "collection_log"@ {
        MilestoneKind::CollectionLog
    } else if milestone_type == "quest_completion"@ {
        MilestoneKind::QuestCompletion
    } else if milestone_type == "achievement_diary"@ {
        MilestoneKind::AchievementDiary
    } else {
        MilestoneKind::Custom
    }
}

/// Classifies a milestone by the name of its type.
pub fn milestone_kind(milestone_type: &str) -> (r: MilestoneKind)
    ensures
        r == kind_of(milestone_type@),
{
    if same_text(milestone_type, "skill_total") {
        MilestoneKind::SkillTotal
    } else if same_text(milestone_type, "boss_kc") {
        MilestoneKind::BossKc
    } else if same_text(milestone_type, "collection_log") {
        MilestoneKind::CollectionLog
    } else if same_text(milestone_type, "quest_completion") {
        MilestoneKind::QuestCompletion
    } else if same_text(milestone_type, "achievement_diary") {
        MilestoneKind::AchievementDiary
    } else {
        MilestoneKind::Custom
    }
}

/// What the calculator yields: the detail that is stored for display, and the
/// percentage in millionths of a percentage point.
pub struct Progress {
    pub detail: JsonValue,
    pub units: int,
}

/// The detail of a member for whom nothing could be computed.
pub open spec fn empty_detail() -> JsonValue {
    JsonValue::Object(Seq::empty())
}

/// No progress and no detail.
pub open spec fn no_progress() -> Progress {
    Progress { detail: empty_detail(), units: 0 }
}

/// The integer under `key` in an object, `default` where there is none.
pub open spec fn int_field(object: JsonValue, key: Seq<char>, default: i64) -> i64 {
    match object.get(key) {
        Some(value) => match value.as_i64() {
            Some(n) => n,
            None => default,
        },
        None => default,
    }
}

/// The text under `key` in an object.
pub open spec fn text_field(object: JsonValue, key: Seq<char>) -> Option<Seq<char>> {
    match object.get(key) {
        Some(value) => value.as_str(),
        None => None,
    }
}

/// `value` brought into the range of a signed 64-bit integer.
pub open spec fn saturated(value: int) -> i64 {
    if value < i64::MIN {
        i64::MIN
    } else if value > i64::MAX {
        i64::MAX
    } else {
        value as i64
    }
}

/// A JSON number with an integer value.
pub open spec fn number(value: i64) -> JsonValue {
    JsonValue::Number(Some(value))
}

/// Reads the integer under `key`, `default` where there is none.
pub fn read_int(object: &Json, key: &str, default: i64) -> (r: i64)
    ensures
        r == int_field(object@, key@, default),
{
    match object.get(key) {
        Some(value) => match value.as_i64() {
            Some(n) => n,
            None => default,
        },
        None => default,
    }
}

/// Reads the text under `key`.
pub fn read_text<'a>(object: &'a Json, key: &str) -> (r: Option<&'a str>)
    ensures
        match r {
            Some(text) => text_field(object@, key@) == Some(text@),
            None => text_field(object@, key@) is None,
        },
{
    match object.get(key) {
        Some(value) => value.as_str(),
        None => None,
    }
}

/// The detail of a member for whom nothing could be computed.
pub fn empty_object() -> (r: Json)
    ensures
        r@ == empty_detail(),
{
    let entries: Vec<(String, Json)> = Vec::new();
    proof {
        lemma_object_value(entries);
        assert(entry_values(entries@) =~= Seq::empty());
    }
    Json::Object(entries)
}

fn object_of_two(k1: &str, v1: Json, k2: &str, v2: Json) -> (r: Json)
    ensures
        r@ == JsonValue::Object(seq![(k1@, v1@), (k2@, v2@)]),
{
    let mut entries: Vec<(String, Json)> = Vec::new();
    entries.push((String::from_str(k1), v1));
    entries.push((String::from_str(k2), v2));
    proof {
        lemma_object_value(entries);
        assert(entry_values(entries@) =~= seq![(k1@, v1@), (k2@, v2@)]);
    }
    Json::Object(entries)
}

fn object_of_three(k1: &str, v1: Json, k2: &str, v2: Json, k3: &str, v3: Json) -> (r: Json)
    ensures
        r@ == JsonValue::Object(seq![(k1@, v1@), (k2@, v2@), (k3@, v3@)]),
{
    let mut entries: Vec<(String, Json)> = Vec::new();
    entries.push((String::from_str(k1), v1));
    entries.push((String::from_str(k2), v2));
    entries.push((String::from_str(k3), v3));
    proof {
        lemma_object_value(entries);
        assert(entry_values(entries@) =~= seq![(k1@, v1@), (k2@, v2@), (k3@, v3@)]);
    }
    Json::Object(entries)
}

/// The level that one entry of the skills facet records, zero where it records none.
pub open spec fn level_of(skill: JsonValue) -> int {
    int_field(skill, "level"@, 0) as int
}

/// The sum of the levels of all skills.
pub open spec fn total_level(skills: Seq<(Seq<char>, JsonValue)>) -> int
    decreases skills.len(),
{
    if skills.len() == 0 {
        0
    } else {
        total_level(skills.drop_last()) + level_of(skills.last().1)
    }
}

/// Progress toward a total level: the sum of all levels against the target
/// `totalLevel`, which is 500 where the milestone names none. Skills that are
/// no object yield nothing.
pub open spec fn skill_total_of(target: JsonValue, skills: JsonValue) -> Progress {
    match skills.as_object() {
        Some(entries) => {
            let total = total_level(entries);
            let goal = int_field(target, "totalLevel"@, 500);
            Progress {
                detail: JsonValue::Object(
                    seq![
                        ("currentTotal"@, number(saturated(total))),
                        ("targetTotal"@, number(goal)),
                    ],
                ),
                units: ratio_units(total, goal as int),
            }
        },
        None => no_progress(),
    }
}

/// Bringing the amount reached into 64 bits first does not change the percentage.
pub proof fn lemma_ratio_saturated(current: int, target: i64)
    ensures
        ratio_units(saturated(current) as int, target as int) == ratio_units(current, target as int),
{
    let kept = saturated(current) as int;
    if target > 0 {
        lemma_ratio_bounds(current, target as int);
        lemma_ratio_bounds(kept, target as int);
    } else if target < 0 {
        lemma_ratio_bounds(-current, -(target as int));
        lemma_ratio_bounds(-kept, -(target as int));
    }
}

/// Computes the progress toward a total level from the skills facet.
pub fn skill_total_progress(target_data: &Json, skills: &Json) -> (r: (Json, Percent))
    ensures
        r.0@ == skill_total_of(target_data@, skills@).detail,
        r.1.value() == skill_total_of(target_data@, skills@).units,
        r.1.in_range(),
{
    match skills.as_object() {
        Some(entries) => {
            let ghost all = entry_values(entries@);
            let mut total: i128 = 0;
            let mut i: usize = 0;
            while i < entries.len()
                invariant
                    i <= entries.len(),
                    all == entry_values(entries@),
                    total == total_level(all.take(i as int)),
                    -(i as int) * 0x8000_0000_0000_0000 <= total <= (i as int)
                        * 0x8000_0000_0000_0000,
                decreases entries.len() - i,
            {
                let level = read_int(&entries[i].1, "level", 0);
                proof {
                    assert(all.take(i + 1).drop_last() =~= all.take(i as int));
                    assert((i as int) * 0x8000_0000_0000_0000 + 0x8000_0000_0000_0000 == (i + 1)
                        * 0x8000_0000_0000_0000) by (nonlinear_arith);
                    assert((i + 1) * 0x8000_0000_0000_0000 <= 0xffff_ffff_ffff_ffff
                        * 0x8000_0000_0000_0000) by (nonlinear_arith)
                        requires
                            i + 1 <= 0xffff_ffff_ffff_ffff,
                    ;
                }
                total = total + level as i128;
                i += 1;
            }
            assert(all.take(entries.len() as int) =~= all);
            let goal = read_int(target_data, "totalLevel", 500);
            let kept: i64 = if total < i64::MIN as i128 {
                i64::MIN
            } else if total > i64::MAX as i128 {
                i64::MAX
            } else {
                total as i64
            };
            proof {
                lemma_ratio_saturated(total as int, goal);
            }
            let detail = object_of_two(
                "currentTotal",
                Json::Number(Some(kept)),
                "targetTotal",
                Json::Number(Some(goal)),
            );
            (detail, Percent::from_ratio(kept, goal))
        },
        None => (empty_object(), Percent::zero()),
    }
}

/// The name of the counter that holds the kills of a boss, made from the
/// lowercase form of the boss's name: spaces become underscores, and `_kc` follows.
pub open spec fn kill_counter(lowered_name: Seq<char>) -> Seq<char> {
    underscored(lowered_name) + "_kc"@
}

/// Progress toward a kill count, where the boss is called `boss_name` and
/// `lowered_name` is that name in lowercase: the counter of that boss in the
/// stats facet, zero where there is none, against the target `killCount`, which
/// is 50 where the milestone names none.
pub open spec fn kill_count_of(
    target: JsonValue,
    stats: JsonValue,
    boss_name: Seq<char>,
    lowered_name: Seq<char>,
) -> Progress {
    let current = int_field(stats, kill_counter(lowered_name), 0);
    let goal = int_field(target, "killCount"@, 50);
    Progress {
        detail: JsonValue::Object(
            seq![
                ("bossName"@, JsonValue::String(boss_name)),
                ("currentKc"@, number(current)),
                ("targetKc"@, number(goal)),
            ],
        ),
        units: ratio_units(current as int, goal as int),
    }
}

/// Progress toward a kill count. A milestone that names no boss yields nothing.
pub open spec fn boss_kc_of(target: JsonValue, stats: JsonValue) -> Progress {
    match text_field(target, "bossName"@) {
        Some(name) => kill_count_of(target, stats, name, lowercase(name)),
        None => no_progress(),
    }
}

/// Makes the name of the counter of a boss from the boss's name in lowercase.
pub fn kill_counter_name(lowered_name: &str) -> (r: String)
    ensures
        r@ == kill_counter(lowered_name@),
{
    let mut key = underscore_spaces(lowered_name);
    key.append("_kc");
    key
}

/// Computes the progress toward a kill count from the stats facet, for a boss
/// whose name in lowercase is `lowered_name`.
pub fn kill_count_progress(
    target_data: &Json,
    stats: &Json,
    boss_name: &str,
    lowered_name: &str,
) -> (r: (Json, Percent))
    ensures
        r.0@ == kill_count_of(target_data@, stats@, boss_name@, lowered_name@).detail,
        r.1.value() == kill_count_of(target_data@, stats@, boss_name@, lowered_name@).units,
        r.1.in_range(),
{
    let key = kill_counter_name(lowered_name);
    let current = read_int(stats, key.as_str(), 0);
    let goal = read_int(target_data, "killCount", 50);
    let detail = object_of_three(
        "bossName",
        Json::String(String::from_str(boss_name)),
        "currentKc",
        Json::Number(Some(current)),
        "targetKc",
        Json::Number(Some(goal)),
    );
    (detail, Percent::from_ratio(current, goal))
}

/// Computes the progress toward a kill count from the stats facet.
pub fn boss_kc_progress(target_data: &Json, stats: &Json) -> (r: (Json, Percent))
    ensures
        r.0@ == boss_kc_of(target_data@, stats@).detail,
        r.1.value() == boss_kc_of(target_data@, stats@).units,
        r.1.in_range(),
{
    match read_text(target_data, "bossName") {
        Some(name) => {
            let lowered = to_lowercase(name);
            kill_count_progress(target_data, stats, name, lowered.as_str())
        },
        None => (empty_object(), Percent::zero()),
    }
}

/// Progress through a collection: the entry of the collection log under the
/// milestone's `collectionName`, its `obtained_count` (zero where missing)
/// against its `total_count` (one where missing). Nothing where the milestone
/// names no collection or the log has no such entry.
pub open spec fn collection_log_of(target: JsonValue, log: JsonValue) -> Progress {
    match text_field(target, "collectionName"@) {
        Some(name) => match log.get(name) {
            Some(entry) => {
                let obtained = int_field(entry, "obtained_count"@, 0);
                let total = int_field(entry, "total_count"@, 1);
                Progress {
                    detail: JsonValue::Object(
                        seq![
                            ("collectionName"@, JsonValue::String(name)),
                            ("obtainedCount"@, number(obtained)),
                            ("totalCount"@, number(total)),
                        ],
                    ),
                    units: ratio_units(obtained as int, total as int),
                }
            },
            None => no_progress(),
        },
        None => no_progress(),
    }
}

/// Computes the progress through a collection from the collection log facet.
pub fn collection_log_progress(target_data: &Json, collection_log: &Json) -> (r: (Json, Percent))
    ensures
        r.0@ == collection_log_of(target_data@, collection_log@).detail,
        r.1.value() == collection_log_of(target_data@, collection_log@).units,
        r.1.in_range(),
{
    match read_text(target_data, "collectionName") {
        Some(name) => match collection_log.get(name) {
            Some(entry) => {
                let obtained = read_int(entry, "obtained_count", 0);
                let total = read_int(entry, "total_count", 1);
                let detail = object_of_three(
                    "collectionName",
                    Json::String(String::from_str(name)),
                    "obtainedCount",
                    Json::Number(Some(obtained)),
                    "totalCount",
                    Json::Number(Some(total)),
                );
                (detail, Percent::from_ratio(obtained, total))
            },
            None => (empty_object(), Percent::zero()),
        },
        None => (empty_object(), Percent::zero()),
    }
}

/// Whether `quest` names a quest that the quests facet records as finished.
pub open spec fn quest_finished(quest: JsonValue, quests: JsonValue) -> bool {
    match quest.as_str() {
        Some(name) => match quests.get(name) {
            Some(status) => status.as_str() == Some("FINISHED"@),
            None => false,
        },
        None => false,
    }
}

/// How many of the listed quests are finished.
pub open spec fn finished_count(list: Seq<JsonValue>, quests: JsonValue) -> nat
    decreases list.len(),
{
    if list.len() == 0 {
        0
    } else {
        finished_count(list.drop_last(), quests) + if quest_finished(list.last(), quests) {
            1nat
        } else {
            0nat
        }
    }
}

/// The quests that a milestone lists under `questList`.
pub open spec fn quest_list(target: JsonValue) -> Seq<JsonValue> {
    match target.get("questList"@) {
        Some(value) => match value.as_array() {
            Some(items) => items,
            None => Seq::empty(),
        },
        None => Seq::empty(),
    }
}

/// Progress through a list of quests: the share of the listed quests that are
/// finished. An empty list yields nothing.
pub open spec fn quest_completion_of(target: JsonValue, quests: JsonValue) -> Progress {
    let list = quest_list(target);
    if list.len() == 0 {
        no_progress()
    } else {
        let finished = finished_count(list, quests);
        Progress {
            detail: JsonValue::Object(
                seq![
                    ("completedCount"@, number(saturated(finished as int))),
                    ("totalQuests"@, number(saturated(list.len() as int))),
                ],
            ),
            units: ratio_units(finished as int, list.len() as int),
        }
    }
}

fn is_finished(quest: &Json, quests: &Json) -> (r: bool)
    ensures
        r == quest_finished(quest@, quests@),
{
    match quest.as_str() {
        Some(name) => match quests.get(name) {
            Some(status) => match status.as_str() {
                Some(text) => same_text(text, "FINISHED"),
                None => false,
            },
            None => false,
        },
        None => false,
    }
}

fn count_as_i64(count: usize) -> (r: i64)
    ensures
        r == saturated(count as int),
{
    if count as u64 > 0x7fff_ffff_ffff_ffff {
        i64::MAX
    } else {
        count as i64
    }
}

/// Computes the progress through a list of quests from the quests facet.
pub fn quest_completion_progress(target_data: &Json, quests: &Json) -> (r: (Json, Percent))
    ensures
        r.0@ == quest_completion_of(target_data@, quests@).detail,
        r.1.value() == quest_completion_of(target_data@, quests@).units,
        r.1.in_range(),
{
    let listed = match target_data.get("questList") {
        Some(value) => value.as_array(),
        None => None,
    };
    match listed {
        Some(list) => {
            if list.len() == 0 {
                return (empty_object(), Percent::zero());
            }
            let ghost all = quest_list(target_data@);
            let mut finished: usize = 0;
            let mut i: usize = 0;
            while i < list.len()
                invariant
                    i <= list.len(),
                    all == crate::json::item_values(list@),
                    finished == finished_count(all.take(i as int), quests@),
                    finished <= i,
                decreases list.len() - i,
            {
                proof {
                    assert(all.take(i + 1).drop_last() =~= all.take(i as int));
                }
                if is_finished(&list[i], quests) {
                    finished += 1;
                }
                i += 1;
            }
            assert(all.take(list.len() as int) =~= all);
            let detail = object_of_two(
                "completedCount",
                Json::Number(Some(count_as_i64(finished))),
                "totalQuests",
                Json::Number(Some(count_as_i64(list.len()))),
            );
            (detail, Percent::from_counts(finished, list.len()))
        },
        None => (empty_object(), Percent::zero()),
    }
}

/// The name under which the diary facet records one tier of a diary, made from
/// the lowercase forms of the diary's name and of the tier.
pub open spec fn diary_entry(lowered_name: Seq<char>, lowered_tier: Seq<char>) -> Seq<char> {
    lowered_name + "_"@ + lowered_tier
}

/// Whether the diary facet records `entry` as done.
pub open spec fn diary_done(diary: JsonValue, entry: Seq<char>) -> bool {
    match diary.get(entry) {
        Some(value) => value.as_bool() == Some(true),
        None => false,
    }
}

/// Progress on one tier of a diary, given the lowercase forms of the diary's
/// name and of the tier: full where the diary facet records it as done, else none.
pub open spec fn diary_tier_of(
    diary: JsonValue,
    diary_name: Seq<char>,
    tier: Seq<char>,
    lowered_name: Seq<char>,
    lowered_tier: Seq<char>,
) -> Progress {
    let done = diary_done(diary, diary_entry(lowered_name, lowered_tier));
    Progress {
        detail: JsonValue::Object(
            seq![
                ("completed"@, JsonValue::Bool(done)),
                ("diaryName"@, JsonValue::String(diary_name)),
                ("tier"@, JsonValue::String(tier)),
            ],
        ),
        units: if done {
            FULL_UNITS as int
        } else {
            0
        },
    }
}

/// Progress on one tier of a diary. A milestone that names no diary or no tier
/// yields nothing.
pub open spec fn achievement_diary_of(target: JsonValue, diary: JsonValue) -> Progress {
    match text_field(target, "diaryName"@) {
        Some(name) => match text_field(target, "tier"@) {
            Some(tier) => diary_tier_of(diary, name, tier, lowercase(name), lowercase(tier)),
            None => no_progress(),
        },
        None => no_progress(),
    }
}

/// Computes the progress on one tier of a diary from the diary facet, given
/// the lowercase forms of the diary's name and of the tier.
pub fn diary_tier_progress(
    diary: &Json,
    diary_name: &str,
    tier: &str,
    lowered_name: &str,
    lowered_tier: &str,
) -> (r: (Json, Percent))
    ensures
        r.0@ == diary_tier_of(diary@, diary_name@, tier@, lowered_name@, lowered_tier@).detail,
        r.1.value() == diary_tier_of(diary@, diary_name@, tier@, lowered_name@, lowered_tier@).units,
        r.1.in_range(),
{
    let mut entry = String::from_str(lowered_name);
    entry.append("_");
    entry.append(lowered_tier);
    let done = match diary.get(entry.as_str()) {
        Some(value) => match value.as_bool() {
            Some(flag) => flag,
            None => false,
        },
        None => false,
    };
    let detail = object_of_three(
        "completed",
        Json::Bool(done),
        "diaryName",
        Json::String(String::from_str(diary_name)),
        "tier",
        Json::String(String::from_str(tier)),
    );
    (detail, if done { Percent::full() } else { Percent::zero() })
}

/// Computes the progress on one tier of a diary from the diary facet.
pub fn achievement_diary_progress(target_data: &Json, diary: &Json) -> (r: (Json, Percent))
    ensures
        r.0@ == achievement_diary_of(target_data@, diary@).detail,
        r.1.value() == achievement_diary_of(target_data@, diary@).units,
        r.1.in_range(),
{
    match read_text(target_data, "diaryName") {
        Some(name) => match read_text(target_data, "tier") {
            Some(tier) => {
                let lowered_name = to_lowercase(name);
                let lowered_tier = to_lowercase(tier);
                diary_tier_progress(diary, name, tier, lowered_name.as_str(), lowered_tier.as_str())
            },
            None => (empty_object(), Percent::zero()),
        },
        None => (empty_object(), Percent::zero()),
    }
}

/// The state of a member as the game client reports it. Each facet is a JSON
/// text, or missing.
#[derive(Clone, Debug, PartialEq, Eq)]
pub struct GroupMember {
    /// Skill name to an object with the skill's `level`.
    pub skills: Option<String>,
    /// Counter name to its value.
    pub stats: Option<String>,
    /// Collection name to an object with `obtained_count` and `total_count`.
    pub collection_log: Option<String>,
    /// Quest name to its status.
    pub quests: Option<String>,
    /// Diary name and tier to whether the tier is done.
    pub diary_vars: Option<String>,
}

/// The facets of a snapshot once read. A facet that was missing, or whose text
/// could not be read, is absent.
#[derive(Debug, PartialEq, Eq)]
pub struct Snapshot {
    pub skills: Option<Json>,
    pub stats: Option<Json>,
    pub collection_log: Option<Json>,
    pub quests: Option<Json>,
    pub diary_vars: Option<Json>,
}

/// The contents of the facets of a snapshot.
pub struct Facets {
    pub skills: Option<JsonValue>,
    pub stats: Option<JsonValue>,
    pub collection_log: Option<JsonValue>,
    pub quests: Option<JsonValue>,
    pub diary_vars: Option<JsonValue>,
}

/// The content of a facet that may be absent.
pub open spec fn facet_value(facet: Option<Json>) -> Option<JsonValue> {
    match facet {
        Some(json) => Some(json@),
        None => None,
    }
}

impl View for Snapshot {
    type V = Facets;

    open spec fn view(&self) -> Facets {
        Facets {
            skills: facet_value(self.skills),
            stats: facet_value(self.stats),
            collection_log: facet_value(self.collection_log),
            quests: facet_value(self.quests),
            diary_vars: facet_value(self.diary_vars),
        }
    }
}

/// What reading a facet yields: nothing where the text is missing or is no JSON.
pub open spec fn facet_of(text: Option<String>) -> Option<JsonValue> {
    match text {
        Some(t) => parsed(t@),
        None => None,
    }
}

/// What reading the facets of a member's state yields.
pub open spec fn facets_of(member: GroupMember) -> Facets {
    Facets {
        skills: facet_of(member.skills),
        stats: facet_of(member.stats),
        collection_log: facet_of(member.collection_log),
        quests: facet_of(member.quests),
        diary_vars: facet_of(member.diary_vars),
    }
}

/// The progress of a member toward a milestone of the given kind: computed from
/// the facet that the kind draws on, nothing where that facet is absent, and
/// nothing for a custom milestone.
pub open spec fn progress_of(kind: MilestoneKind, target: JsonValue, facets: Facets) -> Progress {
    match kind {
        MilestoneKind::SkillTotal => match facets.skills {
            Some(skills) => skill_total_of(target, skills),
            None => no_progress(),
        },
        MilestoneKind::BossKc => match facets.stats {
            Some(stats) => boss_kc_of(target, stats),
            None => no_progress(),
        },
        MilestoneKind::CollectionLog => match facets.collection_log {
            Some(log) => collection_log_of(target, log),
            None => no_progress(),
        },
        MilestoneKind::QuestCompletion => match facets.quests {
            Some(quests) => quest_completion_of(target, quests),
            None => no_progress(),
        },
        MilestoneKind::AchievementDiary => match facets.diary_vars {
            Some(diary) => achievement_diary_of(target, diary),
            None => no_progress(),
        },
        MilestoneKind::Custom => no_progress(),
    }
}

/// Whatever the milestone and the snapshot, the percentage that is computed
/// lies between 0 and 100.
pub proof fn lemma_progress_in_range(kind: MilestoneKind, target: JsonValue, facets: Facets)
    ensures
        0 <= progress_of(kind, target, facets).units <= FULL_UNITS,
{
    match kind {
        MilestoneKind::SkillTotal => {
            if let Some(skills) = facets.skills {
                if let Some(entries) = skills.as_object() {
                    lemma_ratio_clamped(
                        total_level(entries),
                        int_field(target, "totalLevel"@, 500) as int,
                    );
                }
            }
        },
        MilestoneKind::BossKc => {
            if let Some(stats) = facets.stats {
                if let Some(name) = text_field(target, "bossName"@) {
                    lemma_ratio_clamped(
                        int_field(stats, kill_counter(lowercase(name)), 0) as int,
                        int_field(target, "killCount"@, 50) as int,
                    );
                }
            }
        },
        MilestoneKind::CollectionLog => {
            if let Some(log) = facets.collection_log {
                if let Some(name) = text_field(target, "collectionName"@) {
                    if let Some(entry) = log.get(name) {
                        lemma_ratio_clamped(
                            int_field(entry, "obtained_count"@, 0) as int,
                            int_field(entry, "total_count"@, 1) as int,
                        );
                    }
                }
            }
        },
        MilestoneKind::QuestCompletion => {
            if let Some(quests) = facets.quests {
                let list = quest_list(target);
                lemma_ratio_clamped(finished_count(list, quests) as int, list.len() as int);
            }
        },
        MilestoneKind::AchievementDiary => {},
        MilestoneKind::Custom => {},
    }
}

/// Reads one facet. A text that is no JSON counts as a missing facet.
pub fn read_facet(text: &Option<String>) -> (r: Option<Json>)
    ensures
        facet_value(r) == facet_of(*text),
{
    match text {
        Some(t) => parse(t.as_str()),
        None => None,
    }
}

/// Reads the five facets of a member's state.
pub fn read_snapshot(member_data: &GroupMember) -> (r: Snapshot)
    ensures
        r@ == facets_of(*member_data),
{
    Snapshot {
        skills: read_facet(&member_data.skills),
        stats: read_facet(&member_data.stats),
        collection_log: read_facet(&member_data.collection_log),
        quests: read_facet(&member_data.quests),
        diary_vars: read_facet(&member_data.diary_vars),
    }
}

/// Computes the progress toward a milestone of the given kind from a snapshot
/// whose facets have been read.
pub fn snapshot_progress(kind: MilestoneKind, target_data: &Json, snapshot: &Snapshot) -> (r: (
    Json,
    Percent,
))
    ensures
        r.0@ == progress_of(kind, target_data@, snapshot@).detail,
        r.1.value() == progress_of(kind, target_data@, snapshot@).units,
        r.1.in_range(),
{
    match kind {
        MilestoneKind::SkillTotal => match &snapshot.skills {
            Some(skills) => skill_total_progress(target_data, skills),
            None => (empty_object(), Percent::zero()),
        },
        MilestoneKind::BossKc => match &snapshot.stats {
            Some(stats) => boss_kc_progress(target_data, stats),
            None => (empty_object(), Percent::zero()),
        },
        MilestoneKind::CollectionLog => match &snapshot.collection_log {
            Some(log) => collection_log_progress(target_data, log),
            None => (empty_object(), Percent::zero()),
        },
        MilestoneKind::QuestCompletion => match &snapshot.quests {
            Some(quests) => quest_completion_progress(target_data, quests),
            None => (empty_object(), Percent::zero()),
        },
        MilestoneKind::AchievementDiary => match &snapshot.diary_vars {
            Some(diary) => achievement_diary_progress(target_data, diary),
            None => (empty_object(), Percent::zero()),
        },
        MilestoneKind::Custom => (empty_object(), Percent::zero()),
    }
}

/// Computes the progress of a member toward a milestone: the detail to store
/// and the percentage. It never fails: whatever cannot be read counts as no
/// progress. The completion criteria of the milestone play no part.
pub fn calculate_progress(
    milestone_type: &str,
    target_data: &Json,
    completion_criteria: &Json,
    member_data: &GroupMember,
) -> (r: Result<(Json, Percent), ApiError>)
    ensures
        r is Ok,
        r->Ok_0.0@ == progress_of(
            kind_of(milestone_type@),
            target_data@,
            facets_of(*member_data),
        ).detail,
        r->Ok_0.1.value() == progress_of(
            kind_of(milestone_type@),
            target_data@,
            facets_of(*member_data),
        ).units,
        r->Ok_0.1.in_range(),
{
    let nothing = (empty_object(), Percent::zero());
    let progress = match milestone_kind(milestone_type) {
        MilestoneKind::SkillTotal => match read_facet(&member_data.skills) {
            Some(skills) => skill_total_progress(target_data, &skills),
            None => nothing,
        },
        MilestoneKind::BossKc => match read_facet(&member_data.stats) {
            Some(stats) => boss_kc_progress(target_data, &stats),
            None => nothing,
        },
        MilestoneKind::CollectionLog => match read_facet(&member_data.collection_log) {
            Some(log) => collection_log_progress(target_data, &log),
            None => nothing,
        },
        MilestoneKind::QuestCompletion => match read_facet(&member_data.quests) {
            Some(quests) => quest_completion_progress(target_data, &quests),
            None => nothing,
        },
        MilestoneKind::AchievementDiary => match read_facet(&member_data.diary_vars) {
            Some(diary) => achievement_diary_progress(target_data, &diary),
            None => nothing,
        },
        MilestoneKind::Custom => nothing,
    };
    Ok(progress)
}

} // verus!
