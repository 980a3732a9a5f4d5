use milestones::json::Json;
use milestones::percent::{Percent, FULL_UNITS, UNITS_PER_POINT};
use milestones::progress::{
    achievement_diary_progress, boss_kc_progress, calculate_progress, collection_log_progress,
    diary_tier_progress, kill_count_progress, kill_counter_name, milestone_kind,
    quest_completion_progress, read_facet, read_int, read_snapshot, read_text,
    skill_total_progress, snapshot_progress, GroupMember, MilestoneKind,
};

fn object(entries: Vec<(&str, Json)>) -> Json {
    Json::Object(entries.into_iter().map(|(k, v)| (k.to_string(), v)).collect())
}

fn num(value: i64) -> Json {
    Json::Number(Some(value))
}

fn text(value: &str) -> Json {
    Json::String(value.to_string())
}

fn member() -> GroupMember {
    GroupMember { skills: None, stats: None, collection_log: None, quests: None, diary_vars: None }
}

fn points(p: Percent) -> f64 {
    p.units() as f64 / UNITS_PER_POINT as f64
}

#[test]
fn boss_kc_scenario_reaches_one_hundred_percent() {
    let target = object(vec![("bossName", text("Zulrah")), ("killCount", num(50))]);
    let mut data = member();
    data.stats = Some(r#"{"zulrah_kc": 50, "vorkath_kc": 3}"#.to_string());
    let (detail, percent) = calculate_progress("boss_kc", &target, &Json::Null, &data).unwrap();
    assert_eq!(percent.units(), FULL_UNITS);
    assert!(percent.is_complete());
    assert_eq!(points(percent), 100.0);
    assert_eq!(detail.get("currentKc"), Some(&num(50)));
    assert_eq!(detail.get("targetKc"), Some(&num(50)));
    assert_eq!(detail.get("bossName"), Some(&text("Zulrah")));
    assert_eq!(
        detail,
        object(vec![("bossName", text("Zulrah")), ("currentKc", num(50)), ("targetKc", num(50))])
    );
}

#[test]
fn collection_log_scenario_is_half_done() {
    let target = object(vec![("collectionName", text("Barrows"))]);
    let mut data = member();
    data.collection_log =
        Some(r#"{"Barrows": {"obtained_count": 10, "total_count": 20}}"#.to_string());
    let (detail, percent) =
        calculate_progress("collection_log", &target, &Json::Null, &data).unwrap();
    assert_eq!(percent.units(), 50 * UNITS_PER_POINT);
    assert_eq!(points(percent), 50.0);
    assert_eq!(
        detail,
        object(vec![
            ("collectionName", text("Barrows")),
            ("obtainedCount", num(10)),
            ("totalCount", num(20)),
        ])
    );
}

#[test]
fn unknown_milestone_type_yields_nothing() {
    let target = object(vec![("bossName", text("Zulrah"))]);
    let mut data = member();
    data.stats = Some(r#"{"zulrah_kc": 50}"#.to_string());
    data.skills = Some(r#"{"attack": {"level": 99}}"#.to_string());
    let result = calculate_progress("speedrun", &target, &Json::Null, &data);
    assert!(result.is_ok());
    let (detail, percent) = result.unwrap();
    assert_eq!(percent.units(), 0);
    assert_eq!(detail, Json::Object(vec![]));
    assert_eq!(milestone_kind("speedrun"), MilestoneKind::Custom);
    assert_eq!(milestone_kind(""), MilestoneKind::Custom);
    assert_eq!(milestone_kind("Boss_KC"), MilestoneKind::Custom);
}

#[test]
fn milestone_kinds_are_told_apart() {
    assert_eq!(milestone_kind("skill_total"), MilestoneKind::SkillTotal);
    assert_eq!(milestone_kind("boss_kc"), MilestoneKind::BossKc);
    assert_eq!(milestone_kind("collection_log"), MilestoneKind::CollectionLog);
    assert_eq!(milestone_kind("quest_completion"), MilestoneKind::QuestCompletion);
    assert_eq!(milestone_kind("achievement_diary"), MilestoneKind::AchievementDiary);
}

#[test]
fn kill_count_above_target_is_clamped() {
    let target = object(vec![("bossName", text("Zulrah")), ("killCount", num(50))]);
    let stats = object(vec![("zulrah_kc", num(120))]);
    let (detail, percent) = boss_kc_progress(&target, &stats);
    assert_eq!(percent.units(), FULL_UNITS);
    assert_eq!(detail.get("currentKc"), Some(&num(120)));
}

#[test]
fn kill_count_defaults() {
    let target = object(vec![("bossName", text("Zulrah"))]);
    let stats = object(vec![("zulrah_kc", num(10))]);
    let (detail, percent) = boss_kc_progress(&target, &stats);
    assert_eq!(percent.units(), 20 * UNITS_PER_POINT);
    assert_eq!(detail.get("targetKc"), Some(&num(50)));
    let (detail, percent) = boss_kc_progress(&target, &object(vec![]));
    assert_eq!(percent.units(), 0);
    assert_eq!(detail.get("currentKc"), Some(&num(0)));
    assert_eq!(detail.get("bossName"), Some(&text("Zulrah")));
}

#[test]
fn kill_count_without_boss_name_yields_nothing() {
    let target = object(vec![("killCount", num(50))]);
    let stats = object(vec![("zulrah_kc", num(10))]);
    let (detail, percent) = boss_kc_progress(&target, &stats);
    assert_eq!(percent.units(), 0);
    assert_eq!(detail, Json::Object(vec![]));
    let target = object(vec![("bossName", num(3))]);
    let (detail, percent) = boss_kc_progress(&target, &stats);
    assert_eq!(percent.units(), 0);
    assert_eq!(detail, Json::Object(vec![]));
}

#[test]
fn boss_name_is_lowered_and_spaces_become_underscores() {
    let target = object(vec![("bossName", text("Corporeal Beast")), ("killCount", num(4))]);
    let stats = object(vec![("Corporeal Beast_kc", num(4)), ("corporeal_beast_kc", num(1))]);
    let (detail, percent) = boss_kc_progress(&target, &stats);
    assert_eq!(percent.units(), 25 * UNITS_PER_POINT);
    assert_eq!(detail.get("currentKc"), Some(&num(1)));
    assert_eq!(detail.get("bossName"), Some(&text("Corporeal Beast")));
    assert_eq!(kill_counter_name("the great olm"), "the_great_olm_kc");
    assert_eq!(kill_counter_name(""), "_kc");
}

#[test]
fn kill_count_progress_uses_the_given_lowercase_name() {
    let target = object(vec![("killCount", num(10))]);
    let stats = object(vec![("king_black_dragon_kc", num(3))]);
    let (detail, percent) =
        kill_count_progress(&target, &stats, "King Black Dragon", "king black dragon");
    assert_eq!(percent.units(), 30 * UNITS_PER_POINT);
    assert_eq!(
        detail,
        object(vec![
            ("bossName", text("King Black Dragon")),
            ("currentKc", num(3)),
            ("targetKc", num(10)),
        ])
    );
}

#[test]
fn skill_total_sums_all_levels() {
    let target = object(vec![("totalLevel", num(200))]);
    let skills = object(vec![
        ("attack", object(vec![("level", num(60)), ("xp", num(273_742))])),
        ("strength", object(vec![("level", num(40))])),
        ("broken", object(vec![("xp", num(5))])),
        ("odd", num(7)),
        ("worse", object(vec![("level", text("12"))])),
    ]);
    let (detail, percent) = skill_total_progress(&target, &skills);
    assert_eq!(percent.units(), 50 * UNITS_PER_POINT);
    assert_eq!(detail, object(vec![("currentTotal", num(100)), ("targetTotal", num(200))]));
}

#[test]
fn skill_total_defaults_to_five_hundred() {
    let skills = object(vec![("attack", object(vec![("level", num(99))]))]);
    let (detail, percent) = skill_total_progress(&object(vec![]), &skills);
    assert_eq!(percent.units(), 19_800_000);
    assert_eq!(detail.get("targetTotal"), Some(&num(500)));
    let (_, percent) = skill_total_progress(&Json::Null, &skills);
    assert_eq!(percent.units(), 19_800_000);
}

#[test]
fn skill_total_above_target_is_clamped() {
    let target = object(vec![("totalLevel", num(100))]);
    let skills = object(vec![
        ("attack", object(vec![("level", num(99))])),
        ("defence", object(vec![("level", num(99))])),
    ]);
    let (detail, percent) = skill_total_progress(&target, &skills);
    assert_eq!(percent.units(), FULL_UNITS);
    assert_eq!(detail.get("currentTotal"), Some(&num(198)));
}

#[test]
fn skill_total_of_huge_levels_does_not_overflow() {
    let target = object(vec![("totalLevel", num(i64::MAX))]);
    let skills = object(vec![
        ("a", object(vec![("level", num(i64::MAX))])),
        ("b", object(vec![("level", num(i64::MAX))])),
    ]);
    let (detail, percent) = skill_total_progress(&target, &skills);
    assert_eq!(percent.units(), FULL_UNITS);
    assert_eq!(detail.get("currentTotal"), Some(&num(i64::MAX)));
}

#[test]
fn skills_that_are_no_object_yield_nothing() {
    let target = object(vec![("totalLevel", num(100))]);
    let (detail, percent) = skill_total_progress(&target, &Json::Array(vec![num(1)]));
    assert_eq!(percent.units(), 0);
    assert_eq!(detail, Json::Object(vec![]));
    let (detail, percent) = skill_total_progress(&target, &object(vec![]));
    assert_eq!(percent.units(), 0);
    assert_eq!(detail, object(vec![("currentTotal", num(0)), ("targetTotal", num(100))]));
}

#[test]
fn collection_log_total_defaults_to_one() {
    let target = object(vec![("collectionName", text("Barrows"))]);
    let log = object(vec![("Barrows", object(vec![("obtained_count", num(3))]))]);
    let (detail, percent) = collection_log_progress(&target, &log);
    assert_eq!(percent.units(), FULL_UNITS);
    assert_eq!(detail.get("totalCount"), Some(&num(1)));
    let log = object(vec![("Barrows", object(vec![]))]);
    let (detail, percent) = collection_log_progress(&target, &log);
    assert_eq!(percent.units(), 0);
    assert_eq!(detail.get("obtainedCount"), Some(&num(0)));
}

#[test]
fn collection_log_without_entry_stays_at_zero() {
    let target = object(vec![("collectionName", text("Barrows"))]);
    let log = object(vec![("Zulrah", object(vec![("obtained_count", num(3))]))]);
    let (detail, percent) = collection_log_progress(&target, &log);
    assert_eq!(percent.units(), 0);
    assert_eq!(detail, Json::Object(vec![]));
    let (detail, percent) = collection_log_progress(&object(vec![]), &log);
    assert_eq!(percent.units(), 0);
    assert_eq!(detail, Json::Object(vec![]));
}

#[test]
fn collection_log_rounds_down() {
    let target = object(vec![("collectionName", text("Barrows"))]);
    let log = object(vec![(
        "Barrows",
        object(vec![("obtained_count", num(1)), ("total_count", num(3))]),
    )]);
    let (_, percent) = collection_log_progress(&target, &log);
    assert_eq!(percent.units(), 33_333_333);
    let log = object(vec![(
        "Barrows",
        object(vec![("obtained_count", num(2)), ("total_count", num(3))]),
    )]);
    let (_, percent) = collection_log_progress(&target, &log);
    assert_eq!(percent.units(), 66_666_666);
}

#[test]
fn quest_completion_counts_finished_quests() {
    let target = object(vec![(
        "questList",
        Json::Array(vec![
            text("Dragon Slayer"),
            text("Cook's Assistant"),
            text("Monkey Madness"),
            num(4),
        ]),
    )]);
    let quests = object(vec![
        ("Dragon Slayer", text("FINISHED")),
        ("Cook's Assistant", text("IN_PROGRESS")),
        ("Monkey Madness", text("finished")),
        ("Recipe for Disaster", text("FINISHED")),
    ]);
    let (detail, percent) = quest_completion_progress(&target, &quests);
    assert_eq!(percent.units(), 25 * UNITS_PER_POINT);
    assert_eq!(detail, object(vec![("completedCount", num(1)), ("totalQuests", num(4))]));
}

#[test]
fn quest_completion_of_all_quests_is_complete() {
    let target =
        object(vec![("questList", Json::Array(vec![text("Dragon Slayer"), text("Lost City")]))]);
    let quests =
        object(vec![("Dragon Slayer", text("FINISHED")), ("Lost City", text("FINISHED"))]);
    let (detail, percent) = quest_completion_progress(&target, &quests);
    assert!(percent.is_complete());
    assert_eq!(detail, object(vec![("completedCount", num(2)), ("totalQuests", num(2))]));
}

#[test]
fn quest_completion_of_an_empty_list_is_zero() {
    let quests = object(vec![("Dragon Slayer", text("FINISHED"))]);
    let target = object(vec![("questList", Json::Array(vec![]))]);
    let (detail, percent) = quest_completion_progress(&target, &quests);
    assert_eq!(percent.units(), 0);
    assert_eq!(detail, Json::Object(vec![]));
    let (detail, percent) = quest_completion_progress(&object(vec![]), &quests);
    assert_eq!(percent.units(), 0);
    assert_eq!(detail, Json::Object(vec![]));
    let target = object(vec![("questList", text("Dragon Slayer"))]);
    let (detail, percent) = quest_completion_progress(&target, &quests);
    assert_eq!(percent.units(), 0);
    assert_eq!(detail, Json::Object(vec![]));
}

#[test]
fn achievement_diary_is_all_or_nothing() {
    let target = object(vec![("diaryName", text("Ardougne")), ("tier", text("Hard"))]);
    let diary = object(vec![("ardougne_hard", Json::Bool(true)), ("ardougne_elite", Json::Bool(false))]);
    let (detail, percent) = achievement_diary_progress(&target, &diary);
    assert!(percent.is_complete());
    assert_eq!(
        detail,
        object(vec![
            ("completed", Json::Bool(true)),
            ("diaryName", text("Ardougne")),
            ("tier", text("Hard")),
        ])
    );
    let target = object(vec![("diaryName", text("Ardougne")), ("tier", text("ELITE"))]);
    let (detail, percent) = achievement_diary_progress(&target, &diary);
    assert_eq!(percent.units(), 0);
    assert_eq!(detail.get("completed"), Some(&Json::Bool(false)));
    let target = object(vec![("diaryName", text("Ardougne")), ("tier", text("Easy"))]);
    let (detail, percent) = achievement_diary_progress(&target, &diary);
    assert_eq!(percent.units(), 0);
    assert_eq!(detail.get("completed"), Some(&Json::Bool(false)));
}

#[test]
fn achievement_diary_needs_name_and_tier() {
    let diary = object(vec![("ardougne_hard", Json::Bool(true))]);
    let (detail, percent) =
        achievement_diary_progress(&object(vec![("diaryName", text("Ardougne"))]), &diary);
    assert_eq!(percent.units(), 0);
    assert_eq!(detail, Json::Object(vec![]));
    let (detail, percent) =
        achievement_diary_progress(&object(vec![("tier", text("Hard"))]), &diary);
    assert_eq!(percent.units(), 0);
    assert_eq!(detail, Json::Object(vec![]));
}

#[test]
fn diary_tier_progress_reads_the_given_entry() {
    let diary = object(vec![("karamja_easy", Json::Bool(true)), ("karamja_hard", num(1))]);
    let (detail, percent) = diary_tier_progress(&diary, "Karamja", "Easy", "karamja", "easy");
    assert!(percent.is_complete());
    assert_eq!(detail.get("tier"), Some(&text("Easy")));
    let (_, percent) = diary_tier_progress(&diary, "Karamja", "Hard", "karamja", "hard");
    assert_eq!(percent.units(), 0);
    let (_, percent) = diary_tier_progress(&diary, "Karamja", "Easy", "Karamja", "Easy");
    assert_eq!(percent.units(), 0);
}

#[test]
fn missing_facet_yields_nothing() {
    let data = member();
    let target = object(vec![
        ("bossName", text("Zulrah")),
        ("collectionName", text("Barrows")),
        ("questList", Json::Array(vec![text("Lost City")])),
        ("diaryName", text("Ardougne")),
        ("tier", text("Hard")),
    ]);
    for kind in ["skill_total", "boss_kc", "collection_log", "quest_completion", "achievement_diary"]
    {
        let (detail, percent) = calculate_progress(kind, &target, &Json::Null, &data).unwrap();
        assert_eq!(percent.units(), 0);
        assert_eq!(detail, Json::Object(vec![]));
    }
}

#[test]
fn unreadable_facet_counts_as_missing() {
    let mut data = member();
    data.stats = Some("{not json".to_string());
    data.skills = Some("".to_string());
    data.quests = Some(r#"{"Lost City": "FINISHED"}"#.to_string());
    let target = object(vec![
        ("bossName", text("Zulrah")),
        ("questList", Json::Array(vec![text("Lost City")])),
    ]);
    let (detail, percent) = calculate_progress("boss_kc", &target, &Json::Null, &data).unwrap();
    assert_eq!(percent.units(), 0);
    assert_eq!(detail, Json::Object(vec![]));
    let (detail, percent) =
        calculate_progress("skill_total", &target, &Json::Null, &data).unwrap();
    assert_eq!(percent.units(), 0);
    assert_eq!(detail, Json::Object(vec![]));
    let (_, percent) =
        calculate_progress("quest_completion", &target, &Json::Null, &data).unwrap();
    assert!(percent.is_complete());
    assert_eq!(read_facet(&Some("[1, 2".to_string())), None);
    assert_eq!(read_facet(&None), None);
}

#[test]
fn calculate_progress_reads_every_facet() {
    let mut data = member();
    data.skills = Some(r#"{"attack": {"level": 50}, "magic": {"level": 75}}"#.to_string());
    data.quests = Some(r#"{"Lost City": "FINISHED", "Dragon Slayer": "NOT_STARTED"}"#.to_string());
    data.diary_vars = Some(r#"{"falador_medium": true}"#.to_string());
    let (detail, percent) = calculate_progress(
        "skill_total",
        &object(vec![("totalLevel", num(250))]),
        &Json::Null,
        &data,
    )
    .unwrap();
    assert_eq!(percent.units(), 50 * UNITS_PER_POINT);
    assert_eq!(detail.get("currentTotal"), Some(&num(125)));
    let (_, percent) = calculate_progress(
        "quest_completion",
        &object(vec![("questList", Json::Array(vec![text("Lost City"), text("Dragon Slayer")]))]),
        &Json::Null,
        &data,
    )
    .unwrap();
    assert_eq!(percent.units(), 50 * UNITS_PER_POINT);
    let (_, percent) = calculate_progress(
        "achievement_diary",
        &object(vec![("diaryName", text("Falador")), ("tier", text("Medium"))]),
        &Json::Null,
        &data,
    )
    .unwrap();
    assert!(percent.is_complete());
}

#[test]
fn completion_criteria_play_no_part() {
    let target = object(vec![("bossName", text("Zulrah")), ("killCount", num(50))]);
    let mut data = member();
    data.stats = Some(r#"{"zulrah_kc": 25}"#.to_string());
    let plain = calculate_progress("boss_kc", &target, &Json::Null, &data).unwrap();
    let criteria = object(vec![("killCount", num(1)), ("bossName", text("Vorkath"))]);
    let with_criteria = calculate_progress("boss_kc", &target, &criteria, &data).unwrap();
    assert_eq!(plain, with_criteria);
    assert_eq!(plain.1.units(), 50 * UNITS_PER_POINT);
}

#[test]
fn same_snapshot_gives_same_progress() {
    let target = object(vec![("bossName", text("Zulrah")), ("killCount", num(70))]);
    let mut data = member();
    data.stats = Some(r#"{"zulrah_kc": 33}"#.to_string());
    let first = calculate_progress("boss_kc", &target, &Json::Null, &data).unwrap();
    let second = calculate_progress("boss_kc", &target, &Json::Null, &data).unwrap();
    assert_eq!(first, second);
    assert_eq!(first.1.units(), 47_142_857);
}

#[test]
fn snapshot_is_read_once_and_used_for_every_kind() {
    let mut data = member();
    data.stats = Some(r#"{"zulrah_kc": 5}"#.to_string());
    data.collection_log = Some("oops".to_string());
    let snapshot = read_snapshot(&data);
    assert_eq!(snapshot.stats, Some(object(vec![("zulrah_kc", num(5))])));
    assert_eq!(snapshot.collection_log, None);
    assert_eq!(snapshot.skills, None);
    let target = object(vec![("bossName", text("Zulrah")), ("killCount", num(10))]);
    let (_, percent) = snapshot_progress(MilestoneKind::BossKc, &target, &snapshot);
    assert_eq!(percent.units(), 50 * UNITS_PER_POINT);
    let (detail, percent) = snapshot_progress(MilestoneKind::CollectionLog, &target, &snapshot);
    assert_eq!(percent.units(), 0);
    assert_eq!(detail, Json::Object(vec![]));
    let (detail, percent) = snapshot_progress(MilestoneKind::Custom, &target, &snapshot);
    assert_eq!(percent.units(), 0);
    assert_eq!(detail, Json::Object(vec![]));
}

#[test]
fn facets_are_read_as_json() {
    let read = read_facet(&Some(
        r#"{"b": [1, "two", null, true, 2.5], "a": {"n": -3}, "big": 18446744073709551615}"#
            .to_string(),
    ))
    .unwrap();
    assert_eq!(
        read,
        object(vec![
            ("a", object(vec![("n", num(-3))])),
            (
                "b",
                Json::Array(vec![
                    num(1),
                    text("two"),
                    Json::Null,
                    Json::Bool(true),
                    Json::Number(None),
                ]),
            ),
            ("big", Json::Number(None)),
        ])
    );
    assert_eq!(read_facet(&Some("17".to_string())), Some(num(17)));
    assert_eq!(read_facet(&Some(r#""17""#.to_string())), Some(text("17")));
}

#[test]
fn fields_are_read_with_defaults() {
    let value = object(vec![("n", num(5)), ("s", text("five")), ("f", Json::Number(None))]);
    assert_eq!(read_int(&value, "n", 9), 5);
    assert_eq!(read_int(&value, "s", 9), 9);
    assert_eq!(read_int(&value, "f", 9), 9);
    assert_eq!(read_int(&value, "missing", 9), 9);
    assert_eq!(read_int(&Json::Null, "n", 9), 9);
    assert_eq!(read_text(&value, "s"), Some("five"));
    assert_eq!(read_text(&value, "n"), None);
    assert_eq!(read_text(&value, "missing"), None);
}

#[test]
fn negative_and_zero_targets_stay_in_range() {
    assert_eq!(Percent::from_ratio(5, 0).units(), FULL_UNITS);
    assert_eq!(Percent::from_ratio(0, 0).units(), 0);
    assert_eq!(Percent::from_ratio(-5, 0).units(), 0);
    assert_eq!(Percent::from_ratio(-5, 10).units(), 0);
    assert_eq!(Percent::from_ratio(5, -10).units(), 0);
    assert_eq!(Percent::from_ratio(-5, -10).units(), 50 * UNITS_PER_POINT);
    assert_eq!(Percent::from_ratio(-20, -10).units(), FULL_UNITS);
    assert_eq!(Percent::from_ratio(i64::MIN, i64::MIN).units(), FULL_UNITS);
    assert_eq!(Percent::from_ratio(i64::MAX, i64::MIN).units(), 0);
    assert_eq!(Percent::from_ratio(i64::MIN, i64::MAX).units(), 0);
}

#[test]
fn raw_percentages_above_one_hundred_are_stored_as_one_hundred() {
    for (current, target) in [(51, 50), (100, 50), (i64::MAX, 1), (1, 1), (999, 998)] {
        let percent = Percent::from_ratio(current, target);
        assert_eq!(percent.units(), FULL_UNITS);
        assert!(percent.is_complete());
    }
    for (current, target) in [(49, 50), (0, 50), (i64::MAX - 1, i64::MAX), (998, 999)] {
        let percent = Percent::from_ratio(current, target);
        assert!(percent.units() < FULL_UNITS);
        assert!(!percent.is_complete());
    }
    assert_eq!(Percent::from_ratio(49, 50).units(), 98 * UNITS_PER_POINT);
    assert_eq!(Percent::from_ratio(i64::MAX - 1, i64::MAX).units(), 99_999_999);
}

#[test]
fn percent_constructors() {
    assert_eq!(Percent::zero().units(), 0);
    assert_eq!(Percent::full().units(), FULL_UNITS);
    assert_eq!(Percent::from_units(12_500_000).units(), 12_500_000);
    assert_eq!(Percent::from_units(100_000_000).units(), FULL_UNITS);
    assert_eq!(Percent::from_units(100_000_001).units(), FULL_UNITS);
    assert_eq!(Percent::from_units(u64::MAX).units(), FULL_UNITS);
    assert_eq!(Percent::from_counts(1, 4).units(), 25 * UNITS_PER_POINT);
    assert_eq!(Percent::from_counts(0, 0).units(), 0);
    assert_eq!(Percent::from_counts(4, 4).units(), FULL_UNITS);
    assert_eq!(Percent::from_counts(usize::MAX, usize::MAX).units(), FULL_UNITS);
    assert_eq!(Percent::from_counts(usize::MAX - 1, usize::MAX).units(), 99_999_999);
    assert!(!Percent::from_units(99_999_999).is_complete());
    assert_eq!(FULL_UNITS, 100 * UNITS_PER_POINT);
}
