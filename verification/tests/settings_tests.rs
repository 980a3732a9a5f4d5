use milestones::custom_config::{env_var, flag_value, get_env_bool, get_env_int, CustomConfig};
use milestones::custom_plugin_api::{
    boss_points, name_pattern, skill_level_points, PluginUpdateResponse,
};
use milestones::custom_points::{activity_verified, GetPointsRequest};
use milestones::slayer_task_api::{stats_or_none, SlayerStats, SlayerTaskSubmission};
use milestones::text::{decimal_text, parse_i32, underscore_spaces};
use milestones::valuable_drops_api::{
    default_limit, default_quantity, default_sort_direction, default_sort_field, drops_query,
    empty_page, page_info, sort_column, sort_direction, total_value, AddValuableDropRequest,
    DropFilters, GetValuableDropsParams, PaginationInfo,
};

fn vars(pairs: &[(&str, &str)]) -> Vec<(String, String)> {
    pairs.iter().map(|(k, v)| (k.to_string(), v.to_string())).collect()
}

#[test]
fn defaults_hold_where_nothing_is_set() {
    let config = CustomConfig::from_env(&Vec::new());
    assert_eq!(config.boss_points_easy, 10);
    assert_eq!(config.boss_points_medium, 25);
    assert_eq!(config.boss_points_hard, 50);
    assert_eq!(config.skill_level_92_points, 25);
    assert_eq!(config.skill_level_99_points, 50);
    assert_eq!(config.collection_points_per_item, 1);
    assert_eq!(config.collection_set_completion_bonus, 25);
    assert_eq!(config.activity_history_days, 30);
    assert!(config.enable_group_challenges);
    assert!(config.enable_leaderboards);
    assert_eq!(config.points_cache_ttl, 60);
    assert_eq!(config.activities_cache_ttl, 300);
    let default = CustomConfig::default();
    assert_eq!(default.boss_points_hard, 50);
    assert_eq!(default.activities_cache_ttl, 300);
    assert!(default.enable_leaderboards);
}

#[test]
fn settings_are_read_from_the_environment() {
    let env = vars(&[
        ("CUSTOM_BOSS_POINTS_EASY", "11"),
        ("CUSTOM_BOSS_POINTS_MEDIUM", "-26"),
        ("CUSTOM_BOSS_POINTS_HARD", "fifty"),
        ("CUSTOM_SKILL_LEVEL_92_POINTS", "+27"),
        ("CUSTOM_SKILL_LEVEL_99_POINTS", " 51"),
        ("CUSTOM_COLLECTION_POINTS_PER_ITEM", "2147483648"),
        ("CUSTOM_COLLECTION_SET_COMPLETION_BONUS", "2147483647"),
        ("CUSTOM_ACTIVITY_HISTORY_DAYS", ""),
        ("CUSTOM_ENABLE_GROUP_CHALLENGES", "OFF"),
        ("CUSTOM_ENABLE_LEADERBOARDS", "maybe"),
        ("CUSTOM_POINTS_CACHE_TTL", "0"),
        ("CUSTOM_ACTIVITIES_CACHE_TTL", "0300"),
        ("UNRELATED", "1"),
    ]);
    let config = CustomConfig::from_env(&env);
    assert_eq!(config.boss_points_easy, 11);
    assert_eq!(config.boss_points_medium, -26);
    assert_eq!(config.boss_points_hard, 50);
    assert_eq!(config.skill_level_92_points, 27);
    assert_eq!(config.skill_level_99_points, 50);
    assert_eq!(config.collection_points_per_item, 1);
    assert_eq!(config.collection_set_completion_bonus, i32::MAX);
    assert_eq!(config.activity_history_days, 30);
    assert!(!config.enable_group_challenges);
    assert!(config.enable_leaderboards);
    assert_eq!(config.points_cache_ttl, 0);
    assert_eq!(config.activities_cache_ttl, 300);
}

#[test]
fn variables_are_found_by_name() {
    let env = vars(&[("A", "1"), ("B", "2"), ("A", "3")]);
    assert_eq!(env_var(&env, "A"), Some("1"));
    assert_eq!(env_var(&env, "B"), Some("2"));
    assert_eq!(env_var(&env, "a"), None);
    assert_eq!(env_var(&env, ""), None);
    assert_eq!(get_env_int(&env, "B", 7), 2);
    assert_eq!(get_env_int(&env, "C", 7), 7);
    assert!(get_env_bool(&env, "A", false));
    assert!(!get_env_bool(&env, "B", false));
    assert!(get_env_bool(&env, "B", true));
    assert!(get_env_bool(&env, "C", true));
}

#[test]
fn switches_understand_the_known_words() {
    for word in ["true", "1", "yes", "y", "on"] {
        assert!(flag_value(word, false));
    }
    for word in ["false", "0", "no", "n", "off"] {
        assert!(!flag_value(word, true));
    }
    for word in ["", "TRUE", "2", "yes ", "enabled"] {
        assert!(flag_value(word, true));
        assert!(!flag_value(word, false));
    }
    let env = vars(&[("X", "Yes"), ("Y", "FALSE"), ("Z", "On")]);
    assert!(get_env_bool(&env, "X", false));
    assert!(!get_env_bool(&env, "Y", true));
    assert!(get_env_bool(&env, "Z", false));
}

#[test]
fn integers_are_read_in_decimal() {
    assert_eq!(parse_i32("0"), Some(0));
    assert_eq!(parse_i32("-0"), Some(0));
    assert_eq!(parse_i32("+0"), Some(0));
    assert_eq!(parse_i32("42"), Some(42));
    assert_eq!(parse_i32("-42"), Some(-42));
    assert_eq!(parse_i32("+42"), Some(42));
    assert_eq!(parse_i32("0042"), Some(42));
    assert_eq!(parse_i32("2147483647"), Some(i32::MAX));
    assert_eq!(parse_i32("-2147483648"), Some(i32::MIN));
    assert_eq!(parse_i32("00000000000000000000002147483647"), Some(i32::MAX));
    assert_eq!(parse_i32("2147483648"), None);
    assert_eq!(parse_i32("-2147483649"), None);
    assert_eq!(parse_i32("99999999999999999999999999"), None);
    assert_eq!(parse_i32(""), None);
    assert_eq!(parse_i32("-"), None);
    assert_eq!(parse_i32("+"), None);
    assert_eq!(parse_i32("+-1"), None);
    assert_eq!(parse_i32("--1"), None);
    assert_eq!(parse_i32("1-"), None);
    assert_eq!(parse_i32(" 1"), None);
    assert_eq!(parse_i32("1 "), None);
    assert_eq!(parse_i32("1.0"), None);
    assert_eq!(parse_i32("1e3"), None);
    assert_eq!(parse_i32("0x10"), None);
    assert_eq!(parse_i32("١٢"), None);
    for text in ["7", "-7", "+7", "2147483647", "-2147483648", "2147483648", "", "x", "007"] {
        assert_eq!(parse_i32(text), text.parse::<i32>().ok());
    }
}

#[test]
fn numbers_are_written_in_decimal() {
    assert_eq!(decimal_text(0), "0");
    assert_eq!(decimal_text(7), "7");
    assert_eq!(decimal_text(10), "10");
    assert_eq!(decimal_text(1203), "1203");
    assert_eq!(decimal_text(usize::MAX), usize::MAX.to_string());
}

#[test]
fn spaces_become_underscores() {
    assert_eq!(underscore_spaces("a b  c"), "a_b__c");
    assert_eq!(underscore_spaces(""), "");
    assert_eq!(underscore_spaces(" "), "_");
    assert_eq!(underscore_spaces("tab\there"), "tab\there");
    assert_eq!(underscore_spaces("über alles"), "über_alles");
}

#[test]
fn boss_points_follow_the_difficulty() {
    let mut config = CustomConfig::default();
    config.boss_points_easy = 1;
    config.boss_points_medium = 2;
    config.boss_points_hard = 3;
    assert_eq!(boss_points(&config, None), 1);
    assert_eq!(boss_points(&config, Some("easy")), 1);
    assert_eq!(boss_points(&config, Some("medium")), 2);
    assert_eq!(boss_points(&config, Some("hard")), 3);
    assert_eq!(boss_points(&config, Some("Hard")), 1);
    assert_eq!(boss_points(&config, Some("nightmare")), 1);
}

#[test]
fn only_two_skill_levels_earn_points() {
    let config = CustomConfig::default();
    assert_eq!(skill_level_points(&config, 99), Some(50));
    assert_eq!(skill_level_points(&config, 92), Some(25));
    assert_eq!(skill_level_points(&config, 98), None);
    assert_eq!(skill_level_points(&config, 0), None);
    assert_eq!(skill_level_points(&config, -99), None);
}

#[test]
fn plugin_response_adds_up_awards() {
    let mut response = PluginUpdateResponse::new();
    assert_eq!(response.status, "success");
    assert_eq!(response.points_awarded, 0);
    assert!(response.activities_completed.is_empty());
    assert_eq!(response.new_total_points, None);
    response.award("Kill Zulrah".to_string(), 25);
    response.award("Kill Vorkath".to_string(), 50);
    assert_eq!(response.points_awarded, 75);
    assert_eq!(response.activities_completed, vec!["Kill Zulrah", "Kill Vorkath"]);
    response.award("Overflow".to_string(), i32::MAX);
    assert_eq!(response.points_awarded, i32::MAX);
    response.award("Back".to_string(), -1);
    assert_eq!(response.points_awarded, i32::MAX - 1);
    response.set_total(1234);
    assert_eq!(response.new_total_points, Some(1234));
    response.set_total(-5);
    assert_eq!(response.new_total_points, Some(-5));
    response.set_total(4_294_967_296 + 7);
    assert_eq!(response.new_total_points, Some(7));
    assert_eq!(response.points_awarded, i32::MAX - 1);
    let mut low = PluginUpdateResponse::new();
    low.award("a".to_string(), i32::MIN);
    low.award("b".to_string(), -1);
    assert_eq!(low.points_awarded, i32::MIN);
}

#[test]
fn name_patterns_wrap_the_name() {
    assert_eq!(name_pattern("Zulrah"), "%Zulrah%");
    assert_eq!(name_pattern(""), "%%");
}

#[test]
fn point_types_are_filtered_by_part() {
    let all = GetPointsRequest { member_name: None, point_type: None };
    assert!(all.wants("bossing"));
    assert!(all.wants(""));
    let part = GetPointsRequest { member_name: None, point_type: Some("boss".to_string()) };
    assert!(part.wants("bossing"));
    assert!(part.wants("raid boss"));
    assert!(part.wants("boss"));
    assert!(!part.wants("bos"));
    assert!(!part.wants("skilling"));
    assert!(!part.wants("Bossing"));
    let any = GetPointsRequest { member_name: None, point_type: Some("%".to_string()) };
    assert!(any.wants("bossing"));
    assert!(any.wants(""));
    let empty = GetPointsRequest { member_name: None, point_type: Some(String::new()) };
    assert!(empty.wants("bossing"));
    assert!(empty.wants(""));
}

#[test]
fn proof_is_needed_only_where_asked_for() {
    assert!(activity_verified(false, false));
    assert!(activity_verified(false, true));
    assert!(activity_verified(true, true));
    assert!(!activity_verified(true, false));
}

#[test]
fn slayer_reports_default_to_nothing() {
    let mut task = SlayerTaskSubmission {
        monster_name: "Abyssal demon".to_string(),
        quantity: 150,
        slayer_master: "Duradel".to_string(),
        task_streak: None,
        slayer_points: None,
        is_boss_task: None,
    };
    assert!(!task.boss_task());
    assert_eq!(task.stats(), SlayerStats { slayer_points: 0, task_streak: 0 });
    task.task_streak = Some(12);
    task.slayer_points = Some(340);
    task.is_boss_task = Some(true);
    assert!(task.boss_task());
    assert_eq!(task.stats(), SlayerStats { slayer_points: 340, task_streak: 12 });
    task.is_boss_task = Some(false);
    assert!(!task.boss_task());
    assert_eq!(stats_or_none(None), SlayerStats { slayer_points: 0, task_streak: 0 });
    assert_eq!(
        stats_or_none(Some(SlayerStats { slayer_points: 5, task_streak: 6 })),
        SlayerStats { slayer_points: 5, task_streak: 6 }
    );
}

#[test]
fn drop_defaults() {
    assert_eq!(default_quantity(), 1);
    assert_eq!(default_limit(), 25);
    assert_eq!(default_sort_field(), "timestamp");
    assert_eq!(default_sort_direction(), "desc");
}

#[test]
fn pages_know_whether_more_follows() {
    assert_eq!(
        page_info(100, 0, 25, 25),
        PaginationInfo { total_count: 100, offset: 0, limit: 25, has_more: true }
    );
    assert!(page_info(100, 50, 25, 25).has_more);
    assert!(!page_info(100, 75, 25, 25).has_more);
    assert!(!page_info(100, 90, 25, 10).has_more);
    assert!(!page_info(0, 0, 25, 0).has_more);
    assert!(!page_info(i64::MAX, i64::MAX, 25, usize::MAX).has_more);
    assert!(page_info(i64::MAX, i64::MAX - 1, 25, 0).has_more);
    assert!(page_info(5, -10, 25, 0).has_more);
    assert_eq!(
        empty_page(40, 10),
        PaginationInfo { total_count: 0, offset: 40, limit: 10, has_more: false }
    );
}

#[test]
fn only_known_columns_and_directions_reach_a_query() {
    assert_eq!(sort_column("timestamp"), "timestamp");
    assert_eq!(sort_column("item_value"), "item_value");
    assert_eq!(sort_column("item_name"), "item_name");
    assert_eq!(sort_column("source_name"), "source_name");
    assert_eq!(sort_column("drop_id; DROP TABLE x"), "timestamp");
    assert_eq!(sort_column("ITEM_VALUE"), "timestamp");
    assert_eq!(sort_column(""), "timestamp");
    assert_eq!(sort_direction("asc"), "ASC");
    assert_eq!(sort_direction("desc"), "DESC");
    assert_eq!(sort_direction("ASC"), "DESC");
    assert_eq!(sort_direction(""), "DESC");
}

#[test]
fn total_value_is_quantity_times_value() {
    assert_eq!(total_value(3, 1_000_000), Some(3_000_000));
    assert_eq!(total_value(0, i64::MAX), Some(0));
    assert_eq!(total_value(-2, 5), Some(-10));
    assert_eq!(total_value(1, i64::MAX), Some(i64::MAX));
    assert_eq!(total_value(2, i64::MAX), None);
    assert_eq!(total_value(-1, i64::MIN), None);
    assert_eq!(total_value(1, i64::MIN), Some(i64::MIN));
    assert_eq!(total_value(i32::MIN, i64::MIN), None);
}

#[test]
fn drop_time_defaults_to_now() {
    let mut request = AddValuableDropRequest {
        member_name: "ann".to_string(),
        item_id: 4151,
        item_name: "Abyssal whip".to_string(),
        item_quantity: default_quantity(),
        item_value: 1_500_000,
        source_name: "Abyssal demon".to_string(),
        x_coord: None,
        y_coord: None,
        z_coord: None,
        timestamp: None,
    };
    assert_eq!(request.time_or(77), 77);
    request.timestamp = Some(5);
    assert_eq!(request.time_or(77), 5);
}

const SELECT: &str = "SELECT d.drop_id, m.member_name, d.item_id, d.item_name, d.item_quantity, d.item_value, d.source_name, d.x_coord, d.y_coord, d.z_coord, d.timestamp, COUNT(*) OVER() AS total_count FROM groupironman.valuable_drops d JOIN groupironman.members m ON d.member_id = m.member_id WHERE m.group_id = $1";

#[test]
fn drop_queries_number_their_parameters() {
    let none = DropFilters {
        member: false,
        min_value: false,
        source_name: false,
        item_name: false,
        start_date: false,
        end_date: false,
    };
    assert_eq!(
        drops_query(&none, "timestamp", "desc"),
        format!("{} ORDER BY timestamp DESC LIMIT $2 OFFSET $3", SELECT)
    );
    let mut some = none;
    some.min_value = true;
    some.end_date = true;
    assert_eq!(
        drops_query(&some, "item_value", "asc"),
        format!(
            "{} AND d.item_value >= $2 AND d.timestamp <= $3 ORDER BY item_value ASC LIMIT $4 OFFSET $5",
            SELECT
        )
    );
    let all = DropFilters {
        member: true,
        min_value: true,
        source_name: true,
        item_name: true,
        start_date: true,
        end_date: true,
    };
    assert_eq!(
        drops_query(&all, "nonsense", "sideways"),
        format!(
            "{} AND d.member_id = $2 AND d.item_value >= $3 AND d.source_name ILIKE $4 AND d.item_name ILIKE $5 AND d.timestamp >= $6 AND d.timestamp <= $7 ORDER BY timestamp DESC LIMIT $8 OFFSET $9",
            SELECT
        )
    );
}

#[test]
fn filters_follow_the_request() {
    let params = GetValuableDropsParams {
        member_name: Some("ann".to_string()),
        min_value: None,
        source_name: Some("Zulrah".to_string()),
        item_name: None,
        start_date: Some(1),
        end_date: None,
        offset: 0,
        limit: default_limit(),
        sort: default_sort_field(),
        direction: default_sort_direction(),
    };
    assert_eq!(
        params.filters(),
        DropFilters {
            member: true,
            min_value: false,
            source_name: true,
            item_name: false,
            start_date: true,
            end_date: false,
        }
    );
}
