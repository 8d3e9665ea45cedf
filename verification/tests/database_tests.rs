use abbacchio::database::{
    accumulate_level_counts, build_filtered_count_sql, build_hourly_counts_sql,
    build_level_counts_sql, build_log_index_sql, build_namespace_counts_sql, build_query_sql,
    database_stats_of, dec_i64, distinct_namespaces_sql, filter_by_max_time, has_encrypted_sql,
    like_pattern, log_entry_from_row, log_entry_params, log_time_range_of, needing_decryption_sql,
    prune_cutoff, search_count_query_options, time_range_sql, window_to_query_options,
    CountFilterOptions, GetHourlyLogCountsOptions, GetLogIndexByTimeOptions, LevelCounts,
    LogEntry, LogTimeRange, PruneOptions, QueryOptions, SearchMatchCountOptions, SqlParam,
    TimeWindowQueryOptions,
};

const SELECT_COLUMNS: &str = "SELECT id, level, level_label, time, msg, namespace, channel, data, encrypted, encrypted_data, decryption_failed, was_encrypted FROM logs WHERE 1=1";

fn entry(id: &str, time: i64) -> LogEntry {
    LogEntry {
        id: String::from(id),
        level: 30,
        level_label: String::from("info"),
        time,
        msg: String::from("m"),
        namespace: None,
        channel: String::from("app"),
        data: String::from("{}"),
        encrypted: false,
        encrypted_data: None,
        decryption_failed: false,
        was_encrypted: false,
    }
}

#[test]
fn query_sql_without_filters_uses_default_paging() {
    let (sql, params) = build_query_sql(&QueryOptions::default());
    assert_eq!(sql, format!("{} ORDER BY time DESC LIMIT 100 OFFSET 0", SELECT_COLUMNS));
    assert_eq!(params, vec![]);
}

#[test]
fn query_sql_with_all_filters() {
    let options = QueryOptions {
        search: Some(String::from("boom")),
        use_regex: None,
        case_sensitive: None,
        levels: Some(vec![String::from("error"), String::from("fatal")]),
        namespaces: Some(vec![String::from("auth")]),
        min_time: Some(1700000000000),
        channel: Some(String::from("app")),
        limit: Some(10),
        offset: Some(20),
    };
    let (sql, params) = build_query_sql(&options);
    assert_eq!(
        sql,
        format!(
            "{} AND channel = ? AND level_label IN (?,?) AND namespace IN (?) AND time >= ? AND (msg LIKE ? OR data LIKE ?) ORDER BY time DESC LIMIT 10 OFFSET 20",
            SELECT_COLUMNS
        )
    );
    assert_eq!(
        params,
        vec![
            SqlParam::Text(String::from("app")),
            SqlParam::Text(String::from("error")),
            SqlParam::Text(String::from("fatal")),
            SqlParam::Text(String::from("auth")),
            SqlParam::Int(1700000000000),
            SqlParam::Text(String::from("%boom%")),
            SqlParam::Text(String::from("%boom%")),
        ]
    );
}

#[test]
fn empty_level_list_and_empty_search_add_no_clause() {
    let options = QueryOptions {
        levels: Some(vec![]),
        search: Some(String::new()),
        ..QueryOptions::default()
    };
    let (sql, params) = build_query_sql(&options);
    assert_eq!(sql, format!("{} ORDER BY time DESC LIMIT 100 OFFSET 0", SELECT_COLUMNS));
    assert_eq!(params, vec![]);
}

#[test]
fn filtered_count_sql_skips_namespaces() {
    let options = QueryOptions {
        namespaces: Some(vec![String::from("auth")]),
        channel: Some(String::from("app")),
        ..QueryOptions::default()
    };
    let (sql, params) = build_filtered_count_sql(&options);
    assert_eq!(sql, "SELECT COUNT(*) FROM logs WHERE 1=1 AND channel = ?");
    assert_eq!(params, vec![SqlParam::Text(String::from("app"))]);
}

#[test]
fn namespace_and_level_count_sql() {
    let options = CountFilterOptions {
        channel: Some(String::from("app")),
        min_time: Some(5),
    };
    let (sql, params) = build_namespace_counts_sql(&options);
    assert_eq!(
        sql,
        "SELECT namespace, COUNT(*) FROM logs WHERE namespace IS NOT NULL AND channel = ? AND time >= ? GROUP BY namespace"
    );
    assert_eq!(
        params,
        vec![SqlParam::Text(String::from("app")), SqlParam::Int(5)]
    );
    let (sql2, params2) = build_level_counts_sql(&CountFilterOptions::default());
    assert_eq!(sql2, "SELECT level_label, COUNT(*) FROM logs WHERE 1=1 GROUP BY level_label");
    assert_eq!(params2, vec![]);
}

#[test]
fn fixed_statements_choose_channel_scoping() {
    assert_eq!(
        distinct_namespaces_sql(true),
        "SELECT DISTINCT namespace FROM logs WHERE channel = ? AND namespace IS NOT NULL ORDER BY namespace"
    );
    assert_eq!(
        distinct_namespaces_sql(false),
        "SELECT DISTINCT namespace FROM logs WHERE namespace IS NOT NULL ORDER BY namespace"
    );
    assert_eq!(
        has_encrypted_sql(true),
        "SELECT 1 FROM logs WHERE channel = ? AND (encrypted = 1 OR was_encrypted = 1) LIMIT 1"
    );
    assert_eq!(
        has_encrypted_sql(false),
        "SELECT 1 FROM logs WHERE encrypted = 1 OR was_encrypted = 1 LIMIT 1"
    );
    assert!(needing_decryption_sql(true).ends_with(" AND channel = ? ORDER BY time DESC"));
    assert!(needing_decryption_sql(false).ends_with("(encrypted = 1 OR decryption_failed = 1) ORDER BY time DESC"));
}

#[test]
fn hourly_and_log_index_sql() {
    let (sql, params) = build_hourly_counts_sql(&GetHourlyLogCountsOptions {
        channel: String::from("app"),
        min_time: Some(9),
    });
    assert_eq!(
        sql,
        "SELECT (time / 3600000) * 3600000 as hour, COUNT(*) as count FROM logs WHERE channel = ? AND time >= ? GROUP BY hour ORDER BY hour"
    );
    assert_eq!(params, vec![SqlParam::Text(String::from("app")), SqlParam::Int(9)]);

    let (sql2, params2) = build_log_index_sql(&GetLogIndexByTimeOptions {
        channel: String::from("app"),
        target_time: 1700000000000,
        levels: Some(vec![String::from("warn")]),
        namespaces: None,
        min_time: None,
        search: None,
    });
    assert_eq!(
        sql2,
        "SELECT COUNT(*) FROM logs WHERE channel = ? AND time > ? AND level_label IN (?)"
    );
    assert_eq!(
        params2,
        vec![
            SqlParam::Text(String::from("app")),
            SqlParam::Int(1700000000000),
            SqlParam::Text(String::from("warn")),
        ]
    );
}

#[test]
fn signed_decimals_and_like_patterns() {
    assert_eq!(dec_i64(0), "0");
    assert_eq!(dec_i64(42), "42");
    assert_eq!(dec_i64(-1), "-1");
    assert_eq!(dec_i64(i64::MIN), "-9223372036854775808");
    assert_eq!(dec_i64(i64::MAX), "9223372036854775807");
    assert_eq!(like_pattern("err"), "%err%");
    assert_eq!(like_pattern(""), "%%");
}

#[test]
fn window_query_sets_lower_edge_and_end_filter_trims() {
    let options = TimeWindowQueryOptions {
        channel: String::from("app"),
        center_time: 1000,
        window_half_size: 60,
        search: None,
        use_regex: None,
        case_sensitive: None,
        levels: None,
        namespaces: None,
        limit: Some(100),
    };
    let q = window_to_query_options(options);
    assert_eq!(q.channel, Some(String::from("app")));
    assert_eq!(q.min_time, Some(940));
    assert_eq!(q.offset, None);

    let logs = vec![entry("a", 950), entry("b", 1060), entry("c", 1061), entry("d", 1000)];
    let kept = filter_by_max_time(logs, 1060);
    let ids: Vec<String> = kept.into_iter().map(|l| l.id).collect();
    assert_eq!(ids, vec![String::from("a"), String::from("b"), String::from("d")]);
}

#[test]
fn search_match_count_reuses_the_filtered_count() {
    let q = search_count_query_options(SearchMatchCountOptions {
        search: String::from("boom"),
        channel: Some(String::from("app")),
        min_time: Some(3),
        levels: None,
        namespaces: None,
        log_ids: None,
    });
    assert_eq!(q.search, Some(String::from("boom")));
    assert_eq!(q.channel, Some(String::from("app")));
    assert_eq!(q.min_time, Some(3));
    assert_eq!(q.limit, None);
    assert_eq!(q.offset, None);
}

#[test]
fn stats_size_is_pages_times_page_size() {
    let stats = database_stats_of(3, 1000, 128, 4096);
    assert_eq!(stats.channel_count, 3);
    assert_eq!(stats.total_records, 1000);
    assert_eq!(stats.database_size, 524288);
}

#[test]
fn level_counts_fold_sums_all_and_sets_known_labels() {
    let rows = vec![
        (String::from("info"), 7i64),
        (String::from("error"), 2),
        (String::from("custom"), 4),
        (String::from("trace"), 1),
    ];
    let counts = accumulate_level_counts(&rows);
    assert_eq!(
        counts,
        LevelCounts { all: 14, trace: 1, debug: 0, info: 7, warn: 0, error: 2, fatal: 0 }
    );
    assert_eq!(accumulate_level_counts(&vec![]), LevelCounts::default());
}

#[test]
fn prune_cutoff_defaults_to_a_week() {
    let now = 1700000000000i64;
    assert_eq!(prune_cutoff(now, None), now - 604800000);
    assert_eq!(prune_cutoff(now, Some(PruneOptions { max_age_ms: None })), now - 604800000);
    assert_eq!(
        prune_cutoff(now, Some(PruneOptions { max_age_ms: Some(86400000) })),
        now - 86400000
    );
}

#[test]
fn row_normalization_reads_flags_and_validates_payload() {
    let e = log_entry_from_row(
        String::from("id-1"),
        50,
        String::from("error"),
        1700000000000,
        String::from("boom"),
        Some(String::from("auth")),
        String::from("app"),
        String::from("{\"a\":1}"),
        1,
        Some(String::from("AAEC")),
        0,
        1,
    );
    assert_eq!(e.data, "{\"a\":1}");
    assert!(e.encrypted);
    assert!(!e.decryption_failed);
    assert!(e.was_encrypted);

    let bad = log_entry_from_row(
        String::from("id-2"),
        30,
        String::from("info"),
        0,
        String::from("m"),
        None,
        String::from("app"),
        String::from("{not json"),
        0,
        None,
        2,
        0,
    );
    assert_eq!(bad.data, "{}");
    assert!(!bad.encrypted);
    assert!(!bad.decryption_failed);
}

#[test]
fn insert_params_follow_column_order() {
    let mut e = entry("id-9", 77);
    e.namespace = Some(String::from("auth"));
    e.encrypted = true;
    let params = log_entry_params(e);
    assert_eq!(
        params,
        vec![
            SqlParam::Text(String::from("id-9")),
            SqlParam::Int(30),
            SqlParam::Text(String::from("info")),
            SqlParam::Int(77),
            SqlParam::Text(String::from("m")),
            SqlParam::Text(String::from("auth")),
            SqlParam::Text(String::from("app")),
            SqlParam::Text(String::from("{}")),
            SqlParam::Int(1),
            SqlParam::Null,
            SqlParam::Int(0),
            SqlParam::Int(0),
        ]
    );
}

#[test]
fn time_range_edges_and_assembly() {
    assert_eq!(time_range_sql(false), "SELECT MIN(time) FROM logs WHERE channel = ?");
    assert_eq!(time_range_sql(true), "SELECT MAX(time) FROM logs WHERE channel = ?");
    assert_eq!(
        log_time_range_of(Some(3), Some(9)),
        LogTimeRange { min_time: Some(3), max_time: Some(9) }
    );
    assert_eq!(
        log_time_range_of(None, None),
        LogTimeRange { min_time: None, max_time: None }
    );
}
