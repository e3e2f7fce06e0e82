use appdb::connection::{
    format_duration_param, format_duration_parts, is_schema_already_defined_error,
    local_datastore_config, local_storage_datastore_path, make_schema_ddl_idempotent,
    Duration, InitDbOptions, LocalStorageSync,
};
use std::collections::BTreeMap;

#[test]
fn default_init_options_are_non_versioned() {
    let options = InitDbOptions::default();
    assert!(!options.versioned);
    assert!(options.version_retention.is_none());
    assert!(options.query_timeout.is_none());
    assert!(options.transaction_timeout.is_none());
    assert!(options.changefeed_gc_interval.is_none());
    assert!(!options.ast_payload);
    assert!(options.local_storage_sync.is_none());
    assert!(options.surreal_kv_max_memtable_size.is_none());
}

#[test]
fn init_options_builders_override_values() {
    let options = InitDbOptions::default()
        .versioned(true)
        .version_retention(Some(Duration::from_secs(60)))
        .query_timeout(Some(Duration::from_secs(3)))
        .transaction_timeout(Some(Duration::from_secs(9)))
        .changefeed_gc_interval(Some(Duration::from_secs(30)))
        .ast_payload(true)
        .local_storage_sync(Some(LocalStorageSync::Interval(Duration::from_millis(200))))
        .surreal_kv_max_memtable_size(Some(16 * 1024 * 1024));

    assert!(options.versioned);
    assert_eq!(options.version_retention, Some(Duration::from_secs(60)));
    assert_eq!(options.query_timeout, Some(Duration::from_secs(3)));
    assert_eq!(options.transaction_timeout, Some(Duration::from_secs(9)));
    assert_eq!(
        options.changefeed_gc_interval,
        Some(Duration::from_secs(30))
    );
    assert!(options.ast_payload);
    assert_eq!(
        options.local_storage_sync,
        Some(LocalStorageSync::Interval(Duration::from_millis(200)))
    );
    assert_eq!(options.surreal_kv_max_memtable_size, Some(16 * 1024 * 1024));
}

#[test]
fn local_app_init_options_own_interactive_storage_policy() {
    let options = InitDbOptions::local_app();

    assert!(!options.versioned);
    assert_eq!(options.changefeed_gc_interval, Some(Duration::zero()));
    assert_eq!(options.local_storage_sync, Some(LocalStorageSync::Every));
    assert_eq!(options.surreal_kv_max_memtable_size, Some(16 * 1024 * 1024));
}

#[test]
fn local_storage_sync_formats_for_surrealdb_endpoint_params() {
    assert_eq!(LocalStorageSync::Never.to_string(), "never");
    assert_eq!(LocalStorageSync::Every.to_string(), "every");
    assert_eq!(
        LocalStorageSync::Interval(Duration::from_millis(200)).to_string(),
        "200ms"
    );
    assert_eq!(
        LocalStorageSync::Interval(Duration::from_secs(1)).to_string(),
        "1s"
    );
}

#[test]
fn duration_params_use_surrealdb_duration_units() {
    assert_eq!(format_duration_param(Duration::zero()), "0");
    assert_eq!(format_duration_param(Duration::from_micros(250)), "250us");
    assert_eq!(format_duration_param(Duration::from_millis(200)), "200ms");
    assert_eq!(format_duration_param(Duration::from_secs(1)), "1s");
    assert_eq!(format_duration_param(Duration::from_secs(60)), "1m");
}

#[test]
fn duration_params_cover_hours_days_and_mixed_values() {
    assert_eq!(format_duration_param(Duration::from_secs(7200)), "2h");
    assert_eq!(format_duration_param(Duration::from_secs(172800)), "2d");
    assert_eq!(format_duration_param(Duration::from_secs(61)), "61s");
    assert_eq!(format_duration_param(Duration::from_millis(1500)), "1500ms");
    assert_eq!(format_duration_param(Duration::from_nanos(1500)), "1us");
    assert_eq!(format_duration_parts(0, 999), "0us");
    assert_eq!(format_duration_parts(3, 0), "3s");
}

#[test]
fn local_storage_datastore_path_keeps_policy_out_of_the_path() {
    assert_eq!(
        local_storage_datastore_path("data/surreal.db"),
        "surrealkv://data/surreal.db"
    );
}

#[test]
fn local_datastore_config_uses_core_config_keys() {
    let config = local_datastore_config(
        &InitDbOptions::default()
            .versioned(true)
            .version_retention(Some(Duration::from_secs(60)))
            .local_storage_sync(Some(LocalStorageSync::Every))
            .surreal_kv_max_memtable_size(Some(16 * 1024 * 1024)),
    );

    let config: BTreeMap<String, String> = config.into_iter().collect();
    let serialized = format!("{config:?}");
    assert!(serialized.contains("\"datastore_versioned\": \"true\""));
    assert!(serialized.contains("\"datastore_retention\": \"1m\""));
    assert!(serialized.contains("\"datastore_sync\": \"every\""));
    assert!(serialized.contains("\"surrealkv_max_memtable_size\": \"16777216\""));
    assert!(!serialized.contains("datastore_surrealkv_max_memtable_size"));
}

#[test]
fn durations_keep_seconds_and_subsecond_nanos() {
    let d = Duration::from_millis(1500);
    assert_eq!(d.as_secs(), 1);
    assert_eq!(d.subsec_nanos(), 500_000_000);
    let d = Duration::from_micros(2_000_250);
    assert_eq!(d.as_secs(), 2);
    assert_eq!(d.subsec_nanos(), 250_000);
    assert_eq!(Duration::new(5, 7), Duration::from_nanos(5_000_000_007));
    assert_eq!(Duration::new(1, 1_500_000_000), Duration::new(2, 500_000_000));
    assert_eq!(Duration::new(1, 1_500_000_000).subsec_nanos(), 500_000_000);
    assert_eq!(Duration::zero(), Duration::from_secs(0));
    assert_eq!(
        LocalStorageSync::Interval(Duration::from_micros(250)).to_string(),
        "250us"
    );
}

#[test]
fn local_datastore_config_renders_interval_sync_and_retention() {
    let config = local_datastore_config(
        &InitDbOptions::default()
            .version_retention(Some(Duration::from_secs(7200)))
            .local_storage_sync(Some(LocalStorageSync::Interval(Duration::from_millis(200)))),
    );
    assert_eq!(
        config,
        vec![
            ("datastore_versioned".to_owned(), "false".to_owned()),
            ("datastore_retention".to_owned(), "2h".to_owned()),
            ("datastore_sync".to_owned(), "200ms".to_owned()),
        ]
    );
}

#[test]
fn local_datastore_config_lists_only_versioning_by_default() {
    let config = local_datastore_config(&InitDbOptions::default());
    assert_eq!(
        config,
        vec![("datastore_versioned".to_owned(), "false".to_owned())]
    );
}

#[test]
fn idempotent_schema_rewrites_define_table() {
    let ddl = "DEFINE TABLE user SCHEMAFULL;";
    assert_eq!(
        make_schema_ddl_idempotent(ddl),
        "DEFINE TABLE IF NOT EXISTS user SCHEMAFULL;"
    );
}

#[test]
fn idempotent_schema_rewrites_define_field() {
    let ddl = "DEFINE FIELD email ON user TYPE string;";
    assert_eq!(
        make_schema_ddl_idempotent(ddl),
        "DEFINE FIELD IF NOT EXISTS email ON user TYPE string;"
    );
}

#[test]
fn idempotent_schema_rewrites_define_index() {
    let ddl = "DEFINE INDEX user_email ON user FIELDS email UNIQUE;";
    assert_eq!(
        make_schema_ddl_idempotent(ddl),
        "DEFINE INDEX IF NOT EXISTS user_email ON user FIELDS email UNIQUE;"
    );
}

#[test]
fn idempotent_schema_preserves_existing_if_not_exists() {
    let ddl = "DEFINE TABLE IF NOT EXISTS user SCHEMAFULL;";
    assert_eq!(make_schema_ddl_idempotent(ddl), ddl);
}

#[test]
fn idempotent_schema_leaves_other_statements_unchanged() {
    let ddl = "REMOVE TABLE user;";
    assert_eq!(make_schema_ddl_idempotent(ddl), ddl);
}

#[test]
fn idempotent_schema_keeps_leading_whitespace_and_case() {
    let ddl = "  define table user;";
    let once = make_schema_ddl_idempotent(ddl);
    assert_eq!(once, "  define table IF NOT EXISTS user;");
    assert_eq!(make_schema_ddl_idempotent(&once), once);
}

#[test]
fn idempotent_schema_rewrite_is_stable() {
    for ddl in [
        "DEFINE TABLE user SCHEMAFULL;",
        "DEFINE FIELD email ON user TYPE string;",
        "DEFINE INDEX user_email ON user FIELDS email UNIQUE;",
        "DEFINE EVENT e ON user WHEN true THEN {};",
    ] {
        let once = make_schema_ddl_idempotent(ddl);
        assert_eq!(make_schema_ddl_idempotent(&once), once);
    }
}

#[test]
fn already_defined_errors_are_recognised() {
    assert!(is_schema_already_defined_error("The table 'user' ALREADY EXISTS"));
    assert!(is_schema_already_defined_error("index already defined"));
    assert!(!is_schema_already_defined_error("permission denied"));
}

#[test]
fn schema_failures_are_tolerated_only_for_unrewritten_existing_items() {
    use_schema_failure_outcome();
}

fn use_schema_failure_outcome() {
    let ok = appdb::connection::schema_failure_outcome(
        "DEFINE EVENT e ON user WHEN true THEN {};",
        "The event 'e' already exists".to_owned(),
    );
    assert!(ok.is_ok());
    let rewritten = appdb::connection::schema_failure_outcome(
        "DEFINE TABLE user;",
        "The table 'user' already exists".to_owned(),
    );
    assert_eq!(
        rewritten.expect_err("rewritten statements report failures").to_string(),
        "Query response error: The table 'user' already exists"
    );
    let other = appdb::connection::schema_failure_outcome(
        "DEFINE EVENT e ON user WHEN true THEN {};",
        "parse error".to_owned(),
    );
    assert!(other.is_err());
}
