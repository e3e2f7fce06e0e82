use appdb::error::DBError;
use appdb::model::meta::ViewSource;
use appdb::query::builder::Order;
use appdb::repository::{
    ensure_raw_bulk_insert_supported, ensure_raw_partial_update_supported, ensure_table_source,
    exactly_one_lookup_id, extract_record_id_key, record_key_from_id_field, struct_field_names,
    validate_list_order_field, validate_view_order_field, ExplicitWriteMode, IdField, Repo,
    ViewRepo,
};
use appdb::serde_utils::id::Id;
use serde_json::Value;
use appdb::repository::{
    explicit_write_statement_sql, save_many_chunks, save_many_duplicate_error, save_many_plan,
    save_many_statement_sql, SAVE_MANY_CHUNK_SIZE,
};
use appdb::repository::{ensure_lookup_fields, first_duplicate_key, is_plain_surreal_identifier, lookup_part, unique_lookup_id};

fn object(id: Option<Value>) -> Value {
    let mut map = serde_json::Map::new();
    map.insert("name".to_owned(), Value::String("alice".to_owned()));
    if let Some(id) = id {
        map.insert("id".to_owned(), id);
    }
    Value::Object(map)
}

fn message(err: DBError) -> String {
    err.to_string()
}

#[test]
fn extract_id_succeeds_for_valid_model() {
    let model = object(Some(Value::String("u1".to_owned())));
    assert_eq!(
        extract_record_id_key("GoodModel", &model).expect("expected id"),
        Id::String("u1".to_owned())
    );
}

#[test]
fn extract_number_id_succeeds_for_valid_model() {
    let model = object(Some(Value::from(42)));
    assert_eq!(
        extract_record_id_key("NumberIdType", &model).expect("expected id"),
        Id::Number(42)
    );
}

#[test]
fn extract_id_fails_when_id_missing() {
    let model = object(None);
    let err = extract_record_id_key("MissingId", &model).expect_err("expected missing id error");
    assert!(message(err).contains("does not contain an `id`"));
}

#[test]
fn extract_id_fails_when_id_not_string_or_number() {
    let model = object(Some(Value::Bool(true)));
    let err = extract_record_id_key("BadIdType", &model).expect_err("expected bad id type error");
    assert!(message(err).contains("not a non-empty string or i64 number"));
}

#[test]
fn extract_id_fails_when_id_empty() {
    let model = object(Some(Value::String(String::new())));
    let err = extract_record_id_key("GoodModel", &model).expect_err("expected empty id error");
    assert!(message(err).contains("not a non-empty string or i64 number"));
}

#[test]
fn extract_id_reports_non_objects_and_out_of_range_numbers() {
    let err = extract_record_id_key("Listy", &Value::Array(vec![])).expect_err("not an object");
    assert_eq!(
        message(err),
        "Invalid model shape: model `Listy` must serialize to an object"
    );
    let big = object(Some(Value::from(u64::MAX)));
    let err = extract_record_id_key("Big", &big).expect_err("out of range");
    assert_eq!(
        message(err),
        "Invalid model shape: model `Big` has `id` but numeric id is out of i64 range"
    );
}

#[test]
fn record_key_from_id_field_accepts_strings_and_integers() {
    assert_eq!(
        record_key_from_id_field("M", IdField::Text("k".to_owned())).expect("text"),
        Id::String("k".to_owned())
    );
    assert_eq!(
        record_key_from_id_field("M", IdField::Integer(-3)).expect("int"),
        Id::Number(-3)
    );
    assert!(record_key_from_id_field("M", IdField::Missing).is_err());
}

#[test]
fn explicit_write_modes_issue_their_statements() {
    assert_eq!(
        ExplicitWriteMode::CreateOnly.write_sql(),
        "CREATE ONLY $record CONTENT $data RETURN AFTER;"
    );
    assert_eq!(
        ExplicitWriteMode::Upsert.write_sql(),
        "UPSERT ONLY $record CONTENT $data RETURN AFTER;"
    );
    assert_eq!(
        ExplicitWriteMode::Update.write_sql(),
        "UPDATE $record CONTENT $data RETURN AFTER;"
    );
}

#[test]
fn explicit_write_mode_errors() {
    assert!(matches!(
        ExplicitWriteMode::CreateOnly.map_error(DBError::EmptyResult("x")),
        DBError::Conflict(m) if m == "record already exists"
    ));
    assert!(matches!(
        ExplicitWriteMode::Upsert.map_error(DBError::EmptyResult("x")),
        DBError::EmptyResult("x")
    ));
    assert!(matches!(
        ExplicitWriteMode::CreateOnly.map_error(DBError::NotFound),
        DBError::NotFound
    ));
    assert!(matches!(
        ExplicitWriteMode::CreateOnly.empty_result_error(),
        DBError::Conflict(m) if m == "record already exists"
    ));
    assert!(matches!(
        ExplicitWriteMode::Upsert.empty_result_error(),
        DBError::EmptyResult("persist_explicit_id_primitive")
    ));
    assert!(matches!(
        ExplicitWriteMode::Update.empty_result_error(),
        DBError::NotFound
    ));
}

#[test]
fn unique_lookup_needs_exactly_one_match() {
    assert!(matches!(
        exactly_one_lookup_id(Vec::<u32>::new(), "User", "email", "a@b"),
        Err(DBError::NotFound)
    ));
    assert_eq!(
        exactly_one_lookup_id(vec![7u32], "User", "email", "a@b").expect("one"),
        7
    );
    let err = exactly_one_lookup_id(vec![1u32, 2], "User", "email", "a@b").expect_err("many");
    assert_eq!(
        message(err),
        "Invalid model shape: `find_one` for `User` by `email` = `a@b` matched multiple records"
    );
}

#[test]
fn list_order_accepts_id_or_pagination_field() {
    assert_eq!(validate_list_order_field("User", "id", None).expect("id"), "id");
    assert_eq!(
        validate_list_order_field("User", "created_at", Some("created_at")).expect("pagin"),
        "created_at"
    );
    let err = validate_list_order_field("User", "name", Some("created_at")).expect_err("bad");
    assert_eq!(
        message(err),
        "Invalid model shape: model `User` only supports ordered list by `id` or its #[pagin] field `created_at`, got `name`"
    );
    let err = validate_list_order_field("User", "name", None).expect_err("bad");
    assert_eq!(
        message(err),
        "Invalid model shape: model `User` does not declare a #[pagin] field, so ordered list only supports `id`, got `name`"
    );
}

#[test]
fn view_order_accepts_id_view_fields_or_source_pagination_field() {
    let fields = ["title", "created_at"];
    assert!(validate_view_order_field("V", "id", ViewSource::Table, &fields, None).is_ok());
    assert!(validate_view_order_field("V", "title", ViewSource::Table, &fields, None).is_ok());
    assert!(
        validate_view_order_field("V", "rank", ViewSource::Table, &fields, Some("rank")).is_ok()
    );
    let err = validate_view_order_field("V", "x", ViewSource::Table, &fields, Some("rank"))
        .expect_err("bad");
    assert_eq!(
        message(err),
        "Invalid model shape: view `V` only supports ordered list by `id`, declared view fields, or source #[pagin] field `rank`, got `x`"
    );
    let err = validate_view_order_field("V", "x", ViewSource::Table, &fields, None)
        .expect_err("bad");
    assert_eq!(
        message(err),
        "Invalid model shape: view `V` only supports ordered list by `id` or declared view fields, got `x`"
    );
    let err = validate_view_order_field("V", "id", ViewSource::Sql, &fields, None)
        .expect_err("sql source");
    assert_eq!(
        message(err),
        "Invalid model shape: view `V` does not support table ordered list operations because it uses a custom SQL source"
    );
}

#[test]
fn table_source_and_raw_write_guards() {
    assert!(ensure_table_source("V", "reads", ViewSource::Table).is_ok());
    assert!(ensure_table_source("V", "reads", ViewSource::Sql).is_err());
    assert!(ensure_raw_partial_update_supported("M", true).is_ok());
    assert!(message(ensure_raw_partial_update_supported("M", false).expect_err("guarded"))
        .contains("merge/patch is not supported for model `M`"));
    assert!(ensure_raw_bulk_insert_supported("insert", "M", false, false).is_ok());
    assert!(message(
        ensure_raw_bulk_insert_supported("insert", "M", true, false).expect_err("guarded")
    )
    .starts_with("Invalid model shape: insert is not supported for model `M`"));
    assert!(ensure_raw_bulk_insert_supported("insert", "M", false, true).is_err());
}

#[test]
fn serialized_field_names_must_be_identifiers() {
    let names = struct_field_names(vec!["name".to_owned(), "_x1".to_owned()]).expect("valid");
    assert_eq!(names, vec!["name".to_owned(), "_x1".to_owned()]);
    let err = struct_field_names(vec!["ok".to_owned(), "bad-key".to_owned()]).expect_err("bad");
    assert_eq!(
        message(err),
        "Invalid identifier: insert_or_replace field `bad-key` must be a plain SurrealQL identifier"
    );
}

struct Model;

#[test]
fn list_queries_record_their_order() {
    let ordered = Repo::<Model>::list().order_by("created_at".to_owned(), Order::Desc);
    assert_eq!(ordered.field(), "created_at");
    assert_eq!(ordered.order(), Order::Desc);
    let view = ViewRepo::<Model>::list().order_by("title".to_owned(), Order::Asc);
    assert_eq!(view.field(), "title");
    assert_eq!(view.order(), Order::Asc);
}

#[test]
fn batch_saves_open_one_upsert_per_row() {
    assert_eq!(appdb::repository::batch_upsert_sql(0), "BEGIN TRANSACTION; ");
    assert_eq!(
        appdb::repository::batch_upsert_sql(2),
        "BEGIN TRANSACTION; UPSERT ONLY $record_0 CONTENT $data_0 RETURN AFTER;UPSERT ONLY $record_1 CONTENT $data_1 RETURN AFTER;"
    );
    assert_eq!(appdb::repository::SAVE_MANY_CHUNK_SIZE, 5000);
}

#[test]
fn batch_saves_find_the_first_repeated_record() {
    let keys = |ks: &[&str]| ks.iter().map(|k| k.to_string()).collect::<Vec<_>>();
    assert_eq!(first_duplicate_key(&keys(&["a", "b", "c"])), None);
    assert_eq!(first_duplicate_key(&keys(&["a", "b", "a", "b"])), Some(2));
    assert_eq!(first_duplicate_key(&keys(&["x", "y", "y"])), Some(2));
    assert_eq!(first_duplicate_key(&[]), None);
}

#[test]
fn automatic_unique_lookup_rules() {
    assert!(matches!(unique_lookup_id(Vec::<u8>::new()), Err(DBError::NotFound)));
    assert_eq!(unique_lookup_id(vec![3u8]).expect("one"), 3);
    assert_eq!(
        message(unique_lookup_id(vec![1u8, 2]).expect_err("many")),
        "Invalid model shape: automatic unique lookup matched multiple records"
    );
    assert!(ensure_lookup_fields("M", 2).is_ok());
    assert_eq!(
        message(ensure_lookup_fields("M", 0).expect_err("none")),
        "Invalid model shape: model `M` has no fields available for automatic unique lookup"
    );
    assert_eq!(
        lookup_part("M", "email", Some(5)).expect("present"),
        ("email".to_owned(), 5)
    );
    assert_eq!(
        message(lookup_part::<u8>("M", "email", None).expect_err("missing")),
        "Invalid model shape: model `M` is missing lookup field `email` during automatic unique lookup"
    );
}

#[test]
fn plain_surreal_identifiers() {
    assert!(is_plain_surreal_identifier("_a1"));
    assert!(!is_plain_surreal_identifier("1a"));
    assert!(!is_plain_surreal_identifier(""));
    assert!(!is_plain_surreal_identifier("é"));
}

#[test]
fn foreign_write_query_carries_its_data() {
    let query = appdb::repository::ForeignWriteQuery::new(vec![1, 2]);
    assert_eq!(query.into_data(), vec![1, 2]);
}

#[test]
fn explicit_writes_choose_their_mode_and_open_a_transaction() {
    assert_eq!(ExplicitWriteMode::for_persist(true), ExplicitWriteMode::CreateOnly);
    assert_eq!(ExplicitWriteMode::for_persist(false), ExplicitWriteMode::Upsert);
    assert_eq!(
        ExplicitWriteMode::Update.transaction_head(),
        "BEGIN TRANSACTION;UPDATE $record CONTENT $data RETURN AFTER;"
    );
}

#[test]
fn save_many_chunks_cover_every_row_in_order() {
    assert_eq!(save_many_chunks(0), vec![]);
    assert_eq!(save_many_chunks(3), vec![(0, 3)]);
    assert_eq!(save_many_chunks(SAVE_MANY_CHUNK_SIZE), vec![(0, 5000)]);
    assert_eq!(
        save_many_chunks(12001),
        vec![(0, 5000), (5000, 10000), (10000, 12001)]
    );
}

#[test]
fn save_many_plan_refuses_a_key_repeated_within_a_chunk() {
    let keys: Vec<String> = ["a", "b", "a"].iter().map(|k| k.to_string()).collect();
    assert_eq!(save_many_plan(&keys), Err(2));
    assert_eq!(save_many_plan(&[]), Ok(vec![]));
    let mut spread: Vec<String> = (0..SAVE_MANY_CHUNK_SIZE + 1).map(|i| format!("k{i}")).collect();
    spread[SAVE_MANY_CHUNK_SIZE] = "k0".to_owned();
    assert_eq!(save_many_plan(&spread), Ok(vec![(0, 5000), (5000, 5001)]));
    match save_many_duplicate_error("RecordId { table: \"t\" }") {
        DBError::Conflict(message) => assert_eq!(
            message,
            "save_many received duplicate record id in one batch: RecordId { table: \"t\" }"
        ),
        other => panic!("unexpected error: {other:?}"),
    }
}

#[test]
fn write_statements_wrap_the_relation_statements() {
    assert_eq!(
        save_many_statement_sql(1, "SYNC;"),
        "BEGIN TRANSACTION; UPSERT ONLY $record_0 CONTENT $data_0 RETURN AFTER;SYNC;COMMIT TRANSACTION;"
    );
    assert_eq!(
        explicit_write_statement_sql(ExplicitWriteMode::Update, "SYNC;"),
        "BEGIN TRANSACTION;UPDATE $record CONTENT $data RETURN AFTER;SYNC;COMMIT TRANSACTION;"
    );
}
