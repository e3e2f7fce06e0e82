use appdb::error::{
    classify_db_error_message, classify_db_error_text, DBError, DBErrorKind,
};
use appdb::pagination::{cursor_int_from_u64, CursorOrder, PageCursor, PaginationPlan};
use appdb::query::builder::Order;
use appdb::serde_utils::id::{
    id_from_str, parse_record_id_or_plain_string, public_root_id, record_id_from_parsed, PublicId,
    record_id_to_plain_string, record_key, record_key_text, trim_backticks, Id, RecordKey,
};
use serde_json::Value;
use appdb::text::parse_i64_text;
use surrealdb_types::RecordId;
use appdb::pagination::{page_window, required_pagination_field, split_page};
use appdb::error::classify_db_error;
use appdb::connection::{storage_removal, StoragePathState, StorageRemoval};
use appdb::model::meta::{NoViewSource, PaginationMeta};

#[test]
fn ids_expose_their_string_or_number() {
    let s = Id::from("alice".to_owned());
    assert_eq!(s.as_string(), Some("alice"));
    assert_eq!(s.as_number(), None);
    assert_eq!(s.to_string(), "alice");
    let n = Id::from(-42i64);
    assert_eq!(n.as_string(), None);
    assert_eq!(n.as_number(), Some(-42));
    assert_eq!(n.to_string(), "-42");
    assert_eq!(id_from_str("bob"), Id::String("bob".to_owned()));
}

#[test]
fn record_keys_render_as_plain_text() {
    assert_eq!(trim_backticks("``alice`"), "alice");
    assert_eq!(trim_backticks("a`b"), "a`b");
    assert_eq!(trim_backticks("```"), "");
    assert_eq!(record_key_text(&RecordKey::String("`x`".to_owned())), "x");
    assert_eq!(record_key_text(&RecordKey::Number(42)), "42");
    assert_eq!(record_key_text(&RecordKey::Other("[1, 2]".to_owned())), "[1, 2]");
    assert_eq!(record_id_to_plain_string(&RecordId::new("user", "alice")), "alice");
    assert_eq!(record_id_to_plain_string(&RecordId::new("user", 42i64)), "42");
}

#[test]
fn page_cursor_keeps_its_token() {
    let cursor = PageCursor::new("token".to_owned());
    assert_eq!(cursor.as_str(), "token");
    assert_eq!(cursor.into_inner(), "token");
}

#[test]
fn pagination_plan_orders_id_by_public_projection() {
    let plan = PaginationPlan::new("id", Order::Asc);
    assert_eq!(plan.query_order_key(), "__page_public_id");
    assert_eq!(plan.order_label(), "ascending");
    let plan = PaginationPlan::new("created_at", Order::Desc);
    assert_eq!(plan.query_order_key(), "created_at");
    assert_eq!(plan.order_label(), "descending");
}

#[test]
fn cursor_headers_must_match_the_plan() {
    let plan = PaginationPlan::new("created_at", Order::Desc);
    assert!(plan.check_cursor_header(1, "created_at", CursorOrder::Desc).is_ok());
    assert_eq!(
        plan.check_cursor_header(2, "created_at", CursorOrder::Desc)
            .expect_err("version")
            .to_string(),
        "Decode error: unsupported page cursor version `2`"
    );
    assert_eq!(
        plan.check_cursor_header(1, "name", CursorOrder::Desc)
            .expect_err("field")
            .to_string(),
        "Decode error: page cursor targets `name` but `created_at` was requested"
    );
    assert_eq!(
        plan.check_cursor_header(1, "created_at", CursorOrder::Asc)
            .expect_err("order")
            .to_string(),
        "Decode error: page cursor order does not match the requested pagination direction"
    );
    assert_eq!(CursorOrder::from_order(Order::Asc), CursorOrder::Asc);
}

#[test]
fn cursor_values_come_from_rows() {
    let plan = PaginationPlan::new("created_at", Order::Asc);
    let mut map = serde_json::Map::new();
    map.insert("created_at".to_owned(), Value::from(5));
    map.insert("id".to_owned(), Value::String("u1".to_owned()));
    let row = Value::Object(map);
    assert_eq!(plan.cursor_value_from_row(&row).expect("present"), Value::from(5));
    assert_eq!(
        plan.id_value_from_row(&row).expect("present"),
        Value::String("u1".to_owned())
    );
    let empty = Value::Object(serde_json::Map::new());
    assert_eq!(
        plan.cursor_value_from_row(&empty).expect_err("missing").to_string(),
        "Decode error: stored row is missing pagination field `created_at`"
    );
    assert_eq!(
        plan.id_value_from_row(&empty).expect_err("missing").to_string(),
        "Decode error: stored row is missing `id`"
    );
    assert_eq!(
        plan.cursor_value_error(&DBError::NotFound).to_string(),
        "Decode error: failed to decode ascending page cursor value for `created_at`: Record not found"
    );
}

#[test]
fn cursor_numbers_must_fit_in_i64() {
    assert_eq!(cursor_int_from_u64(7).expect("fits"), 7);
    assert_eq!(
        cursor_int_from_u64(u64::MAX).expect_err("too big").to_string(),
        "Decode error: page cursor numeric value exceeds i64 range"
    );
}

#[test]
fn db_errors_display_and_classify() {
    assert_eq!(DBError::NotFound.to_string(), "Record not found");
    assert_eq!(DBError::NotFound.kind(), DBErrorKind::NotFound);
    assert_eq!(
        DBError::MissingTable("t".to_owned()).to_string(),
        "Missing table: t"
    );
    assert_eq!(DBError::Conflict("c".to_owned()).kind(), DBErrorKind::Conflict);
    assert_eq!(DBError::InvalidModel("m".to_owned()).kind(), DBErrorKind::Other);
    let classified = classify_db_error_text("The table 'user' does not exist".to_owned());
    assert_eq!(classified.kind, DBErrorKind::MissingTable);
    let err = classify_db_error_message("Database record already exists".to_owned());
    assert_eq!(err.kind(), DBErrorKind::Conflict);
    assert_eq!(err.to_string(), "Conflict: Database record already exists");
    let err = classify_db_error_message("something odd".to_owned());
    assert_eq!(err.kind(), DBErrorKind::Engine);
}

#[test]
fn keyset_pages_need_a_positive_count_and_a_field() {
    assert_eq!(page_window(10).expect("ok"), (10, 11));
    assert_eq!(
        page_window(0).expect_err("zero").to_string(),
        "Invalid model shape: pagination count must be positive"
    );
    assert_eq!(
        page_window(-3).expect_err("negative").to_string(),
        "Invalid model shape: pagination count must be positive, got `-3`"
    );
    assert_eq!(
        page_window(i64::MAX).expect_err("overflow").to_string(),
        "Invalid model shape: pagination count `9223372036854775807` overflowed the lookahead window"
    );
    assert_eq!(required_pagination_field("M", Some("created_at")).expect("field"), "created_at");
    assert_eq!(
        required_pagination_field("M", None).expect_err("none").to_string(),
        "Invalid model shape: model `M` does not declare a #[pagin] field"
    );
    assert_eq!(split_page(vec![1, 2, 3], 2), (vec![1, 2], true));
    assert_eq!(split_page(vec![1, 2], 2), (vec![1, 2], false));
    assert_eq!(split_page(Vec::<u8>::new(), 2), (vec![], false));
}

#[test]
fn classify_keeps_library_errors_and_classifies_others() {
    let known = DBError::Conflict("dup".to_owned());
    assert_eq!(
        classify_db_error(Some(&known), "ignored".to_owned()).to_string(),
        "Conflict: dup"
    );
    assert_eq!(
        classify_db_error(None, "Record not found here".to_owned()).kind(),
        DBErrorKind::NotFound
    );
}

#[test]
fn storage_paths_are_removed_by_kind() {
    assert_eq!(storage_removal(StoragePathState::Directory), StorageRemoval::RemoveDirectory);
    assert_eq!(storage_removal(StoragePathState::File), StorageRemoval::RemoveFile);
    assert_eq!(storage_removal(StoragePathState::Missing), StorageRemoval::Nothing);
    assert_eq!(storage_removal(StoragePathState::Unreadable), StorageRemoval::Fail);
}

#[test]
fn custom_sql_views_use_a_placeholder_source() {
    assert_eq!(NoViewSource::table_name(), "__appdb_no_view_source");
    assert_eq!(NoViewSource::pagination_field(), None);
}

#[test]
fn record_id_strings_parse_into_table_and_key() {
    assert_eq!(
        parse_record_id_or_plain_string("user:alice", None),
        Ok(("user".to_owned(), RecordKey::String("alice".to_owned())))
    );
    assert_eq!(
        parse_record_id_or_plain_string("user:42", Some("_")),
        Ok(("user".to_owned(), RecordKey::String("42".to_owned())))
    );
    assert_eq!(
        parse_record_id_or_plain_string("`we:ird`:tobie", None),
        Ok(("we:ird".to_owned(), RecordKey::String("tobie".to_owned())))
    );
}

#[test]
fn plain_strings_fall_back_to_the_given_table() {
    assert_eq!(
        parse_record_id_or_plain_string("alice", Some("_")),
        Ok(("_".to_owned(), RecordKey::String("alice".to_owned())))
    );
    assert_eq!(
        parse_record_id_or_plain_string("`alice`", Some("people")),
        Ok(("people".to_owned(), RecordKey::String("alice".to_owned())))
    );
    assert_eq!(parse_record_id_or_plain_string("alice", None), Err("alice"));
}

#[test]
fn parsed_record_id_parts_decide_the_outcome() {
    assert_eq!(
        record_id_from_parsed(Some(("t".to_owned(), "k".to_owned())), "ignored", Some("_")),
        Ok(("t".to_owned(), RecordKey::String("k".to_owned())))
    );
    assert_eq!(
        record_id_from_parsed(None, "``k``", Some("f")),
        Ok(("f".to_owned(), RecordKey::String("k".to_owned())))
    );
    assert_eq!(record_id_from_parsed(None, "k", None), Err("k"));
}

#[test]
fn record_key_reads_the_kind_of_key() {
    assert_eq!(record_key(&RecordId::new("user", 42i64)), RecordKey::Number(42));
    assert_eq!(
        record_key(&RecordId::new("user", "alice")),
        RecordKey::String("alice".to_owned())
    );
}

#[test]
fn public_root_ids_become_plain_keys() {
    let text = Value::String("user:alice".to_owned());
    assert_eq!(public_root_id(&text), Some(PublicId::Text("alice".to_owned())));
    let quoted = Value::String("user:`-7`".to_owned());
    assert_eq!(public_root_id(&quoted), Some(PublicId::Number(-7)));
    let too_big = Value::String("user:9223372036854775808".to_owned());
    assert_eq!(
        public_root_id(&too_big),
        Some(PublicId::Text("9223372036854775808".to_owned()))
    );
    let plain = Value::String("alice".to_owned());
    assert_eq!(public_root_id(&plain), None);
    let string_key = serde_json::to_value(RecordId::new("user", "bob")).expect("record id should serialize");
    assert_eq!(public_root_id(&string_key), Some(PublicId::Text("bob".to_owned())));
    let array = serde_json::to_value(vec![1, 2]).expect("array should serialize");
    assert_eq!(public_root_id(&array), None);
    assert_eq!(public_root_id(&Value::from(42)), None);
}

#[test]
fn normalize_public_root_id_value_converts_numeric_record_id_string_to_number() {
    let row = Value::String("user:42".to_owned());
    assert_eq!(public_root_id(&row), Some(PublicId::Number(42)));
}

#[test]
fn normalize_public_root_id_value_converts_numeric_record_id_object_to_number() {
    let row = serde_json::to_value(RecordId::new("user", 42i64)).expect("record id should serialize");
    assert_eq!(public_root_id(&row), Some(PublicId::Number(42)));
}

#[test]
fn integer_texts_parse_within_i64() {
    assert_eq!(parse_i64_text("42"), Some(42));
    assert_eq!(parse_i64_text("-9223372036854775808"), Some(i64::MIN));
    assert_eq!(parse_i64_text("9223372036854775807"), Some(i64::MAX));
    assert_eq!(parse_i64_text("9223372036854775808"), None);
    assert_eq!(parse_i64_text("-"), None);
    assert_eq!(parse_i64_text(""), None);
    assert_eq!(parse_i64_text("4a"), None);
}
