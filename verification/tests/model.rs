use appdb::error::DBError;
use appdb::model::identifier::ensure_identifier;
use appdb::model::meta::{default_table_name, register_table, to_snake_case, TableRegistry};
use appdb::model::relation::{
    ensure_relation_name, register_relation, relation_name, RelationMeta, RelationRegistry,
};
use appdb::model::schema::{HnswIndexDef, VectorDistance, VectorIndexType};

#[test]
fn accepts_ascii_identifier() {
    assert!(ensure_identifier("valid_name_1", "field name").is_ok());
    assert!(ensure_identifier("_private", "field name").is_ok());
}

#[test]
fn rejects_invalid_identifier() {
    assert!(ensure_identifier("", "field name").is_err());
    assert!(ensure_identifier("9invalid", "field name").is_err());
    assert!(ensure_identifier("bad-name", "field name").is_err());
}

#[test]
fn identifier_errors_explain_the_rule() {
    let message = |name: &str| match ensure_identifier(name, "field name") {
        Err(DBError::InvalidIdentifier(m)) => m,
        _ => panic!("expected invalid identifier"),
    };
    assert_eq!(message(""), "field name cannot be empty");
    assert_eq!(
        message("9x"),
        "field name `9x` must start with an ASCII letter or `_`"
    );
    assert_eq!(
        message("a-b"),
        "field name `a-b` must contain only ASCII letters, digits, or `_`"
    );
    assert_eq!(
        ensure_identifier("a-b", "field name")
            .expect_err("invalid")
            .to_string(),
        "Invalid identifier: field name `a-b` must contain only ASCII letters, digits, or `_`"
    );
}

#[test]
fn table_name_is_snake_case() {
    assert_eq!(default_table_name("User"), "user");
    assert_eq!(default_table_name("UserProfile"), "user_profile");
    assert_eq!(default_table_name("crate::domain::DbUser"), "db_user");
}

#[test]
fn snake_case_keeps_runs_and_digits() {
    assert_eq!(to_snake_case("HTTPServer2Go"), "httpserver2_go");
    assert_eq!(to_snake_case("already_snake"), "already_snake");
    assert_eq!(to_snake_case("V2Model"), "v2_model");
}

#[test]
fn register_table_is_idempotent_for_model() {
    let mut registry = TableRegistry::new();
    let first = register_table(&mut registry, "ModelA", "alpha");
    let second = register_table(&mut registry, "ModelA", "beta");
    assert_eq!(first, "alpha");
    assert_eq!(second, "alpha");
}

#[test]
fn register_table_keeps_models_apart() {
    let mut registry = TableRegistry::new();
    assert_eq!(register_table(&mut registry, "ModelA", "alpha"), "alpha");
    assert_eq!(register_table(&mut registry, "ModelB", "beta"), "beta");
    assert_eq!(register_table(&mut registry, "ModelA", "gamma"), "alpha");
}

#[test]
fn default_table_name_from_impl_crud_is_applied() {
    let mut registry = TableRegistry::new();
    let table: &'static str = default_table_name("AutoTableModel").leak();
    assert_eq!(
        register_table(&mut registry, "AutoTableModel", table),
        "auto_table_model"
    );
}

#[test]
fn custom_table_name_from_impl_crud_override_is_applied() {
    let mut registry = TableRegistry::new();
    assert_eq!(
        register_table(&mut registry, "CustomTableModel", "custom_users"),
        "custom_users"
    );
}

struct AutoRelName;
struct ManualRelName;

impl RelationMeta for AutoRelName {
    fn relation_name() -> &'static str {
        "auto_rel_name"
    }
}

impl RelationMeta for ManualRelName {
    fn relation_name() -> &'static str {
        "manual_rel"
    }
}

#[test]
fn relation_name_accepts_valid_identifier() {
    assert!(ensure_relation_name("sign_in").is_ok());
    assert!(ensure_relation_name("_private_rel").is_ok());
}

#[test]
fn relation_name_rejects_non_identifier() {
    for name in ["9invalid", "bad-name", "", "bad name", "bad;name"] {
        let err = ensure_relation_name(name).expect_err("invalid relation name should fail");
        assert!(
            err.to_string()
                .contains("must be a plain SurrealQL identifier"),
            "{}",
            err.to_string()
        );
    }
}

#[test]
fn relation_registration_works() {
    let mut registry = RelationRegistry::new();
    assert_eq!(register_relation(&mut registry, "follows"), "follows");
    assert!(registry.contains("follows"));
    assert_eq!(register_relation(&mut registry, "follows"), "follows");
    assert!(!registry.contains("likes"));
}

#[test]
fn declare_relation_auto_name_works() {
    assert_eq!(AutoRelName::relation_name(), "auto_rel_name");
    assert_eq!(relation_name::<AutoRelName>(), "auto_rel_name");
}

#[test]
fn declare_relation_manual_name_works() {
    assert_eq!(ManualRelName::relation_name(), "manual_rel");
    assert_eq!(relation_name::<ManualRelName>(), "manual_rel");
}

#[test]
fn hnsw_index_def_renders_surrealql_vector_index() {
    let ddl = HnswIndexDef::new(
        "audio_style_embedding_hnsw",
        "audio_style_embedding",
        "embedding",
        256,
    )
    .vector_type(VectorIndexType::F32)
    .distance(VectorDistance::Cosine)
    .ef_construction(150)
    .m(12)
    .concurrently()
    .ddl();

    assert_eq!(
        ddl,
        "DEFINE INDEX IF NOT EXISTS audio_style_embedding_hnsw ON audio_style_embedding FIELDS embedding HNSW DIMENSION 256 TYPE F32 DIST COSINE EFC 150 M 12 CONCURRENTLY;"
    );
}

#[test]
fn hnsw_index_def_supports_surrealdb_defaults() {
    let ddl = HnswIndexDef::new("idx_nested", "documents", "items.embedding", 4).ddl();

    assert_eq!(
        ddl,
        "DEFINE INDEX IF NOT EXISTS idx_nested ON documents FIELDS items.embedding HNSW DIMENSION 4;"
    );
}

#[test]
fn hnsw_index_def_renders_deferred_and_other_kinds() {
    let ddl = HnswIndexDef::new("i", "t", "f", 3)
        .vector_type(VectorIndexType::I16)
        .distance(VectorDistance::Euclidean)
        .deferred()
        .ddl();
    assert_eq!(
        ddl,
        "DEFINE INDEX IF NOT EXISTS i ON t FIELDS f HNSW DIMENSION 3 TYPE I16 DIST EUCLIDEAN DEFER;"
    );
}

#[test]
fn hnsw_index_def_reports_unrenderable_definitions() {
    assert!(!HnswIndexDef::new("idx", "documents", "embedding", 0).is_renderable());
    assert!(
        !HnswIndexDef::new("idx", "documents", "embedding;DELETE documents", 4).is_renderable()
    );
    assert!(HnswIndexDef::new("idx", "documents", "embedding", 4).is_renderable());
}
