use appdb::error::DBError;
use appdb::relation_sync::{
    create_statement_sql, relation_sync_anchored_sql, relation_sync_sql, relation_tables_ddl,
    relation_write_batches, OrderedRelationEdge, RelationBatch, RelationWriteDirection,
    RelationWritePlan,
};
use surrealdb_types::{RecordId, Table, ToSql};

fn edge(source: Option<RecordId>, target: RecordId, position: i64) -> OrderedRelationEdge {
    OrderedRelationEdge { _in: source, out: target, position }
}

fn sample_writes() -> Vec<RelationWritePlan> {
    vec![
        RelationWritePlan {
            relation: "note_tags".to_owned(),
            direction: RelationWriteDirection::Outgoing,
            record: RecordId::new("note", "one"),
            edges: vec![
                edge(Some(RecordId::new("note", "one")), RecordId::new("tag", "a"), 0),
                edge(Some(RecordId::new("note", "one")), RecordId::new("tag", "b"), 1),
            ],
        },
        RelationWritePlan {
            relation: "authored".to_owned(),
            direction: RelationWriteDirection::Incoming,
            record: RecordId::new("note", "one"),
            edges: vec![],
        },
        RelationWritePlan {
            relation: "note_tags".to_owned(),
            direction: RelationWriteDirection::Outgoing,
            record: RecordId::new("note", "two"),
            edges: vec![edge(Some(RecordId::new("note", "two")), RecordId::new("tag", "c"), 0)],
        },
    ]
}

#[test]
fn relation_writes_group_by_relation_and_direction_in_first_seen_order() {
    let batches = relation_write_batches(&sample_writes()).expect("every edge has a source");
    assert_eq!(
        batches,
        vec![
            RelationBatch {
                relation: "note_tags".to_owned(),
                direction: RelationWriteDirection::Outgoing,
                writes: vec![0, 2],
                edges: vec![(0, 0), (0, 1), (2, 0)],
            },
            RelationBatch {
                relation: "authored".to_owned(),
                direction: RelationWriteDirection::Incoming,
                writes: vec![1],
                edges: vec![],
            },
        ]
    );
}

#[test]
fn relation_edge_without_source_is_invalid_model() {
    let writes = vec![RelationWritePlan {
        relation: "note_tags".to_owned(),
        direction: RelationWriteDirection::Outgoing,
        record: RecordId::new("note", "one"),
        edges: vec![edge(None, RecordId::new("tag", "a"), 0)],
    }];
    match relation_write_batches(&writes) {
        Err(DBError::InvalidModel(message)) => {
            assert_eq!(message, "relation edge write is missing its source record id")
        }
        other => panic!("unexpected outcome: {other:?}"),
    }
}

#[test]
fn relation_sync_deletes_then_relates_with_bound_names() {
    let batches = relation_write_batches(&sample_writes()).expect("batches");
    let (sql, count) = relation_sync_sql(&batches, "rel");
    assert_eq!(
        sql,
        "DELETE FROM note_tags WHERE in = $rel_record_0_0 OR in = $rel_record_0_1 RETURN NONE;\
DELETE FROM authored WHERE out = $rel_record_1_0 RETURN NONE;\
RELATE $rel_in_0_0 -> note_tags -> $rel_out_0_0 SET position = $rel_position_0_0;\
RELATE $rel_in_0_1 -> note_tags -> $rel_out_0_1 SET position = $rel_position_0_1;\
RELATE $rel_in_0_2 -> note_tags -> $rel_out_0_2 SET position = $rel_position_0_2;"
    );
    assert_eq!(count, 5);
    assert_eq!(relation_sync_sql(&[], "rel"), (String::new(), 0));
}

#[test]
fn anchored_relation_sync_uses_the_anchor_expression() {
    let writes = vec![
        RelationWritePlan {
            relation: "note_tags".to_owned(),
            direction: RelationWriteDirection::Outgoing,
            record: RecordId::new("note", "x"),
            edges: vec![edge(Some(RecordId::new("note", "x")), RecordId::new("tag", "a"), 0)],
        },
        RelationWritePlan {
            relation: "authored".to_owned(),
            direction: RelationWriteDirection::Incoming,
            record: RecordId::new("note", "x"),
            edges: vec![edge(Some(RecordId::new("user", "u")), RecordId::new("note", "x"), 0)],
        },
    ];
    let batches = relation_write_batches(&writes).expect("batches");
    let (sql, count) = relation_sync_anchored_sql(&batches, "rel", "$created");
    assert_eq!(
        sql,
        "DELETE FROM note_tags WHERE in = $created RETURN NONE;\
DELETE FROM authored WHERE out = $created RETURN NONE;\
RELATE $created -> note_tags -> $rel_target_0_0 SET position = $rel_position_0_0;\
RELATE $rel_source_1_0 -> authored -> $created SET position = $rel_position_1_0;"
    );
    assert_eq!(count, 4);
}

#[test]
fn relation_tables_are_defined_once_each_in_ascending_order() {
    let relations = vec!["note_tags".to_owned(), "authored".to_owned(), "note_tags".to_owned()];
    assert_eq!(
        relation_tables_ddl(&relations),
        Some(
            "BEGIN TRANSACTION;\
DEFINE TABLE IF NOT EXISTS authored TYPE RELATION SCHEMALESS;\
DEFINE TABLE IF NOT EXISTS note_tags TYPE RELATION SCHEMALESS;\
COMMIT TRANSACTION;"
                .to_owned()
        )
    );
    assert_eq!(relation_tables_ddl(&[]), None);
}

#[test]
fn relation_table_names_are_written_as_surrealql_identifiers() {
    let relations = vec!["weird table".to_owned()];
    let expected = format!(
        "BEGIN TRANSACTION;DEFINE TABLE IF NOT EXISTS {} TYPE RELATION SCHEMALESS;COMMIT TRANSACTION;",
        Table::from("weird table").to_sql()
    );
    assert_eq!(relation_tables_ddl(&relations), Some(expected.clone()));
    assert_ne!(expected, "BEGIN TRANSACTION;DEFINE TABLE IF NOT EXISTS weird table TYPE RELATION SCHEMALESS;COMMIT TRANSACTION;");
}

#[test]
fn create_statement_wraps_the_relation_statements() {
    assert_eq!(
        create_statement_sql("SYNC;"),
        "BEGIN TRANSACTION; LET $created = CREATE ONLY $table CONTENT $data RETURN AFTER;SYNC;\
SELECT *, record::id(id) AS id FROM ONLY $created;COMMIT TRANSACTION;"
    );
}
