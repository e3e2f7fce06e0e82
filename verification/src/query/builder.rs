//! Small SurrealQL builder for the fixed query shapes used by this crate.
//!
//! Values always travel as bind parameters (`$table`, `$count`, ...); only
//! validated field names are written into the text.

use surrealdb_types::RecordId;
use vstd::prelude::*;

use crate::text::{
    decimal, lemma_contains_middle, owned, push_char, push_str, seq_contains, str_eq, u64_to_decimal,
};

verus! {

#[verifier::external_type_specification]
#[verifier::external_body]
pub struct ExRecordId(RecordId);

#[verifier::external_type_specification]
#[verifier::external_body]
pub struct ExJsonValue(serde_json::Value);

/// Small SurrealQL builder for the fixed query shapes used by this crate.
pub struct QueryKind;

/// Sort direction for pagination and ordered scans.
#[derive(Debug, Clone, Copy, PartialEq, Eq, Structural)]
pub enum Order {
    /// Ascending order.
    Asc,
    /// Descending order.
    Desc,
}

/// The SurrealQL keyword of a direction.
pub open spec fn order_text(order: Order) -> Seq<char> {
    match order {
        Order::Asc => "ASC"@,
        Order::Desc => "DESC"@,
    }
}

/// The comparison that moves past a cursor in a direction.
pub open spec fn after_text(order: Order) -> Seq<char> {
    match order {
        Order::Asc => seq!['>'],
        Order::Desc => seq!['<'],
    }
}

fn order_keyword(order: Order) -> (out: &'static str)
    ensures
        out@ == order_text(order),
{
    match order {
        Order::Asc => "ASC",
        Order::Desc => "DESC",
    }
}

fn after_char(order: Order) -> (out: char)
    ensures
        seq![out] == after_text(order),
{
    match order {
        Order::Asc => '>',
        Order::Desc => '<',
    }
}

/// The statement that stages every row with its public id and record id.
pub open spec fn staged_rows_text() -> Seq<char> {
    "LET $rows = (SELECT *, record::id(id) AS __page_public_id, id AS __page_record FROM $table); "@
}

/// The ordering of a keyset scan: the key, then the record id as tiebreaker.
pub open spec fn keyset_order_text(key: Seq<char>, order: Order) -> Seq<char> {
    " ORDER BY "@ + key + seq![' '] + order_text(order) + ", __page_record "@ + order_text(order)
}

/// The keyset pagination query: rows strictly past the cursor `(value, record)`
/// in the scan order when there is a cursor, at most `$count` of them.
pub open spec fn pagin_text(has_cursor: bool, order: Order, key: Seq<char>) -> Seq<char> {
    staged_rows_text() + "SELECT * FROM $rows"@ + (if has_cursor {
        " WHERE "@ + key + seq![' '] + after_text(order) + " $cursor_value OR ("@ + key
            + " = $cursor_value AND __page_record "@ + after_text(order) + " $cursor_record)"@
    } else {
        Seq::empty()
    }) + keyset_order_text(key, order) + " LIMIT $count;"@
}

/// The keyset pagination query over the relation rows of one `in` record:
/// rows past the cursor in the scan order when there is a cursor, at most
/// `$count` of them.
pub open spec fn rel_pagin_text(has_cursor: bool, order: Order) -> Seq<char> {
    if has_cursor {
        "SELECT * FROM $table WHERE [$order_key] "@ + after_text(order)
            + " $cursor AND in = $in ORDER BY [$order_key] "@ + order_text(order)
            + " LIMIT $count;"@
    } else {
        "SELECT * FROM $table WHERE in = $in ORDER BY [$order_key] "@ + order_text(order)
            + " LIMIT $count;"@
    }
}

/// A page past a cursor continues the scan in its own direction: an
/// ascending page keeps the rows whose order key, and on a tie whose record
/// id, is greater than the cursor's and orders them ascending; a descending
/// page keeps the smaller ones and orders them descending.
pub proof fn lemma_page_after_cursor_follows_order(key: Seq<char>)
    ensures
        seq_contains(pagin_text(true, Order::Asc, key), key + " > $cursor_value OR ("@),
        seq_contains(
            pagin_text(true, Order::Asc, key),
            "__page_record > $cursor_record) ORDER BY "@ + key + " ASC, __page_record ASC"@,
        ),
        seq_contains(pagin_text(true, Order::Desc, key), key + " < $cursor_value OR ("@),
        seq_contains(
            pagin_text(true, Order::Desc, key),
            "__page_record < $cursor_record) ORDER BY "@ + key + " DESC, __page_record DESC"@,
        ),
        seq_contains(
            rel_pagin_text(true, Order::Asc),
            "[$order_key] > $cursor AND in = $in ORDER BY [$order_key] ASC"@,
        ),
        seq_contains(
            rel_pagin_text(true, Order::Desc),
            "[$order_key] < $cursor AND in = $in ORDER BY [$order_key] DESC"@,
        ),
{
    reveal_strlit(" WHERE ");
    reveal_strlit(" $cursor_value OR (");
    reveal_strlit(" = $cursor_value AND __page_record ");
    reveal_strlit(" $cursor_record)");
    reveal_strlit(" ORDER BY ");
    reveal_strlit(", __page_record ");
    reveal_strlit(" LIMIT $count;");
    reveal_strlit("ASC");
    reveal_strlit("DESC");
    reveal_strlit(" > $cursor_value OR (");
    reveal_strlit(" < $cursor_value OR (");
    reveal_strlit("__page_record > $cursor_record) ORDER BY ");
    reveal_strlit("__page_record < $cursor_record) ORDER BY ");
    reveal_strlit(" ASC, __page_record ASC");
    reveal_strlit(" DESC, __page_record DESC");
    reveal_strlit("SELECT * FROM $table WHERE [$order_key] ");
    reveal_strlit(" $cursor AND in = $in ORDER BY [$order_key] ");
    reveal_strlit("[$order_key] > $cursor AND in = $in ORDER BY [$order_key] ASC");
    reveal_strlit("[$order_key] < $cursor AND in = $in ORDER BY [$order_key] DESC");
    let head = staged_rows_text() + "SELECT * FROM $rows"@ + " WHERE "@;
    let asc = pagin_text(true, Order::Asc, key);
    let n1 = key + " > $cursor_value OR ("@;
    let n2 = "__page_record > $cursor_record) ORDER BY "@ + key + " ASC, __page_record ASC"@;
    assert(asc =~= head + n1 + (key + " = $cursor_value AND "@ + n2 + " LIMIT $count;"@)) by {
        reveal_strlit(" = $cursor_value AND ");
    }
    lemma_contains_middle(head, n1, key + " = $cursor_value AND "@ + n2 + " LIMIT $count;"@);
    assert(asc =~= (head + n1 + key + " = $cursor_value AND "@) + n2 + " LIMIT $count;"@) by {
        reveal_strlit(" = $cursor_value AND ");
    }
    lemma_contains_middle(head + n1 + key + " = $cursor_value AND "@, n2, " LIMIT $count;"@);
    let desc = pagin_text(true, Order::Desc, key);
    let m1 = key + " < $cursor_value OR ("@;
    let m2 = "__page_record < $cursor_record) ORDER BY "@ + key + " DESC, __page_record DESC"@;
    assert(desc =~= head + m1 + (key + " = $cursor_value AND "@ + m2 + " LIMIT $count;"@)) by {
        reveal_strlit(" = $cursor_value AND ");
    }
    lemma_contains_middle(head, m1, key + " = $cursor_value AND "@ + m2 + " LIMIT $count;"@);
    assert(desc =~= (head + m1 + key + " = $cursor_value AND "@) + m2 + " LIMIT $count;"@) by {
        reveal_strlit(" = $cursor_value AND ");
    }
    lemma_contains_middle(head + m1 + key + " = $cursor_value AND "@, m2, " LIMIT $count;"@);
    reveal_strlit("SELECT * FROM $table WHERE ");
    assert(rel_pagin_text(true, Order::Asc) =~= "SELECT * FROM $table WHERE "@
        + "[$order_key] > $cursor AND in = $in ORDER BY [$order_key] ASC"@ + " LIMIT $count;"@);
    lemma_contains_middle(
        "SELECT * FROM $table WHERE "@,
        "[$order_key] > $cursor AND in = $in ORDER BY [$order_key] ASC"@,
        " LIMIT $count;"@,
    );
    assert(rel_pagin_text(true, Order::Desc) =~= "SELECT * FROM $table WHERE "@
        + "[$order_key] < $cursor AND in = $in ORDER BY [$order_key] DESC"@ + " LIMIT $count;"@);
    lemma_contains_middle(
        "SELECT * FROM $table WHERE "@,
        "[$order_key] < $cursor AND in = $in ORDER BY [$order_key] DESC"@,
        " LIMIT $count;"@,
    );
}

/// The public-id projection used to order by `id`.
pub open spec fn order_key_text(key: Seq<char>) -> Seq<char> {
    if key == "id"@ {
        "__page_public_id"@
    } else {
        key
    }
}

/// A full ordered table scan whose rows carry their public id as `id`.
pub open spec fn all_by_order_text(order: Order, key: Seq<char>) -> Seq<char> {
    staged_rows_text() + "SELECT *, __page_public_id AS id FROM $rows"@ + keyset_order_text(
        order_key_text(key),
        order,
    ) + seq![';']
}

proof fn lemma_scan_order_clause(order: Order, key: Seq<char>)
    ensures
        seq_contains(
            all_by_order_text(order, key),
            keyset_order_text(order_key_text(key), order) + seq![';'],
        ),
{
    let head = staged_rows_text() + "SELECT *, __page_public_id AS id FROM $rows"@;
    let tail = keyset_order_text(order_key_text(key), order) + seq![';'];
    assert(all_by_order_text(order, key) =~= head + tail + Seq::<char>::empty());
    lemma_contains_middle(head, tail, Seq::<char>::empty());
}

/// A full ordered scan runs in the requested direction on its key, breaking
/// ties on the record id in the same direction.
pub proof fn lemma_scan_follows_order(key: Seq<char>)
    requires
        key != "id"@,
    ensures
        seq_contains(
            all_by_order_text(Order::Asc, key),
            " ORDER BY "@ + key + " ASC, __page_record ASC;"@,
        ),
        seq_contains(
            all_by_order_text(Order::Desc, key),
            " ORDER BY "@ + key + " DESC, __page_record DESC;"@,
        ),
{
    lemma_scan_order_clause(Order::Asc, key);
    lemma_scan_order_clause(Order::Desc, key);
    reveal_strlit(", __page_record ");
    reveal_strlit("ASC");
    reveal_strlit("DESC");
    reveal_strlit(" ASC, __page_record ASC;");
    reveal_strlit(" DESC, __page_record DESC;");
    assert(keyset_order_text(key, Order::Asc) + seq![';'] =~= " ORDER BY "@ + key
        + " ASC, __page_record ASC;"@);
    assert(keyset_order_text(key, Order::Desc) + seq![';'] =~= " ORDER BY "@ + key
        + " DESC, __page_record DESC;"@);
}

/// A full ordered scan by `id` orders by the public id, in the requested
/// direction.
pub proof fn lemma_scan_by_id_uses_public_id()
    ensures
        seq_contains(
            all_by_order_text(Order::Asc, "id"@),
            " ORDER BY __page_public_id ASC, __page_record ASC;"@,
        ),
        seq_contains(
            all_by_order_text(Order::Desc, "id"@),
            " ORDER BY __page_public_id DESC, __page_record DESC;"@,
        ),
{
    lemma_scan_order_clause(Order::Asc, "id"@);
    lemma_scan_order_clause(Order::Desc, "id"@);
    reveal_strlit(" ORDER BY ");
    reveal_strlit(", __page_record ");
    reveal_strlit("ASC");
    reveal_strlit("DESC");
    reveal_strlit("__page_public_id");
    reveal_strlit(" ORDER BY __page_public_id ASC, __page_record ASC;");
    reveal_strlit(" ORDER BY __page_public_id DESC, __page_record DESC;");
    assert(keyset_order_text("__page_public_id"@, Order::Asc) + seq![';']
        =~= " ORDER BY __page_public_id ASC, __page_record ASC;"@);
    assert(keyset_order_text("__page_public_id"@, Order::Desc) + seq![';']
        =~= " ORDER BY __page_public_id DESC, __page_record DESC;"@);
}

/// Parts joined by a separator.
pub open spec fn join(parts: Seq<Seq<char>>, sep: Seq<char>) -> Seq<char>
    decreases parts.len(),
{
    if parts.len() == 0 {
        Seq::empty()
    } else if parts.len() == 1 {
        parts[0]
    } else {
        join(parts.drop_last(), sep) + sep + parts.last()
    }
}

/// The columns a View scan selects: the order field first when it is not
/// already among the view fields, then every view field other than `id`.
pub open spec fn view_columns(field: Seq<char>, view_fields: Seq<Seq<char>>) -> Seq<Seq<char>> {
    (if field == "id"@ || view_fields.contains(field) {
        Seq::empty()
    } else {
        seq![field]
    }) + view_fields.filter(|f: Seq<char>| f != "id"@)
}

/// A full ordered View scan that keeps the hidden order field in its rows.
pub open spec fn view_all_by_order_text(
    order: Order,
    field: Seq<char>,
    view_fields: Seq<Seq<char>>,
) -> Seq<char> {
    let cols = join(view_columns(field, view_fields), ", "@);
    "LET $rows = (SELECT "@ + cols
        + ", id AS __page_record, record::id(id) AS __page_public_id FROM $table); SELECT "@ + cols
        + ", __page_public_id AS id, __page_record FROM $rows"@ + keyset_order_text(
        order_key_text(field),
        order,
    ) + seq![';']
}

/// The equality filter on the `i`-th lookup field.
pub open spec fn field_filter_text(i: nat) -> Seq<char> {
    "type::field($field_"@ + decimal(i) + ") = $value_"@ + decimal(i)
}

/// The multi-field lookup query for `n` fields.
pub open spec fn select_id_by_fields_text(n: nat) -> Seq<char> {
    "SELECT VALUE id FROM $table WHERE "@ + join(
        Seq::new(n, |i: int| field_filter_text(i as nat)),
        " AND "@,
    ) + " LIMIT 2;"@
}

/// The update assignments `k=$input.k` for the given keys, comma separated.
pub open spec fn update_assignments(keys: Seq<Seq<char>>) -> Seq<char> {
    join(keys.map_values(|k: Seq<char>| k + "=$input."@ + k), seq![','])
}

fn push_keyset_order(sql: &mut String, key: &str, order: Order)
    ensures
        final(sql)@ == old(sql)@ + keyset_order_text(key@, order),
{
    push_str(sql, " ORDER BY ");
    push_str(sql, key);
    push_char(sql, ' ');
    push_str(sql, order_keyword(order));
    push_str(sql, ", __page_record ");
    push_str(sql, order_keyword(order));
    assert(sql@ =~= old(sql)@ + keyset_order_text(key@, order));
}

fn order_key(key: &str) -> (out: &str)
    ensures
        out@ == order_key_text(key@),
{
    if str_eq(key, "id") {
        "__page_public_id"
    } else {
        key
    }
}

impl QueryKind {
    /// Builds a range query over record ids.
    pub fn range(_table: &str, _start: i64, _end: i64) -> (out: String)
        ensures
            out@ == "SELECT * FROM type::record($table, $start)..=type::record($table, $end);"@,
    {
        owned("SELECT * FROM type::record($table, $start)..=type::record($table, $end);")
    }

    /// Builds a full-row replace query for a single record.
    pub fn replace(_id: RecordId, _data: serde_json::Value) -> (out: String)
        ensures
            out@ == "UPDATE $id REPLACE $data;"@,
    {
        owned("UPDATE $id REPLACE $data;")
    }

    /// Builds a keyset pagination query scoped to the relation rows of one `in` record.
    pub fn rel_pagin(
        _in_id: &RecordId,
        _table: &str,
        _count: i64,
        cursor: Option<String>,
        order: Order,
        _order_key: &str,
    ) -> (out: String)
        ensures
            out@ == rel_pagin_text(cursor is Some, order),
    {
        let mut sql;
        match cursor {
            Some(_) => {
                sql = owned("SELECT * FROM $table WHERE [$order_key] ");
                push_char(&mut sql, after_char(order));
                push_str(&mut sql, " $cursor AND in = $in ORDER BY [$order_key] ");
            },
            None => {
                sql = owned("SELECT * FROM $table WHERE in = $in ORDER BY [$order_key] ");
            },
        }
        push_str(&mut sql, order_keyword(order));
        push_str(&mut sql, " LIMIT $count;");
        sql
    }

    /// Builds a keyset pagination query for a table.
    ///
    /// `order_key` is the field the page is ordered by; rows tie-break on their
    /// record id, and a cursor binds both `$cursor_value` and `$cursor_record`.
    pub fn pagin(_table: &str, _count: i64, has_cursor: bool, order: Order, order_key: &str) -> (out:
        String)
        ensures
            out@ == pagin_text(has_cursor, order, order_key@),
    {
        let mut sql = owned(
            "LET $rows = (SELECT *, record::id(id) AS __page_public_id, id AS __page_record FROM $table); ",
        );
        push_str(&mut sql, "SELECT * FROM $rows");
        let ghost base = sql@;
        if has_cursor {
            push_str(&mut sql, " WHERE ");
            push_str(&mut sql, order_key);
            push_char(&mut sql, ' ');
            push_char(&mut sql, after_char(order));
            push_str(&mut sql, " $cursor_value OR (");
            push_str(&mut sql, order_key);
            push_str(&mut sql, " = $cursor_value AND __page_record ");
            push_char(&mut sql, after_char(order));
            push_str(&mut sql, " $cursor_record)");
        }
        let ghost filtered = sql@;
        assert(filtered =~= base + (if has_cursor {
            " WHERE "@ + order_key@ + seq![' '] + after_text(order) + " $cursor_value OR ("@
                + order_key@ + " = $cursor_value AND __page_record "@ + after_text(order)
                + " $cursor_record)"@
        } else {
            Seq::empty()
        }));
        push_keyset_order(&mut sql, order_key, order);
        push_str(&mut sql, " LIMIT $count;");
        assert(sql@ =~= pagin_text(has_cursor, order, order_key@));
        sql
    }

    /// Builds a full ordered table scan by `key` (`id` orders by the public id),
    /// tie-breaking on the record id.
    pub fn all_by_order(_table: &str, order: Order, key: &str) -> (out: String)
        ensures
            out@ == all_by_order_text(order, key@),
    {
        let mut sql = owned(
            "LET $rows = (SELECT *, record::id(id) AS __page_public_id, id AS __page_record FROM $table); ",
        );
        push_str(&mut sql, "SELECT *, __page_public_id AS id FROM $rows");
        push_keyset_order(&mut sql, order_key(key), order);
        push_char(&mut sql, ';');
        assert(sql@ =~= all_by_order_text(order, key@));
        sql
    }

    /// Builds a full ordered scan of a View projection. The order field stays
    /// in the rows even when the View does not declare it.
    pub fn view_all_by_order(order: Order, field: &str, view_fields: &[&str]) -> (out: String)
        ensures
            out@ == view_all_by_order_text(order, field@, view_fields@.map_values(|f: &str| f@)),
    {
        let cols = view_column_list(field, view_fields);
        let mut sql = owned("LET $rows = (SELECT ");
        push_str(&mut sql, cols.as_str());
        push_str(&mut sql, ", id AS __page_record, record::id(id) AS __page_public_id FROM $table); SELECT ");
        push_str(&mut sql, cols.as_str());
        push_str(&mut sql, ", __page_public_id AS id, __page_record FROM $rows");
        push_keyset_order(&mut sql, order_key(field), order);
        push_char(&mut sql, ';');
        assert(sql@ =~= view_all_by_order_text(order, field@, view_fields@.map_values(|f: &str| f@)));
        sql
    }

    /// Builds a bounded table scan.
    pub fn limit(_table: &str, _count: i64) -> (out: String)
        ensures
            out@ == "SELECT * FROM $table LIMIT $count;"@,
    {
        owned("SELECT * FROM $table LIMIT $count;")
    }

    /// Builds an `INSERT IGNORE` query for bulk writes.
    pub fn insert(_table: &str) -> (out: String)
        ensures
            out@ == "INSERT IGNORE INTO $table $data;"@,
    {
        owned("INSERT IGNORE INTO $table $data;")
    }

    /// Builds an insert-or-update query that overwrites the given fields on a duplicate key.
    pub fn insert_or_replace(_table: &str, keys: Vec<String>) -> (out: String)
        ensures
            out@ == "INSERT INTO $table $data ON DUPLICATE KEY UPDATE "@ + update_assignments(
                keys@.map_values(|k: String| k@),
            ) + seq![';'],
    {
        let mut sql = owned("INSERT INTO $table $data ON DUPLICATE KEY UPDATE ");
        let ghost head = sql@;
        let ghost views = keys@.map_values(|k: String| k@);
        let n = keys.len();
        let mut i: usize = 0;
        while i < n
            invariant
                n == keys@.len(),
                views == keys@.map_values(|k: String| k@),
                i <= n,
                sql@ == head + update_assignments(views.take(i as int)),
            decreases n - i,
        {
            let ghost prev = views.take(i as int);
            if i > 0 {
                push_char(&mut sql, ',');
            }
            push_str(&mut sql, keys[i].as_str());
            push_str(&mut sql, "=$input.");
            push_str(&mut sql, keys[i].as_str());
            i = i + 1;
            proof {
                let next = views.take(i as int);
                assert(next.drop_last() =~= prev);
                assert(next.map_values(|k: Seq<char>| k + "=$input."@ + k).drop_last() =~= prev.map_values(
                    |k: Seq<char>| k + "=$input."@ + k,
                ));
                assert(sql@ =~= head + update_assignments(next));
            }
        }
        assert(views.take(n as int) =~= views);
        push_char(&mut sql, ';');
        sql
    }

    /// Builds a single-field update query.
    pub fn upsert_set(_id: &str, _key: &str, _value: &str) -> (out: String)
        ensures
            out@ == "UPDATE $id SET [$key] = $value;"@,
    {
        owned("UPDATE $id SET [$key] = $value;")
    }

    /// Builds a query that returns the ids of up to two records whose field
    /// `$k` equals `$v`, so that a caller can tell a unique match from several.
    pub fn select_id_single(_table: &str) -> (out: String)
        ensures
            out@ == "SELECT VALUE id FROM $table WHERE type::field($k) = $v LIMIT 2;"@,
    {
        owned("SELECT VALUE id FROM $table WHERE type::field($k) = $v LIMIT 2;")
    }

    /// Builds a query that returns up to two record ids by equality on every
    /// field, binding the `i`-th field as `$field_i` and its value as `$value_i`.
    pub fn select_id_by_fields(fields: &[String]) -> (out: String)
        ensures
            out@ == select_id_by_fields_text(fields@.len()),
    {
        let mut sql = owned("SELECT VALUE id FROM $table WHERE ");
        let ghost head = sql@;
        let n = fields.len();
        let mut i: usize = 0;
        while i < n
            invariant
                n == fields@.len(),
                i <= n,
                sql@ == head + join(
                    Seq::new(i as nat, |j: int| field_filter_text(j as nat)),
                    " AND "@,
                ),
            decreases n - i,
        {
            if i > 0 {
                push_str(&mut sql, " AND ");
            }
            push_str(&mut sql, "type::field($field_");
            let d = u64_to_decimal(i as u64);
            push_str(&mut sql, d.as_str());
            push_str(&mut sql, ") = $value_");
            push_str(&mut sql, d.as_str());
            i = i + 1;
            proof {
                let next = Seq::new(i as nat, |j: int| field_filter_text(j as nat));
                let prev = Seq::new((i - 1) as nat, |j: int| field_filter_text(j as nat));
                assert(next.drop_last() =~= prev);
                assert(sql@ =~= head + join(next, " AND "@));
            }
        }
        push_str(&mut sql, " LIMIT 2;");
        sql
    }

    /// Builds a query that returns all record ids in a table.
    pub fn all_id(_table: &str) -> (out: String)
        ensures
            out@ == "RETURN (SELECT id FROM $table).id;"@,
    {
        owned("RETURN (SELECT id FROM $table).id;")
    }

    /// Builds a query that returns whether a table contains any rows.
    pub fn table_has_rows(_table: &str) -> (out: String)
        ensures
            out@ == "RETURN count((SELECT VALUE id FROM $table LIMIT 1)) > 0;"@,
    {
        owned("RETURN count((SELECT VALUE id FROM $table LIMIT 1)) > 0;")
    }

    /// Builds a query that projects one field from all rows.
    pub fn single_field(_table: &str, _k: &str) -> (out: String)
        ensures
            out@ == "RETURN (SELECT VALUE [$k] FROM $table);"@,
    {
        owned("RETURN (SELECT VALUE [$k] FROM $table);")
    }

    /// Builds a query that projects one field from a set of record ids.
    pub fn single_field_by_ids(_ids: Vec<RecordId>, _k: &str) -> (out: String)
        ensures
            out@ == "RETURN (SELECT VALUE [$k] FROM $ids);"@,
    {
        owned("RETURN (SELECT VALUE [$k] FROM $ids);")
    }

    /// Builds a relation insert query.
    pub fn relate(_self_id: &RecordId, _target_id: &RecordId, _rel: &str) -> (out: String)
        ensures
            out@
                == "INSERT RELATION INTO $rel [{ in: $in, out: $out, created_at: time::now() }] RETURN NONE;"@,
    {
        owned(
            "INSERT RELATION INTO $rel [{ in: $in, out: $out, created_at: time::now() }] RETURN NONE;",
        )
    }

    /// Builds a query that removes one relation edge.
    pub fn unrelate(_self_id: &RecordId, _target_id: &RecordId, _rel: &str) -> (out: String)
        ensures
            out@ == "DELETE $rel WHERE in = $in AND out = $out RETURN NONE;"@,
    {
        owned("DELETE $rel WHERE in = $in AND out = $out RETURN NONE;")
    }

    /// Builds a query that removes all outgoing edges for one record.
    pub fn unrelate_all(_self_id: &RecordId, _rel: &str) -> (out: String)
        ensures
            out@ == "DELETE $rel WHERE in = $in RETURN NONE;"@,
    {
        owned("DELETE $rel WHERE in = $in RETURN NONE;")
    }

    /// Builds a query that returns outgoing record ids for one source record.
    pub fn select_out_ids(_in_id: &RecordId, _rel: &str, _out_table: &str) -> (out: String)
        ensures
            out@
                == "RETURN (SELECT VALUE out FROM $rel WHERE in = $in AND record::tb(out) = $out_table);"@,
    {
        owned("RETURN (SELECT VALUE out FROM $rel WHERE in = $in AND record::tb(out) = $out_table);")
    }

    /// Builds a query that returns all outgoing record ids for one source record.
    pub fn select_all_out_ids(_in_id: &RecordId, _rel: &str) -> (out: String)
        ensures
            out@ == "RETURN (SELECT VALUE out FROM $rel WHERE in = $in);"@,
    {
        owned("RETURN (SELECT VALUE out FROM $rel WHERE in = $in);")
    }

    /// Builds a query that returns fully loaded outgoing rows for one source record.
    pub fn select_outgoing_rows(_in_id: &RecordId, _rel: &str, _out_table: &str) -> (out: String)
        ensures
            out@
                == "LET $ids = (SELECT VALUE out FROM $rel WHERE in = $in AND record::tb(out) = $out_table); SELECT *, record::id(id) AS id FROM $ids;"@,
    {
        owned(
            "LET $ids = (SELECT VALUE out FROM $rel WHERE in = $in AND record::tb(out) = $out_table); SELECT *, record::id(id) AS id FROM $ids;",
        )
    }

    /// Builds a query that counts all outgoing edges for one source record.
    pub fn count_all_outgoing(_in_id: &RecordId, _rel: &str) -> (out: String)
        ensures
            out@ == "RETURN count((SELECT VALUE out FROM $rel WHERE in = $in));"@,
    {
        owned("RETURN count((SELECT VALUE out FROM $rel WHERE in = $in));")
    }

    /// Builds a query that counts outgoing edges for one source record filtered by target table.
    pub fn count_outgoing_in_table(_in_id: &RecordId, _rel: &str, _out_table: &str) -> (out: String)
        ensures
            out@
                == "RETURN count((SELECT VALUE out FROM $rel WHERE in = $in AND record::tb(out) = $out_table));"@,
    {
        owned(
            "RETURN count((SELECT VALUE out FROM $rel WHERE in = $in AND record::tb(out) = $out_table));",
        )
    }

    /// Builds a query that returns ordered outgoing relation edges for one source record.
    pub fn select_out_edges(_in_id: &RecordId, _rel: &str) -> (out: String)
        ensures
            out@ == "SELECT in, out, position FROM $rel WHERE in = $in ORDER BY position ASC;"@,
    {
        owned("SELECT in, out, position FROM $rel WHERE in = $in ORDER BY position ASC;")
    }

    /// Builds a query that returns ordered incoming relation edges for one target record.
    pub fn select_in_edges(_out_id: &RecordId, _rel: &str) -> (out: String)
        ensures
            out@ == "SELECT in, out, position FROM $rel WHERE out = $out ORDER BY position ASC;"@,
    {
        owned("SELECT in, out, position FROM $rel WHERE out = $out ORDER BY position ASC;")
    }

    /// Builds a query that returns incoming record ids for one target record.
    pub fn select_in_ids(_out_id: &RecordId, _rel: &str, _in_table: &str) -> (out: String)
        ensures
            out@
                == "RETURN (SELECT VALUE in FROM $rel WHERE out = $out AND record::tb(in) = $in_table);"@,
    {
        owned("RETURN (SELECT VALUE in FROM $rel WHERE out = $out AND record::tb(in) = $in_table);")
    }

    /// Builds a query that returns all incoming record ids for one target record.
    pub fn select_all_in_ids(_out_id: &RecordId, _rel: &str) -> (out: String)
        ensures
            out@ == "RETURN (SELECT VALUE in FROM $rel WHERE out = $out);"@,
    {
        owned("RETURN (SELECT VALUE in FROM $rel WHERE out = $out);")
    }

    /// Builds a query that returns fully loaded incoming rows for one target record.
    pub fn select_incoming_rows(_out_id: &RecordId, _rel: &str, _in_table: &str) -> (out: String)
        ensures
            out@
                == "LET $ids = (SELECT VALUE in FROM $rel WHERE out = $out AND record::tb(in) = $in_table); SELECT *, record::id(id) AS id FROM $ids;"@,
    {
        owned(
            "LET $ids = (SELECT VALUE in FROM $rel WHERE out = $out AND record::tb(in) = $in_table); SELECT *, record::id(id) AS id FROM $ids;",
        )
    }

    /// Builds a query that counts all incoming edges for one target record.
    pub fn count_all_incoming(_out_id: &RecordId, _rel: &str) -> (out: String)
        ensures
            out@ == "RETURN count((SELECT VALUE in FROM $rel WHERE out = $out));"@,
    {
        owned("RETURN count((SELECT VALUE in FROM $rel WHERE out = $out));")
    }

    /// Builds a query that counts incoming edges for one target record filtered by source table.
    pub fn count_incoming_in_table(_out_id: &RecordId, _rel: &str, _in_table: &str) -> (out: String)
        ensures
            out@
                == "RETURN count((SELECT VALUE in FROM $rel WHERE out = $out AND record::tb(in) = $in_table));"@,
    {
        owned(
            "RETURN count((SELECT VALUE in FROM $rel WHERE out = $out AND record::tb(in) = $in_table));",
        )
    }

    /// Builds a query that returns one relation row id.
    pub fn rel_id(_self_id: &RecordId, _rel: &str, _target_id: &RecordId) -> (out: String)
        ensures
            out@ == "RETURN (SELECT * FROM ONLY $rel WHERE in = $in AND out = $out LIMIT 1).id;"@,
    {
        owned("RETURN (SELECT * FROM ONLY $rel WHERE in = $in AND out = $out LIMIT 1).id;")
    }

    /// Builds a create query that only returns the new record id.
    pub fn create_return_id(_table: &str) -> (out: String)
        ensures
            out@ == "RETURN (CREATE ONLY $table CONTENT $data).id;"@,
    {
        owned("RETURN (CREATE ONLY $table CONTENT $data).id;")
    }

    /// Builds a record deletion query.
    pub fn delete_record() -> (out: String)
        ensures
            out@ == "DELETE $record RETURN NONE;"@,
    {
        owned("DELETE $record RETURN NONE;")
    }

    /// Builds a full-table deletion query.
    pub fn delete_table() -> (out: String)
        ensures
            out@ == "DELETE $table RETURN NONE;"@,
    {
        owned("DELETE $table RETURN NONE;")
    }

    /// Builds a single-record fetch that normalizes the `id` field.
    pub fn select_by_id() -> (out: String)
        ensures
            out@ == "RETURN (SELECT *, record::id(id) AS id FROM ONLY $record);"@,
    {
        owned("RETURN (SELECT *, record::id(id) AS id FROM ONLY $record);")
    }

    /// Builds a full-table fetch that normalizes the `id` field.
    pub fn select_all_with_id() -> (out: String)
        ensures
            out@ == "SELECT *, record::id(id) AS id FROM $table;"@,
    {
        owned("SELECT *, record::id(id) AS id FROM $table;")
    }

    /// Builds a bounded table fetch that normalizes the `id` field.
    pub fn select_limit_with_id() -> (out: String)
        ensures
            out@ == "SELECT *, record::id(id) AS id FROM $table LIMIT $count;"@,
    {
        owned("SELECT *, record::id(id) AS id FROM $table LIMIT $count;")
    }
}

/// Whether some element of `fields` equals `field`.
fn contains_field(fields: &[&str], field: &str) -> (res: bool)
    ensures
        res == fields@.map_values(|f: &str| f@).contains(field@),
{
    let ghost views = fields@.map_values(|f: &str| f@);
    let n = fields.len();
    let mut i: usize = 0;
    while i < n
        invariant
            n == fields@.len(),
            views == fields@.map_values(|f: &str| f@),
            i <= n,
            forall|j: int| 0 <= j < i ==> views[j] != field@,
        decreases n - i,
    {
        if str_eq(fields[i], field) {
            assert(views[i as int] == field@);
            return true;
        }
        i = i + 1;
    }
    false
}

/// The column list of a View scan, joined by `, `.
fn view_column_list(field: &str, view_fields: &[&str]) -> (out: String)
    ensures
        out@ == join(view_columns(field@, view_fields@.map_values(|f: &str| f@)), ", "@),
{
    let ghost views = view_fields@.map_values(|f: &str| f@);
    let mut out = String::new();
    let mut nonempty = false;
    let lead = !(str_eq(field, "id") || contains_field(view_fields, field));
    let ghost mut parts: Seq<Seq<char>> = Seq::empty();
    if lead {
        push_str(&mut out, field);
        nonempty = true;
        proof {
            parts = seq![field@];
        }
        assert(out@ =~= join(parts, ", "@));
    }
    assert(parts =~= (if !lead {
        Seq::<Seq<char>>::empty()
    } else {
        seq![field@]
    }));
    let ghost lead_parts = parts;
    let n = view_fields.len();
    let mut i: usize = 0;
    while i < n
        invariant
            n == view_fields@.len(),
            views == view_fields@.map_values(|f: &str| f@),
            i <= n,
            parts == lead_parts + views.take(i as int).filter(|f: Seq<char>| f != "id"@),
            nonempty == (parts.len() > 0),
            out@ == join(parts, ", "@),
        decreases n - i,
    {
        let ghost before = parts;
        assert(views.take(i + 1).drop_last() =~= views.take(i as int));
        if !str_eq(view_fields[i], "id") {
            if nonempty {
                push_str(&mut out, ", ");
            }
            push_str(&mut out, view_fields[i]);
            nonempty = true;
            proof {
                parts = parts.push(views[i as int]);
                if before.len() == 0 {
                    assert(out@ =~= join(parts, ", "@));
                } else {
                    assert(parts.drop_last() =~= before);
                    assert(out@ =~= join(parts, ", "@));
                }
            }
        }
        i = i + 1;
        proof {
            reveal_with_fuel(Seq::<_>::filter, 1);
            let p = |f: Seq<char>| f != "id"@;
            assert(views.take(i as int).drop_last() =~= views.take(i - 1));
            assert(views.take(i as int).last() == views[i - 1]);
            assert(parts =~= lead_parts + views.take(i as int).filter(p));
        }
    }
    assert(views.take(n as int) =~= views);
    out
}

} // verus!
