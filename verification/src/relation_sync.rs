//! Relation-field synchronization: the relation rows a write asks for,
//! gathered per relation and direction, and the SurrealQL that replaces the
//! stored relation rows of the written records with them.

use surrealdb_types::{RecordId, Table, ToSql};
use vstd::prelude::*;

use crate::error::DBError;
use crate::text::{decimal, owned, push_str, str_eq, u64_to_decimal};

verus! {

/// Which end of a relation row the written record is.
#[derive(Debug, Clone, Copy, PartialEq, Eq, Structural)]
pub enum RelationWriteDirection {
    /// The record is the `in` end: its field lists targets.
    Outgoing,
    /// The record is the `out` end: its field lists sources.
    Incoming,
}

/// One ordered relation row: its source when known, its target, and its
/// position in the relation field.
#[derive(Debug)]
pub struct OrderedRelationEdge {
    /// Source record id.
    pub _in: Option<RecordId>,
    /// Target record id.
    pub out: RecordId,
    /// Stable position for vector-shaped relation fields.
    pub position: i64,
}

/// The relation rows that one relation field of one written record asks for.
#[derive(Debug)]
pub struct RelationWritePlan {
    /// The relation table.
    pub relation: String,
    /// Which end of the rows the record is.
    pub direction: RelationWriteDirection,
    /// The written record.
    pub record: RecordId,
    /// The rows, in field order.
    pub edges: Vec<OrderedRelationEdge>,
}

/// The writes of one relation in one direction: the positions of the writes
/// whose records it holds, and each of their edges as (write, edge) positions,
/// all in input order.
#[derive(Debug, Clone, PartialEq, Eq)]
pub struct RelationBatch {
    /// The relation table.
    pub relation: String,
    /// Which end of the rows the records are.
    pub direction: RelationWriteDirection,
    /// Positions of the writes in this batch.
    pub writes: Vec<usize>,
    /// (write position, edge position) of each edge in this batch.
    pub edges: Vec<(usize, usize)>,
}

impl View for RelationBatch {
    type V = (Seq<char>, RelationWriteDirection, Seq<usize>, Seq<(usize, usize)>);

    open spec fn view(&self) -> Self::V {
        (self.relation@, self.direction, self.writes@, self.edges@)
    }
}

/// The relation and direction a write is gathered under.
pub open spec fn write_key(w: RelationWritePlan) -> (Seq<char>, RelationWriteDirection) {
    (w.relation@, w.direction)
}

/// The relation/direction pairs of the writes, each once, in the order they
/// are first seen.
pub open spec fn first_seen_keys(ws: Seq<RelationWritePlan>) -> Seq<(Seq<char>, RelationWriteDirection)>
    decreases ws.len(),
{
    if ws.len() == 0 {
        Seq::empty()
    } else {
        let keys = first_seen_keys(ws.drop_last());
        if keys.contains(write_key(ws.last())) {
            keys
        } else {
            keys.push(write_key(ws.last()))
        }
    }
}

/// Positions of the writes gathered under `key`, in input order.
pub open spec fn writes_under(ws: Seq<RelationWritePlan>, key: (Seq<char>, RelationWriteDirection)) -> Seq<usize>
    decreases ws.len(),
{
    if ws.len() == 0 {
        Seq::empty()
    } else {
        writes_under(ws.drop_last(), key) + if write_key(ws.last()) == key {
            seq![(ws.len() - 1) as usize]
        } else {
            Seq::empty()
        }
    }
}

/// The edges of one write, as (write, edge) positions.
pub open spec fn edge_refs(i: int, count: nat) -> Seq<(usize, usize)> {
    Seq::new(count, |e: int| (i as usize, e as usize))
}

/// The edges of the writes gathered under `key`, in input order.
pub open spec fn edges_under(ws: Seq<RelationWritePlan>, key: (Seq<char>, RelationWriteDirection)) -> Seq<(usize, usize)>
    decreases ws.len(),
{
    if ws.len() == 0 {
        Seq::empty()
    } else {
        edges_under(ws.drop_last(), key) + if write_key(ws.last()) == key {
            edge_refs(ws.len() - 1, ws.last().edges@.len())
        } else {
            Seq::empty()
        }
    }
}

/// The batches of a list of writes: one per relation and direction, in the
/// order first seen, each with its writes and edges in input order.
pub open spec fn relation_batches(ws: Seq<RelationWritePlan>) -> Seq<(Seq<char>, RelationWriteDirection, Seq<usize>, Seq<(usize, usize)>)> {
    first_seen_keys(ws).map_values(
        |k: (Seq<char>, RelationWriteDirection)| (k.0, k.1, writes_under(ws, k), edges_under(ws, k)),
    )
}

/// Every edge of every write knows its source.
pub open spec fn edges_have_sources(ws: Seq<RelationWritePlan>) -> bool {
    forall|i: int, e: int|
        0 <= i < ws.len() && 0 <= e < ws[i].edges@.len() ==> (#[trigger] ws[i].edges@[e])._in is Some
}

/// The message of a relation edge without a source.
pub open spec fn missing_source_text() -> Seq<char> {
    "relation edge write is missing its source record id"@
}

/// Whether the key of write `w` is among `keys`, and where.
fn find_key(keys: &Vec<(String, RelationWriteDirection)>, w: &RelationWritePlan) -> (res: Option<usize>)
    ensures
        match res {
            Some(g) => g < keys@.len() && (keys@[g as int].0@, keys@[g as int].1) == write_key(*w),
            None => forall|g: int| 0 <= g < keys@.len() ==> (keys@[g].0@, keys@[g].1) != write_key(*w),
        },
{
    let mut g: usize = 0;
    while g < keys.len()
        invariant
            g <= keys@.len(),
            forall|h: int| 0 <= h < g ==> (keys@[h].0@, keys@[h].1) != write_key(*w),
        decreases keys@.len() - g,
    {
        if str_eq(keys[g].0.as_str(), w.relation.as_str()) && keys[g].1 == w.direction {
            return Some(g);
        }
        g = g + 1;
    }
    None
}

/// Whether every edge of every write knows its source.
fn all_edges_have_sources(writes: &[RelationWritePlan]) -> (res: bool)
    ensures
        res == edges_have_sources(writes@),
{
    let mut i: usize = 0;
    while i < writes.len()
        invariant
            i <= writes@.len(),
            forall|a: int, e: int|
                0 <= a < i && 0 <= e < writes@[a].edges@.len() ==> (#[trigger] writes@[a].edges@[e])._in is Some,
        decreases writes@.len() - i,
    {
        let edges = &writes[i].edges;
        let mut e: usize = 0;
        while e < edges.len()
            invariant
                i < writes@.len(),
                edges@ == writes@[i as int].edges@,
                e <= edges@.len(),
                forall|a: int, f: int|
                    0 <= a < i && 0 <= f < writes@[a].edges@.len() ==> (#[trigger] writes@[a].edges@[f])._in is Some,
                forall|f: int| 0 <= f < e ==> (#[trigger] edges@[f])._in is Some,
            decreases edges@.len() - e,
        {
            if edges[e]._in.is_none() {
                assert(writes@[i as int].edges@[e as int]._in is None);
                return false;
            }
            e = e + 1;
        }
        i = i + 1;
    }
    true
}


/// The plain relation/direction pairs of a list of keys.
pub open spec fn keys_view(keys: Seq<(String, RelationWriteDirection)>) -> Seq<(Seq<char>, RelationWriteDirection)> {
    keys.map_values(|k: (String, RelationWriteDirection)| (k.0@, k.1))
}

/// The plain form of a list of batches.
pub open spec fn batches_view(bs: Seq<RelationBatch>) -> Seq<(Seq<char>, RelationWriteDirection, Seq<usize>, Seq<(usize, usize)>)> {
    bs.map_values(|b: RelationBatch| b@)
}

/// The writes, and their edges, gathered under one relation and direction.
fn gather_batch(writes: &[RelationWritePlan], relation: &str, direction: RelationWriteDirection) -> (out: (
    Vec<usize>,
    Vec<(usize, usize)>,
))
    ensures
        out.0@ == writes_under(writes@, (relation@, direction)),
        out.1@ == edges_under(writes@, (relation@, direction)),
{
    let ghost key = (relation@, direction);
    let mut picked: Vec<usize> = Vec::new();
    let mut edges: Vec<(usize, usize)> = Vec::new();
    let n = writes.len();
    let mut i: usize = 0;
    while i < n
        invariant
            n == writes@.len(),
            i <= n,
            key == (relation@, direction),
            picked@ == writes_under(writes@.take(i as int), key),
            edges@ == edges_under(writes@.take(i as int), key),
        decreases n - i,
    {
        let ghost next = writes@.take(i + 1);
        assert(next.drop_last() =~= writes@.take(i as int));
        assert(next.last() == writes@[i as int]);
        if str_eq(writes[i].relation.as_str(), relation) && writes[i].direction == direction {
            picked.push(i);
            assert(write_key(writes@[i as int]) == key);
            let count = writes[i].edges.len();
            let ghost start = edges@;
            let mut e: usize = 0;
            while e < count
                invariant
                    i < n,
                    count == writes@[i as int].edges@.len(),
                    e <= count,
                    edges@ == start + edge_refs(i as int, e as nat),
                decreases count - e,
            {
                edges.push((i, e));
                e = e + 1;
                assert(edges@ =~= start + edge_refs(i as int, e as nat));
            }
            assert(picked@ =~= writes_under(next, key));
            assert(edges@ =~= edges_under(next, key));
        } else {
            assert(write_key(writes@[i as int]) != key);
            assert(picked@ =~= writes_under(next, key));
            assert(edges@ =~= edges_under(next, key));
        }
        i = i + 1;
    }
    assert(writes@.take(n as int) =~= writes@);
    (picked, edges)
}

/// Gathers relation writes into batches, one per relation and direction in
/// the order first seen, each with its writes and edges in input order; an
/// edge without a source is an `InvalidModel` error.
pub fn relation_write_batches(writes: &[RelationWritePlan]) -> (res: Result<Vec<RelationBatch>, DBError>)
    ensures
        res is Ok <==> edges_have_sources(writes@),
        res matches Ok(bs) ==> batches_view(bs@) == relation_batches(writes@),
        res matches Err(e) ==> (e matches DBError::InvalidModel(m) && m@ == missing_source_text()),
{
    if !all_edges_have_sources(writes) {
        return Err(DBError::InvalidModel(owned("relation edge write is missing its source record id")));
    }
    let n = writes.len();
    let mut keys: Vec<(String, RelationWriteDirection)> = Vec::new();
    let mut i: usize = 0;
    while i < n
        invariant
            n == writes@.len(),
            i <= n,
            keys_view(keys@) == first_seen_keys(writes@.take(i as int)),
        decreases n - i,
    {
        let ghost next = writes@.take(i + 1);
        assert(next.drop_last() =~= writes@.take(i as int));
        assert(next.last() == writes@[i as int]);
        let ghost before = keys@;
        match find_key(&keys, &writes[i]) {
            Some(g) => {
                assert(keys_view(before)[g as int] == write_key(writes@[i as int]));
            },
            None => {
                assert(!keys_view(before).contains(write_key(writes@[i as int]))) by {
                    if keys_view(before).contains(write_key(writes@[i as int])) {
                        let g = choose|g: int| 0 <= g < keys_view(before).len() && keys_view(before)[g] == write_key(writes@[i as int]);
                        assert((before[g].0@, before[g].1) == keys_view(before)[g]);
                    }
                }
                keys.push((owned(writes[i].relation.as_str()), writes[i].direction));
                assert(keys_view(keys@) =~= keys_view(before).push(write_key(writes@[i as int])));
            },
        }
        i = i + 1;
    }
    assert(writes@.take(n as int) =~= writes@);
    let ghost ks = keys_view(keys@);
    assert(ks.len() == keys@.len());
    assert(relation_batches(writes@).len() == ks.len());
    let mut out: Vec<RelationBatch> = Vec::new();
    let mut g: usize = 0;
    while g < keys.len()
        invariant
            ks == keys_view(keys@),
            ks == first_seen_keys(writes@),
            g <= keys@.len(),
            ks.len() == keys@.len(),
            relation_batches(writes@).len() == ks.len(),
            out@.len() == g,
            batches_view(out@) == relation_batches(writes@).take(g as int),
        decreases keys@.len() - g,
    {
        let relation = keys[g].0.as_str();
        let direction = keys[g].1;
        let (picked, edges) = gather_batch(writes, relation, direction);
        let ghost before = out@;
        let batch = RelationBatch { relation: owned(relation), direction, writes: picked, edges };
        assert(relation@ == keys@[g as int].0@);
        assert(batch@ == (ks[g as int].0, ks[g as int].1, writes_under(writes@, ks[g as int]), edges_under(writes@, ks[g as int])));
        out.push(batch);
        assert(out@[g as int] == batch);
        assert(ks[g as int] == (keys@[g as int].0@, keys@[g as int].1));
        assert(batches_view(out@)[g as int] == relation_batches(writes@)[g as int]);
        assert(batches_view(out@) =~= relation_batches(writes@).take(g + 1));
        g = g + 1;
    }
    assert(relation_batches(writes@).take(g as int) =~= relation_batches(writes@));
    Ok(out)
}


/// How SurrealQL writes a table name.
pub uninterp spec fn table_sql_text(name: Seq<char>) -> Seq<char>;

/// The SurrealQL text of a table name.
///
/// Trusted wrapper around `surrealdb_types::Table::from(name).to_sql()`,
/// which writes the name as an identifier, escaping it where it is not a
/// plain one. It claims that the text is the named function of the name.
#[verifier::external_body]
fn table_sql(name: &str) -> (out: String)
    ensures
        out@ == table_sql_text(name@),
{
    Table::from(name).to_sql()
}

/// The field of a relation row that holds the written record.
pub open spec fn end_field(direction: RelationWriteDirection) -> Seq<char> {
    match direction {
        RelationWriteDirection::Outgoing => "in"@,
        RelationWriteDirection::Incoming => "out"@,
    }
}

/// A bound parameter of batch `b`, item `i`: `$`, the prefix, the kind,
/// `b`, `_`, `i`.
pub open spec fn bound_name(prefix: Seq<char>, kind: Seq<char>, b: nat, i: nat) -> Seq<char> {
    "$"@ + prefix + kind + decimal(b) + "_"@ + decimal(i)
}

/// The conditions that pick the stored rows of the first `n` records of
/// batch `b`, joined by ` OR `.
pub open spec fn record_conditions(field: Seq<char>, prefix: Seq<char>, b: nat, n: nat) -> Seq<char>
    decreases n,
{
    if n == 0 {
        Seq::empty()
    } else {
        record_conditions(field, prefix, b, (n - 1) as nat) + (if n > 1 {
            " OR "@
        } else {
            Seq::empty()
        }) + field + " = "@ + bound_name(prefix, "_record_"@, b, (n - 1) as nat)
    }
}

/// The statement that removes the stored rows of the records of batch `b`.
pub open spec fn delete_statement(
    batch: (Seq<char>, RelationWriteDirection, Seq<usize>, Seq<(usize, usize)>),
    prefix: Seq<char>,
    b: nat,
) -> Seq<char> {
    "DELETE FROM "@ + table_sql_text(batch.0) + " WHERE "@ + record_conditions(
        end_field(batch.1),
        prefix,
        b,
        batch.2.len(),
    ) + " RETURN NONE;"@
}

/// The removal statements of the first `k` batches.
pub open spec fn delete_statements(
    bs: Seq<(Seq<char>, RelationWriteDirection, Seq<usize>, Seq<(usize, usize)>)>,
    prefix: Seq<char>,
    k: nat,
) -> Seq<char>
    decreases k,
{
    if k == 0 {
        Seq::empty()
    } else {
        delete_statements(bs, prefix, (k - 1) as nat) + delete_statement(bs[k - 1], prefix, (k - 1) as nat)
    }
}

/// The statement that stores edge `e` of batch `b` with its position.
pub open spec fn relate_statement(table: Seq<char>, prefix: Seq<char>, b: nat, e: nat) -> Seq<char> {
    "RELATE "@ + bound_name(prefix, "_in_"@, b, e) + " -> "@ + table + " -> "@ + bound_name(
        prefix,
        "_out_"@,
        b,
        e,
    ) + " SET position = "@ + bound_name(prefix, "_position_"@, b, e) + ";"@
}

/// The statements that store the first `m` edges of batch `b`.
pub open spec fn relate_statements_of(table: Seq<char>, prefix: Seq<char>, b: nat, m: nat) -> Seq<char>
    decreases m,
{
    if m == 0 {
        Seq::empty()
    } else {
        relate_statements_of(table, prefix, b, (m - 1) as nat) + relate_statement(table, prefix, b, (m - 1) as nat)
    }
}

/// The statements that store the edges of the first `k` batches.
pub open spec fn relate_statements(
    bs: Seq<(Seq<char>, RelationWriteDirection, Seq<usize>, Seq<(usize, usize)>)>,
    prefix: Seq<char>,
    k: nat,
) -> Seq<char>
    decreases k,
{
    if k == 0 {
        Seq::empty()
    } else {
        relate_statements(bs, prefix, (k - 1) as nat) + relate_statements_of(
            table_sql_text(bs[k - 1].0),
            prefix,
            (k - 1) as nat,
            bs[k - 1].3.len(),
        )
    }
}

/// The statements that replace the stored relation rows of the batches'
/// records: one removal per batch, then one `RELATE` per edge.
pub open spec fn relation_sync_text(
    bs: Seq<(Seq<char>, RelationWriteDirection, Seq<usize>, Seq<(usize, usize)>)>,
    prefix: Seq<char>,
) -> Seq<char> {
    delete_statements(bs, prefix, bs.len()) + relate_statements(bs, prefix, bs.len())
}

/// The number of edges in the first `k` batches.
pub open spec fn edge_total(
    bs: Seq<(Seq<char>, RelationWriteDirection, Seq<usize>, Seq<(usize, usize)>)>,
    k: nat,
) -> nat
    decreases k,
{
    if k == 0 {
        0
    } else {
        edge_total(bs, (k - 1) as nat) + bs[k - 1].3.len()
    }
}

fn bound_name_text(prefix: &str, kind: &str, b: usize, i: usize) -> (out: String)
    ensures
        out@ == bound_name(prefix@, kind@, b as nat, i as nat),
{
    let mut out = owned("$");
    push_str(&mut out, prefix);
    push_str(&mut out, kind);
    let bd = u64_to_decimal(b as u64);
    push_str(&mut out, bd.as_str());
    push_str(&mut out, "_");
    let id = u64_to_decimal(i as u64);
    push_str(&mut out, id.as_str());
    out
}

fn end_field_text(direction: RelationWriteDirection) -> (out: &'static str)
    ensures
        out@ == end_field(direction),
{
    match direction {
        RelationWriteDirection::Outgoing => "in",
        RelationWriteDirection::Incoming => "out",
    }
}

fn delete_statement_text(batch: &RelationBatch, prefix: &str, b: usize) -> (out: String)
    ensures
        out@ == delete_statement(batch@, prefix@, b as nat),
{
    let field = end_field_text(batch.direction);
    let table = table_sql(batch.relation.as_str());
    let mut out = owned("DELETE FROM ");
    push_str(&mut out, table.as_str());
    push_str(&mut out, " WHERE ");
    let ghost head = out@;
    let n = batch.writes.len();
    let mut r: usize = 0;
    while r < n
        invariant
            n == batch.writes@.len(),
            r <= n,
            field@ == end_field(batch.direction),
            out@ == head + record_conditions(field@, prefix@, b as nat, r as nat),
        decreases n - r,
    {
        if r > 0 {
            push_str(&mut out, " OR ");
        }
        push_str(&mut out, field);
        push_str(&mut out, " = ");
        let name = bound_name_text(prefix, "_record_", b, r);
        push_str(&mut out, name.as_str());
        r = r + 1;
        assert(out@ =~= head + record_conditions(field@, prefix@, b as nat, r as nat));
    }
    push_str(&mut out, " RETURN NONE;");
    assert(out@ =~= delete_statement(batch@, prefix@, b as nat));
    out
}

fn relate_statements_text(table: &str, prefix: &str, b: usize, m: usize) -> (out: String)
    ensures
        out@ == relate_statements_of(table@, prefix@, b as nat, m as nat),
{
    let mut out = String::new();
    let mut e: usize = 0;
    while e < m
        invariant
            e <= m,
            out@ == relate_statements_of(table@, prefix@, b as nat, e as nat),
        decreases m - e,
    {
        push_str(&mut out, "RELATE ");
        let source = bound_name_text(prefix, "_in_", b, e);
        push_str(&mut out, source.as_str());
        push_str(&mut out, " -> ");
        push_str(&mut out, table);
        push_str(&mut out, " -> ");
        let target = bound_name_text(prefix, "_out_", b, e);
        push_str(&mut out, target.as_str());
        push_str(&mut out, " SET position = ");
        let position = bound_name_text(prefix, "_position_", b, e);
        push_str(&mut out, position.as_str());
        push_str(&mut out, ";");
        e = e + 1;
        assert(out@ =~= relate_statements_of(table@, prefix@, b as nat, e as nat));
    }
    out
}

/// The statements that replace the stored relation rows of the batches'
/// records, with parameters named after `prefix`, and how many statements
/// they are: one removal per batch and one `RELATE` per edge.
pub fn relation_sync_sql(batches: &[RelationBatch], prefix: &str) -> (out: (String, usize))
    requires
        batches@.len() + edge_total(batches_view(batches@), batches@.len()) <= usize::MAX,
    ensures
        out.0@ == relation_sync_text(batches_view(batches@), prefix@),
        out.1 == batches@.len() + edge_total(batches_view(batches@), batches@.len()),
{
    let ghost bs = batches_view(batches@);
    let n = batches.len();
    let mut sql = String::new();
    let mut b: usize = 0;
    while b < n
        invariant
            n == batches@.len(),
            bs == batches_view(batches@),
            b <= n,
            sql@ == delete_statements(bs, prefix@, b as nat),
        decreases n - b,
    {
        let stmt = delete_statement_text(&batches[b], prefix, b);
        push_str(&mut sql, stmt.as_str());
        b = b + 1;
        assert(bs[b - 1] == batches@[b - 1]@);
    }
    let ghost deletes = sql@;
    let mut count: usize = n;
    let mut k: usize = 0;
    while k < n
        invariant
            n == batches@.len(),
            bs == batches_view(batches@),
            k <= n,
            n + edge_total(bs, n as nat) <= usize::MAX,
            count == n + edge_total(bs, k as nat),
            sql@ == deletes + relate_statements(bs, prefix@, k as nat),
        decreases n - k,
    {
        proof {
            lemma_edge_total_monotone(bs, (k + 1) as nat, n as nat);
        }
        assert(bs[k as int] == batches@[k as int]@);
        let m = batches[k].edges.len();
        if m > 0 {
            let table = table_sql(batches[k].relation.as_str());
            let stmts = relate_statements_text(table.as_str(), prefix, k, m);
            push_str(&mut sql, stmts.as_str());
        } else {
            assert(relate_statements_of(table_sql_text(bs[k as int].0), prefix@, k as nat, 0) =~= Seq::<char>::empty());
        }
        count = count + m;
        k = k + 1;
        assert(sql@ =~= deletes + relate_statements(bs, prefix@, k as nat));
    }
    (sql, count)
}

proof fn lemma_edge_total_monotone(
    bs: Seq<(Seq<char>, RelationWriteDirection, Seq<usize>, Seq<(usize, usize)>)>,
    j: nat,
    k: nat,
)
    requires
        j <= k <= bs.len(),
    ensures
        edge_total(bs, j) <= edge_total(bs, k),
    decreases k - j,
{
    if j < k {
        lemma_edge_total_monotone(bs, j, (k - 1) as nat);
    }
}


/// The statement that removes the stored rows of the record that `anchor`
/// names, for one batch.
pub open spec fn anchored_delete_statement(
    batch: (Seq<char>, RelationWriteDirection, Seq<usize>, Seq<(usize, usize)>),
    anchor: Seq<char>,
) -> Seq<char> {
    "DELETE FROM "@ + table_sql_text(batch.0) + " WHERE "@ + end_field(batch.1) + " = "@ + anchor
        + " RETURN NONE;"@
}

/// The removal statements of the first `k` batches, for the record `anchor` names.
pub open spec fn anchored_delete_statements(
    bs: Seq<(Seq<char>, RelationWriteDirection, Seq<usize>, Seq<(usize, usize)>)>,
    anchor: Seq<char>,
    k: nat,
) -> Seq<char>
    decreases k,
{
    if k == 0 {
        Seq::empty()
    } else {
        anchored_delete_statements(bs, anchor, (k - 1) as nat) + anchored_delete_statement(
            bs[k - 1],
            anchor,
        )
    }
}

/// The statement that stores edge `e` of batch `b` between the record
/// `anchor` names and the bound other end, with its position.
pub open spec fn anchored_relate_statement(
    direction: RelationWriteDirection,
    table: Seq<char>,
    prefix: Seq<char>,
    anchor: Seq<char>,
    b: nat,
    e: nat,
) -> Seq<char> {
    "RELATE "@ + anchored_ends(direction, table, prefix, anchor, b, e) + " SET position = "@
        + bound_name(prefix, "_position_"@, b, e) + ";"@
}

/// The two ends of an anchored relation row: the record `anchor` names and
/// the bound other end, in the row's direction.
pub open spec fn anchored_ends(
    direction: RelationWriteDirection,
    table: Seq<char>,
    prefix: Seq<char>,
    anchor: Seq<char>,
    b: nat,
    e: nat,
) -> Seq<char> {
    match direction {
        RelationWriteDirection::Outgoing => anchor + " -> "@ + table + " -> "@ + bound_name(
            prefix,
            "_target_"@,
            b,
            e,
        ),
        RelationWriteDirection::Incoming => bound_name(prefix, "_source_"@, b, e) + " -> "@ + table
            + " -> "@ + anchor,
    }
}

fn anchored_ends_text(
    direction: RelationWriteDirection,
    table: &str,
    prefix: &str,
    anchor: &str,
    b: usize,
    e: usize,
) -> (out: String)
    ensures
        out@ == anchored_ends(direction, table@, prefix@, anchor@, b as nat, e as nat),
{
    match direction {
        RelationWriteDirection::Outgoing => {
            let mut out = owned(anchor);
            push_str(&mut out, " -> ");
            push_str(&mut out, table);
            push_str(&mut out, " -> ");
            let target = bound_name_text(prefix, "_target_", b, e);
            push_str(&mut out, target.as_str());
            out
        },
        RelationWriteDirection::Incoming => {
            let mut out = bound_name_text(prefix, "_source_", b, e);
            push_str(&mut out, " -> ");
            push_str(&mut out, table);
            push_str(&mut out, " -> ");
            push_str(&mut out, anchor);
            out
        },
    }
}

/// The statements that store the first `m` edges of batch `b` for the record
/// `anchor` names.
pub open spec fn anchored_relate_statements_of(
    direction: RelationWriteDirection,
    table: Seq<char>,
    prefix: Seq<char>,
    anchor: Seq<char>,
    b: nat,
    m: nat,
) -> Seq<char>
    decreases m,
{
    if m == 0 {
        Seq::empty()
    } else {
        anchored_relate_statements_of(direction, table, prefix, anchor, b, (m - 1) as nat)
            + anchored_relate_statement(direction, table, prefix, anchor, b, (m - 1) as nat)
    }
}

/// The statements that store the edges of the first `k` batches for the
/// record `anchor` names.
pub open spec fn anchored_relate_statements(
    bs: Seq<(Seq<char>, RelationWriteDirection, Seq<usize>, Seq<(usize, usize)>)>,
    prefix: Seq<char>,
    anchor: Seq<char>,
    k: nat,
) -> Seq<char>
    decreases k,
{
    if k == 0 {
        Seq::empty()
    } else {
        anchored_relate_statements(bs, prefix, anchor, (k - 1) as nat)
            + anchored_relate_statements_of(
            bs[k - 1].1,
            table_sql_text(bs[k - 1].0),
            prefix,
            anchor,
            (k - 1) as nat,
            bs[k - 1].3.len(),
        )
    }
}

/// The statements that replace the stored relation rows of the one record
/// that the expression `anchor` names: one removal per batch, then one
/// `RELATE` per edge.
pub open spec fn anchored_relation_sync_text(
    bs: Seq<(Seq<char>, RelationWriteDirection, Seq<usize>, Seq<(usize, usize)>)>,
    prefix: Seq<char>,
    anchor: Seq<char>,
) -> Seq<char> {
    anchored_delete_statements(bs, anchor, bs.len()) + anchored_relate_statements(
        bs,
        prefix,
        anchor,
        bs.len(),
    )
}

fn anchored_relate_statements_text(
    direction: RelationWriteDirection,
    table: &str,
    prefix: &str,
    anchor: &str,
    b: usize,
    m: usize,
) -> (out: String)
    ensures
        out@ == anchored_relate_statements_of(direction, table@, prefix@, anchor@, b as nat, m as nat),
{
    let mut out = String::new();
    let mut e: usize = 0;
    while e < m
        invariant
            e <= m,
            out@ == anchored_relate_statements_of(direction, table@, prefix@, anchor@, b as nat, e as nat),
        decreases m - e,
    {
        push_str(&mut out, "RELATE ");
        let ends = anchored_ends_text(direction, table, prefix, anchor, b, e);
        push_str(&mut out, ends.as_str());
        push_str(&mut out, " SET position = ");
        let position = bound_name_text(prefix, "_position_", b, e);
        push_str(&mut out, position.as_str());
        push_str(&mut out, ";");
        e = e + 1;
        assert(out@ =~= anchored_relate_statements_of(direction, table@, prefix@, anchor@, b as nat, e as nat));
    }
    out
}

/// The statements that replace the stored relation rows of the one record
/// that the expression `anchor` names, with parameters named after `prefix`,
/// and how many statements they are: one removal per batch and one `RELATE`
/// per edge.
pub fn relation_sync_anchored_sql(batches: &[RelationBatch], prefix: &str, anchor: &str) -> (out: (
    String,
    usize,
))
    requires
        batches@.len() + edge_total(batches_view(batches@), batches@.len()) <= usize::MAX,
    ensures
        out.0@ == anchored_relation_sync_text(batches_view(batches@), prefix@, anchor@),
        out.1 == batches@.len() + edge_total(batches_view(batches@), batches@.len()),
{
    let ghost bs = batches_view(batches@);
    let n = batches.len();
    let mut sql = String::new();
    let mut b: usize = 0;
    while b < n
        invariant
            n == batches@.len(),
            bs == batches_view(batches@),
            b <= n,
            sql@ == anchored_delete_statements(bs, anchor@, b as nat),
        decreases n - b,
    {
        assert(bs[b as int] == batches@[b as int]@);
        let field = end_field_text(batches[b].direction);
        let table = table_sql(batches[b].relation.as_str());
        push_str(&mut sql, "DELETE FROM ");
        push_str(&mut sql, table.as_str());
        push_str(&mut sql, " WHERE ");
        push_str(&mut sql, field);
        push_str(&mut sql, " = ");
        push_str(&mut sql, anchor);
        push_str(&mut sql, " RETURN NONE;");
        b = b + 1;
        assert(sql@ =~= anchored_delete_statements(bs, anchor@, b as nat));
    }
    let ghost deletes = sql@;
    let mut count: usize = n;
    let mut k: usize = 0;
    while k < n
        invariant
            n == batches@.len(),
            bs == batches_view(batches@),
            k <= n,
            n + edge_total(bs, n as nat) <= usize::MAX,
            count == n + edge_total(bs, k as nat),
            sql@ == deletes + anchored_relate_statements(bs, prefix@, anchor@, k as nat),
        decreases n - k,
    {
        proof {
            lemma_edge_total_monotone(bs, (k + 1) as nat, n as nat);
        }
        assert(bs[k as int] == batches@[k as int]@);
        let m = batches[k].edges.len();
        if m > 0 {
            let table = table_sql(batches[k].relation.as_str());
            let stmts = anchored_relate_statements_text(batches[k].direction, table.as_str(), prefix, anchor, k, m);
            push_str(&mut sql, stmts.as_str());
        } else {
            assert(anchored_relate_statements_of(bs[k as int].1, table_sql_text(bs[k as int].0), prefix@, anchor@, k as nat, 0) =~= Seq::<char>::empty());
        }
        count = count + m;
        k = k + 1;
        assert(sql@ =~= deletes + anchored_relate_statements(bs, prefix@, anchor@, k as nat));
    }
    (sql, count)
}

/// The transaction that creates a record with relation fields: the record is
/// created into `$created`, `sync` replaces its relation rows, and the stored
/// row is read back with its plain id (the answer after the transaction
/// start, the creation and the relation statements).
pub open spec fn create_statement_text(sync: Seq<char>) -> Seq<char> {
    "BEGIN TRANSACTION; LET $created = CREATE ONLY $table CONTENT $data RETURN AFTER;"@ + sync
        + "SELECT *, record::id(id) AS id FROM ONLY $created;"@ + "COMMIT TRANSACTION;"@
}

/// The transaction that creates a record with relation fields around the
/// relation statements `sync`.
pub fn create_statement_sql(sync: &str) -> (out: String)
    ensures
        out@ == create_statement_text(sync@),
{
    let mut out = owned("BEGIN TRANSACTION; LET $created = CREATE ONLY $table CONTENT $data RETURN AFTER;");
    push_str(&mut out, sync);
    push_str(&mut out, "SELECT *, record::id(id) AS id FROM ONLY $created;");
    push_str(&mut out, "COMMIT TRANSACTION;");
    out
}



/// The order of `str` comparison: lexicographic by code point, which is the
/// byte order of UTF-8 text.
pub open spec fn chars_lt(a: Seq<char>, b: Seq<char>) -> bool
    decreases a.len(),
{
    if a.len() == 0 {
        b.len() > 0
    } else if b.len() == 0 {
        false
    } else if a[0] != b[0] {
        a[0] < b[0]
    } else {
        chars_lt(a.skip(1), b.skip(1))
    }
}

/// No text comes before itself.
pub proof fn lemma_chars_lt_irreflexive(a: Seq<char>)
    ensures
        !chars_lt(a, a),
    decreases a.len(),
{
    if a.len() > 0 {
        lemma_chars_lt_irreflexive(a.skip(1));
    }
}

/// Of two different texts, one comes before the other.
pub proof fn lemma_chars_lt_total(a: Seq<char>, b: Seq<char>)
    requires
        a != b,
    ensures
        chars_lt(a, b) || chars_lt(b, a),
    decreases a.len(),
{
    if a.len() > 0 && b.len() > 0 && a[0] == b[0] {
        if a.skip(1) == b.skip(1) {
            assert(a =~= seq![a[0]] + a.skip(1));
            assert(b =~= seq![b[0]] + b.skip(1));
        }
        lemma_chars_lt_total(a.skip(1), b.skip(1));
    } else if a.len() == 0 && b.len() == 0 {
        assert(a =~= b);
    }
}

/// The order is transitive.
pub proof fn lemma_chars_lt_transitive(a: Seq<char>, b: Seq<char>, c: Seq<char>)
    requires
        chars_lt(a, b),
        chars_lt(b, c),
    ensures
        chars_lt(a, c),
    decreases a.len(),
{
    if a.len() > 0 && b.len() > 0 && c.len() > 0 && a[0] == b[0] && b[0] == c[0] {
        lemma_chars_lt_transitive(a.skip(1), b.skip(1), c.skip(1));
    }
}

/// Whether `a` comes before `b` in `str` order.
fn str_lt(a: &str, b: &str) -> (res: bool)
    ensures
        res == chars_lt(a@, b@),
{
    let ac = crate::text::str_to_chars(a);
    let bc = crate::text::str_to_chars(b);
    assert(a@.skip(0) =~= a@);
    assert(b@.skip(0) =~= b@);
    let mut i: usize = 0;
    while i < ac.len() && i < bc.len() && ac[i] == bc[i]
        invariant
            ac@ == a@,
            bc@ == b@,
            i <= ac@.len(),
            i <= bc@.len(),
            chars_lt(a@, b@) == chars_lt(a@.skip(i as int), b@.skip(i as int)),
        decreases ac@.len() - i,
    {
        assert(a@.skip(i as int).skip(1) =~= a@.skip(i + 1));
        assert(b@.skip(i as int).skip(1) =~= b@.skip(i + 1));
        i = i + 1;
    }
    if i == ac.len() {
        i < bc.len()
    } else if i == bc.len() {
        false
    } else {
        ac[i] < bc[i]
    }
}

/// The texts of a list of strings.
pub open spec fn names_view(names: Seq<String>) -> Seq<Seq<char>> {
    names.map_values(|s: String| s@)
}

/// Each text comes before every later one.
pub open spec fn strictly_sorted(names: Seq<Seq<char>>) -> bool {
    forall|i: int, j: int| 0 <= i < j < names.len() ==> chars_lt(#[trigger] names[i], #[trigger] names[j])
}

/// `names` lists the distinct texts of `relations` in ascending order.
pub open spec fn is_sorted_relation_list(names: Seq<Seq<char>>, relations: Seq<Seq<char>>) -> bool {
    strictly_sorted(names) && forall|t: Seq<char>| #[trigger] names.contains(t) == relations.contains(t)
}

/// There is one such list: two ascending lists of the same texts are equal.
pub proof fn lemma_sorted_relation_list_unique(a: Seq<Seq<char>>, b: Seq<Seq<char>>)
    requires
        strictly_sorted(a),
        strictly_sorted(b),
        forall|t: Seq<char>| #[trigger] a.contains(t) == b.contains(t),
    ensures
        a == b,
    decreases a.len(),
{
    if a.len() == 0 {
        if b.len() > 0 {
            assert(b.contains(b[0]));
            assert(a.contains(b[0]) == b.contains(b[0]));
        }
        assert(a =~= b);
    } else {
        assert(a.contains(a[0]));
        assert(a.contains(a[0]) == b.contains(a[0]));
        assert(b.len() > 0);
        assert(b.contains(b[0]));
        assert(a.contains(b[0]) == b.contains(b[0]));
        let j = choose|j: int| 0 <= j < b.len() && b[j] == a[0];
        let i = choose|i: int| 0 <= i < a.len() && a[i] == b[0];
        if j > 0 {
            assert(chars_lt(b[0], b[j]));
            if i == 0 {
                lemma_chars_lt_irreflexive(a[0]);
            } else {
                assert(chars_lt(a[0], a[i]));
                lemma_chars_lt_transitive(a[0], a[i], a[0]);
                lemma_chars_lt_irreflexive(a[0]);
            }
        }
        assert(a[0] == b[0]);
        let a1 = a.skip(1);
        let b1 = b.skip(1);
        assert forall|t: Seq<char>| #[trigger] a1.contains(t) == b1.contains(t) by {
            if a1.contains(t) {
                let k = choose|k: int| 0 <= k < a1.len() && a1[k] == t;
                assert(a.contains(a1[k]) && a1[k] == a[k + 1]);
                assert(a.contains(t) == b.contains(t));
                let m = choose|m: int| 0 <= m < b.len() && b[m] == t;
                if m == 0 {
                    assert(chars_lt(a[0], a[k + 1]));
                    lemma_chars_lt_irreflexive(a[0]);
                }
                assert(b1[m - 1] == t);
            }
            if b1.contains(t) {
                let k = choose|k: int| 0 <= k < b1.len() && b1[k] == t;
                assert(b.contains(b1[k]) && b1[k] == b[k + 1]);
                assert(a.contains(t) == b.contains(t));
                let m = choose|m: int| 0 <= m < a.len() && a[m] == t;
                if m == 0 {
                    assert(chars_lt(b[0], b[k + 1]));
                    lemma_chars_lt_irreflexive(b[0]);
                }
                assert(a1[m - 1] == t);
            }
        }
        assert(strictly_sorted(a1)) by {
            assert forall|x: int, y: int| 0 <= x < y < a1.len() implies chars_lt(#[trigger] a1[x], #[trigger] a1[y]) by {
                assert(a1[x] == a[x + 1] && a1[y] == a[y + 1]);
            }
        }
        assert(strictly_sorted(b1)) by {
            assert forall|x: int, y: int| 0 <= x < y < b1.len() implies chars_lt(#[trigger] b1[x], #[trigger] b1[y]) by {
                assert(b1[x] == b[x + 1] && b1[y] == b[y + 1]);
            }
        }
        lemma_sorted_relation_list_unique(a1, b1);
        assert(a =~= seq![a[0]] + a1);
        assert(b =~= seq![b[0]] + b1);
    }
}

/// Adds a text to an ascending list of distinct texts, where it belongs,
/// unless it is there already.
fn insert_sorted(names: &mut Vec<String>, x: &str)
    requires
        strictly_sorted(names_view(old(names)@)),
    ensures
        strictly_sorted(names_view(final(names)@)),
        forall|t: Seq<char>|
            #[trigger] names_view(final(names)@).contains(t) == (names_view(old(names)@).contains(t) || t == x@),
{
    let ghost before = names_view(names@);
    let n = names.len();
    let mut p: usize = 0;
    while p < n && str_lt(names[p].as_str(), x)
        invariant
            n == names@.len(),
            before == names_view(names@),
            p <= n,
            forall|i: int| 0 <= i < p ==> chars_lt(#[trigger] before[i], x@),
        decreases n - p,
    {
        p = p + 1;
    }
    if p < n && str_eq(names[p].as_str(), x) {
        assert(before[p as int] == x@);
        assert forall|t: Seq<char>| #[trigger] before.contains(t) == (before.contains(t) || t == x@) by {
            if t == x@ {
                assert(before.contains(before[p as int]));
            }
        }
        return;
    }
    proof {
        if p < n {
            assert(!chars_lt(before[p as int], x@));
            assert(before[p as int] != x@);
            lemma_chars_lt_total(before[p as int], x@);
        }
        assert forall|j: int| p <= j < n implies chars_lt(x@, #[trigger] before[j]) by {
            if j > p {
                lemma_chars_lt_transitive(x@, before[p as int], before[j]);
            }
        }
    }
    names.insert(p, owned(x));
    let ghost after = names_view(names@);
    assert(after =~= before.insert(p as int, x@));
    assert forall|i: int, j: int| 0 <= i < j < after.len() implies chars_lt(#[trigger] after[i], #[trigger] after[j]) by {
        if j < p {
        } else if j == p {
        } else if i < p {
            lemma_chars_lt_transitive(after[i], x@, after[j]);
        } else if i == p {
        } else {
        }
    }
    assert forall|t: Seq<char>| #[trigger] after.contains(t) == (before.contains(t) || t == x@) by {
        if after.contains(t) {
            let k = choose|k: int| 0 <= k < after.len() && after[k] == t;
            if k < p {
                assert(before[k] == t);
            } else if k > p {
                assert(before[k - 1] == t);
            }
        }
        if before.contains(t) {
            let k = choose|k: int| 0 <= k < before.len() && before[k] == t;
            if k < p {
                assert(after[k] == t);
            } else {
                assert(after[k + 1] == t);
            }
        }
        if t == x@ {
            assert(after[p as int] == t);
        }
    }
}

/// The statements that define the first `k` relation tables of a list.
pub open spec fn relation_table_statements(names: Seq<Seq<char>>) -> Seq<char>
    decreases names.len(),
{
    if names.len() == 0 {
        Seq::empty()
    } else {
        relation_table_statements(names.drop_last()) + "DEFINE TABLE IF NOT EXISTS "@
            + table_sql_text(names.last()) + " TYPE RELATION SCHEMALESS;"@
    }
}

/// The transaction that defines each relation table of an ascending list of
/// names when it does not exist yet.
pub open spec fn relation_tables_text(names: Seq<Seq<char>>) -> Seq<char> {
    "BEGIN TRANSACTION;"@ + relation_table_statements(names) + "COMMIT TRANSACTION;"@
}

/// The transaction that makes sure every relation table written to exists:
/// one definition per distinct relation, in ascending order; nothing when no
/// relation is written.
pub fn relation_tables_ddl(relations: &[String]) -> (out: Option<String>)
    ensures
        out is None <==> relations@.len() == 0,
        out matches Some(t) ==> exists|names: Seq<Seq<char>>|
            is_sorted_relation_list(names, names_view(relations@)) && t@ == relation_tables_text(names),
{
    let n = relations.len();
    if n == 0 {
        return None;
    }
    let ghost rels = names_view(relations@);
    let mut names: Vec<String> = Vec::new();
    let mut i: usize = 0;
    while i < n
        invariant
            n == relations@.len(),
            rels == names_view(relations@),
            i <= n,
            strictly_sorted(names_view(names@)),
            forall|t: Seq<char>| #[trigger] names_view(names@).contains(t) == rels.take(i as int).contains(t),
        decreases n - i,
    {
        let ghost prev = names_view(names@);
        insert_sorted(&mut names, relations[i].as_str());
        let ghost t0 = rels.take(i as int);
        let ghost t1 = rels.take(i + 1);
        assert forall|t: Seq<char>| #[trigger] t1.contains(t) == (t0.contains(t) || t == rels[i as int]) by {
            if t1.contains(t) {
                let k = choose|k: int| 0 <= k < t1.len() && t1[k] == t;
                if k < i {
                    assert(t0[k] == t);
                }
            }
            if t0.contains(t) {
                let k = choose|k: int| 0 <= k < t0.len() && t0[k] == t;
                assert(t1[k] == t);
            }
            if t == rels[i as int] {
                assert(t1[i as int] == t);
            }
        }
        assert(relations@[i as int]@ == rels[i as int]);
        i = i + 1;
    }
    assert(rels.take(n as int) =~= rels);
    let mut sql = owned("BEGIN TRANSACTION;");
    let ghost view = names_view(names@);
    let m = names.len();
    let mut k: usize = 0;
    while k < m
        invariant
            m == names@.len(),
            view == names_view(names@),
            k <= m,
            sql@ == "BEGIN TRANSACTION;"@ + relation_table_statements(view.take(k as int)),
        decreases m - k,
    {
        let table = table_sql(names[k].as_str());
        push_str(&mut sql, "DEFINE TABLE IF NOT EXISTS ");
        push_str(&mut sql, table.as_str());
        push_str(&mut sql, " TYPE RELATION SCHEMALESS;");
        assert(view.take(k + 1).drop_last() =~= view.take(k as int));
        k = k + 1;
        assert(sql@ =~= "BEGIN TRANSACTION;"@ + relation_table_statements(view.take(k as int)));
    }
    push_str(&mut sql, "COMMIT TRANSACTION;");
    assert(view.take(m as int) =~= view);
    assert(is_sorted_relation_list(view, rels) && sql@ == relation_tables_text(view));
    Some(sql)
}

} // verus!
