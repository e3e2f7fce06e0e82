//! Schema registration items and the DDL of HNSW vector indexes.

use vstd::prelude::*;

use crate::text::{
    char_is_ident_char, decimal, is_ident_char, lemma_contains_middle, owned, push_char, push_str,
    seq_contains, str_to_chars, u64_to_decimal,
};

verus! {

/// One schema DDL statement submitted for database initialization.
pub struct SchemaItem {
    /// Raw DDL submitted into the schema inventory.
    pub ddl: &'static str,
}

/// One HNSW vector index definition submitted for database initialization.
pub struct HnswSchemaItem {
    pub index: HnswIndexDef,
}

/// Trait implemented by types that register a schema statement.
pub trait SchemaDef {
    /// DDL statement submitted during database initialization.
    const SCHEMA: &'static str;
}

/// Primitive scalar representation used by SurrealDB vector indexes.
#[derive(Debug, Clone, Copy, PartialEq, Eq, Structural)]
pub enum VectorIndexType {
    F64,
    F32,
    F16,
    I64,
    I32,
    I16,
    I8,
    U64,
    U32,
    U16,
    U8,
}

/// The SurrealQL keyword of each vector element type.
pub open spec fn vector_type_text(t: VectorIndexType) -> Seq<char> {
    match t {
        VectorIndexType::F64 => "F64"@,
        VectorIndexType::F32 => "F32"@,
        VectorIndexType::F16 => "F16"@,
        VectorIndexType::I64 => "I64"@,
        VectorIndexType::I32 => "I32"@,
        VectorIndexType::I16 => "I16"@,
        VectorIndexType::I8 => "I8"@,
        VectorIndexType::U64 => "U64"@,
        VectorIndexType::U32 => "U32"@,
        VectorIndexType::U16 => "U16"@,
        VectorIndexType::U8 => "U8"@,
    }
}

impl VectorIndexType {
    /// The SurrealQL keyword of this element type.
    pub fn as_surql(self) -> (out: &'static str)
        ensures
            out@ == vector_type_text(self),
    {
        match self {
            VectorIndexType::F64 => "F64",
            VectorIndexType::F32 => "F32",
            VectorIndexType::F16 => "F16",
            VectorIndexType::I64 => "I64",
            VectorIndexType::I32 => "I32",
            VectorIndexType::I16 => "I16",
            VectorIndexType::I8 => "I8",
            VectorIndexType::U64 => "U64",
            VectorIndexType::U32 => "U32",
            VectorIndexType::U16 => "U16",
            VectorIndexType::U8 => "U8",
        }
    }
}

/// Distance metric used by SurrealDB vector indexes.
#[derive(Debug, Clone, Copy, PartialEq, Eq, Structural)]
pub enum VectorDistance {
    Euclidean,
    Cosine,
    InnerProduct,
    CosineNormalized,
}

/// The SurrealQL keyword of each distance metric.
pub open spec fn distance_text(d: VectorDistance) -> Seq<char> {
    match d {
        VectorDistance::Euclidean => "EUCLIDEAN"@,
        VectorDistance::Cosine => "COSINE"@,
        VectorDistance::InnerProduct => "INNER_PRODUCT"@,
        VectorDistance::CosineNormalized => "COSINE_NORMALIZED"@,
    }
}

impl VectorDistance {
    /// The SurrealQL keyword of this metric.
    pub fn as_surql(self) -> (out: &'static str)
        ensures
            out@ == distance_text(self),
    {
        match self {
            VectorDistance::Euclidean => "EUCLIDEAN",
            VectorDistance::Cosine => "COSINE",
            VectorDistance::InnerProduct => "INNER_PRODUCT",
            VectorDistance::CosineNormalized => "COSINE_NORMALIZED",
        }
    }
}

/// Definition for one SurrealDB HNSW vector index.
#[derive(Debug, Clone, Copy, PartialEq, Eq)]
pub struct HnswIndexDef {
    pub name: &'static str,
    pub table: &'static str,
    pub field: &'static str,
    pub dimension: usize,
    pub vector_type: Option<VectorIndexType>,
    pub distance: Option<VectorDistance>,
    pub ef_construction: Option<usize>,
    pub m: Option<usize>,
    pub concurrently: bool,
    pub defer: bool,
}

/// Every character is an ASCII letter, digit or `_`.
pub open spec fn all_identifier_chars(s: Seq<char>) -> bool {
    forall|i: int| 0 <= i < s.len() ==> is_ident_char(#[trigger] s[i])
}

/// Every character is an ASCII letter, digit, `_` or `.`.
pub open spec fn all_field_path_chars(s: Seq<char>) -> bool {
    forall|i: int| 0 <= i < s.len() ==> is_ident_char(#[trigger] s[i]) || s[i] == '.'
}

/// The index definition can be rendered: a positive dimension, and plain
/// identifier text in the name, table and field path.
pub open spec fn hnsw_renderable(def: HnswIndexDef) -> bool {
    &&& def.dimension > 0
    &&& all_identifier_chars(def.name@)
    &&& all_identifier_chars(def.table@)
    &&& all_field_path_chars(def.field@)
}

/// The fixed head of the statement: name, table, field path and dimension.
pub open spec fn hnsw_ddl_head(def: HnswIndexDef) -> Seq<char> {
    "DEFINE INDEX IF NOT EXISTS "@ + def.name@ + " ON "@ + def.table@ + " FIELDS "@ + def.field@
        + " HNSW DIMENSION "@ + decimal(def.dimension as nat)
}

/// The optional ` TYPE` clause.
pub open spec fn type_clause(t: Option<VectorIndexType>) -> Seq<char> {
    match t {
        Some(t) => " TYPE "@ + vector_type_text(t),
        None => Seq::empty(),
    }
}

/// The optional ` DIST` clause.
pub open spec fn dist_clause(d: Option<VectorDistance>) -> Seq<char> {
    match d {
        Some(d) => " DIST "@ + distance_text(d),
        None => Seq::empty(),
    }
}

/// An optional numeric clause such as ` EFC 150`.
pub open spec fn number_clause(keyword: Seq<char>, n: Option<usize>) -> Seq<char> {
    match n {
        Some(n) => keyword + decimal(n as nat),
        None => Seq::empty(),
    }
}

/// An optional flag clause such as ` CONCURRENTLY`.
pub open spec fn flag_clause(keyword: Seq<char>, on: bool) -> Seq<char> {
    if on {
        keyword
    } else {
        Seq::empty()
    }
}

/// The `DEFINE INDEX` statement of an HNSW index definition.
pub open spec fn hnsw_ddl_text(def: HnswIndexDef) -> Seq<char> {
    hnsw_ddl_head(def) + type_clause(def.vector_type) + dist_clause(def.distance) + number_clause(
        " EFC "@,
        def.ef_construction,
    ) + number_clause(" M "@, def.m) + flag_clause(" CONCURRENTLY"@, def.concurrently)
        + flag_clause(" DEFER"@, def.defer) + seq![';']
}

/// The text of an index definition after its ` DIST` clause.
pub open spec fn after_dist_text(def: HnswIndexDef) -> Seq<char> {
    number_clause(" EFC "@, def.ef_construction) + number_clause(" M "@, def.m) + flag_clause(
        " CONCURRENTLY"@,
        def.concurrently,
    ) + flag_clause(" DEFER"@, def.defer) + seq![';']
}

proof fn lemma_ddl_around_dist(def: HnswIndexDef)
    ensures
        hnsw_ddl_text(def) == (hnsw_ddl_head(def) + type_clause(def.vector_type)) + dist_clause(
            def.distance,
        ) + after_dist_text(def),
{
    assert(hnsw_ddl_text(def) =~= (hnsw_ddl_head(def) + type_clause(def.vector_type))
        + dist_clause(def.distance) + after_dist_text(def));
}

/// Each distance metric is written as its own SurrealQL keyword: a
/// definition with a metric says `DIST` and that keyword.
pub proof fn lemma_distance_keywords(def: HnswIndexDef)
    ensures
        def.distance == Some(VectorDistance::Euclidean) ==> seq_contains(
            hnsw_ddl_text(def),
            " DIST EUCLIDEAN"@,
        ),
        def.distance == Some(VectorDistance::Cosine) ==> seq_contains(
            hnsw_ddl_text(def),
            " DIST COSINE"@,
        ),
        def.distance == Some(VectorDistance::InnerProduct) ==> seq_contains(
            hnsw_ddl_text(def),
            " DIST INNER_PRODUCT"@,
        ),
        def.distance == Some(VectorDistance::CosineNormalized) ==> seq_contains(
            hnsw_ddl_text(def),
            " DIST COSINE_NORMALIZED"@,
        ),
{
    lemma_ddl_around_dist(def);
    let front = hnsw_ddl_head(def) + type_clause(def.vector_type);
    let back = after_dist_text(def);
    reveal_strlit(" DIST ");
    match def.distance {
        Some(VectorDistance::Euclidean) => {
            reveal_strlit("EUCLIDEAN");
            reveal_strlit(" DIST EUCLIDEAN");
            assert(dist_clause(def.distance) =~= " DIST EUCLIDEAN"@);
            lemma_contains_middle(front, " DIST EUCLIDEAN"@, back);
        },
        Some(VectorDistance::Cosine) => {
            reveal_strlit("COSINE");
            reveal_strlit(" DIST COSINE");
            assert(dist_clause(def.distance) =~= " DIST COSINE"@);
            lemma_contains_middle(front, " DIST COSINE"@, back);
        },
        Some(VectorDistance::InnerProduct) => {
            reveal_strlit("INNER_PRODUCT");
            reveal_strlit(" DIST INNER_PRODUCT");
            assert(dist_clause(def.distance) =~= " DIST INNER_PRODUCT"@);
            lemma_contains_middle(front, " DIST INNER_PRODUCT"@, back);
        },
        Some(VectorDistance::CosineNormalized) => {
            reveal_strlit("COSINE_NORMALIZED");
            reveal_strlit(" DIST COSINE_NORMALIZED");
            assert(dist_clause(def.distance) =~= " DIST COSINE_NORMALIZED"@);
            lemma_contains_middle(front, " DIST COSINE_NORMALIZED"@, back);
        },
        None => {},
    }
}

/// Each vector element type is written as its own SurrealQL keyword: a
/// definition with an element type says `TYPE` and that keyword.
pub proof fn lemma_vector_type_keywords(def: HnswIndexDef)
    ensures
        def.vector_type == Some(VectorIndexType::F64) ==> seq_contains(
            hnsw_ddl_text(def),
            " TYPE F64"@,
        ),
        def.vector_type == Some(VectorIndexType::F32) ==> seq_contains(
            hnsw_ddl_text(def),
            " TYPE F32"@,
        ),
        def.vector_type == Some(VectorIndexType::F16) ==> seq_contains(
            hnsw_ddl_text(def),
            " TYPE F16"@,
        ),
        def.vector_type == Some(VectorIndexType::I64) ==> seq_contains(
            hnsw_ddl_text(def),
            " TYPE I64"@,
        ),
        def.vector_type == Some(VectorIndexType::I32) ==> seq_contains(
            hnsw_ddl_text(def),
            " TYPE I32"@,
        ),
        def.vector_type == Some(VectorIndexType::I16) ==> seq_contains(
            hnsw_ddl_text(def),
            " TYPE I16"@,
        ),
        def.vector_type == Some(VectorIndexType::I8) ==> seq_contains(
            hnsw_ddl_text(def),
            " TYPE I8"@,
        ),
        def.vector_type == Some(VectorIndexType::U64) ==> seq_contains(
            hnsw_ddl_text(def),
            " TYPE U64"@,
        ),
        def.vector_type == Some(VectorIndexType::U32) ==> seq_contains(
            hnsw_ddl_text(def),
            " TYPE U32"@,
        ),
        def.vector_type == Some(VectorIndexType::U16) ==> seq_contains(
            hnsw_ddl_text(def),
            " TYPE U16"@,
        ),
        def.vector_type == Some(VectorIndexType::U8) ==> seq_contains(
            hnsw_ddl_text(def),
            " TYPE U8"@,
        ),
{
    lemma_ddl_around_dist(def);
    let front = hnsw_ddl_head(def);
    let back = dist_clause(def.distance) + after_dist_text(def);
    assert(hnsw_ddl_text(def) =~= front + type_clause(def.vector_type) + back);
    reveal_strlit(" TYPE ");
    match def.vector_type {
        Some(VectorIndexType::F64) => {
            reveal_strlit("F64");
            reveal_strlit(" TYPE F64");
            assert(type_clause(def.vector_type) =~= " TYPE F64"@);
            lemma_contains_middle(front, " TYPE F64"@, back);
        },
        Some(VectorIndexType::F32) => {
            reveal_strlit("F32");
            reveal_strlit(" TYPE F32");
            assert(type_clause(def.vector_type) =~= " TYPE F32"@);
            lemma_contains_middle(front, " TYPE F32"@, back);
        },
        Some(VectorIndexType::F16) => {
            reveal_strlit("F16");
            reveal_strlit(" TYPE F16");
            assert(type_clause(def.vector_type) =~= " TYPE F16"@);
            lemma_contains_middle(front, " TYPE F16"@, back);
        },
        Some(VectorIndexType::I64) => {
            reveal_strlit("I64");
            reveal_strlit(" TYPE I64");
            assert(type_clause(def.vector_type) =~= " TYPE I64"@);
            lemma_contains_middle(front, " TYPE I64"@, back);
        },
        Some(VectorIndexType::I32) => {
            reveal_strlit("I32");
            reveal_strlit(" TYPE I32");
            assert(type_clause(def.vector_type) =~= " TYPE I32"@);
            lemma_contains_middle(front, " TYPE I32"@, back);
        },
        Some(VectorIndexType::I16) => {
            reveal_strlit("I16");
            reveal_strlit(" TYPE I16");
            assert(type_clause(def.vector_type) =~= " TYPE I16"@);
            lemma_contains_middle(front, " TYPE I16"@, back);
        },
        Some(VectorIndexType::I8) => {
            reveal_strlit("I8");
            reveal_strlit(" TYPE I8");
            assert(type_clause(def.vector_type) =~= " TYPE I8"@);
            lemma_contains_middle(front, " TYPE I8"@, back);
        },
        Some(VectorIndexType::U64) => {
            reveal_strlit("U64");
            reveal_strlit(" TYPE U64");
            assert(type_clause(def.vector_type) =~= " TYPE U64"@);
            lemma_contains_middle(front, " TYPE U64"@, back);
        },
        Some(VectorIndexType::U32) => {
            reveal_strlit("U32");
            reveal_strlit(" TYPE U32");
            assert(type_clause(def.vector_type) =~= " TYPE U32"@);
            lemma_contains_middle(front, " TYPE U32"@, back);
        },
        Some(VectorIndexType::U16) => {
            reveal_strlit("U16");
            reveal_strlit(" TYPE U16");
            assert(type_clause(def.vector_type) =~= " TYPE U16"@);
            lemma_contains_middle(front, " TYPE U16"@, back);
        },
        Some(VectorIndexType::U8) => {
            reveal_strlit("U8");
            reveal_strlit(" TYPE U8");
            assert(type_clause(def.vector_type) =~= " TYPE U8"@);
            lemma_contains_middle(front, " TYPE U8"@, back);
        },
        None => {},
    }
}

/// Distinct metrics give distinct definitions: two index definitions that
/// differ only in their metric differ in their text.
pub proof fn lemma_distinct_metrics_distinct_ddl(def: HnswIndexDef, d1: VectorDistance, d2: VectorDistance)
    requires
        d1 != d2,
    ensures
        hnsw_ddl_text(HnswIndexDef { distance: Some(d1), ..def }) != hnsw_ddl_text(
            HnswIndexDef { distance: Some(d2), ..def },
        ),
{
    reveal_strlit("EUCLIDEAN");
    reveal_strlit("COSINE");
    reveal_strlit("INNER_PRODUCT");
    reveal_strlit("COSINE_NORMALIZED");
    let a = HnswIndexDef { distance: Some(d1), ..def };
    let b = HnswIndexDef { distance: Some(d2), ..def };
    lemma_ddl_around_dist(a);
    lemma_ddl_around_dist(b);
    assert(after_dist_text(a) == after_dist_text(b));
    assert(hnsw_ddl_head(a) == hnsw_ddl_head(b));
    assert(distance_text(d1).len() != distance_text(d2).len());
    assert(hnsw_ddl_text(a).len() != hnsw_ddl_text(b).len());
}

fn push_number_clause(ddl: &mut String, keyword: &str, n: Option<usize>)
    ensures
        final(ddl)@ == old(ddl)@ + number_clause(keyword@, n),
{
    if let Some(n) = n {
        push_str(ddl, keyword);
        let t = u64_to_decimal(n as u64);
        push_str(ddl, t.as_str());
        assert(ddl@ =~= old(ddl)@ + number_clause(keyword@, Some(n)));
    } else {
        assert(ddl@ =~= old(ddl)@ + number_clause(keyword@, n));
    }
}

fn push_flag_clause(ddl: &mut String, keyword: &str, on: bool)
    ensures
        final(ddl)@ == old(ddl)@ + flag_clause(keyword@, on),
{
    if on {
        push_str(ddl, keyword);
    } else {
        assert(ddl@ =~= old(ddl)@ + flag_clause(keyword@, on));
    }
}

fn ddl_head(def: &HnswIndexDef) -> (out: String)
    ensures
        out@ == hnsw_ddl_head(*def),
{
    let mut ddl = owned("DEFINE INDEX IF NOT EXISTS ");
    push_str(&mut ddl, def.name);
    push_str(&mut ddl, " ON ");
    push_str(&mut ddl, def.table);
    push_str(&mut ddl, " FIELDS ");
    push_str(&mut ddl, def.field);
    push_str(&mut ddl, " HNSW DIMENSION ");
    let dim = u64_to_decimal(def.dimension as u64);
    push_str(&mut ddl, dim.as_str());
    ddl
}

fn all_chars_identifier(s: &str) -> (res: bool)
    ensures
        res == all_identifier_chars(s@),
{
    let chars = str_to_chars(s);
    let n = chars.len();
    let mut i: usize = 0;
    while i < n
        invariant
            n == chars@.len(),
            chars@ == s@,
            i <= n,
            forall|j: int| 0 <= j < i ==> is_ident_char(#[trigger] chars@[j]),
        decreases n - i,
    {
        if !char_is_ident_char(chars[i]) {
            return false;
        }
        i = i + 1;
    }
    true
}

fn all_chars_field_path(s: &str) -> (res: bool)
    ensures
        res == all_field_path_chars(s@),
{
    let chars = str_to_chars(s);
    let n = chars.len();
    let mut i: usize = 0;
    while i < n
        invariant
            n == chars@.len(),
            chars@ == s@,
            i <= n,
            forall|j: int| 0 <= j < i ==> is_ident_char(#[trigger] chars@[j]) || chars@[j] == '.',
        decreases n - i,
    {
        if !(char_is_ident_char(chars[i]) || chars[i] == '.') {
            return false;
        }
        i = i + 1;
    }
    true
}

impl HnswIndexDef {
    /// A definition with SurrealDB's defaults for every optional setting.
    pub fn new(name: &'static str, table: &'static str, field: &'static str, dimension: usize) -> (out:
        Self)
        ensures
            out == (HnswIndexDef {
                name,
                table,
                field,
                dimension,
                vector_type: None,
                distance: None,
                ef_construction: None,
                m: None,
                concurrently: false,
                defer: false,
            }),
    {
        HnswIndexDef {
            name,
            table,
            field,
            dimension,
            vector_type: None,
            distance: None,
            ef_construction: None,
            m: None,
            concurrently: false,
            defer: false,
        }
    }

    /// Sets the vector element type.
    pub fn vector_type(self, vector_type: VectorIndexType) -> (out: Self)
        ensures
            out == (HnswIndexDef { vector_type: Some(vector_type), ..self }),
    {
        HnswIndexDef { vector_type: Some(vector_type), ..self }
    }

    /// Sets the distance metric.
    pub fn distance(self, distance: VectorDistance) -> (out: Self)
        ensures
            out == (HnswIndexDef { distance: Some(distance), ..self }),
    {
        HnswIndexDef { distance: Some(distance), ..self }
    }

    /// Sets the construction candidate list size.
    pub fn ef_construction(self, ef_construction: usize) -> (out: Self)
        ensures
            out == (HnswIndexDef { ef_construction: Some(ef_construction), ..self }),
    {
        HnswIndexDef { ef_construction: Some(ef_construction), ..self }
    }

    /// Sets the maximum number of connections per node.
    pub fn m(self, m: usize) -> (out: Self)
        ensures
            out == (HnswIndexDef { m: Some(m), ..self }),
    {
        HnswIndexDef { m: Some(m), ..self }
    }

    /// Builds the index concurrently.
    pub fn concurrently(self) -> (out: Self)
        ensures
            out == (HnswIndexDef { concurrently: true, ..self }),
    {
        HnswIndexDef { concurrently: true, ..self }
    }

    /// Defers the index build.
    pub fn deferred(self) -> (out: Self)
        ensures
            out == (HnswIndexDef { defer: true, ..self }),
    {
        HnswIndexDef { defer: true, ..self }
    }

    /// Whether [`HnswIndexDef::ddl`] accepts this definition.
    pub fn is_renderable(&self) -> (res: bool)
        ensures
            res == hnsw_renderable(*self),
    {
        self.dimension > 0 && all_chars_identifier(self.name) && all_chars_identifier(self.table)
            && all_chars_field_path(self.field)
    }

    /// The `DEFINE INDEX ... HNSW` statement of this definition.
    pub fn ddl(self) -> (out: String)
        requires
            hnsw_renderable(self),
        ensures
            out@ == hnsw_ddl_text(self),
    {
        let mut ddl = ddl_head(&self);
        let ghost a = ddl@;
        if let Some(vector_type) = self.vector_type {
            push_str(&mut ddl, " TYPE ");
            push_str(&mut ddl, vector_type.as_surql());
        }
        assert(ddl@ =~= a + type_clause(self.vector_type));
        let ghost b = ddl@;
        if let Some(distance) = self.distance {
            push_str(&mut ddl, " DIST ");
            push_str(&mut ddl, distance.as_surql());
        }
        assert(ddl@ =~= b + dist_clause(self.distance));
        push_number_clause(&mut ddl, " EFC ", self.ef_construction);
        push_number_clause(&mut ddl, " M ", self.m);
        push_flag_clause(&mut ddl, " CONCURRENTLY", self.concurrently);
        push_flag_clause(&mut ddl, " DEFER", self.defer);
        push_char(&mut ddl, ';');
        assert(ddl@ =~= hnsw_ddl_text(self));
        ddl
    }
}

} // verus!
