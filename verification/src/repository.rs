//! Repository rules that hold whatever the database answers: which writes an
//! explicit-id mode issues and what its failures mean, which fields an ordered
//! list may use, what a unique lookup accepts, and where a model's id comes from.

use std::marker::PhantomData;
use vstd::prelude::*;

use crate::error::DBError;
use crate::json::{json_member, json_member_result, json_shape, json_shape_result, JsonShape};
use crate::model::meta::ViewSource;
use crate::query::builder::Order;
use crate::serde_utils::id::Id;
use crate::text::{decimal, is_plain_identifier, owned, push_str, str_eq, u64_to_decimal};
use crate::model::identifier::is_plain_identifier_str;

verus! {

/// How a write with an explicit record id persists its content.
#[derive(Debug, Clone, Copy, PartialEq, Eq, Structural)]
pub enum ExplicitWriteMode {
    CreateOnly,
    Upsert,
    Update,
}

/// The message of the conflict a create-only write reports.
pub open spec fn already_exists_text() -> Seq<char> {
    "record already exists"@
}

impl ExplicitWriteMode {
    /// The statement this mode runs.
    pub fn write_sql(self) -> (out: &'static str)
        ensures
            self == ExplicitWriteMode::CreateOnly ==> out@
                == "CREATE ONLY $record CONTENT $data RETURN AFTER;"@,
            self == ExplicitWriteMode::Upsert ==> out@
                == "UPSERT ONLY $record CONTENT $data RETURN AFTER;"@,
            self == ExplicitWriteMode::Update ==> out@
                == "UPDATE $record CONTENT $data RETURN AFTER;"@,
    {
        match self {
            ExplicitWriteMode::CreateOnly => "CREATE ONLY $record CONTENT $data RETURN AFTER;",
            ExplicitWriteMode::Upsert => "UPSERT ONLY $record CONTENT $data RETURN AFTER;",
            ExplicitWriteMode::Update => "UPDATE $record CONTENT $data RETURN AFTER;",
        }
    }

    /// The mode that persisting with an explicit id uses: create-only when
    /// asked, an upsert otherwise.
    pub fn for_persist(create_only: bool) -> (out: ExplicitWriteMode)
        ensures
            create_only ==> out == ExplicitWriteMode::CreateOnly,
            !create_only ==> out == ExplicitWriteMode::Upsert,
    {
        if create_only {
            ExplicitWriteMode::CreateOnly
        } else {
            ExplicitWriteMode::Upsert
        }
    }

    /// The opening of the transaction that performs the write: the
    /// transaction start, then this mode's statement.
    pub fn transaction_head(self) -> (out: String)
        ensures
            out@ == "BEGIN TRANSACTION;"@ + (match self {
                ExplicitWriteMode::CreateOnly => "CREATE ONLY $record CONTENT $data RETURN AFTER;"@,
                ExplicitWriteMode::Upsert => "UPSERT ONLY $record CONTENT $data RETURN AFTER;"@,
                ExplicitWriteMode::Update => "UPDATE $record CONTENT $data RETURN AFTER;"@,
            }),
    {
        let mut sql = owned("BEGIN TRANSACTION;");
        push_str(&mut sql, self.write_sql());
        sql
    }

    /// What a failed write means: an empty result of a create-only write is a
    /// conflict with an existing record; every other error stays as it is.
    pub fn map_error(self, err: DBError) -> (out: DBError)
        ensures
            self == ExplicitWriteMode::CreateOnly && err is EmptyResult ==> (out matches DBError::Conflict(m)
                && m@ == already_exists_text()),
            !(self == ExplicitWriteMode::CreateOnly && err is EmptyResult) ==> out == err,
    {
        match self {
            ExplicitWriteMode::CreateOnly => match err {
                DBError::EmptyResult(_) => DBError::Conflict(owned("record already exists")),
                other => other,
            },
            _ => err,
        }
    }

    /// The error for a write that returned no row: a conflict for a
    /// create-only write, an empty result for an upsert, not found for an update.
    pub fn empty_result_error(self) -> (out: DBError)
        ensures
            self == ExplicitWriteMode::CreateOnly ==> (out matches DBError::Conflict(m) && m@
                == already_exists_text()),
            self == ExplicitWriteMode::Upsert ==> (out matches DBError::EmptyResult(op) && op@
                == "persist_explicit_id_primitive"@),
            self == ExplicitWriteMode::Update ==> out == DBError::NotFound,
    {
        match self {
            ExplicitWriteMode::CreateOnly => DBError::Conflict(owned("record already exists")),
            ExplicitWriteMode::Upsert => DBError::EmptyResult("persist_explicit_id_primitive"),
            ExplicitWriteMode::Update => DBError::NotFound,
        }
    }
}

/// The message for a unique lookup that matched several records.
pub open spec fn multiple_matches_text(model: Seq<char>, field: Seq<char>, value: Seq<char>) -> Seq<
    char,
> {
    "`find_one` for `"@ + model + "` by `"@ + field + "` = `"@ + value + "` matched multiple records"@
}

/// The single record a unique lookup found: none is `NotFound`, more than one
/// is an invalid model naming the model, the field and the value looked up.
pub fn exactly_one_lookup_id<K>(ids: Vec<K>, model: &str, field: &str, value: &str) -> (res: Result<
    K,
    DBError,
>)
    ensures
        ids@.len() == 0 ==> res == Err::<K, DBError>(DBError::NotFound),
        ids@.len() == 1 ==> res == Ok::<K, DBError>(ids@[0]),
        ids@.len() > 1 ==> (res matches Err(DBError::InvalidModel(m)) && m@ == multiple_matches_text(
            model@,
            field@,
            value@,
        )),
{
    let mut ids = ids;
    if ids.len() == 0 {
        return Err(DBError::NotFound);
    }
    if ids.len() == 1 {
        let id = ids.remove(0);
        return Ok(id);
    }
    let mut m = owned("`find_one` for `");
    push_str(&mut m, model);
    push_str(&mut m, "` by `");
    push_str(&mut m, field);
    push_str(&mut m, "` = `");
    push_str(&mut m, value);
    push_str(&mut m, "` matched multiple records");
    Err(DBError::InvalidModel(m))
}

/// The message for an ordered list of a model by a field it cannot order by.
pub open spec fn list_order_error_text(
    model: Seq<char>,
    field: Seq<char>,
    pagination_field: Option<Seq<char>>,
) -> Seq<char> {
    match pagination_field {
        Some(p) => "model `"@ + model + "` only supports ordered list by `id` or its #[pagin] field `"@
            + p + "`, got `"@ + field + "`"@,
        None => "model `"@ + model
            + "` does not declare a #[pagin] field, so ordered list only supports `id`, got `"@
            + field + "`"@,
    }
}

/// The view of an optional string slice.
pub open spec fn opt_view(s: Option<&str>) -> Option<Seq<char>> {
    match s {
        Some(t) => Some(t@),
        None => None,
    }
}

/// Checks that a model's full list may be ordered by `field`: `id`, or the
/// model's declared pagination field.
pub fn validate_list_order_field<'a>(
    model: &str,
    field: &'a str,
    pagination_field: Option<&str>,
) -> (res: Result<&'a str, DBError>)
    ensures
        field@ == "id"@ || opt_view(pagination_field) == Some(field@) ==> res == Ok::<
            &'a str,
            DBError,
        >(field),
        !(field@ == "id"@ || opt_view(pagination_field) == Some(field@)) ==> (res matches Err(
            DBError::InvalidModel(m),
        ) && m@ == list_order_error_text(model@, field@, opt_view(pagination_field))),
{
    if str_eq(field, "id") {
        return Ok(field);
    }
    match pagination_field {
        Some(p) => {
            if str_eq(p, field) {
                return Ok(field);
            }
            let mut m = owned("model `");
            push_str(&mut m, model);
            push_str(&mut m, "` only supports ordered list by `id` or its #[pagin] field `");
            push_str(&mut m, p);
            push_str(&mut m, "`, got `");
            push_str(&mut m, field);
            push_str(&mut m, "`");
            Err(DBError::InvalidModel(m))
        },
        None => {
            let mut m = owned("model `");
            push_str(&mut m, model);
            push_str(
                &mut m,
                "` does not declare a #[pagin] field, so ordered list only supports `id`, got `",
            );
            push_str(&mut m, field);
            push_str(&mut m, "`");
            Err(DBError::InvalidModel(m))
        },
    }
}

/// The message for an operation that a view with a custom SQL source lacks.
pub open spec fn custom_source_error_text(view: Seq<char>, operation: Seq<char>) -> Seq<char> {
    "view `"@ + view + "` does not support "@ + operation
        + " because it uses a custom SQL source"@
}

/// Checks that a view reads from its source table, which table operations need.
pub fn ensure_table_source(view: &str, operation: &str, source: ViewSource) -> (res: Result<
    (),
    DBError,
>)
    ensures
        source == ViewSource::Table ==> res is Ok,
        source == ViewSource::Sql ==> (res matches Err(DBError::InvalidModel(m)) && m@
            == custom_source_error_text(view@, operation@)),
{
    match source {
        ViewSource::Table => Ok(()),
        ViewSource::Sql => {
            let mut m = owned("view `");
            push_str(&mut m, view);
            push_str(&mut m, "` does not support ");
            push_str(&mut m, operation);
            push_str(&mut m, " because it uses a custom SQL source");
            Err(DBError::InvalidModel(m))
        },
    }
}

/// The message for an ordered list of a view by a field it cannot order by.
pub open spec fn view_order_error_text(
    view: Seq<char>,
    field: Seq<char>,
    source_pagination_field: Option<Seq<char>>,
) -> Seq<char> {
    match source_pagination_field {
        Some(p) => "view `"@ + view
            + "` only supports ordered list by `id`, declared view fields, or source #[pagin] field `"@
            + p + "`, got `"@ + field + "`"@,
        None => "view `"@ + view
            + "` only supports ordered list by `id` or declared view fields, got `"@ + field
            + "`"@,
    }
}

/// A field name is among the declared fields of a view.
pub open spec fn declares_field(view_fields: Seq<&str>, field: Seq<char>) -> bool {
    exists|i: int| 0 <= i < view_fields.len() && view_fields[i]@ == field
}

/// Checks that a view list may be ordered by `field`: the view must read its
/// source table, and the field must be `id`, a declared view field, or the
/// source model's pagination field.
pub fn validate_view_order_field<'a>(
    view: &str,
    field: &'a str,
    source: ViewSource,
    view_fields: &[&str],
    source_pagination_field: Option<&str>,
) -> (res: Result<&'a str, DBError>)
    ensures
        source == ViewSource::Sql ==> (res matches Err(DBError::InvalidModel(m)) && m@
            == custom_source_error_text(view@, "table ordered list operations"@)),
        source == ViewSource::Table && (field@ == "id"@ || declares_field(view_fields@, field@)
            || opt_view(source_pagination_field) == Some(field@)) ==> res == Ok::<
            &'a str,
            DBError,
        >(field),
        source == ViewSource::Table && !(field@ == "id"@ || declares_field(view_fields@, field@)
            || opt_view(source_pagination_field) == Some(field@)) ==> (res matches Err(
            DBError::InvalidModel(m),
        ) && m@ == view_order_error_text(view@, field@, opt_view(source_pagination_field))),
{
    match ensure_table_source(view, "table ordered list operations", source) {
        Ok(()) => {},
        Err(e) => {
            return Err(e);
        },
    }
    if str_eq(field, "id") {
        return Ok(field);
    }
    let n = view_fields.len();
    let mut i: usize = 0;
    while i < n
        invariant
            n == view_fields@.len(),
            i <= n,
            forall|j: int| 0 <= j < i ==> view_fields@[j]@ != field@,
            source == ViewSource::Table,
            field@ != "id"@,
        decreases n - i,
    {
        if str_eq(view_fields[i], field) {
            return Ok(field);
        }
        i = i + 1;
    }
    match source_pagination_field {
        Some(p) => {
            if str_eq(p, field) {
                return Ok(field);
            }
            let mut m = owned("view `");
            push_str(&mut m, view);
            push_str(
                &mut m,
                "` only supports ordered list by `id`, declared view fields, or source #[pagin] field `",
            );
            push_str(&mut m, p);
            push_str(&mut m, "`, got `");
            push_str(&mut m, field);
            push_str(&mut m, "`");
            Err(DBError::InvalidModel(m))
        },
        None => {
            let mut m = owned("view `");
            push_str(&mut m, view);
            push_str(&mut m, "` only supports ordered list by `id` or declared view fields, got `");
            push_str(&mut m, field);
            push_str(&mut m, "`");
            Err(DBError::InvalidModel(m))
        },
    }
}

/// The message for a merge or patch of a model whose fields have write modifiers.
pub open spec fn partial_update_error_text(model: Seq<char>) -> Seq<char> {
    "merge/patch is not supported for model `"@ + model
        + "` because raw partial updates bypass Store field modifiers; use update_at, save, or upsert instead"@
}

/// Checks that raw partial updates (merge, patch) are allowed for a model.
pub fn ensure_raw_partial_update_supported(model: &str, supported: bool) -> (res: Result<
    (),
    DBError,
>)
    ensures
        supported ==> res is Ok,
        !supported ==> (res matches Err(DBError::InvalidModel(m)) && m@
            == partial_update_error_text(model@)),
{
    if supported {
        return Ok(());
    }
    let mut m = owned("merge/patch is not supported for model `");
    push_str(&mut m, model);
    push_str(
        &mut m,
        "` because raw partial updates bypass Store field modifiers; use update_at, save, or upsert instead",
    );
    Err(DBError::InvalidModel(m))
}

/// The message for a bulk insert of a model with foreign or relation fields.
pub open spec fn bulk_insert_error_text(api: Seq<char>, model: Seq<char>) -> Seq<char> {
    api + " is not supported for model `"@ + model
        + "` because bulk insert cannot compose Store field modifiers with nested write effects; use save_many or per-row create/save instead"@
}

/// Checks that raw bulk inserts are allowed for a model: only when it has
/// neither foreign nor relation fields.
pub fn ensure_raw_bulk_insert_supported(
    api: &str,
    model: &str,
    has_foreign_fields: bool,
    has_relation_fields: bool,
) -> (res: Result<(), DBError>)
    ensures
        !has_foreign_fields && !has_relation_fields ==> res is Ok,
        has_foreign_fields || has_relation_fields ==> (res matches Err(DBError::InvalidModel(m))
            && m@ == bulk_insert_error_text(api@, model@)),
{
    if !has_foreign_fields && !has_relation_fields {
        return Ok(());
    }
    let mut m = owned(api);
    push_str(&mut m, " is not supported for model `");
    push_str(&mut m, model);
    push_str(
        &mut m,
        "` because bulk insert cannot compose Store field modifiers with nested write effects; use save_many or per-row create/save instead",
    );
    Err(DBError::InvalidModel(m))
}

/// The message for a serialized field name that is not a plain identifier.
pub open spec fn field_name_error_text(key: Seq<char>) -> Seq<char> {
    "insert_or_replace field `"@ + key + "` must be a plain SurrealQL identifier"@
}

/// Whether a serialized field name is a plain SurrealQL identifier: an ASCII
/// letter or `_`, then ASCII letters, digits or `_`.
pub fn is_plain_surreal_identifier(value: &str) -> (res: bool)
    ensures
        res == is_plain_identifier(value@),
{
    is_plain_identifier_str(value)
}

/// The field names of a serialized row, in order, each of which must be a
/// plain identifier; the first one that is not is reported.
pub fn struct_field_names(keys: Vec<String>) -> (res: Result<Vec<String>, DBError>)
    ensures
        (forall|i: int| 0 <= i < keys@.len() ==> is_plain_identifier(#[trigger] keys@[i]@))
            <==> res is Ok,
        res matches Ok(names) ==> names@ == keys@,
        res matches Err(e) ==> exists|i: int|
            0 <= i < keys@.len() && !is_plain_identifier(keys@[i]@) && (forall|j: int|
                0 <= j < i ==> is_plain_identifier(#[trigger] keys@[j]@)) && (e matches DBError::InvalidIdentifier(
                m,
            ) && m@ == field_name_error_text(keys@[i]@)),
{
    let n = keys.len();
    let mut i: usize = 0;
    while i < n
        invariant
            n == keys@.len(),
            i <= n,
            forall|j: int| 0 <= j < i ==> is_plain_identifier(#[trigger] keys@[j]@),
        decreases n - i,
    {
        if !is_plain_surreal_identifier(keys[i].as_str()) {
            let mut m = owned("insert_or_replace field `");
            push_str(&mut m, keys[i].as_str());
            push_str(&mut m, "` must be a plain SurrealQL identifier");
            return Err(DBError::InvalidIdentifier(m));
        }
        i = i + 1;
    }
    Ok(keys)
}

/// What the `id` member of a serialized model holds, as plain values.
pub enum IdField {
    /// The model does not serialize to an object.
    NotObject,
    /// The object has no `id` member.
    Missing,
    /// A string id.
    Text(String),
    /// An integer id that fits in an `i64`.
    Integer(i64),
    /// A number that is not an `i64`.
    OutOfRange,
    /// Any other kind of value.
    Other,
}

/// What an `id` member of the given kind holds.
pub open spec fn id_field_of_member(shape: JsonShape) -> IdField {
    match shape {
        JsonShape::Text(text) => IdField::Text(text),
        JsonShape::Integer(n) => IdField::Integer(n),
        JsonShape::OtherNumber => IdField::OutOfRange,
        _ => IdField::Other,
    }
}

/// `field` is what the `id` member of `value` is read as: a value that is
/// not an object gives `NotObject`, an object without `id` gives `Missing`,
/// and otherwise the kind of its `id` member decides.
pub open spec fn id_field_read(value: serde_json::Value, field: IdField) -> bool {
    exists|outer: JsonShape|
        json_shape_result(value, outer) && if outer is Object {
            exists|member: Option<serde_json::Value>|
                json_member_result(value, "id"@, member) && match member {
                    None => field == IdField::Missing,
                    Some(id) => exists|inner: JsonShape|
                        json_shape_result(id, inner) && field == id_field_of_member(inner),
                }
        } else {
            field == IdField::NotObject
        }
}

/// What the `id` member of a serialized model holds.
fn id_field_of(value: &serde_json::Value) -> (field: IdField)
    ensures
        id_field_read(*value, field),
{
    let outer = json_shape(value);
    let ghost outer_shape = outer;
    let field = match outer {
        JsonShape::Object => {
            let member = json_member(value, "id");
            let ghost found = member;
            let field = match member {
                None => IdField::Missing,
                Some(id) => {
                    let inner = json_shape(&id);
                    let ghost inner_shape = inner;
                    let field = match inner {
                        JsonShape::Text(text) => IdField::Text(text),
                        JsonShape::Integer(n) => IdField::Integer(n),
                        JsonShape::OtherNumber => IdField::OutOfRange,
                        _ => IdField::Other,
                    };
                    assert(json_shape_result(id, inner_shape) && field == id_field_of_member(
                        inner_shape,
                    ));
                    field
                },
            };
            assert(json_member_result(*value, "id"@, found));
            field
        },
        _ => IdField::NotObject,
    };
    assert(json_shape_result(*value, outer_shape));
    field
}

/// The message for a model whose `id` member cannot be a record key.
pub open spec fn id_field_error_text(model: Seq<char>, field: IdField) -> Seq<char> {
    match field {
        IdField::NotObject => "model `"@ + model + "` must serialize to an object"@,
        IdField::Missing => "model `"@ + model + "` does not contain an `id` string or i64 field"@,
        IdField::OutOfRange => "model `"@ + model + "` has `id` but numeric id is out of i64 range"@,
        _ => "model `"@ + model + "` has `id` but it is not a non-empty string or i64 number"@,
    }
}

/// The record key that an `id` member gives, as [`record_key_from_id_field`]
/// states it.
pub open spec fn id_key_outcome(model: Seq<char>, field: IdField, res: Result<Id, DBError>) -> bool {
    &&& field matches IdField::Text(s) ==> (s@.len() > 0 ==> (res matches Ok(Id::String(t)) && t@
        == s@))
    &&& field matches IdField::Integer(n) ==> res == Ok::<Id, DBError>(Id::Number(n))
    &&& !(field matches IdField::Text(s) && s@.len() > 0) && !(field is Integer) ==> (res matches Err(
        DBError::InvalidModel(m),
    ) && m@ == id_field_error_text(model, field))
}

/// The record key that an `id` member gives: a non-empty string or an `i64`;
/// anything else is an invalid model.
pub fn record_key_from_id_field(model: &str, field: IdField) -> (res: Result<Id, DBError>)
    ensures
        field matches IdField::Text(s) ==> (s@.len() > 0 ==> (res matches Ok(Id::String(t)) && t@
            == s@)),
        field matches IdField::Integer(n) ==> res == Ok::<Id, DBError>(Id::Number(n)),
        !(field matches IdField::Text(s) && s@.len() > 0) && !(field is Integer) ==> (res matches Err(
            DBError::InvalidModel(m),
        ) && m@ == id_field_error_text(model@, field)),
        id_key_outcome(model@, field, res),
{
    let mut m = owned("model `");
    push_str(&mut m, model);
    match field {
        IdField::Text(s) => {
            if !s.as_str().is_empty() {
                return Ok(Id::String(s));
            }
            push_str(&mut m, "` has `id` but it is not a non-empty string or i64 number");
        },
        IdField::Integer(n) => {
            return Ok(Id::Number(n));
        },
        IdField::NotObject => {
            push_str(&mut m, "` must serialize to an object");
        },
        IdField::Missing => {
            push_str(&mut m, "` does not contain an `id` string or i64 field");
        },
        IdField::OutOfRange => {
            push_str(&mut m, "` has `id` but numeric id is out of i64 range");
        },
        IdField::Other => {
            push_str(&mut m, "` has `id` but it is not a non-empty string or i64 number");
        },
    }
    Err(DBError::InvalidModel(m))
}

/// The record key of a serialized model, taken from its `id` member.
pub fn extract_record_id_key(model: &str, value: &serde_json::Value) -> (res: Result<Id, DBError>)
    ensures
        exists|field: IdField| id_field_read(*value, field) && id_key_outcome(model@, field, res),
        res matches Ok(Id::String(s)) ==> s@.len() > 0,
        res matches Err(e) ==> e is InvalidModel,
{
    let field = id_field_of(value);
    record_key_from_id_field(model, field)
}

/// The record an automatic unique lookup found: none is `NotFound`, more
/// than one is an invalid model.
pub fn unique_lookup_id<K>(ids: Vec<K>) -> (res: Result<K, DBError>)
    ensures
        ids@.len() == 0 ==> res == Err::<K, DBError>(DBError::NotFound),
        ids@.len() == 1 ==> res == Ok::<K, DBError>(ids@[0]),
        ids@.len() > 1 ==> (res matches Err(DBError::InvalidModel(m)) && m@
            == "automatic unique lookup matched multiple records"@),
{
    let mut ids = ids;
    if ids.len() == 1 {
        let id = ids.remove(0);
        return Ok(id);
    }
    if ids.len() == 0 {
        return Err(DBError::NotFound);
    }
    Err(DBError::InvalidModel(owned("automatic unique lookup matched multiple records")))
}

/// Checks that a model declares fields for automatic unique lookup.
pub fn ensure_lookup_fields(model: &str, field_count: usize) -> (res: Result<(), DBError>)
    ensures
        field_count > 0 ==> res is Ok,
        field_count == 0 ==> (res matches Err(DBError::InvalidModel(m)) && m@ == "model `"@
            + model@ + "` has no fields available for automatic unique lookup"@),
{
    if field_count > 0 {
        return Ok(());
    }
    let mut m = owned("model `");
    push_str(&mut m, model);
    push_str(&mut m, "` has no fields available for automatic unique lookup");
    Err(DBError::InvalidModel(m))
}

/// One part of an automatic unique lookup: the field and the value found for
/// it, which must be there.
pub fn lookup_part<V>(model: &str, field: &str, value: Option<V>) -> (res: Result<
    (String, V),
    DBError,
>)
    ensures
        value matches Some(v) ==> (res matches Ok(p) && p.0@ == field@ && p.1 == v),
        value is None ==> (res matches Err(DBError::InvalidModel(m)) && m@ == "model `"@ + model@
            + "` is missing lookup field `"@ + field@ + "` during automatic unique lookup"@),
{
    match value {
        Some(v) => Ok((owned(field), v)),
        None => {
            let mut m = owned("model `");
            push_str(&mut m, model);
            push_str(&mut m, "` is missing lookup field `");
            push_str(&mut m, field);
            push_str(&mut m, "` during automatic unique lookup");
            Err(DBError::InvalidModel(m))
        },
    }
}

/// Rows a batch save writes in one transaction.
pub const SAVE_MANY_CHUNK_SIZE: usize = 5000;

/// The row ranges `[first, end)` that a batch save of rows `start..n` works
/// through, in order: chunks of `size` rows, the last one shorter when `size`
/// does not divide what is left.
pub open spec fn chunk_ranges(start: nat, n: nat, size: nat) -> Seq<(nat, nat)>
    decreases n - start,
    when size > 0
{
    if start >= n {
        Seq::empty()
    } else {
        let end = if start + size < n {
            start + size
        } else {
            n
        };
        seq![(start, end)] + chunk_ranges(end, n, size)
    }
}

/// The plain bounds of row ranges.
pub open spec fn ranges_view(ranges: Seq<(usize, usize)>) -> Seq<(nat, nat)> {
    ranges.map_values(|r: (usize, usize)| (r.0 as nat, r.1 as nat))
}

/// The chunks of a batch cover its rows once each and in order: each chunk
/// is non-empty and holds at most `size` rows, each starts where the one
/// before it ended, the first starts at `start` and the last ends at `n`.
pub proof fn lemma_chunk_ranges_partition(start: nat, n: nat, size: nat)
    requires
        size > 0,
        start <= n,
    ensures
        (chunk_ranges(start, n, size).len() == 0) == (start == n),
        chunk_ranges(start, n, size).len() > 0 ==> chunk_ranges(start, n, size)[0].0 == start
            && chunk_ranges(start, n, size).last().1 == n,
        forall|k: int|
            #![trigger chunk_ranges(start, n, size)[k]]
            0 <= k < chunk_ranges(start, n, size).len() ==> chunk_ranges(start, n, size)[k].0
                < chunk_ranges(start, n, size)[k].1 <= chunk_ranges(start, n, size)[k].0 + size,
        forall|k: int|
            #![trigger chunk_ranges(start, n, size)[k]]
            0 <= k < chunk_ranges(start, n, size).len() - 1 ==> chunk_ranges(start, n, size)[k].1
                == chunk_ranges(start, n, size)[k + 1].0,
    decreases n - start,
{
    let r = chunk_ranges(start, n, size);
    if start < n {
        let end = if start + size < n {
            start + size
        } else {
            n
        };
        let rest = chunk_ranges(end, n, size);
        assert(r == seq![(start, end)] + rest);
        lemma_chunk_ranges_partition(end, n, size);
        if end < n {
            assert(r.last() == rest.last());
        }
    }
}

/// The row ranges, in order, that a batch save of `n` rows writes one
/// transaction each.
pub fn save_many_chunks(n: usize) -> (out: Vec<(usize, usize)>)
    ensures
        ranges_view(out@) == chunk_ranges(0, n as nat, SAVE_MANY_CHUNK_SIZE as nat),
{
    let mut out: Vec<(usize, usize)> = Vec::new();
    let mut start: usize = 0;
    while start < n
        invariant
            start <= n,
            ranges_view(out@) + chunk_ranges(start as nat, n as nat, SAVE_MANY_CHUNK_SIZE as nat)
                == chunk_ranges(0, n as nat, SAVE_MANY_CHUNK_SIZE as nat),
        decreases n - start,
    {
        let end: usize = if n - start > SAVE_MANY_CHUNK_SIZE {
            start + SAVE_MANY_CHUNK_SIZE
        } else {
            n
        };
        let ghost before = out@;
        let ghost rest = chunk_ranges(end as nat, n as nat, SAVE_MANY_CHUNK_SIZE as nat);
        assert(chunk_ranges(start as nat, n as nat, SAVE_MANY_CHUNK_SIZE as nat) == seq![
            (start as nat, end as nat),
        ] + rest);
        out.push((start, end));
        assert(ranges_view(out@) =~= ranges_view(before).push((start as nat, end as nat)));
        assert(ranges_view(out@) + chunk_ranges(end as nat, n as nat, SAVE_MANY_CHUNK_SIZE as nat)
            =~= ranges_view(before) + chunk_ranges(
            start as nat,
            n as nat,
            SAVE_MANY_CHUNK_SIZE as nat,
        ));
        start = end;
    }
    assert(ranges_view(out@) =~= ranges_view(out@) + chunk_ranges(
        start as nat,
        n as nat,
        SAVE_MANY_CHUNK_SIZE as nat,
    ));
    out
}

/// The upsert of row `idx` of a batch, bound as `$record_idx` and `$data_idx`.
pub open spec fn batch_upsert_statement(idx: nat) -> Seq<char> {
    "UPSERT ONLY $record_"@ + decimal(idx) + " CONTENT $data_"@ + decimal(idx)
        + " RETURN AFTER;"@
}

/// The opening of a batch save of `n` rows: the transaction start and one
/// upsert per row, in order.
pub open spec fn batch_upsert_text(n: nat) -> Seq<char>
    decreases n,
{
    if n == 0 {
        "BEGIN TRANSACTION; "@
    } else {
        batch_upsert_text((n - 1) as nat) + batch_upsert_statement((n - 1) as nat)
    }
}

/// The statements that open a batch save of `n` rows.
pub fn batch_upsert_sql(n: usize) -> (out: String)
    ensures
        out@ == batch_upsert_text(n as nat),
{
    let mut sql = owned("BEGIN TRANSACTION; ");
    let mut i: usize = 0;
    while i < n
        invariant
            i <= n,
            sql@ == batch_upsert_text(i as nat),
        decreases n - i,
    {
        let d = u64_to_decimal(i as u64);
        push_str(&mut sql, "UPSERT ONLY $record_");
        push_str(&mut sql, d.as_str());
        push_str(&mut sql, " CONTENT $data_");
        push_str(&mut sql, d.as_str());
        push_str(&mut sql, " RETURN AFTER;");
        i = i + 1;
        assert(sql@ =~= batch_upsert_text(i as nat));
    }
    sql
}

/// Position `i` holds the first key of a batch that repeats an earlier one.
pub open spec fn is_first_repeat(keys: Seq<Seq<char>>, i: int) -> bool {
    &&& 0 <= i < keys.len()
    &&& exists|j: int| 0 <= j < i && keys[j] == keys[i]
    &&& forall|k: int, j: int| 0 <= j < k < i ==> keys[j] != keys[k]
}

/// The keys of a batch are all different.
pub open spec fn all_distinct(keys: Seq<Seq<char>>) -> bool {
    forall|k: int, j: int| 0 <= j < k < keys.len() ==> keys[j] != keys[k]
}

/// The position of the first record key in a batch that repeats an earlier
/// one, if any; a batch save refuses such a batch as a conflict.
pub fn first_duplicate_key(keys: &[String]) -> (res: Option<usize>)
    ensures
        match res {
            Some(i) => is_first_repeat(keys@.map_values(|k: String| k@), i as int),
            None => all_distinct(keys@.map_values(|k: String| k@)),
        },
{
    let ghost views = keys@.map_values(|k: String| k@);
    let n = keys.len();
    let mut k: usize = 0;
    while k < n
        invariant
            n == keys@.len(),
            views == keys@.map_values(|k: String| k@),
            k <= n,
            forall|b: int, a: int| 0 <= a < b < k ==> views[a] != views[b],
        decreases n - k,
    {
        let mut j: usize = 0;
        while j < k
            invariant
                n == keys@.len(),
                views == keys@.map_values(|k: String| k@),
                j <= k < n,
                forall|a: int| 0 <= a < j ==> views[a] != views[k as int],
                forall|b: int, a: int| 0 <= a < b < k ==> views[a] != views[b],
            decreases k - j,
        {
            if str_eq(keys[j].as_str(), keys[k].as_str()) {
                assert(views[j as int] == views[k as int]);
                return Some(k);
            }
            j = j + 1;
        }
        k = k + 1;
    }
    None
}

/// The texts of a batch's record keys.
pub open spec fn record_keys_view(keys: Seq<String>) -> Seq<Seq<char>> {
    keys.map_values(|k: String| k@)
}

/// The first row of the chunk that row `i` of a batch save falls in.
pub open spec fn chunk_start(i: int) -> int {
    (i / (SAVE_MANY_CHUNK_SIZE as int)) * (SAVE_MANY_CHUNK_SIZE as int)
}

/// Row `i` repeats the key of an earlier row of its own chunk.
pub open spec fn repeats_in_chunk(keys: Seq<Seq<char>>, i: int) -> bool {
    exists|j: int| chunk_start(i) <= j < i && #[trigger] keys[j] == keys[i]
}

/// What a batch save does with rows of these record keys before it writes:
/// the chunks it writes, in order, when no row repeats a key of its own chunk
/// (none for an empty batch); otherwise the first row that does, which the
/// save refuses as a conflict.
pub fn save_many_plan(keys: &[String]) -> (res: Result<Vec<(usize, usize)>, usize>)
    ensures
        match res {
            Ok(chunks) => ranges_view(chunks@) == chunk_ranges(
                0,
                keys@.len() as nat,
                SAVE_MANY_CHUNK_SIZE as nat,
            ) && forall|i: int|
                0 <= i < keys@.len() ==> !#[trigger] repeats_in_chunk(
                    record_keys_view(keys@),
                    i,
                ),
            Err(i) => i < keys@.len() && repeats_in_chunk(record_keys_view(keys@), i as int)
                && forall|k: int|
                0 <= k < i ==> !#[trigger] repeats_in_chunk(record_keys_view(keys@), k),
        },
{
    let ghost views = record_keys_view(keys@);
    let n = keys.len();
    let mut i: usize = 0;
    while i < n
        invariant
            n == keys@.len(),
            views == record_keys_view(keys@),
            i <= n,
            forall|k: int| 0 <= k < i ==> !#[trigger] repeats_in_chunk(views, k),
        decreases n - i,
    {
        let start: usize = (i / SAVE_MANY_CHUNK_SIZE) * SAVE_MANY_CHUNK_SIZE;
        assert(start == chunk_start(i as int));
        let mut j: usize = start;
        while j < i
            invariant
                n == keys@.len(),
                views == record_keys_view(keys@),
                start <= j <= i < n,
                start == chunk_start(i as int),
                forall|k: int| 0 <= k < i ==> !#[trigger] repeats_in_chunk(views, k),
                forall|a: int| start <= a < j ==> views[a] != views[i as int],
            decreases i - j,
        {
            if str_eq(keys[j].as_str(), keys[i].as_str()) {
                assert(views[j as int] == views[i as int]);
                assert(repeats_in_chunk(views, i as int));
                return Err(i);
            }
            j = j + 1;
        }
        assert(!repeats_in_chunk(views, i as int));
        i = i + 1;
    }
    Ok(save_many_chunks(n))
}

/// The conflict a batch save reports for a record id that repeats within one
/// chunk, given the record id's debug text.
pub fn save_many_duplicate_error(record: &str) -> (e: DBError)
    ensures
        e matches DBError::Conflict(m) && m@ == "save_many received duplicate record id in one batch: "@
            + record@,
{
    let mut m = owned("save_many received duplicate record id in one batch: ");
    push_str(&mut m, record);
    DBError::Conflict(m)
}

/// The transaction of one chunk of a batch save of `n` rows: the upserts,
/// the relation statements `sync`, and the commit.
pub fn save_many_statement_sql(n: usize, sync: &str) -> (out: String)
    ensures
        out@ == batch_upsert_text(n as nat) + sync@ + "COMMIT TRANSACTION;"@,
{
    let mut sql = batch_upsert_sql(n);
    push_str(&mut sql, sync);
    push_str(&mut sql, "COMMIT TRANSACTION;");
    sql
}

/// The transaction of a write with an explicit record id: the mode's write,
/// the relation statements `sync`, and the commit.
pub fn explicit_write_statement_sql(mode: ExplicitWriteMode, sync: &str) -> (out: String)
    ensures
        out@ == "BEGIN TRANSACTION;"@ + (match mode {
            ExplicitWriteMode::CreateOnly => "CREATE ONLY $record CONTENT $data RETURN AFTER;"@,
            ExplicitWriteMode::Upsert => "UPSERT ONLY $record CONTENT $data RETURN AFTER;"@,
            ExplicitWriteMode::Update => "UPDATE $record CONTENT $data RETURN AFTER;"@,
        }) + sync@ + "COMMIT TRANSACTION;"@,
{
    let mut sql = mode.transaction_head();
    push_str(&mut sql, sync);
    push_str(&mut sql, "COMMIT TRANSACTION;");
    sql
}

/// Lazy list query surface that can either run as it is or be refined into
/// an ordered scan.
pub struct ListQuery<T>(PhantomData<T>);

/// Ordered full-table scan produced from [`ListQuery::order_by`].
pub struct OrderedListQuery<T> {
    field: String,
    order: Order,
    marker: PhantomData<T>,
}

impl<T> OrderedListQuery<T> {
    /// The field the scan is ordered by.
    pub closed spec fn field_spec(&self) -> Seq<char> {
        self.field@
    }

    /// The direction of the scan.
    pub closed spec fn order_spec(&self) -> Order {
        self.order
    }

    /// The field the scan is ordered by.
    pub fn field(&self) -> (out: &str)
        ensures
            out@ == self.field_spec(),
    {
        self.field.as_str()
    }

    /// The direction of the scan.
    pub fn order(&self) -> (out: Order)
        ensures
            out == self.order_spec(),
    {
        self.order
    }
}

impl<T> ListQuery<T> {
    /// Orders the full list by `field` in the given direction.
    pub fn order_by(self, field: String, order: Order) -> (out: OrderedListQuery<T>)
        ensures
            out.field_spec() == field@,
            out.order_spec() == order,
    {
        OrderedListQuery { field, order, marker: PhantomData }
    }
}

/// Lazy read-only View list query surface.
pub struct ViewListQuery<V>(PhantomData<V>);

/// Ordered View scan produced from [`ViewListQuery::order_by`].
pub struct ViewOrderedListQuery<V> {
    field: String,
    order: Order,
    marker: PhantomData<V>,
}

impl<V> ViewOrderedListQuery<V> {
    /// The field the scan is ordered by.
    pub closed spec fn field_spec(&self) -> Seq<char> {
        self.field@
    }

    /// The direction of the scan.
    pub closed spec fn order_spec(&self) -> Order {
        self.order
    }

    /// The field the scan is ordered by.
    pub fn field(&self) -> (out: &str)
        ensures
            out@ == self.field_spec(),
    {
        self.field.as_str()
    }

    /// The direction of the scan.
    pub fn order(&self) -> (out: Order)
        ensures
            out == self.order_spec(),
    {
        self.order
    }
}

impl<V> ViewListQuery<V> {
    /// Orders a View list by `field` in the given direction.
    pub fn order_by(self, field: String, order: Order) -> (out: ViewOrderedListQuery<V>)
        ensures
            out.field_spec() == field@,
            out.order_spec() == order,
    {
        ViewOrderedListQuery { field, order, marker: PhantomData }
    }
}

/// Repository building blocks for a model type.
pub struct Repo<T>(PhantomData<T>);

impl<T> Repo<T> {
    /// Starts a full-table list query that can be ordered before it runs.
    pub fn list() -> (out: ListQuery<T>) {
        ListQuery(PhantomData)
    }
}

/// Repository building blocks for read-only View projections.
pub struct ViewRepo<V>(PhantomData<V>);

impl<V> ViewRepo<V> {
    /// Starts a projected list query that can be ordered before it runs.
    pub fn list() -> (out: ViewListQuery<V>) {
        ViewListQuery(PhantomData)
    }
}

/// One-shot write builder that carries the data of a write with explicit
/// record-id shapes for selected foreign fields.
pub struct ForeignWriteQuery<T> {
    data: T,
}

impl<T> ForeignWriteQuery<T> {
    /// Starts a foreign write for `data`.
    pub fn new(data: T) -> (out: Self)
        ensures
            out.data() == data,
    {
        ForeignWriteQuery { data }
    }

    /// The data being written.
    pub closed spec fn data(&self) -> T {
        self.data
    }

    /// Consumes the builder and returns its data.
    pub fn into_data(self) -> (out: T)
        ensures
            out == self.data(),
    {
        self.data
    }
}

} // verus!
