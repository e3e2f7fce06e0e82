//! Cursor-paginated result pages and the checks applied to a decoded cursor.

use vstd::prelude::*;

use crate::error::{display_text, DBError};
use crate::json::{json_member, json_member_result};
use crate::query::builder::Order;
use crate::text::{decimal, i64_to_decimal, owned, push_str, signed_decimal, str_eq, u64_to_decimal};

verus! {

/// The version written into every page cursor.
pub const PAGE_CURSOR_VERSION: u8 = 1;

/// One cursor-paginated result page.
#[derive(Debug, Clone, PartialEq)]
pub struct Page<T> {
    /// Materialized rows for the current page.
    pub items: Vec<T>,
    /// Cursor that resumes immediately after the last returned row.
    pub next: Option<PageCursor>,
}

/// Opaque cursor token used by Store pagination helpers.
#[derive(Debug, Clone, PartialEq, Eq)]
pub struct PageCursor(String);

impl View for PageCursor {
    type V = Seq<char>;

    closed spec fn view(&self) -> Seq<char> {
        self.0@
    }
}

impl PageCursor {
    /// Wraps an encoded cursor token.
    pub fn new(token: String) -> (out: Self)
        ensures
            out@ == token@,
    {
        PageCursor(token)
    }

    /// The encoded cursor token.
    pub fn as_str(&self) -> (out: &str)
        ensures
            out@ == self@,
    {
        self.0.as_str()
    }

    /// Consumes the cursor and returns its encoded token.
    pub fn into_inner(self) -> (out: String)
        ensures
            out@ == self@,
    {
        self.0
    }
}

/// Direction recorded in a page cursor.
#[derive(Debug, Clone, Copy, PartialEq, Eq, Structural)]
pub enum CursorOrder {
    Asc,
    Desc,
}

/// The cursor direction of a sort direction.
pub open spec fn cursor_order_of(order: Order) -> CursorOrder {
    match order {
        Order::Asc => CursorOrder::Asc,
        Order::Desc => CursorOrder::Desc,
    }
}

impl CursorOrder {
    /// The cursor direction of a sort direction.
    pub fn from_order(order: Order) -> (out: Self)
        ensures
            out == cursor_order_of(order),
    {
        match order {
            Order::Asc => CursorOrder::Asc,
            Order::Desc => CursorOrder::Desc,
        }
    }
}

/// Keyset pagination over one field in one direction.
#[derive(Debug, Clone, Copy)]
pub struct PaginationPlan<'a> {
    pub field: &'a str,
    pub order: Order,
}

/// The message of a cursor whose header does not fit the requested page.
pub open spec fn cursor_header_error(
    plan_field: Seq<char>,
    plan_order: Order,
    version: u8,
    field: Seq<char>,
    order: CursorOrder,
) -> Option<Seq<char>> {
    if version != PAGE_CURSOR_VERSION {
        Some("unsupported page cursor version `"@ + decimal(version as nat) + "`"@)
    } else if field != plan_field {
        Some("page cursor targets `"@ + field + "` but `"@ + plan_field + "` was requested"@)
    } else if order != cursor_order_of(plan_order) {
        Some("page cursor order does not match the requested pagination direction"@)
    } else {
        None
    }
}

impl<'a> PaginationPlan<'a> {
    /// A plan over `field` in direction `order`.
    pub fn new(field: &'a str, order: Order) -> (out: Self)
        ensures
            out.field == field,
            out.order == order,
    {
        PaginationPlan { field, order }
    }

    /// The key the query orders by: `id` orders by the public id projection.
    pub fn query_order_key(self) -> (out: &'a str)
        ensures
            out@ == (if self.field@ == "id"@ {
                "__page_public_id"@
            } else {
                self.field@
            }),
    {
        if str_eq(self.field, "id") {
            "__page_public_id"
        } else {
            self.field
        }
    }

    /// The word used for the direction in messages.
    pub fn order_label(self) -> (out: &'static str)
        ensures
            out@ == (match self.order {
                Order::Asc => "ascending"@,
                Order::Desc => "descending"@,
            }),
    {
        match self.order {
            Order::Asc => "ascending",
            Order::Desc => "descending",
        }
    }

    /// Checks the header of a decoded cursor against this plan: the cursor
    /// version, the field and the direction must all match.
    pub fn check_cursor_header(self, version: u8, field: &str, order: CursorOrder) -> (res: Result<
        (),
        DBError,
    >)
        ensures
            match cursor_header_error(self.field@, self.order, version, field@, order) {
                Some(m) => (res matches Err(DBError::Decode(s)) && s@ == m),
                None => res is Ok,
            },
    {
        if version != PAGE_CURSOR_VERSION {
            let mut m = owned("unsupported page cursor version `");
            let v = u64_to_decimal(version as u64);
            push_str(&mut m, v.as_str());
            push_str(&mut m, "`");
            return Err(DBError::Decode(m));
        }
        if !str_eq(field, self.field) {
            let mut m = owned("page cursor targets `");
            push_str(&mut m, field);
            push_str(&mut m, "` but `");
            push_str(&mut m, self.field);
            push_str(&mut m, "` was requested");
            return Err(DBError::Decode(m));
        }
        if order != CursorOrder::from_order(self.order) {
            return Err(
                DBError::Decode(
                    owned("page cursor order does not match the requested pagination direction"),
                ),
            );
        }
        Ok(())
    }
}

/// Converts an unsigned cursor number to the signed integer SurrealDB binds.
pub fn cursor_int_from_u64(value: u64) -> (res: Result<i64, DBError>)
    ensures
        value <= i64::MAX ==> res == Ok::<i64, DBError>(value as i64),
        value > i64::MAX ==> (res matches Err(DBError::Decode(m))
            && m@ == "page cursor numeric value exceeds i64 range"@),
{
    if value <= 9223372036854775807u64 {
        Ok(value as i64)
    } else {
        Err(DBError::Decode(owned("page cursor numeric value exceeds i64 range")))
    }
}

/// The message for a stored row without the pagination field.
pub open spec fn missing_field_text(field: Seq<char>) -> Seq<char> {
    "stored row is missing pagination field `"@ + field + "`"@
}

/// The message for a cursor value that cannot be bound.
pub open spec fn cursor_value_error_text(label: Seq<char>, field: Seq<char>, cause: Seq<char>) -> Seq<
    char,
> {
    "failed to decode "@ + label + " page cursor value for `"@ + field + "`: "@ + cause
}

impl<'a> PaginationPlan<'a> {
    /// The value of the pagination field in a stored row, which a cursor
    /// records; a row without it is a decode error naming the field.
    pub fn cursor_value_from_row(self, row: &serde_json::Value) -> (res: Result<
        serde_json::Value,
        DBError,
    >)
        ensures
            exists|member: Option<serde_json::Value>|
                json_member_result(*row, self.field@, member) && match member {
                    Some(v) => res == Ok::<serde_json::Value, DBError>(v),
                    None => (res matches Err(DBError::Decode(m)) && m@ == missing_field_text(
                        self.field@,
                    )),
                },
    {
        match json_member(row, self.field) {
            Some(value) => Ok(value),
            None => {
                let mut m = owned("stored row is missing pagination field `");
                push_str(&mut m, self.field);
                push_str(&mut m, "`");
                Err(DBError::Decode(m))
            },
        }
    }

    /// The `id` of a stored row, which a cursor records; a row without one is
    /// a decode error.
    pub fn id_value_from_row(self, row: &serde_json::Value) -> (res: Result<
        serde_json::Value,
        DBError,
    >)
        ensures
            exists|member: Option<serde_json::Value>|
                json_member_result(*row, "id"@, member) && match member {
                    Some(v) => res == Ok::<serde_json::Value, DBError>(v),
                    None => (res matches Err(DBError::Decode(m)) && m@
                        == "stored row is missing `id`"@),
                },
    {
        match json_member(row, "id") {
            Some(value) => Ok(value),
            None => Err(DBError::Decode(owned("stored row is missing `id`"))),
        }
    }

    /// The error for a cursor value that cannot be bound: a decode error that
    /// names the direction and the field and carries the cause's message.
    pub fn cursor_value_error(self, cause: &DBError) -> (e: DBError)
        ensures
            e matches DBError::Decode(m) && m@ == cursor_value_error_text(
                match self.order {
                    Order::Asc => "ascending"@,
                    Order::Desc => "descending"@,
                },
                self.field@,
                display_text(*cause),
            ),
    {
        let mut m = owned("failed to decode ");
        push_str(&mut m, self.order_label());
        push_str(&mut m, " page cursor value for `");
        push_str(&mut m, self.field);
        push_str(&mut m, "`: ");
        let c = cause.to_string();
        push_str(&mut m, c.as_str());
        DBError::Decode(m)
    }
}

/// A cursor written for a plan (current version, the plan's field, the
/// plan's direction) passes that plan's header check.
pub proof fn lemma_own_cursor_header_accepted(field: Seq<char>, order: Order)
    ensures
        cursor_header_error(field, order, PAGE_CURSOR_VERSION, field, cursor_order_of(order)) is None,
{
}

/// A cursor is accepted by a plan exactly when it has the current version,
/// names the plan's field, and was written for the plan's direction: an
/// ascending cursor for an ascending page, a descending one for a descending
/// page.
pub proof fn lemma_cursor_header_accepted_iff_matching(
    plan_field: Seq<char>,
    plan_order: Order,
    version: u8,
    field: Seq<char>,
    order: CursorOrder,
)
    ensures
        cursor_header_error(plan_field, plan_order, version, field, order) is None <==> (version
            == PAGE_CURSOR_VERSION && field == plan_field && ((order == CursorOrder::Asc) == (
        plan_order == Order::Asc))),
{
}

/// The message for a model without a declared pagination field.
pub open spec fn no_pagination_field_text(model: Seq<char>) -> Seq<char> {
    "model `"@ + model + "` does not declare a #[pagin] field"@
}

/// The pagination field a keyset page is ordered by: the model must declare one.
pub fn required_pagination_field<'a>(model: &str, field: Option<&'a str>) -> (res: Result<
    &'a str,
    DBError,
>)
    ensures
        field matches Some(f) ==> res == Ok::<&'a str, DBError>(f),
        field is None ==> (res matches Err(DBError::InvalidModel(m)) && m@
            == no_pagination_field_text(model@)),
{
    match field {
        Some(f) => Ok(f),
        None => {
            let mut m = owned("model `");
            push_str(&mut m, model);
            push_str(&mut m, "` does not declare a #[pagin] field");
            Err(DBError::InvalidModel(m))
        },
    }
}

/// The rows a page asks for: `count` rows shown plus one row of lookahead,
/// which tells whether another page follows. The count must be positive and
/// fit in a `usize`, and the lookahead must fit in an `i64`.
pub fn page_window(count: i64) -> (res: Result<(usize, i64), DBError>)
    ensures
        (count < 0 || count > usize::MAX) ==> (res matches Err(DBError::InvalidModel(m)) && m@
            == "pagination count must be positive, got `"@ + signed_decimal(count as int) + "`"@),
        count == 0 ==> (res matches Err(DBError::InvalidModel(m)) && m@
            == "pagination count must be positive"@),
        0 < count <= usize::MAX && count == i64::MAX ==> (res matches Err(DBError::InvalidModel(m))
            && m@ == "pagination count `"@ + signed_decimal(count as int)
            + "` overflowed the lookahead window"@),
        0 < count <= usize::MAX && count < i64::MAX ==> res == Ok::<(usize, i64), DBError>(
            (count as usize, (count + 1) as i64),
        ),
{
    if count < 0 || count as u64 > usize::MAX as u64 {
        let mut m = owned("pagination count must be positive, got `");
        let d = i64_to_decimal(count);
        push_str(&mut m, d.as_str());
        push_str(&mut m, "`");
        return Err(DBError::InvalidModel(m));
    }
    let requested = count as usize;
    if requested == 0 {
        return Err(DBError::InvalidModel(owned("pagination count must be positive")));
    }
    if count == i64::MAX {
        let mut m = owned("pagination count `");
        let d = i64_to_decimal(count);
        push_str(&mut m, d.as_str());
        push_str(&mut m, "` overflowed the lookahead window");
        return Err(DBError::InvalidModel(m));
    }
    Ok((requested, count + 1))
}

/// The rows a page shows of the rows fetched: the first `requested` ones.
pub open spec fn page_rows<T>(rows: Seq<T>, requested: nat) -> Seq<T> {
    if rows.len() > requested {
        rows.take(requested as int)
    } else {
        rows
    }
}

/// Splits the rows fetched for a page into the rows shown and whether more
/// follow: with more rows than requested, the page keeps the first
/// `requested` and a next page exists.
pub fn split_page<T>(rows: Vec<T>, requested: usize) -> (out: (Vec<T>, bool))
    ensures
        out.0@ == page_rows(rows@, requested as nat),
        out.1 == (rows@.len() > requested),
{
    let mut rows = rows;
    if rows.len() > requested {
        rows.truncate(requested);
        (rows, true)
    } else {
        (rows, false)
    }
}

/// A page shows as many rows as were requested, or all of them when fewer
/// came back, and it keeps them in the order they came.
pub proof fn lemma_page_rows_bounded<T>(rows: Seq<T>, requested: nat)
    ensures
        page_rows(rows, requested).len() == (if rows.len() > requested {
            requested
        } else {
            rows.len()
        }),
        forall|i: int|
            0 <= i < page_rows(rows, requested).len() ==> #[trigger] page_rows(rows, requested)[i]
                == rows[i],
{
}

} // verus!
