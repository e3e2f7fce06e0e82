//! Application-facing ids: string or integer record keys, and the plain text
//! of a record id's key.

use surrealdb_types::{RecordId, RecordIdKey, ToSql};
use vstd::prelude::*;

use crate::json::{json_shape, json_shape_result, JsonShape};
use crate::text::{
    i64_text_value, i64_to_decimal, owned, parse_i64_text, signed_decimal, str_to_chars,
    chars_to_string,
};

verus! {

/// Application-facing id type that accepts either string or integer ids.
#[derive(Debug, Clone, PartialEq, Eq, PartialOrd, Ord, Hash)]
pub enum Id {
    /// String record key.
    String(String),
    /// Integer record key.
    Number(i64),
}

/// The text an id displays: the string itself, or the number in decimal.
pub open spec fn id_text(id: Id) -> Seq<char> {
    match id {
        Id::String(s) => s@,
        Id::Number(n) => signed_decimal(n as int),
    }
}

impl Id {
    /// Returns the inner string when this id is string-backed.
    pub fn as_string(&self) -> (out: Option<&str>)
        ensures
            match self {
                Id::String(s) => out matches Some(t) && t@ == s@,
                Id::Number(_) => out is None,
            },
    {
        match self {
            Id::String(value) => Some(value.as_str()),
            Id::Number(_) => None,
        }
    }

    /// Returns the inner number when this id is number-backed.
    pub fn as_number(&self) -> (out: Option<i64>)
        ensures
            match self {
                Id::String(_) => out is None,
                Id::Number(n) => out == Some(*n),
            },
    {
        match self {
            Id::String(_) => None,
            Id::Number(value) => Some(*value),
        }
    }

    /// The text this id displays: the string itself, or the number in decimal.
    pub fn to_string(&self) -> (out: String)
        ensures
            out@ == id_text(*self),
    {
        match self {
            Id::String(value) => owned(value.as_str()),
            Id::Number(value) => i64_to_decimal(*value),
        }
    }
}

impl From<String> for Id {
    fn from(value: String) -> (out: Id) {
        Id::String(value)
    }
}

impl vstd::std_specs::convert::FromSpecImpl<String> for Id {
    open spec fn obeys_from_spec() -> bool {
        true
    }

    open spec fn from_spec(v: String) -> Id {
        Id::String(v)
    }
}

impl From<i64> for Id {
    fn from(value: i64) -> (out: Id) {
        Id::Number(value)
    }
}

impl vstd::std_specs::convert::FromSpecImpl<i64> for Id {
    open spec fn obeys_from_spec() -> bool {
        true
    }

    open spec fn from_spec(v: i64) -> Id {
        Id::Number(v)
    }
}

/// A string id built from a string slice.
pub fn id_from_str(value: &str) -> (out: Id)
    ensures
        out matches Id::String(s) && s@ == value@,
{
    Id::String(owned(value))
}

/// Whether one character sequence is another with every leading and trailing
/// backtick removed.
pub open spec fn is_backtick_trim(s: Seq<char>, out: Seq<char>) -> bool {
    exists|a: int, b: int|
        #![trigger s.subrange(a, b)]
        0 <= a <= b <= s.len() && out == s.subrange(a, b) && (forall|i: int|
            0 <= i < a ==> s[i] == '`') && (forall|i: int| b <= i < s.len() ==> s[i] == '`') && (
        a < b ==> s[a] != '`' && s[b - 1] != '`')
}

/// Removes every leading and trailing backtick.
pub fn trim_backticks(value: &str) -> (out: String)
    ensures
        is_backtick_trim(value@, out@),
{
    let chars = str_to_chars(value);
    let n = chars.len();
    let mut a: usize = 0;
    while a < n && chars[a] == '`'
        invariant
            n == chars@.len(),
            a <= n,
            forall|i: int| 0 <= i < a ==> chars@[i] == '`',
        decreases n - a,
    {
        a = a + 1;
    }
    let mut b: usize = n;
    while b > a && chars[b - 1] == '`'
        invariant
            n == chars@.len(),
            a <= b <= n,
            forall|i: int| b <= i < n ==> chars@[i] == '`',
        decreases b,
    {
        b = b - 1;
    }
    let mut kept: Vec<char> = Vec::new();
    let mut i: usize = a;
    while i < b
        invariant
            n == chars@.len(),
            a <= i <= b <= n,
            kept@ == chars@.subrange(a as int, i as int),
        decreases b - i,
    {
        kept.push(chars[i]);
        i = i + 1;
        assert(kept@ =~= chars@.subrange(a as int, i as int));
    }
    let out = chars_to_string(kept.as_slice());
    proof {
        assert(a < b ==> chars@[a as int] != '`');
        assert(value@.subrange(a as int, b as int) == out@);
    }
    out
}

/// The key of a record id as plain values: a string, an integer, or the
/// SurrealQL text of any other kind of key.
#[derive(Debug, Clone, PartialEq, Eq)]
pub enum RecordKey {
    String(String),
    Number(i64),
    Other(String),
}

/// The key of a record id.
///
/// Trusted wrapper over the `key` field of `surrealdb_types::RecordId`: one
/// arm per kind of `RecordIdKey`, strings and integers moved over as they are,
/// every other kind of key rendered by its `ToSql` implementation. Nothing is
/// claimed of the result; the text that a key gives is stated of
/// [`record_key_text`].
#[verifier::external_body]
fn record_key_of(record: &RecordId) -> RecordKey {
    match &record.key {
        RecordIdKey::String(value) => RecordKey::String(value.clone()),
        RecordIdKey::Number(value) => RecordKey::Number(*value),
        other => RecordKey::Other(other.to_sql()),
    }
}

/// `text` is the plain text of a record key: a string key without its
/// surrounding backticks, an integer key in decimal, any other key as its
/// SurrealQL text.
pub open spec fn is_record_key_text(key: RecordKey, text: Seq<char>) -> bool {
    match key {
        RecordKey::String(s) => is_backtick_trim(s@, text),
        RecordKey::Number(n) => text == signed_decimal(n as int),
        RecordKey::Other(t) => text == t@,
    }
}

/// The plain text of a record key: a string key without surrounding
/// backticks, an integer key in decimal, any other key as its SurrealQL text.
pub fn record_key_text(key: &RecordKey) -> (out: String)
    ensures
        is_record_key_text(*key, out@),
{
    match key {
        RecordKey::String(value) => trim_backticks(value.as_str()),
        RecordKey::Number(value) => i64_to_decimal(*value),
        RecordKey::Other(text) => owned(text.as_str()),
    }
}

/// `key` is what reading the key of `record` gives.
pub closed spec fn record_key_result(record: RecordId, key: RecordKey) -> bool {
    call_ensures(record_key_of, (&record,), key)
}

/// The plain text of a record id's key: the text of the key that reading the
/// record id gives.
pub fn record_id_to_plain_string(record: &RecordId) -> (out: String)
    ensures
        exists|key: RecordKey| record_key_result(*record, key) && is_record_key_text(key, out@),
{
    let read = record_key_of;
    let key = read(record);
    let ghost read_key = key;
    let out = record_key_text(&key);
    assert(record_key_result(*record, read_key));
    out
}

/// The key of a record id as plain values.
pub fn record_key(record: &RecordId) -> (out: RecordKey)
    ensures
        record_key_result(*record, out),
{
    let read = record_key_of;
    read(record)
}

/// What `RecordId::parse_simple` of surrealdb-types makes of a `table:key`
/// text: the table name and the string key, each with its backtick quoting
/// undone; nothing where the text is not of that form.
pub uninterp spec fn record_id_simple_parse(text: Seq<char>) -> Option<(Seq<char>, Seq<char>)>;

/// Splits a `table:key` text into its table name and string key.
///
/// Trusted wrapper around `surrealdb_types::RecordId::parse_simple`. It claims
/// that the outcome is the named parse of the text and, as `split_table_key`
/// in that crate's source shows, that a text without a colon does not parse.
/// The key that `parse_simple` builds is always a string key; the match moves
/// it and the table name out.
#[verifier::external_body]
fn parse_simple_parts(text: &str) -> (out: Option<(String, String)>)
    ensures
        match out {
            Some((table, key)) => record_id_simple_parse(text@) == Some((table@, key@)),
            None => record_id_simple_parse(text@) is None,
        },
        !text@.contains(':') ==> out is None,
{
    let record = RecordId::parse_simple(text).ok()?;
    match record.key {
        RecordIdKey::String(key) => Some((record.table.into_string(), key)),
        _ => None,
    }
}

/// The plain values of a parsed `table:key` text.
pub open spec fn parts_view(parts: Option<(String, String)>) -> Option<(Seq<char>, Seq<char>)> {
    match parts {
        Some((table, key)) => Some((table@, key@)),
        None => None,
    }
}

/// `res` is the record id that `text` stands for when its `table:key` parse
/// gave `parsed`: the parsed table and string key; failing that, the
/// fallback table with the whole text, backticks trimmed, as a string key;
/// failing that, the text itself as the error.
pub open spec fn is_record_id_or_plain_string(
    parsed: Option<(Seq<char>, Seq<char>)>,
    text: &str,
    fallback_table: Option<&str>,
    res: Result<(String, RecordKey), &str>,
) -> bool {
    match parsed {
        Some((table, key)) => res matches Ok((t, RecordKey::String(k))) && t@ == table && k@ == key,
        None => match fallback_table {
            Some(f) => res matches Ok((t, RecordKey::String(k))) && t@ == f@ && is_backtick_trim(
                text@,
                k@,
            ),
            None => res == Err::<(String, RecordKey), &str>(text),
        },
    }
}

/// The record id that `text` stands for, given the outcome `parsed` of its
/// `table:key` parse.
pub fn record_id_from_parsed<'a>(
    parsed: Option<(String, String)>,
    text: &'a str,
    fallback_table: Option<&str>,
) -> (res: Result<(String, RecordKey), &'a str>)
    ensures
        is_record_id_or_plain_string(parts_view(parsed), text, fallback_table, res),
{
    match parsed {
        Some((table, key)) => Ok((table, RecordKey::String(key))),
        None => match fallback_table {
            Some(table) => Ok((owned(table), RecordKey::String(trim_backticks(text)))),
            None => Err(text),
        },
    }
}

/// Parses a `table:key` record id text; a text that is no such id becomes a
/// string key of the fallback table, or the error when there is none.
pub fn parse_record_id_or_plain_string<'a>(text: &'a str, fallback_table: Option<&str>) -> (res:
    Result<(String, RecordKey), &'a str>)
    ensures
        is_record_id_or_plain_string(record_id_simple_parse(text@), text, fallback_table, res),
{
    let parsed = parse_simple_parts(text);
    record_id_from_parsed(parsed, text, fallback_table)
}

/// The record id a JSON value holds, if it deserializes as one.
///
/// Trusted wrapper around `serde_json::from_value::<RecordId>` on a copy of
/// the value. Nothing is claimed of the result: JSON values are opaque to
/// this library.
#[verifier::external_body]
fn record_id_from_json(value: &serde_json::Value) -> Option<RecordId> {
    serde_json::from_value::<RecordId>(value.clone()).ok()
}

/// `record` is what deserializing `value` as a record id gives.
pub closed spec fn json_record_id_result(value: serde_json::Value, record: Option<RecordId>) -> bool {
    call_ensures(record_id_from_json, (&value,), record)
}

/// The public form of a record key: a number for an integer key, text for
/// any other key.
#[derive(Debug, Clone, PartialEq, Eq)]
pub enum PublicId {
    /// An integer key.
    Number(i64),
    /// Any other key, as plain text.
    Text(String),
}

/// `out` is the public form of a record key: an integer key stays a number, a
/// string key becomes its text without surrounding backticks, any other key
/// its SurrealQL text.
pub open spec fn is_public_key(key: RecordKey, out: PublicId) -> bool {
    match key {
        RecordKey::Number(n) => out == PublicId::Number(n),
        RecordKey::String(s) => out matches PublicId::Text(t) && is_backtick_trim(s@, t@),
        RecordKey::Other(t) => out matches PublicId::Text(u) && u@ == t@,
    }
}

/// `out` is the public form of the key text of a `table:key` string: with
/// surrounding backticks removed, a text that spells an `i64` (an optional
/// `-` and decimal digits) is that number, any other text stays text.
pub open spec fn is_public_key_text(key: Seq<char>, out: PublicId) -> bool {
    match out {
        PublicId::Number(n) => exists|t: Seq<char>|
            #![trigger i64_text_value(t)]
            is_backtick_trim(key, t) && i64_text_value(t) == Some(n),
        PublicId::Text(t) => is_backtick_trim(key, t@) && i64_text_value(t@) is None,
    }
}

/// The public form of the key text of a `table:key` string.
pub fn public_key_of_text(key: &str) -> (out: PublicId)
    ensures
        is_public_key_text(key@, out),
{
    let text = trim_backticks(key);
    match parse_i64_text(text.as_str()) {
        Some(n) => {
            assert(is_backtick_trim(key@, text@) && i64_text_value(text@) == Some(n));
            PublicId::Number(n)
        },
        None => PublicId::Text(text),
    }
}

/// The public form of a record key.
pub fn public_key(key: &RecordKey) -> (out: PublicId)
    ensures
        is_public_key(*key, out),
{
    match key {
        RecordKey::Number(n) => PublicId::Number(*n),
        RecordKey::String(value) => PublicId::Text(trim_backticks(value.as_str())),
        RecordKey::Other(text) => PublicId::Text(owned(text.as_str())),
    }
}

/// `out` is the public form of the root `id` member `id`: a `table:key`
/// string becomes the public form of its key text, an object that
/// deserializes as a record id the public form of its key, and nothing else
/// changes.
pub open spec fn is_public_root_id(id: serde_json::Value, out: Option<PublicId>) -> bool {
    exists|shape: JsonShape|
        #![trigger json_shape_result(id, shape)]
        json_shape_result(id, shape) && match shape {
            JsonShape::Text(text) => match record_id_simple_parse(text@) {
                Some((_table, key)) => out matches Some(o) && is_public_key_text(key, o),
                None => out is None,
            },
            JsonShape::Object => exists|record: Option<RecordId>|
                #![trigger json_record_id_result(id, record)]
                json_record_id_result(id, record) && match record {
                    Some(r) => out matches Some(o) && exists|key: RecordKey|
                        #![trigger record_key_result(r, key)]
                        record_key_result(r, key) && is_public_key(key, o),
                    None => out is None,
                },
            _ => out is None,
        }
}

/// The public form of a root `id` member: the key of the record id it holds,
/// as a `table:key` string or as a record id object, a number for an integer
/// key and text otherwise; nothing where it holds neither, in which case the
/// member stays as it is.
pub fn public_root_id(id: &serde_json::Value) -> (out: Option<PublicId>)
    ensures
        is_public_root_id(*id, out),
{
    let shape = json_shape(id);
    let ghost read_shape = shape;
    let out = match shape {
        JsonShape::Text(text) => match parse_simple_parts(text.as_str()) {
            Some((_table, key)) => Some(public_key_of_text(key.as_str())),
            None => None,
        },
        JsonShape::Object => {
            let read = record_id_from_json;
            let record = read(id);
            let ghost read_record = record;
            let out = match record {
                Some(r) => {
                    let key = record_key(&r);
                    let ghost read_key = key;
                    let o = public_key(&key);
                    assert(record_key_result(r, read_key) && is_public_key(read_key, o));
                    Some(o)
                },
                None => None,
            };
            assert(json_record_id_result(*id, read_record));
            out
        },
        _ => None,
    };
    assert(json_shape_result(*id, read_shape));
    out
}

} // verus!
