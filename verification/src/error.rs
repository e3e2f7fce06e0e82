//! Library-level database errors and the classification of engine messages.

use vstd::prelude::*;

use crate::text::{contains_str, lower_seq, owned, push_str, seq_contains, str_to_chars, to_ascii_lower};

verus! {

/// Library-level database error variants.
#[derive(Debug)]
pub enum DBError {
    Transport(String),
    Surreal(String),
    QueryResponse(String),
    NotInitialized,
    AlreadyInitialized,
    NotFound,
    MissingTable(String),
    Conflict(String),
    Decode(String),
    EmptyResult(&'static str),
    InvalidIdentifier(String),
    InvalidModel(String),
}

/// Coarse classes of database errors.
#[derive(Debug, Clone, Copy, PartialEq, Eq, Structural)]
pub enum DBErrorKind {
    MissingTable,
    NotFound,
    Conflict,
    Decode,
    Transport,
    Engine,
    Other,
}

/// An engine message together with its class.
#[derive(Debug, Clone)]
pub struct ClassifiedDBError {
    pub kind: DBErrorKind,
    pub message: String,
}

/// The class of each error variant.
pub open spec fn kind_of(err: DBError) -> DBErrorKind {
    match err {
        DBError::NotFound => DBErrorKind::NotFound,
        DBError::MissingTable(_) => DBErrorKind::MissingTable,
        DBError::Conflict(_) => DBErrorKind::Conflict,
        DBError::Decode(_) => DBErrorKind::Decode,
        DBError::Transport(_) => DBErrorKind::Transport,
        DBError::Surreal(_) | DBError::QueryResponse(_) => DBErrorKind::Engine,
        DBError::NotInitialized | DBError::AlreadyInitialized | DBError::EmptyResult(_)
        | DBError::InvalidIdentifier(_) | DBError::InvalidModel(_) => DBErrorKind::Other,
    }
}

/// The text that each error variant displays.
pub open spec fn display_text(err: DBError) -> Seq<char> {
    match err {
        DBError::Transport(m) => "Database engine error: "@ + m@,
        DBError::Surreal(m) => "SurrealDB error: "@ + m@,
        DBError::QueryResponse(m) => "Query response error: "@ + m@,
        DBError::NotInitialized => "Database not initialized"@,
        DBError::AlreadyInitialized => "Database has already been initialized"@,
        DBError::NotFound => "Record not found"@,
        DBError::MissingTable(m) => "Missing table: "@ + m@,
        DBError::Conflict(m) => "Conflict: "@ + m@,
        DBError::Decode(m) => "Decode error: "@ + m@,
        DBError::EmptyResult(op) => "Empty result from database operation: "@ + op@,
        DBError::InvalidIdentifier(m) => "Invalid identifier: "@ + m@,
        DBError::InvalidModel(m) => "Invalid model shape: "@ + m@,
    }
}

fn prefixed(prefix: &str, message: &str) -> (out: String)
    ensures
        out@ == prefix@ + message@,
{
    let mut out = owned(prefix);
    push_str(&mut out, message);
    out
}

impl DBError {
    /// The class of this error.
    pub fn kind(&self) -> (out: DBErrorKind)
        ensures
            out == kind_of(*self),
    {
        match self {
            DBError::NotFound => DBErrorKind::NotFound,
            DBError::MissingTable(_) => DBErrorKind::MissingTable,
            DBError::Conflict(_) => DBErrorKind::Conflict,
            DBError::Decode(_) => DBErrorKind::Decode,
            DBError::Transport(_) => DBErrorKind::Transport,
            DBError::Surreal(_) | DBError::QueryResponse(_) => DBErrorKind::Engine,
            DBError::NotInitialized | DBError::AlreadyInitialized | DBError::EmptyResult(_)
            | DBError::InvalidIdentifier(_) | DBError::InvalidModel(_) => DBErrorKind::Other,
        }
    }

    /// The human-readable message of this error.
    pub fn to_string(&self) -> (out: String)
        ensures
            out@ == display_text(*self),
    {
        match self {
            DBError::Transport(m) => prefixed("Database engine error: ", m.as_str()),
            DBError::Surreal(m) => prefixed("SurrealDB error: ", m.as_str()),
            DBError::QueryResponse(m) => prefixed("Query response error: ", m.as_str()),
            DBError::NotInitialized => owned("Database not initialized"),
            DBError::AlreadyInitialized => owned("Database has already been initialized"),
            DBError::NotFound => owned("Record not found"),
            DBError::MissingTable(m) => prefixed("Missing table: ", m.as_str()),
            DBError::Conflict(m) => prefixed("Conflict: ", m.as_str()),
            DBError::Decode(m) => prefixed("Decode error: ", m.as_str()),
            DBError::EmptyResult(op) => prefixed("Empty result from database operation: ", op),
            DBError::InvalidIdentifier(m) => prefixed("Invalid identifier: ", m.as_str()),
            DBError::InvalidModel(m) => prefixed("Invalid model shape: ", m.as_str()),
        }
    }
}

/// A copy of an error with the same variant and message.
pub fn clone_db_error(err: &DBError) -> (out: DBError)
    ensures
        out == *err,
{
    match err {
        DBError::Transport(message) => DBError::Transport(message.clone()),
        DBError::Surreal(message) => DBError::Surreal(message.clone()),
        DBError::QueryResponse(message) => DBError::QueryResponse(message.clone()),
        DBError::NotInitialized => DBError::NotInitialized,
        DBError::AlreadyInitialized => DBError::AlreadyInitialized,
        DBError::NotFound => DBError::NotFound,
        DBError::MissingTable(message) => DBError::MissingTable(message.clone()),
        DBError::Conflict(message) => DBError::Conflict(message.clone()),
        DBError::Decode(message) => DBError::Decode(message.clone()),
        DBError::EmptyResult(op) => DBError::EmptyResult(op),
        DBError::InvalidIdentifier(message) => DBError::InvalidIdentifier(message.clone()),
        DBError::InvalidModel(message) => DBError::InvalidModel(message.clone()),
    }
}

/// The error variant that each class of engine message becomes.
pub open spec fn classified_error(kind: DBErrorKind, message: String) -> DBError {
    match kind {
        DBErrorKind::NotFound => DBError::NotFound,
        DBErrorKind::MissingTable => DBError::MissingTable(message),
        DBErrorKind::Conflict => DBError::Conflict(message),
        DBErrorKind::Decode => DBError::Decode(message),
        DBErrorKind::Transport => DBError::Transport(message),
        DBErrorKind::Engine => DBError::Surreal(message),
        DBErrorKind::Other => DBError::Surreal(message),
    }
}

impl ClassifiedDBError {
    /// The error variant of this class, carrying the message where it has one.
    pub fn into_db_error(self) -> (out: DBError)
        ensures
            out == classified_error(self.kind, self.message),
    {
        match self.kind {
            DBErrorKind::NotFound => DBError::NotFound,
            DBErrorKind::MissingTable => DBError::MissingTable(self.message),
            DBErrorKind::Conflict => DBError::Conflict(self.message),
            DBErrorKind::Decode => DBError::Decode(self.message),
            DBErrorKind::Transport => DBError::Transport(self.message),
            DBErrorKind::Engine => DBError::Surreal(self.message),
            DBErrorKind::Other => DBError::Surreal(self.message),
        }
    }
}

/// The class of an engine message, decided on its ASCII-lowercased text by
/// the first rule that matches: not found, missing table, conflict, decode,
/// transport, and otherwise engine.
pub open spec fn message_kind(message: Seq<char>) -> DBErrorKind {
    let lower = lower_seq(message);
    if seq_contains(lower, "record not found"@) {
        DBErrorKind::NotFound
    } else if seq_contains(lower, "does not exist"@) && seq_contains(lower, "table"@) {
        DBErrorKind::MissingTable
    } else if seq_contains(lower, "already exists"@) || seq_contains(lower, "duplicate key"@)
        || seq_contains(lower, "constraint violation"@) || seq_contains(lower, "conflict"@) {
        DBErrorKind::Conflict
    } else if seq_contains(lower, "failed to deserialize"@) || seq_contains(lower, "invalid type"@)
        || seq_contains(lower, "missing field"@) || seq_contains(lower, "unknown variant"@)
        || seq_contains(lower, "expected "@) || seq_contains(lower, "decode"@) {
        DBErrorKind::Decode
    } else if seq_contains(lower, "transport"@) || seq_contains(lower, "connection"@)
        || seq_contains(lower, "socket"@) || seq_contains(lower, "timed out"@) {
        DBErrorKind::Transport
    } else {
        DBErrorKind::Engine
    }
}

/// The lowercased text says a record was not found.
pub open spec fn has_not_found_phrase(lower: Seq<char>) -> bool {
    seq_contains(lower, "record not found"@)
}

/// The lowercased text says a table does not exist.
pub open spec fn has_missing_table_phrase(lower: Seq<char>) -> bool {
    seq_contains(lower, "does not exist"@) && seq_contains(lower, "table"@)
}

/// The lowercased text reports a conflict with existing data.
pub open spec fn has_conflict_phrase(lower: Seq<char>) -> bool {
    seq_contains(lower, "already exists"@) || seq_contains(lower, "duplicate key"@)
        || seq_contains(lower, "constraint violation"@) || seq_contains(lower, "conflict"@)
}

/// The lowercased text reports data that could not be decoded.
pub open spec fn has_decode_phrase(lower: Seq<char>) -> bool {
    seq_contains(lower, "failed to deserialize"@) || seq_contains(lower, "invalid type"@)
        || seq_contains(lower, "missing field"@) || seq_contains(lower, "unknown variant"@)
        || seq_contains(lower, "expected "@) || seq_contains(lower, "decode"@)
}

/// The lowercased text reports a failure to reach the database.
pub open spec fn has_transport_phrase(lower: Seq<char>) -> bool {
    seq_contains(lower, "transport"@) || seq_contains(lower, "connection"@)
        || seq_contains(lower, "socket"@) || seq_contains(lower, "timed out"@)
}

/// A message is put in a class only when it has a phrase of that class, and
/// a phrase of a class puts it in that class or in one that takes precedence
/// (not found, then missing table, conflict, decode, transport); a message
/// with none of the phrases is an engine error, and no message is left
/// unclassified. In particular a message that reports a failure to reach the
/// database and nothing that takes precedence is a transport error.
pub proof fn lemma_message_kind_follows_phrases(message: Seq<char>)
    ensures
        has_not_found_phrase(lower_seq(message)) ==> message_kind(message) == DBErrorKind::NotFound,
        message_kind(message) == DBErrorKind::NotFound ==> has_not_found_phrase(lower_seq(message)),
        message_kind(message) == DBErrorKind::MissingTable ==> has_missing_table_phrase(
            lower_seq(message),
        ),
        has_missing_table_phrase(lower_seq(message)) ==> message_kind(message)
            == DBErrorKind::NotFound || message_kind(message) == DBErrorKind::MissingTable,
        message_kind(message) == DBErrorKind::Conflict ==> has_conflict_phrase(lower_seq(message)),
        has_conflict_phrase(lower_seq(message)) ==> message_kind(message) == DBErrorKind::NotFound
            || message_kind(message) == DBErrorKind::MissingTable || message_kind(message)
            == DBErrorKind::Conflict,
        message_kind(message) == DBErrorKind::Decode ==> has_decode_phrase(lower_seq(message)),
        has_decode_phrase(lower_seq(message)) ==> message_kind(message) != DBErrorKind::Transport
            && message_kind(message) != DBErrorKind::Engine,
        message_kind(message) == DBErrorKind::Transport ==> has_transport_phrase(lower_seq(message)),
        has_transport_phrase(lower_seq(message)) && !has_not_found_phrase(lower_seq(message))
            && !has_missing_table_phrase(lower_seq(message)) && !has_conflict_phrase(
            lower_seq(message),
        ) && !has_decode_phrase(lower_seq(message)) ==> message_kind(message)
            == DBErrorKind::Transport,
        message_kind(message) == DBErrorKind::Engine <==> !has_not_found_phrase(lower_seq(message))
            && !has_missing_table_phrase(lower_seq(message)) && !has_conflict_phrase(
            lower_seq(message),
        ) && !has_decode_phrase(lower_seq(message)) && !has_transport_phrase(lower_seq(message)),
        message_kind(message) != DBErrorKind::Other,
{
}

/// Classifies an engine message by the phrases it contains.
pub fn classify_db_error_text(message: String) -> (out: ClassifiedDBError)
    ensures
        out.kind == message_kind(message@),
        out.message == message,
{
    let chars = str_to_chars(message.as_str());
    let lower_vec = to_ascii_lower(chars.as_slice());
    let lower = lower_vec.as_slice();
    let kind = if contains_str(lower, "record not found") {
        DBErrorKind::NotFound
    } else if contains_str(lower, "does not exist") && contains_str(lower, "table") {
        DBErrorKind::MissingTable
    } else if contains_str(lower, "already exists") || contains_str(lower, "duplicate key")
        || contains_str(lower, "constraint violation") || contains_str(lower, "conflict") {
        DBErrorKind::Conflict
    } else if contains_str(lower, "failed to deserialize") || contains_str(lower, "invalid type")
        || contains_str(lower, "missing field") || contains_str(lower, "unknown variant")
        || contains_str(lower, "expected ") || contains_str(lower, "decode") {
        DBErrorKind::Decode
    } else if contains_str(lower, "transport") || contains_str(lower, "connection")
        || contains_str(lower, "socket") || contains_str(lower, "timed out") {
        DBErrorKind::Transport
    } else {
        DBErrorKind::Engine
    };
    ClassifiedDBError { kind, message }
}

/// Turns an engine message into the error variant of its class.
pub fn classify_db_error_message(message: String) -> (out: DBError)
    ensures
        out == classified_error(message_kind(message@), message),
{
    classify_db_error_text(message).into_db_error()
}

/// The library error behind a failure: the error itself when the failure is
/// one of this library's errors, otherwise the classification of its message.
pub fn classify_db_error(known: Option<&DBError>, message: String) -> (out: DBError)
    ensures
        known matches Some(e) ==> out == *e,
        known is None ==> out == classified_error(message_kind(message@), message),
{
    match known {
        Some(e) => clone_db_error(e),
        None => classify_db_error_message(message),
    }
}

/// The error that classification gives is of the message's class, except that
/// the `Other` class is never produced: unknown messages are engine errors.
pub proof fn classification_matches_kind(message: String)
    ensures
        kind_of(classified_error(message_kind(message@), message)) == message_kind(message@),
        message_kind(message@) != DBErrorKind::Other,
{
}

} // verus!
