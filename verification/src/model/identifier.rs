//! Validation of plain SurrealQL identifiers used for field and table names.

use vstd::prelude::*;

use crate::error::DBError;
use crate::text::{
    char_is_ascii_alpha, char_is_ident_char, is_ident_char, is_ident_start, is_plain_identifier,
    owned, push_str, str_to_chars,
};

verus! {

/// Whether a character sequence is a plain identifier.
pub fn is_plain_identifier_chars(chars: &[char]) -> (res: bool)
    ensures
        res == is_plain_identifier(chars@),
{
    let n = chars.len();
    if n == 0 {
        return false;
    }
    if !(char_is_ascii_alpha(chars[0]) || chars[0] == '_') {
        return false;
    }
    let mut i: usize = 1;
    while i < n
        invariant
            n == chars@.len(),
            1 <= i <= n,
            forall|j: int| 1 <= j < i ==> is_ident_char(#[trigger] chars@[j]),
        decreases n - i,
    {
        if !char_is_ident_char(chars[i]) {
            return false;
        }
        i = i + 1;
    }
    true
}

/// Whether a name is a plain identifier: an ASCII letter or `_`, then ASCII
/// letters, digits or `_`.
pub fn is_plain_identifier_str(name: &str) -> (res: bool)
    ensures
        res == is_plain_identifier(name@),
{
    let chars = str_to_chars(name);
    is_plain_identifier_chars(chars.as_slice())
}

/// The message of the error for an invalid identifier.
pub open spec fn identifier_error_text(name: Seq<char>, kind: Seq<char>) -> Seq<char> {
    if name.len() == 0 {
        kind + " cannot be empty"@
    } else if !is_ident_start(name[0]) {
        kind + " `"@ + name + "` must start with an ASCII letter or `_`"@
    } else {
        kind + " `"@ + name + "` must contain only ASCII letters, digits, or `_`"@
    }
}

/// Checks that `name` is a plain identifier; `kind` names what it identifies
/// in the error message.
pub fn ensure_identifier(name: &str, kind: &str) -> (res: Result<(), DBError>)
    ensures
        is_plain_identifier(name@) <==> res is Ok,
        res matches Err(e) ==> e == DBError::InvalidIdentifier(
            e->InvalidIdentifier_0,
        ) && e->InvalidIdentifier_0@ == identifier_error_text(name@, kind@),
{
    let chars = str_to_chars(name);
    if chars.len() == 0 {
        let mut m = owned(kind);
        push_str(&mut m, " cannot be empty");
        return Err(DBError::InvalidIdentifier(m));
    }
    if !(char_is_ascii_alpha(chars[0]) || chars[0] == '_') {
        let mut m = owned(kind);
        push_str(&mut m, " `");
        push_str(&mut m, name);
        push_str(&mut m, "` must start with an ASCII letter or `_`");
        return Err(DBError::InvalidIdentifier(m));
    }
    if !is_plain_identifier_chars(chars.as_slice()) {
        let mut m = owned(kind);
        push_str(&mut m, " `");
        push_str(&mut m, name);
        push_str(&mut m, "` must contain only ASCII letters, digits, or `_`");
        return Err(DBError::InvalidIdentifier(m));
    }
    Ok(())
}

} // verus!
