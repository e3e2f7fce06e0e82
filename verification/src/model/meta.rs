//! Table metadata: default snake_case table names and the table registry.

use vstd::prelude::*;

use crate::text::{
    ascii_lower, char_is_ascii_digit, char_to_ascii_lower, chars_to_string, is_ascii_digit, occurs_at,
    seq_contains, skip_chars, str_eq, str_to_chars,
};

verus! {

/// Metadata describing the default keyset-pagination field for a Store model.
pub trait PaginationMeta {
    /// Field name used for default cursor pagination; none unless declared.
    fn pagination_field() -> (out: Option<&'static str>)
        default_ensures
            out is None,
    {
        None
    }
}

/// Placeholder source for Views backed by custom SQL instead of one Store table.
#[derive(Debug, Clone)]
pub struct NoViewSource;

impl NoViewSource {
    /// The reserved table name of the placeholder source.
    pub fn table_name() -> (out: &'static str)
        ensures
            out@ == "__appdb_no_view_source"@,
    {
        "__appdb_no_view_source"
    }
}

impl PaginationMeta for NoViewSource {}

/// Query source owned by a View.
#[derive(Debug, Clone, Copy, PartialEq, Eq, Structural)]
pub enum ViewSource {
    /// Read from the View's declared Store source table.
    Table,
    /// Read from a typed custom SurrealQL statement.
    Sql,
}

/// Narrow marker seam proving a type participates in `#[derive(Store)]`.
pub trait StoreModelMarker {}

/// One step of the snake_case conversion: the characters emitted for `c` and
/// whether `c` was a lowercase letter or digit.
pub open spec fn snake_step(c: char, prev_lower_or_digit: bool) -> (Seq<char>, bool) {
    if 'A' <= c && c <= 'Z' {
        (
            if prev_lower_or_digit {
                seq!['_', ascii_lower(c)]
            } else {
                seq![ascii_lower(c)]
            },
            false,
        )
    } else {
        (seq![c], ('a' <= c && c <= 'z') || is_ascii_digit(c))
    }
}

/// The snake_case conversion of a prefix, with the state after it.
pub open spec fn snake_prefix(s: Seq<char>) -> (Seq<char>, bool)
    decreases s.len(),
{
    if s.len() == 0 {
        (Seq::empty(), false)
    } else {
        let (out, prev) = snake_prefix(s.drop_last());
        let (step, next) = snake_step(s.last(), prev);
        (out + step, next)
    }
}

/// snake_case form of a type name: an uppercase ASCII letter becomes its
/// lowercase, preceded by `_` when it follows a lowercase letter or digit.
pub open spec fn snake_case(s: Seq<char>) -> Seq<char> {
    snake_prefix(s).0
}

/// Converts a Rust type name into snake_case.
pub fn to_snake_case(input: &str) -> (out: String)
    ensures
        out@ == snake_case(input@),
{
    let chars = str_to_chars(input);
    let n = chars.len();
    let mut out: Vec<char> = Vec::new();
    let mut prev = false;
    let mut i: usize = 0;
    while i < n
        invariant
            n == chars@.len(),
            i <= n,
            (out@, prev) == snake_prefix(chars@.take(i as int)),
        decreases n - i,
    {
        let ch = chars[i];
        assert(chars@.take(i + 1).drop_last() =~= chars@.take(i as int));
        if 'A' <= ch && ch <= 'Z' {
            if prev {
                out.push('_');
            }
            out.push(char_to_ascii_lower(ch));
            prev = false;
        } else {
            out.push(ch);
            prev = ('a' <= ch && ch <= 'z') || char_is_ascii_digit(ch);
        }
        i = i + 1;
        assert(out@ =~= snake_prefix(chars@.take(i as int)).0);
    }
    assert(chars@.take(n as int) =~= chars@);
    chars_to_string(out.as_slice())
}

/// The last `::`-separated segment of a path.
pub open spec fn last_path_segment(s: Seq<char>) -> Seq<char> {
    if seq_contains(s, "::"@) {
        s.skip(
            (choose|i: int|
                occurs_at(s, "::"@, i) && forall|j: int| i < j ==> !occurs_at(s, "::"@, j)) + 2,
        )
    } else {
        s
    }
}

/// Finds the last position of `::` in a character sequence.
fn rfind_path_separator(chars: &[char]) -> (res: Option<usize>)
    ensures
        match res {
            Some(i) => occurs_at(chars@, "::"@, i as int) && forall|j: int|
                i < j ==> !occurs_at(chars@, "::"@, j),
            None => !seq_contains(chars@, "::"@),
        },
{
    let sep = str_to_chars("::");
    let n = chars.len();
    let mut found: Option<usize> = None;
    let mut i: usize = 0;
    while i < n && i + 1 < n
        invariant
            sep@ == "::"@,
            n == chars@.len(),
            i <= n,
            found matches Some(k) ==> k < i && occurs_at(chars@, "::"@, k as int) && forall|
                j: int,
            | k < j < i ==> !occurs_at(chars@, "::"@, j),
            found is None ==> forall|j: int| 0 <= j < i ==> !occurs_at(chars@, "::"@, j),
        decreases n - i,
    {
        proof {
            reveal_strlit("::");
        }
        if chars[i] == ':' && chars[i + 1] == ':' {
            assert(chars@.subrange(i as int, i + 2) =~= "::"@);
            found = Some(i);
        } else {
            assert(chars@.subrange(i as int, i + 2)[0] == chars@[i as int]);
            assert(chars@.subrange(i as int, i + 2)[1] == chars@[i + 1]);
        }
        i = i + 1;
    }
    proof {
        reveal_strlit("::");
        assert forall|j: int| j >= i implies !occurs_at(chars@, "::"@, j) by {}
    }
    found
}

/// Returns the last `::`-separated segment of a path.
pub fn last_segment(path: &str) -> (out: String)
    ensures
        out@ == last_path_segment(path@),
{
    let chars = str_to_chars(path);
    match rfind_path_separator(chars.as_slice()) {
        Some(i) => {
            proof {
                reveal_strlit("::");
            }
            let ghost c = choose|k: int|
                occurs_at(chars@, "::"@, k) && forall|j: int| k < j ==> !occurs_at(chars@, "::"@, j);
            assert(c == i) by {
                if c < i {
                } else if i < c {
                }
            }
            let total = chars.len();
            assert(i + 2 <= total);
            let rest = skip_chars(chars.as_slice(), i + 2);
            chars_to_string(rest.as_slice())
        },
        None => chars_to_string(chars.as_slice()),
    }
}

/// Converts a Rust type name into the default snake_case table name: the
/// last path segment, in snake_case.
pub fn default_table_name(path: &str) -> (out: String)
    ensures
        out@ == snake_case(last_path_segment(path@)),
{
    let bare = last_segment(path);
    to_snake_case(bare.as_str())
}

/// The stable table name registered for each model type.
pub struct TableRegistry {
    entries: Vec<(&'static str, &'static str)>,
}

impl TableRegistry {
    /// Model names are registered at most once.
    pub closed spec fn wf(&self) -> bool {
        forall|i: int, j: int|
            0 <= i < j < self.entries@.len() ==> self.entries@[i].0@ != self.entries@[j].0@
    }
}

impl View for TableRegistry {
    type V = Map<Seq<char>, Seq<char>>;

    closed spec fn view(&self) -> Map<Seq<char>, Seq<char>> {
        Map::new(
            |m: Seq<char>| exists|i: int| 0 <= i < self.entries@.len() && self.entries@[i].0@ == m,
            |m: Seq<char>|
                self.entries@[choose|i: int|
                    0 <= i < self.entries@.len() && self.entries@[i].0@ == m].1@,
        )
    }
}

impl TableRegistry {
    /// An empty registry.
    pub fn new() -> (out: Self)
        ensures
            out.wf(),
            out@ == Map::<Seq<char>, Seq<char>>::empty(),
    {
        let out = TableRegistry { entries: Vec::new() };
        assert(out@ =~= Map::<Seq<char>, Seq<char>>::empty());
        out
    }

    /// Position of a model's entry.
    fn position(&self, model: &str) -> (res: Option<usize>)
        ensures
            match res {
                Some(i) => i < self.entries@.len() && self.entries@[i as int].0@ == model@,
                None => forall|i: int|
                    0 <= i < self.entries@.len() ==> self.entries@[i].0@ != model@,
            },
    {
        let n = self.entries.len();
        let mut i: usize = 0;
        while i < n
            invariant
                n == self.entries@.len(),
                i <= n,
                forall|j: int| 0 <= j < i ==> self.entries@[j].0@ != model@,
            decreases n - i,
        {
            if str_eq(self.entries[i].0, model) {
                return Some(i);
            }
            i = i + 1;
        }
        None
    }
}

/// Registers a stable table name for a model type. The first table
/// registered for a model wins: later calls return it and change nothing.
pub fn register_table(registry: &mut TableRegistry, model: &'static str, table: &'static str) -> (out:
    &'static str)
    requires
        old(registry).wf(),
    ensures
        final(registry).wf(),
        old(registry)@.contains_key(model@) ==> out@ == old(registry)@[model@] && final(registry)@
            == old(registry)@,
        !old(registry)@.contains_key(model@) ==> out == table && final(registry)@ == old(
            registry,
        )@.insert(model@, table@),
{
    match registry.position(model) {
        Some(i) => {
            let existing = registry.entries[i].1;
            proof {
                let c = choose|k: int|
                    0 <= k < registry.entries@.len() && registry.entries@[k].0@ == model@;
                if c != i {
                    if c < i {
                        assert(registry.entries@[c].0@ != registry.entries@[i as int].0@);
                    } else {
                        assert(registry.entries@[i as int].0@ != registry.entries@[c].0@);
                    }
                }
            }
            existing
        },
        None => {
            let ghost before = registry.entries@;
            registry.entries.push((model, table));
            proof {
                let after = registry.entries@;
                assert forall|m: Seq<char>|
                    #[trigger] registry@.contains_key(m) == old(registry)@.insert(
                        model@,
                        table@,
                    ).contains_key(m) by {
                    if old(registry)@.contains_key(m) {
                        let k = choose|k: int| 0 <= k < before.len() && before[k].0@ == m;
                        assert(after[k] == before[k]);
                    }
                    if m == model@ {
                        assert(after[before.len() as int].0@ == m);
                    }
                    if registry@.contains_key(m) {
                        let k = choose|k: int| 0 <= k < after.len() && after[k].0@ == m;
                        if k < before.len() {
                            assert(before[k] == after[k]);
                        }
                    }
                }
                assert forall|m: Seq<char>| #[trigger] registry@.contains_key(m) implies registry@[m]
                    == old(registry)@.insert(model@, table@)[m] by {
                    let k = choose|k: int| 0 <= k < after.len() && after[k].0@ == m;
                    if m == model@ {
                        assert(k == before.len());
                    } else {
                        assert(k < before.len());
                        let k0 = choose|k0: int| 0 <= k0 < before.len() && before[k0].0@ == m;
                        assert(after[k0] == before[k0]);
                        if k != k0 {
                            if k < k0 {
                                assert(before[k].0@ != before[k0].0@);
                            } else {
                                assert(before[k0].0@ != before[k].0@);
                            }
                        }
                    }
                }
                assert(registry@ =~= old(registry)@.insert(model@, table@));
            }
            table
        },
    }
}

} // verus!
