//! Relation table names and their registry.

use vstd::prelude::*;

use crate::error::DBError;
use crate::model::identifier::is_plain_identifier_str;
use crate::text::{is_plain_identifier, owned, push_str, str_eq};

verus! {

/// Metadata for a declared relation-table type.
pub trait RelationMeta {
    /// Returns the SurrealDB relation table name.
    fn relation_name() -> &'static str;
}

/// Returns the relation table name for a declared relation type.
pub fn relation_name<R: RelationMeta>() -> (out: &'static str)
    ensures
        call_ensures(R::relation_name, (), out),
{
    let name = R::relation_name;
    name()
}

/// The message of the error for an invalid relation name.
pub open spec fn relation_name_error_text(name: Seq<char>) -> Seq<char> {
    "relation name `"@ + name + "` must be a plain SurrealQL identifier"@
}

/// Whether a relation table name is a plain SurrealQL identifier.
pub fn is_relation_identifier(name: &str) -> (res: bool)
    ensures
        res == is_plain_identifier(name@),
{
    is_plain_identifier_str(name)
}

/// Validates a relation table name before use.
pub fn ensure_relation_name(name: &str) -> (res: Result<(), DBError>)
    ensures
        res is Ok <==> is_plain_identifier(name@),
        res matches Err(e) ==> e == DBError::InvalidIdentifier(e->InvalidIdentifier_0)
            && e->InvalidIdentifier_0@ == relation_name_error_text(name@),
{
    if is_relation_identifier(name) {
        return Ok(());
    }
    let mut m = owned("relation name `");
    push_str(&mut m, name);
    push_str(&mut m, "` must be a plain SurrealQL identifier");
    Err(DBError::InvalidIdentifier(m))
}

/// The set of relation table names registered so far.
pub struct RelationRegistry {
    names: Vec<&'static str>,
}

impl View for RelationRegistry {
    type V = Set<Seq<char>>;

    closed spec fn view(&self) -> Set<Seq<char>> {
        Set::new(|n: Seq<char>| exists|i: int| 0 <= i < self.names@.len() && self.names@[i]@ == n)
    }
}

impl RelationRegistry {
    /// An empty registry.
    pub fn new() -> (out: Self)
        ensures
            out@ == Set::<Seq<char>>::empty(),
    {
        let out = RelationRegistry { names: Vec::new() };
        assert(out@ =~= Set::<Seq<char>>::empty());
        out
    }

    /// Whether `name` has been registered.
    pub fn contains(&self, name: &str) -> (res: bool)
        ensures
            res == self@.contains(name@),
    {
        let n = self.names.len();
        let mut i: usize = 0;
        while i < n
            invariant
                n == self.names@.len(),
                i <= n,
                forall|j: int| 0 <= j < i ==> self.names@[j]@ != name@,
            decreases n - i,
        {
            if str_eq(self.names[i], name) {
                return true;
            }
            i = i + 1;
        }
        false
    }
}

/// Registers a relation table name and returns it.
pub fn register_relation(registry: &mut RelationRegistry, name: &'static str) -> (out: &'static str)
    requires
        is_plain_identifier(name@),
    ensures
        out == name,
        final(registry)@ == old(registry)@.insert(name@),
{
    let ghost before = registry.names@;
    let present = registry.contains(name);
    if !present {
        registry.names.push(name);
    }
    proof {
        assert forall|n: Seq<char>|
            #[trigger] registry@.contains(n) == old(registry)@.insert(name@).contains(n) by {
            if old(registry)@.contains(n) {
                let i = choose|i: int| 0 <= i < before.len() && before[i]@ == n;
                assert(registry.names@[i] == before[i]);
            }
            if n == name@ && !present {
                assert(registry.names@[before.len() as int] == name);
            }
            if registry@.contains(n) {
                let i = choose|i: int| 0 <= i < registry.names@.len() && registry.names@[i]@ == n;
                if i < before.len() {
                    assert(before[i] == registry.names@[i]);
                }
            }
        }
        assert(registry@ =~= old(registry)@.insert(name@));
    }
    name
}

/// Registering a relation name twice is the same as registering it once.
pub proof fn lemma_register_relation_idempotent(names: Set<Seq<char>>, name: Seq<char>)
    ensures
        names.insert(name).insert(name) == names.insert(name),
{
    assert(names.insert(name).insert(name) =~= names.insert(name));
}

} // verus!
