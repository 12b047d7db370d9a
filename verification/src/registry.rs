//! Looking a column up by its alias.
//!
//! A table keeps its columns in the order in which they were registered, and
//! nothing stops two columns from sharing an alias. Lookup always answers
//! with the first column registered under the alias, so a later column can
//! never take an alias over.

use vstd::prelude::*;
use crate::sql_generator::KeyView;

verus! {

/// The first of `keys` registered under `alias`, if there is one.
pub open spec fn resolve(keys: Seq<KeyView>, alias: Seq<char>) -> Option<KeyView>
    decreases keys.len(),
{
    if keys.len() == 0 {
        None
    } else if keys.first().alias == alias {
        Some(keys.first())
    } else {
        resolve(keys.drop_first(), alias)
    }
}

/// Whether some key is registered under `alias`.
pub open spec fn registered(keys: Seq<KeyView>, alias: Seq<char>) -> bool {
    exists|i: int| 0 <= i < keys.len() && (#[trigger] keys[i]).alias == alias
}

/// Whether the key at place `i` is the first registered under `alias`.
pub open spec fn first_under(keys: Seq<KeyView>, alias: Seq<char>, i: int) -> bool {
    &&& 0 <= i < keys.len()
    &&& keys[i].alias == alias
    &&& forall|j: int| 0 <= j < i ==> (#[trigger] keys[j]).alias != alias
}

/// Whether no two keys share an alias.
pub open spec fn distinct_aliases(keys: Seq<KeyView>) -> bool {
    forall|i: int, j: int|
        0 <= i < j < keys.len() ==> (#[trigger] keys[i]).alias != (#[trigger] keys[j]).alias
}

/// Lookup by an alias gives the first key registered under it.
pub proof fn lemma_resolve_first(keys: Seq<KeyView>, alias: Seq<char>, i: int)
    requires
        first_under(keys, alias, i),
    ensures
        resolve(keys, alias) == Some(keys[i]),
    decreases keys.len(),
{
    if i > 0 {
        let rest = keys.drop_first();
        assert(first_under(rest, alias, i - 1));
        lemma_resolve_first(rest, alias, i - 1);
    }
}

/// Lookup by an alias finds a key exactly where one is registered under it,
/// and the key it finds is the first such.
pub proof fn lemma_resolve_registered(keys: Seq<KeyView>, alias: Seq<char>)
    ensures
        resolve(keys, alias) is Some <==> registered(keys, alias),
        resolve(keys, alias) is Some ==> exists|i: int|
            first_under(keys, alias, i) && resolve(keys, alias) == Some(#[trigger] keys[i]),
    decreases keys.len(),
{
    if keys.len() > 0 && keys.first().alias != alias {
        let rest = keys.drop_first();
        lemma_resolve_registered(rest, alias);
        if registered(keys, alias) {
            let i = choose|i: int| 0 <= i < keys.len() && (#[trigger] keys[i]).alias == alias;
            assert(rest[i - 1] == keys[i]);
        }
        if resolve(rest, alias) is Some {
            let i = choose|i: int|
                first_under(rest, alias, i) && resolve(rest, alias) == Some(#[trigger] rest[i]);
            assert(first_under(keys, alias, i + 1)) by {
                assert forall|j: int| 0 <= j < i + 1 implies (#[trigger] keys[j]).alias
                    != alias by {
                    if j > 0 {
                        assert(rest[j - 1] == keys[j]);
                    }
                }
            }
        }
    }
}

/// A key registered last answers for its alias only where no earlier key
/// does, and changes the answer for no other alias.
pub proof fn lemma_resolve_push(keys: Seq<KeyView>, key: KeyView, alias: Seq<char>)
    ensures
        resolve(keys.push(key), alias) == if resolve(keys, alias) is Some {
            resolve(keys, alias)
        } else if key.alias == alias {
            Some(key)
        } else {
            None
        },
    decreases keys.len(),
{
    if keys.len() == 0 {
        assert(keys.push(key).drop_first() =~= keys);
    } else {
        assert(keys.push(key).drop_first() =~= keys.drop_first().push(key));
        lemma_resolve_push(keys.drop_first(), key, alias);
    }
}

/// Where no two keys share an alias, lookup by the alias of a key gives that
/// key.
pub proof fn lemma_resolve_distinct(keys: Seq<KeyView>, i: int)
    requires
        distinct_aliases(keys),
        0 <= i < keys.len(),
    ensures
        first_under(keys, keys[i].alias, i),
        resolve(keys, keys[i].alias) == Some(keys[i]),
{
    lemma_resolve_first(keys, keys[i].alias, i);
}

} // verus!
