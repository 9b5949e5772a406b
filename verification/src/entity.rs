//! Rewriting entity references from the sender's numbering to the local one.
//!
//! An entity is known by its 64 bits. The translation table of a connection
//! maps a remote entity to the local entity that stands for it.

use std::collections::HashMap;
use vstd::prelude::*;

verus! {

broadcast use vstd::std_specs::hash::group_hash_axioms;

/// The bits of an entity identifier.
pub type Entity = u64;

/// An entity reference that the translation table does not hold.
#[derive(Clone, Copy, Debug, PartialEq, Eq, Structural)]
pub struct UnknownEntity {
    /// The reference as the sender wrote it.
    pub entity: Entity,
}

/// The first of `slots` that `table` does not hold, if there is one.
pub open spec fn first_unknown(slots: Seq<Entity>, table: Map<Entity, Entity>) -> Option<Entity>
    decreases slots.len(),
{
    if slots.len() == 0 {
        None
    } else if !table.contains_key(slots.first()) {
        Some(slots.first())
    } else {
        first_unknown(slots.drop_first(), table)
    }
}

/// Each of `slots` replaced by what `table` maps it to.
pub open spec fn translated(slots: Seq<Entity>, table: Map<Entity, Entity>) -> Seq<Entity> {
    Seq::new(slots.len(), |i: int| table[slots[i]])
}

/// Where the first `n` of `slots` are known, the first unknown one is the
/// first unknown one of the rest.
pub proof fn lemma_first_unknown_skips_known(
    slots: Seq<Entity>,
    table: Map<Entity, Entity>,
    n: int,
)
    requires
        0 <= n <= slots.len(),
        forall|j: int| 0 <= j < n ==> table.contains_key(#[trigger] slots[j]),
    ensures
        first_unknown(slots, table) == first_unknown(slots.skip(n), table),
    decreases n,
{
    if n == 0 {
        assert(slots.skip(0) =~= slots);
    } else {
        let rest = slots.drop_first();
        assert(table.contains_key(slots[0]));
        assert forall|j: int| 0 <= j < n - 1 implies table.contains_key(#[trigger] rest[j]) by {
            assert(rest[j] == slots[j + 1]);
        }
        lemma_first_unknown_skips_known(rest, table, n - 1);
        assert(rest.skip(n - 1) =~= slots.skip(n));
    }
}

/// Every reference is known exactly when none is the first unknown one.
pub proof fn lemma_first_unknown_none(slots: Seq<Entity>, table: Map<Entity, Entity>)
    ensures
        first_unknown(slots, table).is_none() <==> forall|j: int|
            0 <= j < slots.len() ==> table.contains_key(#[trigger] slots[j]),
        first_unknown(slots, table) matches Some(e) ==> slots.contains(e) && !table.contains_key(e),
    decreases slots.len(),
{
    if slots.len() > 0 {
        let rest = slots.drop_first();
        lemma_first_unknown_none(rest, table);
        if table.contains_key(slots.first()) {
            if first_unknown(rest, table).is_none() {
                assert forall|j: int| 0 <= j < slots.len() implies table.contains_key(
                    #[trigger] slots[j],
                ) by {
                    if j > 0 {
                        assert(slots[j] == rest[j - 1]);
                    }
                }
            } else {
                let e = first_unknown(rest, table).unwrap();
                let j = choose|j: int| 0 <= j < rest.len() && rest[j] == e;
                assert(slots[j + 1] == e);
            }
        } else {
            assert(slots[0] == slots.first());
        }
    }
}

/// Looks one reference up in the translation table.
pub fn translate_one(entity: Entity, table: &HashMap<Entity, Entity>) -> (r: Result<
    Entity,
    UnknownEntity,
>)
    ensures
        match r {
            Ok(local) => table@.contains_key(entity) && local == table@[entity],
            Err(e) => !table@.contains_key(entity) && e.entity == entity,
        },
{
    match table.get(&entity) {
        Some(local) => Ok(*local),
        None => Err(UnknownEntity { entity }),
    }
}

/// Walks the reference slots in order and replaces each by its local
/// equivalent. The walk stops at the first reference that the table does not
/// hold, and reports it.
pub fn translate(slots: &Vec<Entity>, table: &HashMap<Entity, Entity>) -> (r: Result<
    Vec<Entity>,
    UnknownEntity,
>)
    ensures
        match r {
            Ok(local) => first_unknown(slots@, table@).is_none() && local@ == translated(
                slots@,
                table@,
            ),
            Err(e) => first_unknown(slots@, table@) == Some(e.entity),
        },
{
    let mut local: Vec<Entity> = Vec::new();
    let mut i: usize = 0;
    while i < slots.len()
        invariant
            i <= slots.len(),
            local@.len() == i,
            forall|j: int| 0 <= j < i ==> table@.contains_key(#[trigger] slots@[j]),
            forall|j: int| 0 <= j < i ==> local@[j] == table@[slots@[j]],
        decreases slots.len() - i,
    {
        match translate_one(slots[i], table) {
            Ok(entity) => {
                local.push(entity);
            },
            Err(e) => {
                proof {
                    lemma_first_unknown_skips_known(slots@, table@, i as int);
                    assert(slots@.skip(i as int).first() == slots@[i as int]);
                }
                return Err(e);
            },
        }
        i += 1;
    }
    proof {
        lemma_first_unknown_none(slots@, table@);
        assert(local@ =~= translated(slots@, table@));
    }
    Ok(local)
}

} // verus!
