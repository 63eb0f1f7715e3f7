//! The authoritative entity-to-handle mapping.
//!
//! The table pairs each entity carrying a body with the engine handle of
//! that body, and each entity carrying a collider with the handle of that
//! collider.  Its well-formedness is the bijection invariant: no entity
//! occurs twice, and no handle occurs twice.

use vstd::prelude::*;

verus! {

/// First handle mapped to the given key in an association list, if any.
pub open spec fn lookup(pairs: Seq<(u64, u64)>, key: u64) -> Option<u64>
    decreases pairs.len(),
{
    if pairs.len() == 0 {
        None
    } else if pairs[0].0 == key {
        Some(pairs[0].1)
    } else {
        lookup(pairs.drop_first(), key)
    }
}

/// No key occurs twice.
pub open spec fn distinct_keys(pairs: Seq<(u64, u64)>) -> bool {
    forall|i: int, j: int| 0 <= i < j < pairs.len() ==> pairs[i].0 != pairs[j].0
}

/// No handle occurs twice.
pub open spec fn distinct_handles(pairs: Seq<(u64, u64)>) -> bool {
    forall|i: int, j: int| 0 <= i < j < pairs.len() ==> pairs[i].1 != pairs[j].1
}

/// Some entry maps some key to the given handle.
pub open spec fn maps_to_handle(pairs: Seq<(u64, u64)>, handle: u64) -> bool {
    exists|i: int| 0 <= i < pairs.len() && pairs[i].1 == handle
}

/// Under distinct keys, `lookup` answers exactly the membership question:
/// it yields `h` for `k` if and only if the pair `(k, h)` stands in the
/// list, and it yields nothing exactly when no pair carries the key.
pub proof fn lemma_lookup_membership(pairs: Seq<(u64, u64)>, key: u64)
    requires
        distinct_keys(pairs),
    ensures
        (lookup(pairs, key) is Some) <==> (exists|i: int|
            0 <= i < pairs.len() && pairs[i].0 == key),
        forall|i: int|
            0 <= i < pairs.len() && pairs[i].0 == key ==> lookup(pairs, key) == Some(
                pairs[i].1,
            ),
        lookup(pairs, key) is Some ==> exists|i: int|
            0 <= i < pairs.len() && pairs[i] == (key, lookup(pairs, key)->Some_0),
    decreases pairs.len(),
{
    if pairs.len() > 0 {
        let rest = pairs.drop_first();
        assert(distinct_keys(rest)) by {
            assert(forall|p: int, q: int|
                0 <= p < q < rest.len() ==> rest[p] == pairs[p + 1] && rest[q] == pairs[q + 1]);
        }
        lemma_lookup_membership(rest, key);
        assert(forall|i: int| 1 <= i < pairs.len() ==> rest[i - 1] == pairs[i]);
        if pairs[0].0 != key {
            if exists|i: int| 0 <= i < pairs.len() && pairs[i].0 == key {
                let i = choose|i: int| 0 <= i < pairs.len() && pairs[i].0 == key;
                assert(rest[i - 1].0 == key);
            }
            if lookup(pairs, key) is Some {
                let i = choose|i: int| 0 <= i < rest.len() && rest[i].0 == key;
                assert(pairs[i + 1].0 == key);
                let j = choose|j: int|
                    0 <= j < rest.len() && rest[j] == (key, lookup(rest, key)->Some_0);
                assert(pairs[j + 1] == (key, lookup(pairs, key)->Some_0));
            }
        }
    }
}

/// Appending a pair with a fresh key leaves every other key's answer alone
/// and makes the new key map to the new handle.
pub proof fn lemma_lookup_push(pairs: Seq<(u64, u64)>, key: u64, pair: (u64, u64))
    ensures
        lookup(pairs.push(pair), key) == (if lookup(pairs, key) is Some {
            lookup(pairs, key)
        } else if pair.0 == key {
            Some(pair.1)
        } else {
            None
        }),
    decreases pairs.len(),
{
    if pairs.len() == 0 {
        assert(pairs.push(pair).drop_first() =~= pairs);
    } else {
        assert(pairs.push(pair).drop_first() =~= pairs.drop_first().push(pair));
        lemma_lookup_push(pairs.drop_first(), key, pair);
    }
}

/// Searches an association list for the handle mapped to the given key.
pub fn lookup_exec(pairs: &Vec<(u64, u64)>, key: u64) -> (r: Option<u64>)
    ensures
        r == lookup(pairs@, key),
{
    let n = pairs.len();
    let mut i: usize = 0;
    proof {
        assert(pairs@.skip(0) =~= pairs@);
    }
    while i < n
        invariant
            0 <= i <= n,
            n == pairs@.len(),
            lookup(pairs@, key) == lookup(pairs@.skip(i as int), key),
        decreases n - i,
    {
        if pairs[i].0 == key {
            proof {
                assert(pairs@.skip(i as int)[0] == pairs@[i as int]);
            }
            return Some(pairs[i].1);
        }
        proof {
            assert(pairs@.skip(i as int).drop_first() =~= pairs@.skip(i as int + 1));
        }
        i += 1;
    }
    proof {
        assert(pairs@.skip(n as int).len() == 0);
    }
    None
}

/// The entity-to-handle table.  The body side pairs an entity with its rigid
/// body's handle; the collider side pairs an entity with its collider's
/// handle.  Only the body-synchronization stage mutates the body side, and
/// only the collider-synchronization stage mutates the collider side.
pub struct EntityHandleTable {
    /// `(entity, body handle)` pairs.
    pub bodies: Vec<(u64, u64)>,
    /// `(entity, collider handle)` pairs.
    pub colliders: Vec<(u64, u64)>,
}

impl EntityHandleTable {
    /// The bijection invariant: on both sides, no entity occurs twice and no
    /// handle occurs twice.
    pub open spec fn wf(self) -> bool {
        &&& distinct_keys(self.bodies@)
        &&& distinct_handles(self.bodies@)
        &&& distinct_keys(self.colliders@)
        &&& distinct_handles(self.colliders@)
    }

    /// Handle of the entity's rigid body, if the entity has one.
    pub open spec fn spec_body_handle(self, entity: u64) -> Option<u64> {
        lookup(self.bodies@, entity)
    }

    /// Handle of the entity's collider, if the entity has one.
    pub open spec fn spec_collider_handle(self, entity: u64) -> Option<u64> {
        lookup(self.colliders@, entity)
    }

    /// Builds an empty table.
    pub fn new() -> (r: Self)
        ensures
            r.wf(),
            r.bodies@.len() == 0,
            r.colliders@.len() == 0,
    {
        EntityHandleTable { bodies: Vec::new(), colliders: Vec::new() }
    }

    /// Looks up the handle of the entity's rigid body.
    pub fn body_handle(&self, entity: u64) -> (r: Option<u64>)
        ensures
            r == self.spec_body_handle(entity),
    {
        lookup_exec(&self.bodies, entity)
    }

    /// Looks up the handle of the entity's collider.
    pub fn collider_handle(&self, entity: u64) -> (r: Option<u64>)
        ensures
            r == self.spec_collider_handle(entity),
    {
        lookup_exec(&self.colliders, entity)
    }
}

/// The bijection read as a law: in a well-formed table two distinct entities
/// that both have a rigid body never share its handle.
pub proof fn lemma_body_handles_injective(table: EntityHandleTable, e1: u64, e2: u64)
    requires
        table.wf(),
        e1 != e2,
        table.spec_body_handle(e1) is Some,
        table.spec_body_handle(e2) is Some,
    ensures
        table.spec_body_handle(e1) != table.spec_body_handle(e2),
{
    let h1 = table.spec_body_handle(e1)->Some_0;
    let h2 = table.spec_body_handle(e2)->Some_0;
    lemma_lookup_membership(table.bodies@, e1);
    lemma_lookup_membership(table.bodies@, e2);
    if h1 == h2 {
        let i = choose|i: int| 0 <= i < table.bodies@.len() && table.bodies@[i] == (e1, h1);
        let j = choose|j: int| 0 <= j < table.bodies@.len() && table.bodies@[j] == (e2, h2);
        assert(table.bodies@[i].1 == table.bodies@[j].1 && i != j);
    }
}

} // verus!
