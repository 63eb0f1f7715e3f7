//! Gravity synchronization: writes per-entity gravity overrides into their
//! bodies.
//!
//! The stage runs after body synchronization — it only needs handles to
//! exist — and before the stepper.  For every entity with a body handle the
//! override the snapshot currently carries is written into the body's
//! per-body gravity field, unconditionally every frame — `None` included,
//! so an entity whose override was removed falls back to the world gravity
//! the same frame.  An entity whose handle is still missing is skipped
//! silently.

use vstd::prelude::*;

use crate::handle_table::{lemma_lookup_membership, lookup, lookup_exec, EntityHandleTable};
use crate::sync_bodies_to_physics::{lemma_lookup_distinct_handles, synced_bodies};
use crate::types::{distinct_entities, find_record, find_record_exec, EntityRecord, GravityOverride};
use crate::world::{body_at, model_has_body, Body, PhysicsWorld};

verus! {

/// Gravity override carried by the entity's record, if any.
pub open spec fn live_gravity(records: Seq<EntityRecord>, entity: u64) -> Option<GravityOverride> {
    match find_record(records, entity) {
        Some(r) => r.gravity,
        None => None,
    }
}

/// Writes every entity's gravity override into its rigid body.
pub struct SyncGravityToPhysicsSystem;

impl SyncGravityToPhysicsSystem {
    pub fn new() -> (r: Self) {
        SyncGravityToPhysicsSystem
    }

    /// Runs the stage for one frame: every entity with a body handle has
    /// the override its record currently carries — or its absence — written
    /// into its body's per-body gravity field; every other body field is
    /// left exactly as it is.
    pub fn run(
        &self,
        table: &EntityHandleTable,
        world: &mut PhysicsWorld,
        records: &Vec<EntityRecord>,
    )
        requires
            table.wf(),
            old(world).wf(),
            synced_bodies(*table, old(world)@),
            distinct_entities(records@),
        ensures
            final(world).wf(),
            synced_bodies(*table, final(world)@),
            final(world)@.colliders == old(world)@.colliders,
            final(world)@.gravity == old(world)@.gravity,
            final(world)@.bodies.len() == old(world)@.bodies.len(),
            forall|h: u64|
                #[trigger] model_has_body(final(world)@, h) == model_has_body(old(world)@, h),
            forall|e: u64|
                (#[trigger] lookup(table.bodies@, e)) is Some ==> {
                    let handle = lookup(table.bodies@, e)->Some_0;
                    body_at(final(world)@, handle) == (match find_record(records@, e) {
                        Some(r) => Body {
                            gravity_override: r.gravity,
                            ..body_at(old(world)@, handle)
                        },
                        None => body_at(old(world)@, handle),
                    })
                },
    {
        let ghost bs = table.bodies@;
        let ghost m0 = world@;
        let ghost rs = records@;
        let n = records.len();
        let mut i: usize = 0;
        while i < n
            invariant
                0 <= i <= n,
                n == rs.len(),
                rs == records@,
                distinct_entities(rs),
                table.wf(),
                table.bodies@ == bs,
                world.wf(),
                synced_bodies(*table, world@),
                world@.colliders == m0.colliders,
                world@.gravity == m0.gravity,
                world@.bodies.len() == m0.bodies.len(),
                forall|h: u64| #[trigger] model_has_body(world@, h) == model_has_body(m0, h),
                forall|e: u64|
                    (#[trigger] lookup(bs, e)) is Some ==> {
                        let handle = lookup(bs, e)->Some_0;
                        body_at(world@, handle) == (if (exists|j: int|
                            0 <= j < i && rs[j].entity == e) {
                            Body {
                                gravity_override: live_gravity(rs, e),
                                ..body_at(m0, handle)
                            }
                        } else {
                            body_at(m0, handle)
                        })
                    },
            decreases n - i,
        {
            let rec = records[i];
            let ghost pre_m = world@;
            let mut written = false;
            match lookup_exec(&table.bodies, rec.entity) {
                Some(handle) => {
                    proof {
                        lemma_lookup_membership(bs, rec.entity);
                        let k = choose|k: int|
                            0 <= k < bs.len() && bs[k] == (rec.entity, handle);
                        assert(model_has_body(world@, bs[k].1));
                    }
                    world.set_body_gravity(handle, rec.gravity);
                    written = true;
                    proof {
                        assert(rs[i as int] == rec);
                        crate::types::lemma_find_record_index(rs, rec.entity);
                        assert(find_record(rs, rec.entity) == Some(rs[i as int]));
                        assert(live_gravity(rs, rec.entity) == rec.gravity);
                        assert forall|e: u64| (#[trigger] lookup(bs, e)) is Some implies {
                            let h2 = lookup(bs, e)->Some_0;
                            body_at(world@, h2) == (if (exists|j: int|
                                0 <= j < i + 1 && rs[j].entity == e) {
                                Body {
                                    gravity_override: live_gravity(rs, e),
                                    ..body_at(m0, h2)
                                }
                            } else {
                                body_at(m0, h2)
                            })
                        } by {
                            let h2 = lookup(bs, e)->Some_0;
                            if e == rec.entity {
                                assert(h2 == handle);
                                assert(rs[i as int].entity == e);
                                if exists|j: int| 0 <= j < i && rs[j].entity == e {
                                    let j = choose|j: int| 0 <= j < i && rs[j].entity == e;
                                    assert(j != i && rs[j].entity == rs[i as int].entity);
                                }
                                assert(body_at(pre_m, h2) == body_at(m0, h2));
                            } else {
                                lemma_lookup_distinct_handles(bs, e, rec.entity);
                                assert(h2 != handle);
                                lemma_lookup_membership(bs, e);
                                let k = choose|k: int| 0 <= k < bs.len() && bs[k] == (e, h2);
                                assert(model_has_body(pre_m, bs[k].1));
                                assert(body_at(world@, h2) == body_at(pre_m, h2));
                                if exists|j: int| 0 <= j < i + 1 && rs[j].entity == e {
                                    let j = choose|j: int| 0 <= j < i + 1 && rs[j].entity == e;
                                    assert(0 <= j < i && rs[j].entity == e);
                                }
                            }
                        }
                    }
                },
                None => {},
            }
            proof {
                if !written {
                    assert(rs[i as int] == rec);
                    crate::types::lemma_find_record_index(rs, rec.entity);
                    assert(find_record(rs, rec.entity) == Some(rs[i as int]));
                    assert forall|e: u64| (#[trigger] lookup(bs, e)) is Some implies {
                        let h2 = lookup(bs, e)->Some_0;
                        body_at(world@, h2) == (if (exists|j: int|
                            0 <= j < i + 1 && rs[j].entity == e) {
                            Body { gravity_override: live_gravity(rs, e), ..body_at(m0, h2) }
                        } else {
                            body_at(m0, h2)
                        })
                    } by {
                        if exists|j: int| 0 <= j < i + 1 && rs[j].entity == e {
                            let j = choose|j: int| 0 <= j < i + 1 && rs[j].entity == e;
                            if j == i {
                                assert(e == rec.entity);
                                assert(!(lookup(bs, e) is Some));
                            } else {
                                assert(0 <= j < i && rs[j].entity == e);
                            }
                        }
                    }
                }
            }
            i += 1;
        }
        proof {
            assert forall|e: u64| (#[trigger] lookup(bs, e)) is Some implies {
                let handle = lookup(bs, e)->Some_0;
                body_at(world@, handle) == (match find_record(rs, e) {
                    Some(r) => Body { gravity_override: r.gravity, ..body_at(m0, handle) },
                    None => body_at(m0, handle),
                })
            } by {
                crate::types::lemma_find_record_index(rs, e);
                if find_record(rs, e) is Some {
                    let j = choose|j: int| 0 <= j < rs.len() && rs[j].entity == e;
                    assert(exists|j: int| 0 <= j < n && rs[j].entity == e);
                }
            }
        }
    }
}

} // verus!
