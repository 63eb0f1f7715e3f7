//! Body synchronization: the first stage of every frame.
//!
//! For every entity whose snapshot carries a body descriptor and that has no
//! rigid body yet, a body is created from the descriptor and the entity's
//! pose and recorded in the handle table.  For every entity reported as
//! changed, the descriptor's fields are pushed into the existing body.  For
//! every table entry whose entity no longer carries a descriptor — or is no
//! longer in the snapshot at all — the body is removed from the engine,
//! together with its colliders, and the entry is dropped, all within the
//! same frame.

use vstd::prelude::*;

use crate::handle_table::{
    distinct_handles, distinct_keys, lemma_lookup_membership, lemma_lookup_push, lookup,
    lookup_exec, maps_to_handle, EntityHandleTable,
};
use crate::math::Transform;
use crate::types::{
    distinct_entities, find_record, find_record_exec, has_live_body, in_modified, BodyDescriptor,
    EntityRecord,
};
use crate::world::{body_at, model_has_body, Body, Collider, PhysicsWorld, WorldModel};

verus! {

/// Body descriptor of a live entity.
pub open spec fn live_body_desc(records: Seq<EntityRecord>, entity: u64) -> BodyDescriptor
    recommends
        has_live_body(records, entity),
{
    find_record(records, entity)->Some_0.body->Some_0
}

/// Pose of a live entity as the snapshot carries it.
pub open spec fn live_transform(records: Seq<EntityRecord>, entity: u64) -> Transform
    recommends
        find_record(records, entity) is Some,
{
    find_record(records, entity)->Some_0.transform
}

/// The body a freshly created rigid body holds: kind, mass and initial
/// velocity from the descriptor, position from the entity's pose, no
/// per-body gravity yet.
pub open spec fn created_body(desc: BodyDescriptor, transform: Transform) -> Body {
    Body {
        kind: desc.kind,
        mass: desc.mass,
        velocity: desc.velocity,
        position: transform.position,
        gravity_override: None,
    }
}

/// The body after a changed descriptor is pushed: kind, mass and velocity
/// are overwritten, position and per-body gravity are kept.
pub open spec fn updated_body(desc: BodyDescriptor, prev: Body) -> Body {
    Body {
        kind: desc.kind,
        mass: desc.mass,
        velocity: desc.velocity,
        position: prev.position,
        gravity_override: prev.gravity_override,
    }
}

/// The body side of the table agrees with the engine: every mapped handle is
/// a live body, and every live body is mapped by some entry.
pub open spec fn synced_bodies(table: EntityHandleTable, m: WorldModel) -> bool {
    &&& forall|i: int|
        0 <= i < table.bodies@.len() ==> model_has_body(m, #[trigger] table.bodies@[i].1)
    &&& forall|h: u64| #[trigger] model_has_body(m, h) ==> maps_to_handle(table.bodies@, h)
}

/// The rigid body an entity ends the stage with, given where it started:
/// kept entities keep their body (fields pushed if the entity was reported
/// changed), new entities get a freshly created body.
pub open spec fn final_body_ok(
    t0: Seq<(u64, u64)>,
    m0: WorldModel,
    records: Seq<EntityRecord>,
    modified: Seq<u64>,
    t1: Seq<(u64, u64)>,
    m1: WorldModel,
    entity: u64,
) -> bool {
    has_live_body(records, entity) ==> {
        let desc = live_body_desc(records, entity);
        let handle = lookup(t1, entity)->Some_0;
        &&& lookup(t1, entity) is Some
        &&& model_has_body(m1, handle)
        &&& body_at(m1, handle) == (if lookup(t0, entity) == Some(handle) {
            if in_modified(modified, entity) {
                updated_body(desc, body_at(m0, handle))
            } else {
                body_at(m0, handle)
            }
        } else {
            created_body(desc, live_transform(records, entity))
        })
    }
}

/// Creates, updates and removes rigid bodies so that the engine's body set
/// and the handle table match the snapshot.
pub struct SyncBodiesToPhysicsSystem;

impl SyncBodiesToPhysicsSystem {
    pub fn new() -> (r: Self) {
        SyncBodiesToPhysicsSystem
    }

    /// Runs the stage for one frame.  `records` is the host's snapshot of
    /// all simulated entities and `modified` names the entities whose body
    /// descriptor changed since the last frame.
    #[verifier::rlimit(100)]
    pub fn run(
        &self,
        table: &mut EntityHandleTable,
        world: &mut PhysicsWorld,
        records: &Vec<EntityRecord>,
        modified: &Vec<u64>,
    )
        requires
            old(table).wf(),
            old(world).wf(),
            synced_bodies(*old(table), old(world)@),
            distinct_entities(records@),
            old(world)@.bodies.len() + records@.len() <= u64::MAX,
        ensures
            final(table).wf(),
            final(world).wf(),
            synced_bodies(*final(table), final(world)@),
            final(table).colliders@ == old(table).colliders@,
            final(world)@.gravity == old(world)@.gravity,
            final(world)@.colliders.len() == old(world)@.colliders.len(),
            final(world)@.bodies.len() <= old(world)@.bodies.len() + records@.len(),
            // an entity is mapped exactly when its snapshot carries a body
            // descriptor
            forall|e: u64|
                (#[trigger] lookup(final(table).bodies@, e)) is Some <==> has_live_body(
                    records@,
                    e,
                ),
            // a kept entity keeps its handle
            forall|e: u64|
                has_live_body(records@, e) && (#[trigger] lookup(old(table).bodies@, e)) is Some
                    ==> lookup(final(table).bodies@, e) == lookup(old(table).bodies@, e),
            // a dropped entity's body is gone from the engine
            forall|e: u64|
                !has_live_body(records@, e) && (#[trigger] lookup(old(table).bodies@, e)) is Some
                    ==> !model_has_body(final(world)@, lookup(old(table).bodies@, e)->Some_0),
            // every mapped entity's body holds exactly the right fields
            forall|e: u64|
                #[trigger] final_body_ok(
                    old(table).bodies@,
                    old(world)@,
                    records@,
                    modified@,
                    final(table).bodies@,
                    final(world)@,
                    e,
                ),
            // a collider survives exactly when its body does
            forall|c: int|
                0 <= c < old(world)@.colliders.len() ==> final(world)@.colliders[c] == (match old(
                    world,
                )@.colliders[c] {
                    Some(col) => if model_has_body(final(world)@, col.body) {
                        Some(col)
                    } else {
                        None::<Collider>
                    },
                    None => None::<Collider>,
                }),
    {
        let ghost t0 = table.bodies@;
        let ghost m0 = world@;
        let ghost rs = records@;

        // Removal pass: keep the entries whose entity still carries a body
        // descriptor; remove the bodies of the rest.
        let n = table.bodies.len();
        let mut kept: Vec<(u64, u64)> = Vec::new();
        let mut i: usize = 0;
        while i < n
            invariant
                0 <= i <= n,
                n == t0.len(),
                table.bodies@ == t0,
                table.colliders@ == old(table).colliders@,
                old(table).wf(),
                synced_bodies(*old(table), m0),
                m0.bodies.len() + rs.len() <= u64::MAX,
                distinct_entities(rs),
                rs == records@,
                world.wf(),
                world@.gravity == m0.gravity,
                world@.bodies.len() == m0.bodies.len(),
                world@.colliders.len() == m0.colliders.len(),
                forall|k: int|
                    0 <= k < kept@.len() ==> exists|j: int|
                        0 <= j < i && t0[j] == #[trigger] kept@[k],
                forall|k: int| 0 <= k < kept@.len() ==> has_live_body(rs, #[trigger] kept@[k].0),
                forall|j: int|
                    0 <= j < i && has_live_body(rs, #[trigger] t0[j].0) ==> exists|k: int|
                        0 <= k < kept@.len() && kept@[k] == t0[j],
                distinct_keys(kept@),
                distinct_handles(kept@),
                forall|k: int|
                    0 <= k < kept@.len() ==> model_has_body(world@, #[trigger] kept@[k].1),
                forall|h: u64|
                    #[trigger] model_has_body(world@, h) ==> model_has_body(m0, h) && body_at(
                        world@,
                        h,
                    ) == body_at(m0, h),
                forall|h: u64|
                    model_has_body(m0, h) && !(#[trigger] model_has_body(world@, h)) ==> exists|
                        j: int,
                    |
                        0 <= j < i && t0[j].1 == h && !has_live_body(rs, t0[j].0),
                forall|h: u64|
                    #[trigger] model_has_body(world@, h) ==> (exists|j: int|
                        i <= j < n && t0[j].1 == h) || (exists|k: int|
                        0 <= k < kept@.len() && kept@[k].1 == h),
                forall|c: int|
                    0 <= c < m0.colliders.len() ==> world@.colliders[c] == (match m0.colliders[c] {
                        Some(col) => if model_has_body(world@, col.body) {
                            Some(col)
                        } else {
                            None::<Collider>
                        },
                        None => None::<Collider>,
                    }),
            decreases n - i,
        {
            let pair = table.bodies[i];
            let live = match find_record_exec(records, pair.0) {
                Some(r) => r.body.is_some(),
                None => false,
            };
            let ghost pre_kept = kept@;
            let ghost pre_m = world@;
            if live {
                kept.push(pair);
                proof {
                    assert(model_has_body(m0, pair.1));
                    if !model_has_body(world@, pair.1) {
                        let j = choose|j: int|
                            0 <= j < i && t0[j].1 == pair.1 && !has_live_body(rs, t0[j].0);
                        assert(t0[j].1 == t0[i as int].1 && j != i);
                    }
                    assert(model_has_body(world@, pair.1));
                    assert forall|k: int| 0 <= k < kept@.len() implies exists|j: int|
                        0 <= j < i + 1 && t0[j] == #[trigger] kept@[k] by {
                        if k < pre_kept.len() {
                            let j = choose|j: int| 0 <= j < i && t0[j] == pre_kept[k];
                            assert(0 <= j < i + 1 && t0[j] == kept@[k]);
                        } else {
                            assert(t0[i as int] == kept@[k]);
                        }
                    }
                    assert forall|j: int|
                        0 <= j < i + 1 && has_live_body(rs, #[trigger] t0[j].0) implies exists|
                        k: int,
                    |
                        0 <= k < kept@.len() && kept@[k] == t0[j] by {
                        if j < i {
                            let k = choose|k: int| 0 <= k < pre_kept.len() && pre_kept[k] == t0[j];
                            assert(kept@[k] == t0[j]);
                        } else {
                            assert(kept@[kept@.len() - 1] == t0[j]);
                        }
                    }
                    assert forall|p: int, q: int|
                        0 <= p < q < kept@.len() implies kept@[p].0 != kept@[q].0 && kept@[p].1
                        != kept@[q].1 by {
                        if q == kept@.len() - 1 {
                            let j = choose|j: int| 0 <= j < i && t0[j] == pre_kept[p];
                            assert(t0[j].0 != t0[i as int].0 && t0[j].1 != t0[i as int].1);
                        }
                    }
                    assert forall|h: u64| #[trigger] model_has_body(world@, h) implies (exists|
                        j: int,
                    |
                        i + 1 <= j < n && t0[j].1 == h) || (exists|k: int|
                        0 <= k < kept@.len() && kept@[k].1 == h) by {
                        if exists|j: int| i <= j < n && t0[j].1 == h {
                            let j = choose|j: int| i <= j < n && t0[j].1 == h;
                            if j == i {
                                assert(kept@[kept@.len() - 1].1 == h);
                            }
                        } else {
                            let k = choose|k: int| 0 <= k < pre_kept.len() && pre_kept[k].1 == h;
                            assert(kept@[k].1 == h);
                        }
                    }
                }
            } else {
                world.remove_body(pair.1);
                proof {
                    assert forall|k: int| 0 <= k < kept@.len() implies model_has_body(
                        world@,
                        #[trigger] kept@[k].1,
                    ) by {
                        let j = choose|j: int| 0 <= j < i && t0[j] == kept@[k];
                        assert(t0[j].1 != t0[i as int].1);
                    }
                    assert forall|h: u64|
                        model_has_body(m0, h) && !(#[trigger] model_has_body(world@, h)) implies
                        exists|j: int|
                        0 <= j < i + 1 && t0[j].1 == h && !has_live_body(rs, t0[j].0) by {
                        if h == pair.1 {
                            assert(t0[i as int].1 == h && !has_live_body(rs, t0[i as int].0));
                        } else {
                            let j = choose|j: int|
                                0 <= j < i && t0[j].1 == h && !has_live_body(rs, t0[j].0);
                            assert(0 <= j < i + 1 && t0[j].1 == h && !has_live_body(rs, t0[j].0));
                        }
                    }
                    assert forall|h: u64| #[trigger] model_has_body(world@, h) implies (exists|
                        j: int,
                    |
                        i + 1 <= j < n && t0[j].1 == h) || (exists|k: int|
                        0 <= k < kept@.len() && kept@[k].1 == h) by {
                        if exists|j: int| i <= j < n && t0[j].1 == h {
                            let j = choose|j: int| i <= j < n && t0[j].1 == h;
                            assert(j != i);
                        }
                    }
                    assert forall|c: int| 0 <= c < m0.colliders.len() implies world@.colliders[c]
                        == (match m0.colliders[c] {
                        Some(col) => if model_has_body(world@, col.body) {
                            Some(col)
                        } else {
                            None::<Collider>
                        },
                        None => None::<Collider>,
                    }) by {
                        match m0.colliders[c] {
                            Some(col) => {
                                assert(pre_m.colliders[c] == (if model_has_body(pre_m, col.body) {
                                    Some(col)
                                } else {
                                    None::<Collider>
                                }));
                            },
                            None => {
                                assert(pre_m.colliders[c] is None);
                            },
                        }
                    }
                }
            }
            i += 1;
        }
        table.bodies = kept;
        let ghost ta = table.bodies@;
        let ghost ma = world@;

        proof {
            assert forall|e: u64| #[trigger] lookup(ta, e) is Some implies lookup(t0, e) is Some
                && lookup(ta, e) == lookup(t0, e) && has_live_body(rs, e) by {
                lemma_lookup_membership(ta, e);
                lemma_lookup_membership(t0, e);
                let k = choose|k: int| 0 <= k < ta.len() && ta[k] == (e, lookup(ta, e)->Some_0);
                let j = choose|j: int| 0 <= j < n && t0[j] == ta[k];
                assert(t0[j].0 == e);
            }
            assert forall|e: u64|
                #[trigger] lookup(t0, e) is Some && has_live_body(rs, e) implies lookup(ta, e)
                == lookup(t0, e) by {
                lemma_lookup_membership(ta, e);
                lemma_lookup_membership(t0, e);
                let j = choose|j: int| 0 <= j < t0.len() && t0[j] == (e, lookup(t0, e)->Some_0);
                let k = choose|k: int| 0 <= k < ta.len() && ta[k] == t0[j];
                assert(ta[k].0 == e);
            }
            assert forall|e: u64| (#[trigger] lookup(ta, e)) is Some implies model_has_body(
                ma,
                lookup(ta, e)->Some_0,
            ) by {
                lemma_lookup_membership(ta, e);
                let k = choose|k: int| 0 <= k < ta.len() && ta[k] == (e, lookup(ta, e)->Some_0);
                assert(model_has_body(ma, ta[k].1));
            }
            assert(synced_bodies(*table, world@));
        }

        // Creation pass: give every live entity without a handle a fresh
        // body built from its descriptor and pose.
        let rn = records.len();
        let mut i: usize = 0;
        while i < rn
            invariant
                0 <= i <= rn,
                rn == rs.len(),
                rs == records@,
                distinct_entities(rs),
                table.wf(),
                table.colliders@ == old(table).colliders@,
                world.wf(),
                world@.gravity == ma.gravity,
                world@.colliders == ma.colliders,
                world@.bodies.len() <= ma.bodies.len() + i,
                world@.bodies.len() >= ma.bodies.len(),
                ma.bodies.len() == m0.bodies.len(),
                m0.bodies.len() + rs.len() <= u64::MAX,
                synced_bodies(*table, world@),
                forall|h: u64|
                    #[trigger] model_has_body(ma, h) ==> model_has_body(world@, h) && body_at(
                        world@,
                        h,
                    ) == body_at(ma, h),
                forall|h: u64|
                    #[trigger] model_has_body(world@, h) && h < ma.bodies.len()
                        ==> model_has_body(ma, h),
                forall|e: u64|
                    (#[trigger] lookup(table.bodies@, e)) is Some <==> (lookup(ta, e) is Some || (
                    has_live_body(rs, e) && exists|j: int| 0 <= j < i && rs[j].entity == e)),
                forall|e: u64|
                    (#[trigger] lookup(ta, e)) is Some ==> lookup(table.bodies@, e) == lookup(
                        ta,
                        e,
                    ),
                forall|e: u64|
                    (#[trigger] lookup(table.bodies@, e)) is Some ==> {
                        let handle = lookup(table.bodies@, e)->Some_0;
                        model_has_body(world@, handle) && body_at(world@, handle) == (if lookup(
                            ta,
                            e,
                        ) == Some(handle) {
                            body_at(ma, handle)
                        } else {
                            created_body(live_body_desc(rs, e), live_transform(rs, e))
                        })
                    },
            decreases rn - i,
        {
            let rec = records[i];
            let ghost pre_t = table.bodies@;
            match rec.body {
                Some(desc) => {
                    match lookup_exec(&table.bodies, rec.entity) {
                        Some(_) => {
                            proof {
                                lemma_find_self(rs, i as int);
                                assert forall|e: u64|
                                    (#[trigger] lookup(table.bodies@, e)) is Some <==> (lookup(
                                        ta,
                                        e,
                                    ) is Some || (has_live_body(rs, e) && exists|j: int|
                                        0 <= j < i + 1 && rs[j].entity == e)) by {
                                    if has_live_body(rs, e) && exists|j: int|
                                        0 <= j < i + 1 && rs[j].entity == e {
                                        let j = choose|j: int|
                                            0 <= j < i + 1 && rs[j].entity == e;
                                        if j == i {
                                            assert(lookup(table.bodies@, rec.entity) is Some);
                                        } else {
                                            assert(0 <= j < i && rs[j].entity == e);
                                        }
                                    }
                                }
                            }
                        },
                        None => {
                            let ghost pre_m = world@;
                            let body = Body {
                                kind: desc.kind,
                                mass: desc.mass,
                                velocity: desc.velocity,
                                position: rec.transform.position,
                                gravity_override: None,
                            };
                            let handle = world.create_body(body);
                            table.bodies.push((rec.entity, handle));
                            proof {
                                lemma_find_self(rs, i as int);
                                assert(has_live_body(rs, rec.entity));
                                assert(live_body_desc(rs, rec.entity) == desc);
                                assert(live_transform(rs, rec.entity) == rec.transform);
                                assert forall|e: u64|
                                    (#[trigger] lookup(table.bodies@, e)) is Some <==> (lookup(
                                        ta,
                                        e,
                                    ) is Some || (has_live_body(rs, e) && exists|j: int|
                                        0 <= j < i + 1 && rs[j].entity == e)) by {
                                    lemma_lookup_push(pre_t, e, (rec.entity, handle));
                                    if e == rec.entity {
                                        assert(rs[i as int].entity == e);
                                    } else if has_live_body(rs, e) && exists|j: int|
                                        0 <= j < i + 1 && rs[j].entity == e {
                                        let j = choose|j: int| 0 <= j < i + 1 && rs[j].entity == e;
                                        assert(0 <= j < i && rs[j].entity == e);
                                    }
                                }
                                assert forall|e: u64| (#[trigger] lookup(ta, e)) is Some implies
                                    lookup(table.bodies@, e) == lookup(ta, e) by {
                                    lemma_lookup_push(pre_t, e, (rec.entity, handle));
                                }
                                assert(distinct_keys(table.bodies@)) by {
                                    lemma_distinct_key_push(pre_t, (rec.entity, handle));
                                }
                                assert forall|p: int, q: int|
                                    0 <= p < q < table.bodies@.len() implies table.bodies@[p].1
                                    != table.bodies@[q].1 by {
                                    if q == table.bodies@.len() - 1 {
                                        assert(model_has_body(pre_m, pre_t[p].1));
                                    }
                                }
                                assert forall|e: u64|
                                    (#[trigger] lookup(table.bodies@, e)) is Some implies {
                                    let h2 = lookup(table.bodies@, e)->Some_0;
                                    model_has_body(world@, h2) && body_at(world@, h2) == (if lookup(
                                        ta,
                                        e,
                                    ) == Some(h2) {
                                        body_at(ma, h2)
                                    } else {
                                        created_body(live_body_desc(rs, e), live_transform(rs, e))
                                    })
                                } by {
                                    lemma_lookup_push(pre_t, e, (rec.entity, handle));
                                    if lookup(pre_t, e) is Some {
                                        let h2 = lookup(pre_t, e)->Some_0;
                                        assert(model_has_body(pre_m, h2));
                                    }
                                }
                                assert(synced_bodies(*table, world@)) by {
                                    assert forall|k: int|
                                        0 <= k < table.bodies@.len() implies model_has_body(
                                        world@,
                                        #[trigger] table.bodies@[k].1,
                                    ) by {
                                        if k < pre_t.len() {
                                            assert(table.bodies@[k] == pre_t[k]);
                                            assert(model_has_body(pre_m, pre_t[k].1));
                                        }
                                    }
                                    assert forall|h: u64|
                                        #[trigger] model_has_body(world@, h) implies maps_to_handle(
                                        table.bodies@,
                                        h,
                                    ) by {
                                        if h != handle {
                                            let k = choose|k: int|
                                                0 <= k < pre_t.len() && pre_t[k].1 == h;
                                            assert(table.bodies@[k].1 == h);
                                        } else {
                                            assert(table.bodies@[table.bodies@.len() - 1].1 == h);
                                        }
                                    }
                                }
                            }
                        },
                    }
                },
                None => {
                    proof {
                        lemma_find_self(rs, i as int);
                        assert forall|e: u64|
                            (#[trigger] lookup(table.bodies@, e)) is Some <==> (lookup(ta, e)
                                is Some || (has_live_body(rs, e) && exists|j: int|
                                0 <= j < i + 1 && rs[j].entity == e)) by {
                            if has_live_body(rs, e) && exists|j: int|
                                0 <= j < i + 1 && rs[j].entity == e {
                                let j = choose|j: int| 0 <= j < i + 1 && rs[j].entity == e;
                                if j == i {
                                    assert(find_record(rs, e) == Some(rs[i as int]));
                                    assert(!has_live_body(rs, e));
                                } else {
                                    assert(0 <= j < i && rs[j].entity == e);
                                }
                            }
                        }
                    }
                },
            }
            i += 1;
        }

        let ghost tb = table.bodies@;
        let ghost mb = world@;

        // Change pass: push the fields of every reported descriptor change
        // into the entity's existing body.
        let mn = modified.len();
        let mut i: usize = 0;
        while i < mn
            invariant
                0 <= i <= mn,
                mn == modified@.len(),
                rs == records@,
                distinct_entities(rs),
                table.wf(),
                table.bodies@ == tb,
                table.colliders@ == old(table).colliders@,
                world.wf(),
                world@.gravity == mb.gravity,
                world@.colliders == mb.colliders,
                world@.bodies.len() == mb.bodies.len(),
                synced_bodies(*table, world@),
                forall|h: u64| #[trigger] model_has_body(world@, h) == model_has_body(mb, h),
                forall|e: u64|
                    (#[trigger] lookup(tb, e)) is Some ==> {
                        let handle = lookup(tb, e)->Some_0;
                        body_at(world@, handle) == (if has_live_body(rs, e) && (exists|j: int|
                            0 <= j < i && modified@[j] == e) {
                            updated_body(live_body_desc(rs, e), body_at(mb, handle))
                        } else {
                            body_at(mb, handle)
                        })
                    },
            decreases mn - i,
        {
            let entity = modified[i];
            let ghost pre_m = world@;
            let mut updated = false;
            match lookup_exec(&table.bodies, entity) {
                Some(handle) => {
                    match find_record_exec(records, entity) {
                        Some(r) => {
                            match r.body {
                                Some(desc) => {
                                    proof {
                                        lemma_lookup_membership(tb, entity);
                                        let k = choose|k: int|
                                            0 <= k < tb.len() && tb[k] == (entity, handle);
                                        assert(model_has_body(world@, tb[k].1));
                                    }
                                    world.update_body(handle, desc.kind, desc.mass, desc.velocity);
                                    updated = true;
                                    proof {
                                        assert(has_live_body(rs, entity));
                                        assert(live_body_desc(rs, entity) == desc);
                                        assert forall|e: u64|
                                            (#[trigger] lookup(tb, e)) is Some implies {
                                            let h2 = lookup(tb, e)->Some_0;
                                            body_at(world@, h2) == (if has_live_body(rs, e) && (
                                            exists|j: int|
                                                0 <= j < i + 1 && modified@[j] == e) {
                                                updated_body(live_body_desc(rs, e), body_at(mb, h2))
                                            } else {
                                                body_at(mb, h2)
                                            })
                                        } by {
                                            let h2 = lookup(tb, e)->Some_0;
                                            if e == entity {
                                                assert(h2 == handle);
                                                assert(modified@[i as int] == e);
                                                if exists|j: int|
                                                    0 <= j < i && modified@[j] == e {
                                                    assert(body_at(pre_m, h2) == updated_body(
                                                        desc,
                                                        body_at(mb, h2),
                                                    ));
                                                } else {
                                                    assert(body_at(pre_m, h2) == body_at(mb, h2));
                                                }
                                            } else {
                                                lemma_lookup_distinct_handles(tb, e, entity);
                                                assert(h2 != handle);
                                                lemma_lookup_membership(tb, e);
                                                let k = choose|k: int|
                                                    0 <= k < tb.len() && tb[k] == (e, h2);
                                                assert(model_has_body(pre_m, tb[k].1));
                                                assert(body_at(world@, h2) == body_at(pre_m, h2));
                                                if has_live_body(rs, e) && exists|j: int|
                                                    0 <= j < i + 1 && modified@[j] == e {
                                                    let j = choose|j: int|
                                                        0 <= j < i + 1 && modified@[j] == e;
                                                    assert(0 <= j < i && modified@[j] == e);
                                                }
                                            }
                                        }
                                    }
                                },
                                None => {},
                            }
                        },
                        None => {},
                    }
                },
                None => {},
            }
            proof {
                if !updated {
                    assert forall|e: u64| (#[trigger] lookup(tb, e)) is Some implies {
                        let h2 = lookup(tb, e)->Some_0;
                        body_at(world@, h2) == (if has_live_body(rs, e) && (exists|j: int|
                            0 <= j < i + 1 && modified@[j] == e) {
                            updated_body(live_body_desc(rs, e), body_at(mb, h2))
                        } else {
                            body_at(mb, h2)
                        })
                    } by {
                        if has_live_body(rs, e) && exists|j: int|
                            0 <= j < i + 1 && modified@[j] == e {
                            let j = choose|j: int| 0 <= j < i + 1 && modified@[j] == e;
                            if j == i {
                                assert(e == entity);
                                assert(!(lookup(tb, e) is Some && has_live_body(rs, e)));
                            } else {
                                assert(0 <= j < i && modified@[j] == e);
                            }
                        }
                    }
                }
            }
            i += 1;
        }

        // Final assembly: read the three passes as the stage's contract.
        proof {
            let t1 = table.bodies@;
            let m1 = world@;
            assert forall|e: u64| (#[trigger] lookup(t1, e)) is Some <==> has_live_body(
                rs,
                e,
            ) by {
                crate::types::lemma_find_record_index(rs, e);
                if has_live_body(rs, e) {
                    let j = choose|j: int| 0 <= j < rs.len() && rs[j].entity == e;
                    assert(exists|j: int| 0 <= j < rn && rs[j].entity == e);
                }
            }
            assert forall|e: u64|
                !has_live_body(rs, e) && (#[trigger] lookup(t0, e)) is Some implies
                !model_has_body(m1, lookup(t0, e)->Some_0) by {
                let h = lookup(t0, e)->Some_0;
                lemma_lookup_membership(t0, e);
                let j = choose|j: int| 0 <= j < t0.len() && t0[j] == (e, h);
                assert(model_has_body(m0, h));
                if model_has_body(ma, h) {
                    assert(exists|k: int| 0 <= k < ta.len() && ta[k].1 == h);
                    let k = choose|k: int| 0 <= k < ta.len() && ta[k].1 == h;
                    let j2 = choose|j2: int| 0 <= j2 < n && t0[j2] == ta[k];
                    assert(t0[j2].1 == t0[j].1);
                    assert(j2 == j);
                    assert(has_live_body(rs, e));
                }
                assert(h < ma.bodies.len());
            }
            assert forall|e: u64| #[trigger] final_body_ok(
                t0,
                m0,
                rs,
                modified@,
                t1,
                m1,
                e,
            ) by {
                if has_live_body(rs, e) {
                    let handle = lookup(t1, e)->Some_0;
                    crate::types::lemma_find_record_index(rs, e);
                    assert(lookup(t1, e) is Some);
                    if lookup(t0, e) == Some(handle) {
                        assert(lookup(ta, e) == Some(handle));
                    } else {
                        if lookup(ta, e) is Some {
                            assert(lookup(t1, e) == lookup(ta, e));
                            assert(lookup(t0, e) == lookup(ta, e));
                        }
                        assert(!(lookup(ta, e) == Some(handle)));
                    }
                }
            }
            assert forall|c: int| 0 <= c < m0.colliders.len() implies m1.colliders[c] == (
            match m0.colliders[c] {
                Some(col) => if model_has_body(m1, col.body) {
                    Some(col)
                } else {
                    None::<Collider>
                },
                None => None::<Collider>,
            }) by {
                match m0.colliders[c] {
                    Some(col) => {
                        assert(model_has_body(m0, col.body));
                        assert(col.body < ma.bodies.len());
                        assert(model_has_body(m1, col.body) == model_has_body(ma, col.body));
                    },
                    None => {},
                }
            }
        }
    }
}

/// A record is found under its own identifier when identifiers are
/// distinct.
proof fn lemma_find_self(records: Seq<EntityRecord>, i: int)
    requires
        distinct_entities(records),
        0 <= i < records.len(),
    ensures
        find_record(records, records[i].entity) == Some(records[i]),
{
    crate::types::lemma_find_record_index(records, records[i].entity);
}

/// Appending a pair with a key absent from a distinct-key list keeps the
/// keys distinct.
pub(crate) proof fn lemma_distinct_key_push(pairs: Seq<(u64, u64)>, pair: (u64, u64))
    requires
        distinct_keys(pairs),
        lookup(pairs, pair.0) is None,
    ensures
        distinct_keys(pairs.push(pair)),
{
    lemma_lookup_membership(pairs, pair.0);
    assert forall|p: int, q: int|
        0 <= p < q < pairs.push(pair).len() implies pairs.push(pair)[p].0 != pairs.push(
        pair,
    )[q].0 by {
        if q == pairs.len() {
            assert(pairs[p].0 != pair.0);
        }
    }
}

/// In a table with distinct handles, two distinct mapped keys get distinct
/// handles.
pub(crate) proof fn lemma_lookup_distinct_handles(pairs: Seq<(u64, u64)>, e1: u64, e2: u64)
    requires
        distinct_keys(pairs),
        distinct_handles(pairs),
        e1 != e2,
        lookup(pairs, e1) is Some,
        lookup(pairs, e2) is Some,
    ensures
        lookup(pairs, e1) != lookup(pairs, e2),
{
    lemma_lookup_membership(pairs, e1);
    lemma_lookup_membership(pairs, e2);
    if lookup(pairs, e1) == lookup(pairs, e2) {
        let h = lookup(pairs, e1)->Some_0;
        let p = choose|p: int| 0 <= p < pairs.len() && pairs[p] == (e1, h);
        let q = choose|q: int| 0 <= q < pairs.len() && pairs[q] == (e2, h);
        assert(p != q && pairs[p].1 == pairs[q].1);
    }
}

} // verus!
