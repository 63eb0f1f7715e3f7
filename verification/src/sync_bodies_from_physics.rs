//! Pose read-back: the last stage of every frame.
//!
//! After the stepper has advanced the engine, every entity with a body
//! handle gets its transform overwritten with the body's current position
//! and velocity.  Entities without a handle are left untouched.  No other
//! stage writes entity transforms.

use vstd::prelude::*;

use crate::handle_table::{lemma_lookup_membership, lookup, lookup_exec, EntityHandleTable};
use crate::math::Transform;
use crate::sync_bodies_to_physics::synced_bodies;
use crate::types::EntityRecord;
use crate::world::{body_at, model_has_body, PhysicsWorld};

verus! {

/// What a record looks like after the read-back: its transform holds the
/// body's position and velocity if the entity has a live body, and is kept
/// as it was otherwise; no other field ever changes.
pub open spec fn pose_written(
    bodies: Seq<(u64, u64)>,
    m: crate::world::WorldModel,
    before: EntityRecord,
) -> EntityRecord {
    match lookup(bodies, before.entity) {
        Some(handle) => EntityRecord {
            transform: Transform {
                position: body_at(m, handle).position,
                velocity: body_at(m, handle).velocity,
            },
            ..before
        },
        None => before,
    }
}

/// Reads resulting transforms and velocities back from the engine into the
/// entity snapshot.
pub struct SyncBodiesFromPhysicsSystem;

impl SyncBodiesFromPhysicsSystem {
    pub fn new() -> (r: Self) {
        SyncBodiesFromPhysicsSystem
    }

    /// Runs the stage for one frame: each record with a body handle has its
    /// transform overwritten by that body's pose; all other fields, and all
    /// records without a handle, are bit-for-bit unchanged.
    pub fn run(
        &self,
        table: &EntityHandleTable,
        world: &PhysicsWorld,
        records: &mut Vec<EntityRecord>,
    )
        requires
            table.wf(),
            world.wf(),
            synced_bodies(*table, world@),
        ensures
            final(records)@.len() == old(records)@.len(),
            forall|i: int|
                0 <= i < old(records)@.len() ==> final(records)@[i] == pose_written(
                    table.bodies@,
                    world@,
                    #[trigger] old(records)@[i],
                ),
    {
        let ghost bs = table.bodies@;
        let ghost rs0 = records@;
        let n = records.len();
        let mut i: usize = 0;
        while i < n
            invariant
                0 <= i <= n,
                n == rs0.len(),
                records@.len() == rs0.len(),
                table.wf(),
                table.bodies@ == bs,
                world.wf(),
                synced_bodies(*table, world@),
                forall|j: int| i <= j < n ==> records@[j] == rs0[j],
                forall|j: int|
                    0 <= j < i ==> records@[j] == pose_written(bs, world@, #[trigger] rs0[j]),
            decreases n - i,
        {
            let rec = records[i];
            match lookup_exec(&table.bodies, rec.entity) {
                Some(handle) => {
                    proof {
                        lemma_lookup_membership(bs, rec.entity);
                        let k = choose|k: int| 0 <= k < bs.len() && bs[k] == (rec.entity, handle);
                        assert(model_has_body(world@, bs[k].1));
                    }
                    match world.get_body(handle) {
                        Some(body) => {
                            records[i] = EntityRecord {
                                transform: Transform {
                                    position: body.position,
                                    velocity: body.velocity,
                                },
                                ..rec
                            };
                        },
                        None => {},
                    }
                },
                None => {},
            }
            i += 1;
        }
    }
}

} // verus!
