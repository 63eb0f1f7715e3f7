//! Descriptors carried by simulated entities, the per-frame entity snapshot,
//! and the pipeline's error type.

use vstd::prelude::*;

use crate::math::{Transform, Vec3};

verus! {

/// How the engine treats a rigid body.
#[derive(Clone, Copy, Debug, PartialEq, Eq, Structural)]
pub enum BodyKind {
    /// Integrated by the engine: forces and gravity move it.
    Dynamic,
    /// Never moved by the engine.
    Static,
    /// Moved by the host, never by the engine.
    Kinematic,
}

/// What an entity asks of its rigid body: mass, kind and initial velocity.
#[derive(Clone, Copy, Debug, PartialEq, Eq, Structural)]
pub struct BodyDescriptor {
    pub kind: BodyKind,
    /// Mass in host units; informational for the integrator.
    pub mass: u64,
    /// Velocity given to the body when it is created, and pushed again when
    /// the descriptor changes.
    pub velocity: Vec3,
}

/// Collision shape of a collider.
#[derive(Clone, Copy, Debug, PartialEq, Eq, Structural)]
pub enum Shape {
    /// A ball with the given radius.
    Ball { radius: u64 },
    /// An axis-aligned box with the given half extents.
    Cuboid { half_extents: Vec3 },
}

/// What an entity asks of its collider: a shape, an offset from the body,
/// and a friction coefficient standing for the physical material.
#[derive(Clone, Copy, Debug, PartialEq, Eq, Structural)]
pub struct ColliderDescriptor {
    pub shape: Shape,
    pub offset: Vec3,
    pub friction: u64,
}

/// Whether a gravity override adds to or replaces the world gravity.
#[derive(Clone, Copy, Debug, PartialEq, Eq, Structural)]
pub enum GravityMode {
    Additive,
    Replace,
}

/// A per-entity gravity override written into the body each frame.
#[derive(Clone, Copy, Debug, PartialEq, Eq, Structural)]
pub struct GravityOverride {
    pub vector: Vec3,
    pub mode: GravityMode,
}

/// One entity as the host hands it to the pipeline for a frame: a stable
/// identifier, the descriptors currently attached, and the entity's pose.
#[derive(Clone, Copy, Debug, PartialEq, Eq)]
pub struct EntityRecord {
    /// Stable identifier issued by the host's entity store.
    pub entity: u64,
    pub body: Option<BodyDescriptor>,
    pub collider: Option<ColliderDescriptor>,
    pub gravity: Option<GravityOverride>,
    pub transform: Transform,
}

/// Why a pipeline could not be built: the configuration is validated when
/// the pipeline is constructed and an invalid one is refused outright.
#[derive(Clone, Copy, Debug, PartialEq, Eq, Structural)]
pub enum PhysicsError {
    /// The fixed time step is zero.
    InvalidTimeStep,
    /// The sub-step bound is below one.
    InvalidMaxTimesteps,
    /// The sub-step bound times the step length does not fit the frame
    /// clock's range.
    TimeStepTooLarge,
}

/// The first record carrying the given entity identifier, if any.
pub open spec fn find_record(records: Seq<EntityRecord>, entity: u64) -> Option<EntityRecord>
    decreases records.len(),
{
    if records.len() == 0 {
        None
    } else if records[0].entity == entity {
        Some(records[0])
    } else {
        find_record(records.drop_first(), entity)
    }
}

/// The entity is present in the snapshot and currently carries a body
/// descriptor.
pub open spec fn has_live_body(records: Seq<EntityRecord>, entity: u64) -> bool {
    match find_record(records, entity) {
        Some(r) => r.body is Some,
        None => false,
    }
}

/// The entity is present in the snapshot and currently carries a collider
/// descriptor.
pub open spec fn has_live_collider(records: Seq<EntityRecord>, entity: u64) -> bool {
    match find_record(records, entity) {
        Some(r) => r.collider is Some,
        None => false,
    }
}

/// No entity identifier occurs twice in the snapshot.
pub open spec fn distinct_entities(records: Seq<EntityRecord>) -> bool {
    forall|i: int, j: int|
        0 <= i < j < records.len() ==> records[i].entity != records[j].entity
}

/// The list of changed entities contains the given identifier.
pub open spec fn in_modified(modified: Seq<u64>, entity: u64) -> bool {
    exists|i: int| 0 <= i < modified.len() && modified[i] == entity
}

/// `find_record` answers exactly the membership question: it returns a
/// record if and only if the snapshot holds one with the given identifier,
/// and under distinct identifiers it returns the record at that position.
pub proof fn lemma_find_record_index(records: Seq<EntityRecord>, entity: u64)
    ensures
        (find_record(records, entity) is Some) <==> (exists|i: int|
            0 <= i < records.len() && records[i].entity == entity),
        forall|i: int|
            0 <= i < records.len() && records[i].entity == entity && distinct_entities(records)
                ==> find_record(records, entity) == Some(records[i]),
    decreases records.len(),
{
    if records.len() > 0 {
        let rest = records.drop_first();
        lemma_find_record_index(rest, entity);
        assert forall|i: int|
            0 <= i < records.len() && records[i].entity == entity && distinct_entities(records)
                implies find_record(records, entity) == Some(records[i]) by {
            if records[0].entity != entity {
                assert(rest[i - 1] == records[i]);
                assert(distinct_entities(rest)) by {
                    assert(forall|p: int, q: int|
                        0 <= p < q < rest.len() ==> rest[p] == records[p + 1] && rest[q]
                            == records[q + 1]);
                }
            }
        }
        if records[0].entity != entity {
            if find_record(records, entity) is Some {
                let i = choose|i: int| 0 <= i < rest.len() && rest[i].entity == entity;
                assert(records[i + 1].entity == entity);
            }
            if exists|i: int| 0 <= i < records.len() && records[i].entity == entity {
                let i = choose|i: int| 0 <= i < records.len() && records[i].entity == entity;
                assert(rest[i - 1].entity == entity);
            }
        }
    }
}

/// Searches the snapshot for the record carrying the given identifier.
pub fn find_record_exec(records: &Vec<EntityRecord>, entity: u64) -> (r: Option<EntityRecord>)
    ensures
        r == find_record(records@, entity),
{
    let n = records.len();
    let mut i: usize = 0;
    proof {
        assert(records@.skip(0) =~= records@);
    }
    while i < n
        invariant
            0 <= i <= n,
            n == records@.len(),
            find_record(records@, entity) == find_record(records@.skip(i as int), entity),
        decreases n - i,
    {
        if records[i].entity == entity {
            proof {
                assert(records@.skip(i as int)[0] == records@[i as int]);
            }
            return Some(records[i]);
        }
        proof {
            assert(records@.skip(i as int).drop_first() =~= records@.skip(i as int + 1));
        }
        i += 1;
    }
    proof {
        assert(records@.skip(n as int).len() == 0);
    }
    None
}

/// Tests whether the change list names the given entity.
pub fn in_modified_exec(modified: &Vec<u64>, entity: u64) -> (r: bool)
    ensures
        r == in_modified(modified@, entity),
{
    let n = modified.len();
    let mut i: usize = 0;
    while i < n
        invariant
            0 <= i <= n,
            n == modified@.len(),
            forall|j: int| 0 <= j < i ==> modified@[j] != entity,
        decreases n - i,
    {
        if modified[i] == entity {
            return true;
        }
        i += 1;
    }
    false
}

} // verus!
