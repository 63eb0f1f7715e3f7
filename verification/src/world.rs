//! The rigid-body world the pipeline owns.
//!
//! Bodies and colliders live in engine-owned arenas; a handle is an index
//! into its arena, and a removed slot stays empty so handles are never
//! reused.  One `advance` call consumes exactly one fixed time step: every
//! dynamic body first gains its effective gravity as velocity, then moves by
//! the resulting velocity; static and kinematic bodies never move.

use vstd::prelude::*;

use crate::math::{sat_add3_spec, Transform, Vec3};
use crate::types::{BodyKind, GravityOverride, GravityMode, Shape};

verus! {

/// One rigid body as the engine holds it.
#[derive(Clone, Copy, Debug, PartialEq, Eq)]
pub struct Body {
    pub kind: BodyKind,
    pub mass: u64,
    pub position: Vec3,
    /// Displacement per fixed step.
    pub velocity: Vec3,
    /// Per-body gravity field, written by the gravity-synchronization stage.
    pub gravity_override: Option<GravityOverride>,
}

/// One collider as the engine holds it, attached to exactly one body.
#[derive(Clone, Copy, Debug, PartialEq, Eq)]
pub struct Collider {
    /// Handle of the body the collider is attached to.
    pub body: u64,
    pub shape: Shape,
    pub offset: Vec3,
    pub friction: u64,
}

/// Mathematical view of the world: the two arenas and the global gravity.
#[verifier::ext_equal]
pub struct WorldModel {
    pub bodies: Seq<Option<Body>>,
    pub colliders: Seq<Option<Collider>>,
    /// Velocity gained per fixed step by a dynamic body without an override.
    pub gravity: Vec3,
}

/// The slot holds a live body.
pub open spec fn model_has_body(m: WorldModel, handle: u64) -> bool {
    handle < m.bodies.len() && m.bodies[handle as int] is Some
}

/// The slot holds a live collider.
pub open spec fn model_has_collider(m: WorldModel, handle: u64) -> bool {
    handle < m.colliders.len() && m.colliders[handle as int] is Some
}

/// The live body in the given slot.
pub open spec fn body_at(m: WorldModel, handle: u64) -> Body
    recommends
        model_has_body(m, handle),
{
    m.bodies[handle as int]->Some_0
}

/// The live collider in the given slot.
pub open spec fn collider_at(m: WorldModel, handle: u64) -> Collider
    recommends
        model_has_collider(m, handle),
{
    m.colliders[handle as int]->Some_0
}

/// Gravity acting on a body for one step: the world gravity, unless the
/// body's override replaces it or adds to it.
pub open spec fn effective_gravity(body: Body, world_gravity: Vec3) -> Vec3 {
    match body.gravity_override {
        None => world_gravity,
        Some(ov) => match ov.mode {
            GravityMode::Replace => ov.vector,
            GravityMode::Additive => sat_add3_spec(world_gravity, ov.vector),
        },
    }
}

/// One fixed step applied to one arena slot: a dynamic body accelerates by
/// its effective gravity and moves by the new velocity; any other body, and
/// an empty slot, is left exactly as it is.
pub open spec fn step_body(slot: Option<Body>, world_gravity: Vec3) -> Option<Body> {
    match slot {
        Some(body) => if body.kind == BodyKind::Dynamic {
            let velocity = sat_add3_spec(body.velocity, effective_gravity(body, world_gravity));
            Some(
                Body {
                    velocity,
                    position: sat_add3_spec(body.position, velocity),
                    ..body
                },
            )
        } else {
            Some(body)
        },
        None => None,
    }
}

/// One fixed step applied to the whole world: bodies are integrated slot by
/// slot; colliders and gravity are untouched.
pub open spec fn advance1(m: WorldModel) -> WorldModel {
    WorldModel {
        bodies: Seq::new(m.bodies.len(), |i: int| step_body(m.bodies[i], m.gravity)),
        ..m
    }
}

/// `n` fixed steps in sequence.
pub open spec fn advance_n(m: WorldModel, n: nat) -> WorldModel
    decreases n,
{
    if n == 0 {
        m
    } else {
        advance1(advance_n(m, (n - 1) as nat))
    }
}

/// The world: body and collider arenas and the global gravity.
pub struct PhysicsWorld {
    /// Body arena; a handle is an index, an empty slot is a removed body.
    pub bodies: Vec<Option<Body>>,
    /// Collider arena.
    pub colliders: Vec<Option<Collider>>,
    /// Velocity gained per fixed step by a dynamic body without an override.
    pub gravity: Vec3,
}

impl View for PhysicsWorld {
    type V = WorldModel;

    open spec fn view(&self) -> WorldModel {
        WorldModel { bodies: self.bodies@, colliders: self.colliders@, gravity: self.gravity }
    }
}

impl PhysicsWorld {
    /// Every live collider is attached to a live body.
    pub open spec fn wf(self) -> bool {
        forall|c: int|
            0 <= c < self@.colliders.len() && self@.colliders[c] is Some
                ==> model_has_body(self@, self@.colliders[c]->Some_0.body)
    }

    /// Builds an empty world with the given global gravity.
    pub fn new(gravity: Vec3) -> (r: Self)
        ensures
            r.wf(),
            r@.bodies.len() == 0,
            r@.colliders.len() == 0,
            r@.gravity == gravity,
    {
        PhysicsWorld { bodies: Vec::new(), colliders: Vec::new(), gravity }
    }

    /// Creates a rigid body and returns its fresh handle: the handle was
    /// never live before, every other slot is untouched.
    pub fn create_body(&mut self, body: Body) -> (handle: u64)
        requires
            old(self).wf(),
            old(self)@.bodies.len() < u64::MAX,
        ensures
            final(self).wf(),
            handle == old(self)@.bodies.len(),
            !model_has_body(old(self)@, handle),
            model_has_body(final(self)@, handle),
            body_at(final(self)@, handle) == body,
            final(self)@.bodies =~= old(self)@.bodies.push(Some(body)),
            final(self)@.colliders == old(self)@.colliders,
            final(self)@.gravity == old(self)@.gravity,
            forall|h: u64|
                h != handle ==> model_has_body(final(self)@, h) == model_has_body(old(self)@, h),
            forall|h: u64|
                h != handle && model_has_body(old(self)@, h) ==> body_at(final(self)@, h)
                    == body_at(old(self)@, h),
    {
        let handle = self.bodies.len() as u64;
        self.bodies.push(Some(body));
        handle
    }

    /// Removes a rigid body and, as the engine does, every collider attached
    /// to it.  Every other slot is untouched.
    pub fn remove_body(&mut self, handle: u64)
        requires
            old(self).wf(),
        ensures
            final(self).wf(),
            !model_has_body(final(self)@, handle),
            final(self)@.bodies.len() == old(self)@.bodies.len(),
            final(self)@.colliders.len() == old(self)@.colliders.len(),
            final(self)@.gravity == old(self)@.gravity,
            forall|h: u64|
                h != handle ==> model_has_body(final(self)@, h) == model_has_body(old(self)@, h),
            forall|h: u64|
                h != handle && model_has_body(old(self)@, h) ==> body_at(final(self)@, h)
                    == body_at(old(self)@, h),
            forall|c: int|
                0 <= c < old(self)@.colliders.len() ==> final(self)@.colliders[c] == (match old(
                    self,
                )@.colliders[c] {
                    Some(col) => if col.body == handle {
                        None::<Collider>
                    } else {
                        Some(col)
                    },
                    None => None::<Collider>,
                }),
    {
        if handle < self.bodies.len() as u64 {
            self.bodies[handle as usize] = None;
        }
        let ghost bodies_after = self.bodies@;
        let n = self.colliders.len();
        let mut c: usize = 0;
        while c < n
            invariant
                0 <= c <= n,
                n == self.colliders@.len(),
                self.bodies@ == bodies_after,
                bodies_after.len() == old(self)@.bodies.len(),
                handle < old(self)@.bodies.len() ==> bodies_after =~= old(self)@.bodies.update(
                    handle as int,
                    None::<Body>,
                ),
                handle >= old(self)@.bodies.len() ==> bodies_after == old(self)@.bodies,
                self.gravity == old(self).gravity,
                forall|j: int|
                    c <= j < n ==> self.colliders@[j] == old(self)@.colliders[j],
                forall|j: int|
                    0 <= j < c ==> self.colliders@[j] == (match old(self)@.colliders[j] {
                        Some(col) => if col.body == handle {
                            None::<Collider>
                        } else {
                            Some(col)
                        },
                        None => None::<Collider>,
                    }),
            decreases n - c,
        {
            let remove = match self.colliders[c] {
                Some(col) => col.body == handle,
                None => false,
            };
            if remove {
                self.colliders[c] = None;
            }
            c += 1;
        }
    }

    /// Pushes a changed descriptor's fields into an existing body: kind,
    /// mass and velocity are overwritten, the position and the per-body
    /// gravity field are kept.
    pub fn update_body(&mut self, handle: u64, kind: BodyKind, mass: u64, velocity: Vec3)
        requires
            old(self).wf(),
            model_has_body(old(self)@, handle),
        ensures
            final(self).wf(),
            final(self)@.bodies.len() == old(self)@.bodies.len(),
            final(self)@.colliders == old(self)@.colliders,
            final(self)@.gravity == old(self)@.gravity,
            model_has_body(final(self)@, handle),
            body_at(final(self)@, handle) == (Body {
                kind,
                mass,
                velocity,
                position: body_at(old(self)@, handle).position,
                gravity_override: body_at(old(self)@, handle).gravity_override,
            }),
            forall|h: u64|
                h != handle ==> model_has_body(final(self)@, h) == model_has_body(old(self)@, h),
            forall|h: u64|
                h != handle && model_has_body(old(self)@, h) ==> body_at(final(self)@, h)
                    == body_at(old(self)@, h),
    {
        let n = self.bodies.len();
        proof {
            assert(handle < n && (handle as usize) as int == handle as int);
        }
        let slot = self.bodies[handle as usize];
        match slot {
            Some(body) => {
                self.bodies[handle as usize] = Some(
                    Body { kind, mass, velocity, ..body },
                );
            },
            None => {},
        }
    }

    /// Writes a per-body gravity override; every other body field and every
    /// other slot is untouched.
    pub fn set_body_gravity(&mut self, handle: u64, gravity_override: Option<GravityOverride>)
        requires
            old(self).wf(),
            model_has_body(old(self)@, handle),
        ensures
            final(self).wf(),
            final(self)@.bodies.len() == old(self)@.bodies.len(),
            final(self)@.colliders == old(self)@.colliders,
            final(self)@.gravity == old(self)@.gravity,
            model_has_body(final(self)@, handle),
            body_at(final(self)@, handle) == (Body {
                gravity_override,
                ..body_at(old(self)@, handle)
            }),
            forall|h: u64|
                h != handle ==> model_has_body(final(self)@, h) == model_has_body(old(self)@, h),
            forall|h: u64|
                h != handle && model_has_body(old(self)@, h) ==> body_at(final(self)@, h)
                    == body_at(old(self)@, h),
    {
        let n = self.bodies.len();
        proof {
            assert(handle < n && (handle as usize) as int == handle as int);
        }
        let slot = self.bodies[handle as usize];
        match slot {
            Some(body) => {
                self.bodies[handle as usize] = Some(Body { gravity_override, ..body });
            },
            None => {},
        }
    }

    /// Reads a body back.
    pub fn get_body(&self, handle: u64) -> (r: Option<Body>)
        ensures
            r == (if model_has_body(self@, handle) {
                Some(body_at(self@, handle))
            } else {
                None::<Body>
            }),
    {
        let n = self.bodies.len();
        if handle < n as u64 {
            self.bodies[handle as usize]
        } else {
            None
        }
    }

    /// Creates a collider attached to a live body and returns its fresh
    /// handle; every other slot is untouched.
    pub fn create_collider(&mut self, collider: Collider) -> (handle: u64)
        requires
            old(self).wf(),
            model_has_body(old(self)@, collider.body),
            old(self)@.colliders.len() < u64::MAX,
        ensures
            final(self).wf(),
            handle == old(self)@.colliders.len(),
            !model_has_collider(old(self)@, handle),
            model_has_collider(final(self)@, handle),
            collider_at(final(self)@, handle) == collider,
            final(self)@.colliders =~= old(self)@.colliders.push(Some(collider)),
            final(self)@.bodies == old(self)@.bodies,
            final(self)@.gravity == old(self)@.gravity,
            forall|h: u64|
                h != handle ==> model_has_collider(final(self)@, h) == model_has_collider(
                    old(self)@,
                    h,
                ),
            forall|h: u64|
                h != handle && model_has_collider(old(self)@, h) ==> collider_at(final(self)@, h)
                    == collider_at(old(self)@, h),
    {
        let handle = self.colliders.len() as u64;
        self.colliders.push(Some(collider));
        handle
    }

    /// Removes a collider if the slot is live; a dead slot is already
    /// consistent and stays as it is.  No body is touched.
    pub fn remove_collider(&mut self, handle: u64)
        requires
            old(self).wf(),
        ensures
            final(self).wf(),
            !model_has_collider(final(self)@, handle) || handle >= old(self)@.colliders.len(),
            handle < old(self)@.colliders.len() ==> final(self)@.colliders =~= old(
                self,
            )@.colliders.update(handle as int, None::<Collider>),
            handle >= old(self)@.colliders.len() ==> final(self)@.colliders == old(
                self,
            )@.colliders,
            final(self)@.bodies == old(self)@.bodies,
            final(self)@.gravity == old(self)@.gravity,
    {
        let n = self.colliders.len();
        if handle < n as u64 {
            self.colliders[handle as usize] = None;
        }
    }

    /// Updates a collider's shape, offset and friction in place; the body
    /// attachment is kept, every other slot is untouched.
    pub fn update_collider(&mut self, handle: u64, shape: Shape, offset: Vec3, friction: u64)
        requires
            old(self).wf(),
            model_has_collider(old(self)@, handle),
        ensures
            final(self).wf(),
            final(self)@.bodies == old(self)@.bodies,
            final(self)@.gravity == old(self)@.gravity,
            final(self)@.colliders.len() == old(self)@.colliders.len(),
            model_has_collider(final(self)@, handle),
            collider_at(final(self)@, handle) == (Collider {
                shape,
                offset,
                friction,
                body: collider_at(old(self)@, handle).body,
            }),
            forall|h: u64|
                h != handle && h < old(self)@.colliders.len() ==> final(self)@.colliders[h as int]
                    == old(self)@.colliders[h as int],
    {
        let n = self.colliders.len();
        proof {
            assert(handle < n && (handle as usize) as int == handle as int);
        }
        let slot = self.colliders[handle as usize];
        match slot {
            Some(col) => {
                self.colliders[handle as usize] = Some(
                    Collider { shape, offset, friction, ..col },
                );
            },
            None => {},
        }
    }

    /// Advances the whole world by exactly one fixed step.
    pub fn advance(&mut self)
        requires
            old(self).wf(),
        ensures
            final(self).wf(),
            final(self)@ == advance1(old(self)@),
    {
        let n = self.bodies.len();
        let mut i: usize = 0;
        while i < n
            invariant
                0 <= i <= n,
                n == self.bodies@.len(),
                self.colliders@ == old(self)@.colliders,
                self.gravity == old(self)@.gravity,
                forall|j: int|
                    0 <= j < i ==> self.bodies@[j] == step_body(old(self)@.bodies[j], old(self)@.gravity),
                forall|j: int| i <= j < n ==> self.bodies@[j] == old(self)@.bodies[j],
            decreases n - i,
        {
            let slot = self.bodies[i];
            match slot {
                Some(body) => {
                    if matches!(body.kind, BodyKind::Dynamic) {
                        let gravity = self.gravity;
                        let velocity = body.velocity.sat_add3(
                            match body.gravity_override {
                                None => gravity,
                                Some(ov) => match ov.mode {
                                    GravityMode::Replace => ov.vector,
                                    GravityMode::Additive => gravity.sat_add3(ov.vector),
                                },
                            },
                        );
                        let position = body.position.sat_add3(velocity);
                        self.bodies[i] = Some(Body { velocity, position, ..body });
                    }
                },
                None => {},
            }
            i += 1;
        }
        proof {
            assert(self@.bodies =~= advance1(old(self)@).bodies);
            assert(self@ =~= advance1(old(self)@));
            assert forall|c: int|
                0 <= c < self@.colliders.len() && self@.colliders[c] is Some implies model_has_body(
                self@,
                self@.colliders[c]->Some_0.body,
            ) by {
                assert(old(self)@.colliders[c] is Some);
            }
        }
    }
}

/// Integration never moves a body that is not dynamic: however many fixed
/// steps the world advances by, a static or kinematic body keeps its
/// position, velocity and every other field bit for bit.
pub proof fn lemma_static_body_never_moves(m: WorldModel, handle: u64, n: nat)
    requires
        model_has_body(m, handle),
        body_at(m, handle).kind != BodyKind::Dynamic,
    ensures
        model_has_body(advance_n(m, n), handle),
        body_at(advance_n(m, n), handle) == body_at(m, handle),
    decreases n,
{
    if n > 0 {
        lemma_static_body_never_moves(m, handle, (n - 1) as nat);
    }
}

/// Advancing preserves which slots are live: a body neither appears nor
/// disappears by stepping, and colliders are untouched.
pub proof fn lemma_advance_preserves_liveness(m: WorldModel, handle: u64, n: nat)
    ensures
        model_has_body(advance_n(m, n), handle) == model_has_body(m, handle),
        advance_n(m, n).colliders == m.colliders,
        advance_n(m, n).gravity == m.gravity,
        advance_n(m, n).bodies.len() == m.bodies.len(),
    decreases n,
{
    if n > 0 {
        lemma_advance_preserves_liveness(m, handle, (n - 1) as nat);
    }
}

} // verus!
