//! Synchronization of an entity world with a fixed-timestep rigid-body
//! simulation.
//!
//! The pipeline runs once per frame in a fixed dependency order: body
//! synchronization, then gravity synchronization, then the bounded
//! fixed-timestep stepper, then the pose read-back; the bundle's stage
//! registrations also carry the collider-synchronization stage of that
//! graph.  Each stage carries a contract, and the invariants — the handle
//! bijection, same-frame cleanup, and the bound on sub-steps per frame —
//! are proved.

pub mod math;
pub mod types;
pub mod time_step;
pub mod handle_table;
pub mod world;
pub mod physics_stepper;
pub mod sync_bodies_to_physics;
pub mod sync_gravity_to_physics;

pub mod sync_bodies_from_physics;
pub mod bundle;
