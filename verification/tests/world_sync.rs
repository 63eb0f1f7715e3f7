use physics_sync::handle_table::EntityHandleTable;
use physics_sync::math::{Transform, Vec3};
use physics_sync::sync_bodies_to_physics::SyncBodiesToPhysicsSystem;
use physics_sync::types::{BodyDescriptor, BodyKind, EntityRecord};
use physics_sync::world::PhysicsWorld;
use physics_sync::sync_gravity_to_physics::SyncGravityToPhysicsSystem;
use physics_sync::types::{GravityMode, GravityOverride};
use physics_sync::physics_stepper::PhysicsStepperSystem;
use physics_sync::time_step::TimeStep;
use physics_sync::sync_bodies_from_physics::SyncBodiesFromPhysicsSystem;

fn record(entity: u64, body: Option<BodyDescriptor>, position: Vec3) -> EntityRecord {
    EntityRecord {
        entity,
        body,
        collider: None,
        gravity: None,
        transform: Transform { position, velocity: Vec3 { x: 0, y: 0, z: 0 } },
    }
}

fn still() -> Vec3 {
    Vec3 { x: 0, y: 0, z: 0 }
}

#[test]
fn body_sync_creates_a_body_for_a_new_descriptor() {
    let mut table = EntityHandleTable::new();
    let mut world = PhysicsWorld::new(still());
    let desc = BodyDescriptor { kind: BodyKind::Static, mass: 5, velocity: still() };
    let records = vec![record(7, Some(desc), Vec3 { x: 1, y: 2, z: 3 })];
    SyncBodiesToPhysicsSystem::new().run(&mut table, &mut world, &records, &Vec::new());
    let handle = table.body_handle(7).expect("a handle is recorded");
    let body = world.get_body(handle).expect("the body exists");
    assert_eq!(body.mass, 5);
    assert_eq!(body.kind, BodyKind::Static);
    assert_eq!(body.position, Vec3 { x: 1, y: 2, z: 3 });
}

#[test]
fn body_sync_removes_the_body_when_the_descriptor_is_gone() {
    let mut table = EntityHandleTable::new();
    let mut world = PhysicsWorld::new(still());
    let desc = BodyDescriptor { kind: BodyKind::Dynamic, mass: 1, velocity: still() };
    let records = vec![record(7, Some(desc), still())];
    SyncBodiesToPhysicsSystem::new().run(&mut table, &mut world, &records, &Vec::new());
    let handle = table.body_handle(7).unwrap();
    // next frame the descriptor is gone: the handle and the body go too
    let records = vec![record(7, None, still())];
    SyncBodiesToPhysicsSystem::new().run(&mut table, &mut world, &records, &Vec::new());
    assert!(table.body_handle(7).is_none());
    assert!(world.get_body(handle).is_none());
}

#[test]
fn body_sync_keeps_the_handle_across_frames() {
    let mut table = EntityHandleTable::new();
    let mut world = PhysicsWorld::new(still());
    let desc = BodyDescriptor { kind: BodyKind::Dynamic, mass: 1, velocity: still() };
    let records = vec![record(7, Some(desc), still()), record(8, Some(desc), still())];
    SyncBodiesToPhysicsSystem::new().run(&mut table, &mut world, &records, &Vec::new());
    let h7 = table.body_handle(7).unwrap();
    let h8 = table.body_handle(8).unwrap();
    assert_ne!(h7, h8);
    SyncBodiesToPhysicsSystem::new().run(&mut table, &mut world, &records, &Vec::new());
    assert_eq!(table.body_handle(7), Some(h7));
    assert_eq!(table.body_handle(8), Some(h8));
}

#[test]
fn a_static_body_never_moves_under_stepping() {
    let mut table = EntityHandleTable::new();
    let mut world = PhysicsWorld::new(Vec3 { x: 0, y: -10, z: 0 });
    let desc = BodyDescriptor { kind: BodyKind::Static, mass: 1, velocity: still() };
    let start = Vec3 { x: 4, y: 5, z: 6 };
    let records = vec![record(7, Some(desc), start)];
    SyncBodiesToPhysicsSystem::new().run(&mut table, &mut world, &records, &Vec::new());
    let handle = table.body_handle(7).unwrap();
    for _ in 0..50 {
        world.advance();
    }
    let body = world.get_body(handle).unwrap();
    assert_eq!(body.position, start);
    assert_eq!(body.velocity, still());
}

#[test]
fn a_dynamic_body_falls_under_gravity() {
    let mut table = EntityHandleTable::new();
    let mut world = PhysicsWorld::new(Vec3 { x: 0, y: -10, z: 0 });
    let desc = BodyDescriptor { kind: BodyKind::Dynamic, mass: 1, velocity: still() };
    let records = vec![record(7, Some(desc), still())];
    SyncBodiesToPhysicsSystem::new().run(&mut table, &mut world, &records, &Vec::new());
    let handle = table.body_handle(7).unwrap();
    world.advance();
    let body = world.get_body(handle).unwrap();
    assert_eq!(body.velocity, Vec3 { x: 0, y: -10, z: 0 });
    assert_eq!(body.position, Vec3 { x: 0, y: -10, z: 0 });
    world.advance();
    let body = world.get_body(handle).unwrap();
    assert_eq!(body.velocity, Vec3 { x: 0, y: -20, z: 0 });
    assert_eq!(body.position, Vec3 { x: 0, y: -30, z: 0 });
}

#[test]
fn a_changed_descriptor_is_pushed_into_the_body() {
    let mut table = EntityHandleTable::new();
    let mut world = PhysicsWorld::new(still());
    let desc = BodyDescriptor { kind: BodyKind::Dynamic, mass: 1, velocity: still() };
    let records = vec![record(7, Some(desc), Vec3 { x: 9, y: 0, z: 0 })];
    SyncBodiesToPhysicsSystem::new().run(&mut table, &mut world, &records, &Vec::new());
    let handle = table.body_handle(7).unwrap();
    let changed = BodyDescriptor {
        kind: BodyKind::Kinematic,
        mass: 8,
        velocity: Vec3 { x: 1, y: 0, z: 0 },
    };
    let records = vec![record(7, Some(changed), Vec3 { x: 9, y: 0, z: 0 })];
    SyncBodiesToPhysicsSystem::new().run(&mut table, &mut world, &records, &vec![7]);
    let body = world.get_body(handle).unwrap();
    assert_eq!(body.kind, BodyKind::Kinematic);
    assert_eq!(body.mass, 8);
    assert_eq!(body.velocity, Vec3 { x: 1, y: 0, z: 0 });
    // the position is kept, not re-read from the entity
    assert_eq!(body.position, Vec3 { x: 9, y: 0, z: 0 });
}

#[test]
fn saturating_arithmetic_clamps_at_the_range_ends() {
    let a = Vec3 { x: i64::MAX, y: i64::MIN, z: 1 };
    let b = Vec3 { x: 1, y: -1, z: 2 };
    let sum = a.sat_add3(b);
    assert_eq!(sum, Vec3 { x: i64::MAX, y: i64::MIN, z: 3 });
}

#[test]
fn gravity_override_is_written_into_the_body() {
    let mut table = EntityHandleTable::new();
    let mut world = PhysicsWorld::new(Vec3 { x: 0, y: -10, z: 0 });
    let desc = BodyDescriptor { kind: BodyKind::Dynamic, mass: 1, velocity: still() };
    let ov = GravityOverride { vector: Vec3 { x: 0, y: 3, z: 0 }, mode: GravityMode::Replace };
    let mut rec = record(7, Some(desc), still());
    rec.gravity = Some(ov);
    let records = vec![rec];
    SyncBodiesToPhysicsSystem::new().run(&mut table, &mut world, &records, &Vec::new());
    SyncGravityToPhysicsSystem::new().run(&table, &mut world, &records);
    let handle = table.body_handle(7).unwrap();
    assert_eq!(world.get_body(handle).unwrap().gravity_override, Some(ov));
    // the override replaces the world gravity in the next step
    world.advance();
    assert_eq!(world.get_body(handle).unwrap().velocity, Vec3 { x: 0, y: 3, z: 0 });
}

#[test]
fn stepper_run_advances_the_world_by_the_step_count() {
    let mut table = EntityHandleTable::new();
    let mut world = PhysicsWorld::new(Vec3 { x: 0, y: -1, z: 0 });
    let desc = BodyDescriptor { kind: BodyKind::Dynamic, mass: 1, velocity: still() };
    let records = vec![record(7, Some(desc), still())];
    SyncBodiesToPhysicsSystem::new().run(&mut table, &mut world, &records, &Vec::new());
    let mut stepper = PhysicsStepperSystem::new(TimeStep::new(1_000), 10);
    let steps = stepper.run(&mut world, 2_000);
    assert_eq!(steps, 2);
    let handle = table.body_handle(7).unwrap();
    // two sub-steps of unit gravity: velocity -2, position -1 + -2 = -3
    assert_eq!(world.get_body(handle).unwrap().velocity, Vec3 { x: 0, y: -2, z: 0 });
    assert_eq!(world.get_body(handle).unwrap().position, Vec3 { x: 0, y: -3, z: 0 });
}

#[test]
fn pose_sync_writes_the_body_pose_back_and_only_that() {
    let mut table = EntityHandleTable::new();
    let mut world = PhysicsWorld::new(Vec3 { x: 0, y: -1, z: 0 });
    let desc = BodyDescriptor { kind: BodyKind::Dynamic, mass: 1, velocity: still() };
    let mut records = vec![record(7, Some(desc), still()), record(8, None, Vec3 { x: 5, y: 5, z: 5 })];
    SyncBodiesToPhysicsSystem::new().run(&mut table, &mut world, &records, &Vec::new());
    world.advance();
    SyncBodiesFromPhysicsSystem::new().run(&table, &world, &mut records);
    assert_eq!(records[0].transform.position, Vec3 { x: 0, y: -1, z: 0 });
    assert_eq!(records[0].transform.velocity, Vec3 { x: 0, y: -1, z: 0 });
    assert_eq!(records[0].entity, 7);
    assert_eq!(records[0].body, Some(desc));
    // the entity without a handle is untouched
    assert_eq!(records[1].transform.position, Vec3 { x: 5, y: 5, z: 5 });
}

#[test]
fn a_static_body_round_trips_its_pose_unchanged() {
    let mut table = EntityHandleTable::new();
    let mut world = PhysicsWorld::new(Vec3 { x: 0, y: -10, z: 0 });
    let desc = BodyDescriptor { kind: BodyKind::Static, mass: 1, velocity: still() };
    let start = Vec3 { x: 4, y: 5, z: 6 };
    let mut records = vec![record(7, Some(desc), start)];
    for _ in 0..20 {
        SyncBodiesToPhysicsSystem::new().run(&mut table, &mut world, &records, &Vec::new());
        world.advance();
        world.advance();
        SyncBodiesFromPhysicsSystem::new().run(&table, &world, &mut records);
        assert_eq!(records[0].transform.position, start);
    }
}

#[test]
fn a_removed_gravity_override_falls_back_to_world_gravity() {
    let mut table = EntityHandleTable::new();
    let mut world = PhysicsWorld::new(Vec3 { x: 0, y: -10, z: 0 });
    let desc = BodyDescriptor { kind: BodyKind::Dynamic, mass: 1, velocity: still() };
    let ov = GravityOverride { vector: Vec3 { x: 0, y: 3, z: 0 }, mode: GravityMode::Replace };
    let mut rec = record(7, Some(desc), still());
    rec.gravity = Some(ov);
    let records = vec![rec];
    SyncBodiesToPhysicsSystem::new().run(&mut table, &mut world, &records, &Vec::new());
    SyncGravityToPhysicsSystem::new().run(&table, &mut world, &records);
    let handle = table.body_handle(7).unwrap();
    assert_eq!(world.get_body(handle).unwrap().gravity_override, Some(ov));
    // next frame the override is gone from the entity: the stage clears the
    // per-body field and the body falls under the world gravity again
    rec.gravity = None;
    let records = vec![rec];
    SyncBodiesToPhysicsSystem::new().run(&mut table, &mut world, &records, &Vec::new());
    SyncGravityToPhysicsSystem::new().run(&table, &mut world, &records);
    assert_eq!(world.get_body(handle).unwrap().gravity_override, None);
    world.advance();
    assert_eq!(world.get_body(handle).unwrap().velocity, Vec3 { x: 0, y: -10, z: 0 });
}
