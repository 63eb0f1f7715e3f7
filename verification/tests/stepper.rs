use physics_sync::bundle::PhysicsBundle;
use physics_sync::physics_stepper::PhysicsStepperSystem;
use physics_sync::time_step::TimeStep;
use physics_sync::types::PhysicsError;
use physics_sync::bundle::{StageDep, StageId};

#[test]
fn zero_delta_executes_no_steps() {
    let mut stepper = PhysicsStepperSystem::new(TimeStep::new(1_000), 10);
    let steps = stepper.advance_accumulator(0);
    assert_eq!(steps, 0);
    assert_eq!(stepper.accumulator(), 0);
}

#[test]
fn negative_delta_counts_as_zero() {
    let mut stepper = PhysicsStepperSystem::new(TimeStep::new(1_000), 10);
    let steps = stepper.advance_accumulator(-5_000);
    assert_eq!(steps, 0);
    assert_eq!(stepper.accumulator(), 0);
}

#[test]
fn residue_below_one_step_is_carried() {
    let mut stepper = PhysicsStepperSystem::new(TimeStep::new(1_000), 10);
    let steps = stepper.advance_accumulator(2_500);
    assert_eq!(steps, 2);
    assert_eq!(stepper.accumulator(), 500);
}

#[test]
fn sustained_double_rate_runs_two_steps_per_frame_without_drift() {
    // fixed delta standing for one sixtieth of a second, frame delta for one
    // thirtieth: two sub-steps per frame, zero residue, for a hundred frames.
    let fixed: u64 = 16_666_667;
    let mut stepper = PhysicsStepperSystem::new(TimeStep::new(fixed), 10);
    for _ in 0..100 {
        let steps = stepper.advance_accumulator((2 * fixed) as i64);
        assert_eq!(steps, 2);
        assert_eq!(stepper.accumulator(), 0);
    }
}

#[test]
fn overload_executes_the_bound_and_discards_the_rest() {
    // a frame delta worth sixty fixed steps under a bound of two: two
    // sub-steps run and the remaining fifty-eight steps' worth of time is
    // discarded, not carried.
    let fixed: u64 = 16_666_667;
    let mut stepper = PhysicsStepperSystem::new(TimeStep::new(fixed), 2);
    let steps = stepper.advance_accumulator((60 * fixed) as i64);
    assert_eq!(steps, 2);
    assert_eq!(stepper.accumulator(), 0);
}

#[test]
fn steps_never_exceed_the_bound() {
    let mut stepper = PhysicsStepperSystem::new(TimeStep::new(10), 3);
    for delta in [0i64, 5, 10, 100, 1_000_000, i64::MAX] {
        let steps = stepper.advance_accumulator(delta);
        assert!(steps <= 3);
    }
}

#[test]
fn bundle_defaults_match_the_documented_configuration() {
    let bundle = PhysicsBundle::new();
    assert_eq!(bundle.timestep.nanos, 16_666_667);
    assert_eq!(bundle.max_timesteps, 10);
    assert!(bundle.dep.is_empty());
}

#[test]
fn bundle_builders_replace_each_field() {
    let bundle = PhysicsBundle::new()
        .with_dep(vec![String::from("input"), String::from("animation")])
        .with_timestep(TimeStep::new(2_000))
        .with_max_timesteps(4);
    assert_eq!(bundle.dep.len(), 2);
    assert_eq!(bundle.dep[0], "input");
    assert_eq!(bundle.timestep.nanos, 2_000);
    assert_eq!(bundle.max_timesteps, 4);
}

#[test]
fn building_with_zero_timestep_is_refused() {
    let r = PhysicsBundle::new().with_timestep(TimeStep::new(0)).build();
    assert!(matches!(r, Err(PhysicsError::InvalidTimeStep)));
}

#[test]
fn building_with_nonpositive_substep_bound_is_refused() {
    let r = PhysicsBundle::new().with_max_timesteps(0).build();
    assert!(matches!(r, Err(PhysicsError::InvalidMaxTimesteps)));
    let r = PhysicsBundle::new().with_max_timesteps(-3).build();
    assert!(matches!(r, Err(PhysicsError::InvalidMaxTimesteps)));
}

#[test]
fn building_with_overflowing_clock_is_refused() {
    let r = PhysicsBundle::new()
        .with_timestep(TimeStep::new(u64::MAX))
        .with_max_timesteps(2)
        .build();
    assert!(matches!(r, Err(PhysicsError::TimeStepTooLarge)));
}

#[test]
fn building_a_valid_bundle_yields_an_empty_accumulator() {
    let pipeline = PhysicsBundle::new().build().unwrap();
    assert_eq!(pipeline.stepper.accumulator(), 0);
}

#[test]
fn registrations_fix_the_dependency_graph() {
    let bundle = PhysicsBundle::new().with_dep(vec![String::from("input")]);
    let stages = bundle.registrations();
    assert_eq!(stages.len(), 5);
    assert_eq!(stages[0].id, StageId::SyncBodiesToPhysics);
    assert!(matches!(&stages[0].dependencies[0], StageDep::Host(s) if s == "input"));
    assert_eq!(stages[1].id, StageId::SyncGravityToPhysics);
    assert!(matches!(&stages[1].dependencies[0], StageDep::Host(s) if s == "input"));
    assert_eq!(stages[2].id, StageId::SyncCollidersToPhysics);
    assert_eq!(stages[2].dependencies, vec![StageDep::Stage(StageId::SyncBodiesToPhysics)]);
    assert_eq!(stages[3].id, StageId::PhysicsStepper);
    assert_eq!(
        stages[3].dependencies,
        vec![
            StageDep::Stage(StageId::SyncBodiesToPhysics),
            StageDep::Stage(StageId::SyncGravityToPhysics),
            StageDep::Stage(StageId::SyncCollidersToPhysics),
        ]
    );
    assert_eq!(stages[4].id, StageId::SyncBodiesFromPhysics);
    assert_eq!(stages[4].dependencies, vec![StageDep::Stage(StageId::PhysicsStepper)]);
}
