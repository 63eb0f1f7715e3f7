//! The bundle: the host-facing configuration of the whole pipeline.
//!
//! A bundle carries the fixed time step, the bound on sub-steps per frame,
//! and the names of the host stages the pipeline should run after.  Building
//! it validates the configuration — an invalid one is refused outright — and
//! yields the stepper that drives the fixed-timestep loop.

use vstd::prelude::*;

use crate::physics_stepper::PhysicsStepperSystem;
use crate::time_step::TimeStep;
use crate::types::PhysicsError;

verus! {

/// One of the five stages of the pipeline, in the order they must run.
#[derive(Clone, Copy, Debug, PartialEq, Eq, Structural)]
pub enum StageId {
    /// Creates, updates and removes rigid bodies and their handles.
    SyncBodiesToPhysics,
    /// Writes per-entity gravity overrides into their bodies.
    SyncGravityToPhysics,
    /// Creates, updates and removes colliders attached to the bodies.
    SyncCollidersToPhysics,
    /// Advances the engine by a bounded number of fixed steps.
    PhysicsStepper,
    /// Reads resulting poses back into the entities.
    SyncBodiesFromPhysics,
}

/// A predecessor of a stage in the host's execution graph: either a host
/// stage named by the bundle's dependency list, or one of the pipeline's
/// own stages.
#[derive(Debug, PartialEq, Eq)]
pub enum StageDep {
    Host(String),
    Stage(StageId),
}

/// One stage together with the set of predecessors it must run after.
#[derive(Debug)]
pub struct StageRegistration {
    pub id: StageId,
    pub dependencies: Vec<StageDep>,
}

/// The dependency list holds exactly the host stages the bundle names.
pub open spec fn host_deps_ok(deps: Seq<StageDep>, dep: Seq<String>) -> bool {
    &&& deps.len() == dep.len()
    &&& forall|j: int|
        0 <= j < dep.len() ==> ((#[trigger] deps[j]) matches StageDep::Host(s) && s@ == dep[j]@)
}

/// The stage list of the pipeline: exactly the five stages, each with
/// exactly the predecessor set of the dependency graph — body and gravity
/// synchronization after the caller's host stages, collider
/// synchronization after body synchronization, the stepper after all three
/// synchronization stages, and the pose read-back after the stepper.
pub open spec fn stages_ok(stages: Seq<StageRegistration>, dep: Seq<String>) -> bool {
    &&& stages.len() == 5
    &&& stages[0].id == StageId::SyncBodiesToPhysics
    &&& host_deps_ok(stages[0].dependencies@, dep)
    &&& stages[1].id == StageId::SyncGravityToPhysics
    &&& host_deps_ok(stages[1].dependencies@, dep)
    &&& stages[2].id == StageId::SyncCollidersToPhysics
    &&& stages[2].dependencies@ =~= seq![StageDep::Stage(StageId::SyncBodiesToPhysics)]
    &&& stages[3].id == StageId::PhysicsStepper
    &&& stages[3].dependencies@ =~= seq![
        StageDep::Stage(StageId::SyncBodiesToPhysics),
        StageDep::Stage(StageId::SyncGravityToPhysics),
        StageDep::Stage(StageId::SyncCollidersToPhysics),
    ]
    &&& stages[4].id == StageId::SyncBodiesFromPhysics
    &&& stages[4].dependencies@ =~= seq![StageDep::Stage(StageId::PhysicsStepper)]
}

/// The built pipeline: the stepper that drives the fixed-timestep loop and
/// the five stage registrations the host inserts into its execution graph.
pub struct PhysicsPipeline {
    pub stepper: PhysicsStepperSystem,
    pub stages: Vec<StageRegistration>,
}

/// Configuration of the synchronization-and-stepping pipeline.
pub struct PhysicsBundle {
    /// Names of host stages that every stage of this pipeline depends on.
    pub dep: Vec<String>,
    /// Length of one fixed physics step.
    pub timestep: TimeStep,
    /// Upper bound on the sub-steps executed in a single frame.
    pub max_timesteps: i32,
}

impl PhysicsBundle {
    /// The configuration the stepper can be built from.
    pub open spec fn valid_config(self) -> bool {
        &&& self.timestep.is_valid()
        &&& self.max_timesteps >= 1
        &&& (self.max_timesteps as int) * (self.timestep.nanos as int) <= i64::MAX as int
    }

    /// A bundle with no extra dependencies, the default time step and at
    /// most ten sub-steps per frame.
    pub fn new() -> (r: Self)
        ensures
            r.dep@.len() == 0,
            r.timestep.nanos == crate::time_step::DEFAULT_TIME_STEP_NANOS,
            r.max_timesteps == 10,
            r.valid_config(),
    {
        Self::default()
    }

    /// Replaces the list of host stages the pipeline depends on.
    pub fn with_dep(self, dep: Vec<String>) -> (r: Self)
        ensures
            r.dep == dep,
            r.timestep == self.timestep,
            r.max_timesteps == self.max_timesteps,
    {
        let mut this = self;
        this.dep = dep;
        this
    }

    /// Sets the time step the stepper advances by.
    pub fn with_timestep(self, timestep: TimeStep) -> (r: Self)
        ensures
            r.timestep == timestep,
            r.dep == self.dep,
            r.max_timesteps == self.max_timesteps,
    {
        let mut this = self;
        this.timestep = timestep;
        this
    }

    /// Sets the maximum number of physics sub-steps simulated in a single
    /// frame.
    pub fn with_max_timesteps(self, max_timesteps: i32) -> (r: Self)
        ensures
            r.max_timesteps == max_timesteps,
            r.dep == self.dep,
            r.timestep == self.timestep,
    {
        let mut this = self;
        this.max_timesteps = max_timesteps;
        this
    }

    /// The host stages of the dependency list, as predecessors.
    fn host_deps(&self) -> (r: Vec<StageDep>)
        ensures
            host_deps_ok(r@, self.dep@),
    {
        let n = self.dep.len();
        let mut deps: Vec<StageDep> = Vec::new();
        let mut j: usize = 0;
        while j < n
            invariant
                0 <= j <= n,
                n == self.dep@.len(),
                deps@.len() == j,
                forall|k: int|
                    0 <= k < j ==> ((#[trigger] deps@[k]) matches StageDep::Host(s) && s@
                        == self.dep@[k]@),
            decreases n - j,
        {
            deps.push(StageDep::Host(self.dep[j].clone()));
            j += 1;
        }
        deps
    }

    /// The five stage registrations with the dependency edges of the
    /// pipeline: body and gravity synchronization run after the caller's
    /// host stages, collider synchronization after body synchronization,
    /// the stepper after all three, and the pose read-back after the
    /// stepper.
    pub fn registrations(&self) -> (r: Vec<StageRegistration>)
        ensures
            stages_ok(r@, self.dep@),
    {
        let mut stages: Vec<StageRegistration> = Vec::new();
        stages.push(
            StageRegistration { id: StageId::SyncBodiesToPhysics, dependencies: self.host_deps() },
        );
        stages.push(
            StageRegistration { id: StageId::SyncGravityToPhysics, dependencies: self.host_deps() },
        );
        let mut collider_deps: Vec<StageDep> = Vec::new();
        collider_deps.push(StageDep::Stage(StageId::SyncBodiesToPhysics));
        stages.push(
            StageRegistration {
                id: StageId::SyncCollidersToPhysics,
                dependencies: collider_deps,
            },
        );
        let mut stepper_deps: Vec<StageDep> = Vec::new();
        stepper_deps.push(StageDep::Stage(StageId::SyncBodiesToPhysics));
        stepper_deps.push(StageDep::Stage(StageId::SyncGravityToPhysics));
        stepper_deps.push(StageDep::Stage(StageId::SyncCollidersToPhysics));
        stages.push(
            StageRegistration { id: StageId::PhysicsStepper, dependencies: stepper_deps },
        );
        let mut pose_deps: Vec<StageDep> = Vec::new();
        pose_deps.push(StageDep::Stage(StageId::PhysicsStepper));
        stages.push(
            StageRegistration { id: StageId::SyncBodiesFromPhysics, dependencies: pose_deps },
        );
        stages
    }

    /// Validates the configuration and builds the pipeline: the stepper,
    /// plus the five stage registrations whose predecessor sets embed the
    /// caller's dependency list exactly.  Exactly the invalid
    /// configurations are refused: a zero time step, a sub-step bound below
    /// one, or a product that overflows the frame clock.
    pub fn build(self) -> (r: Result<PhysicsPipeline, PhysicsError>)
        ensures
            r is Ok <==> self.valid_config(),
            r is Ok ==> {
                let pipeline = r->Ok_0;
                &&& pipeline.stepper.wf()
                &&& pipeline.stepper.time_step == self.timestep
                &&& pipeline.stepper.max_timesteps == self.max_timesteps
                &&& pipeline.stepper.accumulator == 0
                &&& stages_ok(pipeline.stages@, self.dep@)
            },
            self.timestep.nanos == 0 ==> (r matches Err(e) && e
                == PhysicsError::InvalidTimeStep),
            self.timestep.nanos >= 1 && self.max_timesteps < 1 ==> (r matches Err(e) && e
                == PhysicsError::InvalidMaxTimesteps),
            self.timestep.nanos >= 1 && self.max_timesteps >= 1 && !self.valid_config() ==> (r
                matches Err(e) && e == PhysicsError::TimeStepTooLarge),
    {
        if self.timestep.nanos == 0 {
            Err(PhysicsError::InvalidTimeStep)
        } else if self.max_timesteps < 1 {
            Err(PhysicsError::InvalidMaxTimesteps)
        } else if {
            proof {
                let a = self.max_timesteps as u64 as u128;
                let b = self.timestep.nanos as u128;
                assert(a * b < u128::MAX) by (nonlinear_arith)
                    requires
                        a <= u64::MAX,
                        b <= u64::MAX,
                ;
            }
            (self.max_timesteps as u64 as u128) * (self.timestep.nanos as u128)
                > i64::MAX as u128
        } {
            Err(PhysicsError::TimeStepTooLarge)
        } else {
            let stages = self.registrations();
            let stepper = PhysicsStepperSystem::new(self.timestep, self.max_timesteps);
            Ok(PhysicsPipeline { stepper, stages })
        }
    }
}

impl Default for PhysicsBundle {
    /// The default bundle: no dependencies, the default time step, at most
    /// ten sub-steps per frame.
    fn default() -> (r: Self)
        ensures
            r.dep@.len() == 0,
            r.timestep.nanos == crate::time_step::DEFAULT_TIME_STEP_NANOS,
            r.max_timesteps == 10,
    {
        PhysicsBundle { dep: Vec::new(), timestep: TimeStep::default(), max_timesteps: 10 }
    }
}

} // verus!
