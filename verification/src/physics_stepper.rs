//! The accumulator-based fixed-timestep stepper.
//!
//! Each frame the stepper adds the elapsed real time to an accumulator,
//! executes at most `max_timesteps` whole fixed steps out of it, and — when
//! real time arrives faster than the bounded number of steps can consume it —
//! discards the excess instead of carrying it forward, so a slow frame can
//! never trigger an unbounded catch-up.

use vstd::prelude::*;
use vstd::arithmetic::div_mod::{
    lemma_div_is_ordered, lemma_div_multiples_vanish, lemma_fundamental_div_mod, lemma_mod_bound,
};
use vstd::arithmetic::mul::{lemma_mul_inequality, lemma_mul_is_commutative};

use crate::time_step::TimeStep;
use crate::world::{advance1, advance_n, PhysicsWorld};

verus! {

/// Elapsed real time charged to the accumulator for a frame: a negative
/// frame delta is treated as zero elapsed time.
pub open spec fn charged_delta(frame_delta: i64) -> int {
    if frame_delta >= 0 {
        frame_delta as int
    } else {
        0
    }
}

/// Number of sub-steps executed for one frame: the whole fixed steps held by
/// the accumulator plus the frame delta, clamped to `max_timesteps`.
pub open spec fn steps_of(acc: int, fixed: u64, max_timesteps: i32, frame_delta: i64) -> int {
    let total = acc + charged_delta(frame_delta);
    if total / (fixed as int) < max_timesteps as int {
        total / (fixed as int)
    } else {
        max_timesteps as int
    }
}

/// Accumulator value carried to the next frame: the residue after the
/// executed sub-steps, except that a residue still worth more than
/// `max_timesteps` further steps is discarded entirely.
pub open spec fn acc_after(acc: int, fixed: u64, max_timesteps: i32, frame_delta: i64) -> int {
    let total = acc + charged_delta(frame_delta);
    let residue = total - steps_of(acc, fixed, max_timesteps, frame_delta) * (fixed as int);
    if residue > (max_timesteps as int) * (fixed as int) {
        0
    } else {
        residue
    }
}

/// Advances the physics clock: holds the residual real time not yet consumed
/// by a whole fixed step, and decides each frame how many bounded sub-steps
/// to execute.
pub struct PhysicsStepperSystem {
    /// Length of one fixed sub-step.
    pub time_step: TimeStep,
    /// Upper bound on the sub-steps executed in a single frame.
    pub max_timesteps: i32,
    /// Residual real time, in nanoseconds, not yet consumed by a whole step.
    pub accumulator: u64,
}

impl PhysicsStepperSystem {
    /// The configuration is valid and the accumulator is within the bound
    /// that the discard policy maintains.
    pub open spec fn wf(self) -> bool {
        &&& self.time_step.is_valid()
        &&& self.max_timesteps >= 1
        &&& (self.max_timesteps as int) * (self.time_step.nanos as int) <= i64::MAX as int
        &&& self.accumulator as int <= (self.max_timesteps as int) * (self.time_step.nanos as int)
    }

    /// Builds a stepper with a validated configuration and an empty
    /// accumulator.
    pub fn new(time_step: TimeStep, max_timesteps: i32) -> (r: Self)
        requires
            time_step.is_valid(),
            max_timesteps >= 1,
            (max_timesteps as int) * (time_step.nanos as int) <= i64::MAX as int,
        ensures
            r.wf(),
            r.time_step == time_step,
            r.max_timesteps == max_timesteps,
            r.accumulator == 0,
    {
        PhysicsStepperSystem { time_step, max_timesteps, accumulator: 0 }
    }

    /// Residual time currently held by the accumulator, in nanoseconds.
    pub fn accumulator(&self) -> (r: u64)
        ensures
            r == self.accumulator,
    {
        self.accumulator
    }

    /// Charges one frame's elapsed real time and returns how many fixed
    /// sub-steps the frame must execute.  A negative delta counts as zero, the
    /// step count never exceeds `max_timesteps`, and an overloaded residue is
    /// discarded rather than carried.  Note that a zero-delta frame still
    /// consumes whole fixed steps already carried by the accumulator: the
    /// step count depends on the accumulated time, not on this frame's
    /// share of it.
    pub fn advance_accumulator(&mut self, frame_delta: i64) -> (steps: u32)
        requires
            old(self).wf(),
        ensures
            final(self).wf(),
            final(self).time_step == old(self).time_step,
            final(self).max_timesteps == old(self).max_timesteps,
            steps as int == steps_of(
                old(self).accumulator as int,
                old(self).time_step.nanos,
                old(self).max_timesteps,
                frame_delta,
            ),
            final(self).accumulator as int == acc_after(
                old(self).accumulator as int,
                old(self).time_step.nanos,
                old(self).max_timesteps,
                frame_delta,
            ),
            steps as int <= old(self).max_timesteps as int,
    {
        let fixed: u64 = self.time_step.nanos;
        let charged: u64 = if frame_delta >= 0 {
            frame_delta as u64
        } else {
            0
        };
        let total: u64 = self.accumulator + charged;
        let quotient: u64 = total / fixed;
        let max: u64 = self.max_timesteps as u64;
        let steps: u64 = if quotient < max {
            quotient
        } else {
            max
        };
        proof {
            let t = total as int;
            let f = fixed as int;
            let q = t / f;
            lemma_fundamental_div_mod(t, f);
            lemma_mod_bound(t, f);
            lemma_mul_is_commutative(f, q);
            lemma_mul_inequality(steps as int, q, f);
            assert(steps as int * f <= t);
        }
        let residue: u64 = total - steps * fixed;
        let bound: u64 = max * fixed;
        self.accumulator = if residue > bound {
            0
        } else {
            residue
        };
        steps as u32
    }

    /// Runs the stepper stage for one frame: charges the frame delta and
    /// advances the engine by exactly the resulting number of fixed steps,
    /// one after another — no two sub-steps overlap, each starts from the
    /// previous sub-step's resulting world.
    pub fn run(&mut self, world: &mut PhysicsWorld, frame_delta: i64) -> (steps: u32)
        requires
            old(self).wf(),
            old(world).wf(),
        ensures
            final(self).wf(),
            final(world).wf(),
            final(self).time_step == old(self).time_step,
            final(self).max_timesteps == old(self).max_timesteps,
            steps as int == steps_of(
                old(self).accumulator as int,
                old(self).time_step.nanos,
                old(self).max_timesteps,
                frame_delta,
            ),
            final(self).accumulator as int == acc_after(
                old(self).accumulator as int,
                old(self).time_step.nanos,
                old(self).max_timesteps,
                frame_delta,
            ),
            steps as int <= old(self).max_timesteps as int,
            final(world)@ == advance_n(old(world)@, steps as nat),
    {
        let steps = self.advance_accumulator(frame_delta);
        let mut k: u32 = 0;
        while k < steps
            invariant
                k <= steps,
                world.wf(),
                world@ == advance_n(old(world)@, k as nat),
            decreases steps - k,
        {
            world.advance();
            proof {
                assert(advance_n(old(world)@, (k + 1) as nat) == advance1(
                    advance_n(old(world)@, k as nat),
                ));
            }
            k += 1;
        }
        steps
    }
}

/// For every accumulator state and frame delta, the number of sub-steps a
/// frame executes is between zero and `max_timesteps`, and the residue
/// carried forward is never negative and stays within the discard bound.
pub proof fn lemma_substeps_bounded(acc: int, fixed: u64, max_timesteps: i32, frame_delta: i64)
    requires
        fixed >= 1,
        max_timesteps >= 1,
        acc >= 0,
    ensures
        0 <= steps_of(acc, fixed, max_timesteps, frame_delta) <= max_timesteps as int,
        0 <= acc_after(acc, fixed, max_timesteps, frame_delta)
            <= (max_timesteps as int) * (fixed as int),
{
    let total = acc + charged_delta(frame_delta);
    let f = fixed as int;
    let q = total / f;
    lemma_fundamental_div_mod(total, f);
    lemma_mod_bound(total, f);
    lemma_div_is_ordered(0, total, f);
    let steps = steps_of(acc, fixed, max_timesteps, frame_delta);
    lemma_mul_is_commutative(f, q);
    lemma_mul_inequality(steps, q, f);
    assert(steps * f <= total);
    lemma_mul_inequality(1, max_timesteps as int, f);
}

/// Accumulator state reached just before frame `i` of a run that starts at
/// `acc0` and charges `deltas[0], deltas[1], ...` frame by frame.
pub open spec fn acc_before_frame(
    acc0: int,
    fixed: u64,
    max_timesteps: i32,
    deltas: Seq<i64>,
    i: int,
) -> int
    decreases i,
{
    if i <= 0 {
        acc0
    } else {
        acc_after(
            acc_before_frame(acc0, fixed, max_timesteps, deltas, i - 1),
            fixed,
            max_timesteps,
            deltas[i - 1],
        )
    }
}

/// One steady frame: a frame delta worth exactly two fixed steps, arriving on
/// an empty accumulator, executes exactly two sub-steps and leaves the
/// accumulator empty again — no residual drift.
pub proof fn lemma_steady_frame(fixed: u64, max_timesteps: i32, frame_delta: i64)
    requires
        fixed >= 1,
        max_timesteps >= 2,
        frame_delta == 2 * (fixed as int),
    ensures
        steps_of(0, fixed, max_timesteps, frame_delta) == 2,
        acc_after(0, fixed, max_timesteps, frame_delta) == 0,
{
    let f = fixed as int;
    lemma_div_multiples_vanish(2, f);
    assert(charged_delta(frame_delta) == 2 * f);
    assert((2 * f) / f == 2);
    lemma_mul_inequality(1, max_timesteps as int, f);
}

/// Determinism under sustained load: charging a frame delta worth exactly two
/// fixed steps, frame after frame from an empty accumulator, executes exactly
/// two sub-steps in every frame and carries zero residue into every frame,
/// for however many frames the load is sustained.
pub proof fn lemma_determinism_under_load(
    fixed: u64,
    max_timesteps: i32,
    deltas: Seq<i64>,
    i: int,
)
    requires
        fixed >= 1,
        max_timesteps >= 2,
        0 <= i < deltas.len(),
        forall|j: int| 0 <= j < deltas.len() ==> deltas[j] == 2 * (fixed as int),
    ensures
        acc_before_frame(0, fixed, max_timesteps, deltas, i) == 0,
        steps_of(
            acc_before_frame(0, fixed, max_timesteps, deltas, i),
            fixed,
            max_timesteps,
            deltas[i],
        ) == 2,
        acc_before_frame(0, fixed, max_timesteps, deltas, i + 1) == 0,
    decreases i,
{
    if i > 0 {
        lemma_determinism_under_load(fixed, max_timesteps, deltas, i - 1);
    }
    lemma_steady_frame(fixed, max_timesteps, deltas[i]);
}

/// Overload discard: a single frame delta worth sixty fixed steps, under a
/// bound of two sub-steps per frame, executes exactly two sub-steps and
/// throws the whole fifty-eight-step residue away — the accumulator comes out
/// empty instead of carrying the overload forward.
pub proof fn lemma_overload_discard(fixed: u64, frame_delta: i64)
    requires
        fixed >= 1,
        frame_delta == 60 * (fixed as int),
    ensures
        steps_of(0, fixed, 2, frame_delta) == 2,
        acc_after(0, fixed, 2, frame_delta) == 0,
{
    let f = fixed as int;
    lemma_div_multiples_vanish(60, f);
    assert(charged_delta(frame_delta) == 60 * f);
    assert((60 * f) / f == 60);
    assert(60 * f - 2 * f == 58 * f) by (nonlinear_arith);
    assert(58 * f > 2 * f) by (nonlinear_arith)
        requires
            f >= 1,
    ;
}

} // verus!
