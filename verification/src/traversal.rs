//! The agent traversal state machine: a bounded progress parameter that
//! ping-pongs along a rail.
//!
//! Progress is a fixed-point scalar, `PROGRESS_UNIT` steps to one full
//! traversal, so one unit of elapsed time covers the whole parameter range.
//! The speed is coupled to the curve's parametrization, not to arc length:
//! a deliberate simplification of this design. Overshoot past either end is
//! clamped and discarded — it does not carry into the reversed direction.

use vstd::prelude::*;

use crate::curve::Param;

verus! {

/// Fixed-point scale of traversal progress: this many progress steps make
/// up the whole parameter range `[0, 1]`, so a `dt` of `PROGRESS_UNIT`
/// is one time unit and one full traversal.
pub const PROGRESS_UNIT: u64 = 1_000_000;

#[derive(Clone, Copy, Debug, PartialEq, Eq, Structural)]
pub enum Direction {
    Forward,
    Backward,
}

/// The perpetual ping-pong machine. No terminal state: it runs until its
/// agent is destroyed.
#[derive(Clone, Copy, Debug, PartialEq, Eq, Structural)]
pub struct Traversal {
    /// Current progress, in `[0, PROGRESS_UNIT]` fixed-point steps.
    pub progress: u64,
    pub direction: Direction,
}

/// One transition of the machine for an elapsed tick time `dt`:
/// progress advances (or recedes) by exactly `dt`, clamping at either end
/// flips the direction, and the clamped overshoot is discarded.
///
/// The flip guards are strict: landing exactly on an endpoint keeps the
/// current direction, and the flip happens on the next tick that would
/// overshoot.
pub open spec fn tick_spec(t: Traversal, dt: u64) -> Traversal {
    match t.direction {
        Direction::Forward => {
            if t.progress + dt > PROGRESS_UNIT {
                Traversal { progress: PROGRESS_UNIT, direction: Direction::Backward }
            } else {
                Traversal { progress: (t.progress + dt) as u64, direction: Direction::Forward }
            }
        },
        Direction::Backward => {
            if dt > t.progress {
                Traversal { progress: 0, direction: Direction::Forward }
            } else {
                Traversal { progress: (t.progress - dt) as u64, direction: Direction::Backward }
            }
        },
    }
}

/// The machine run over a whole sequence of tick times, first to last.
pub open spec fn run_spec(t: Traversal, dts: Seq<u64>) -> Traversal
    decreases dts.len(),
{
    if dts.len() == 0 {
        t
    } else {
        run_spec(tick_spec(t, dts[0]), dts.skip(1))
    }
}

impl Traversal {
    /// Progress never leaves `[0, PROGRESS_UNIT]`.
    pub open spec fn wf(&self) -> bool {
        self.progress <= PROGRESS_UNIT
    }

    /// The initial state: at the start of the rail, moving forward.
    pub fn new() -> (t: Traversal)
        ensures
            t.progress == 0,
            t.direction == Direction::Forward,
            t.wf(),
    {
        Traversal { progress: 0, direction: Direction::Forward }
    }

    /// Advances the machine by the elapsed tick time `dt`, exactly as the
    /// transition table `tick_spec` says.
    pub fn tick(&mut self, dt: u64)
        requires
            old(self).wf(),
        ensures
            *final(self) == tick_spec(*old(self), dt),
            final(self).wf(),
    {
        match self.direction {
            Direction::Forward => {
                if dt > PROGRESS_UNIT - self.progress {
                    self.progress = PROGRESS_UNIT;
                    self.direction = Direction::Backward;
                } else {
                    self.progress = self.progress + dt;
                }
            },
            Direction::Backward => {
                if dt > self.progress {
                    self.progress = 0;
                    self.direction = Direction::Forward;
                } else {
                    self.progress = self.progress - dt;
                }
            },
        }
    }

    /// The curve parameter this progress stands for: `progress / PROGRESS_UNIT`.
    pub fn param(&self) -> (t: Param)
        ensures
            t.num == self.progress,
            t.den == PROGRESS_UNIT,
            t.wf(),
            self.wf() ==> t.in_range(),
    {
        Param { num: self.progress, den: PROGRESS_UNIT }
    }
}

/// Total elapsed time of a sequence of ticks.
pub open spec fn total_time(dts: Seq<u64>) -> int
    decreases dts.len(),
{
    if dts.len() == 0 {
        0
    } else {
        dts[0] + total_time(dts.skip(1))
    }
}

pub proof fn lemma_total_time_nonneg(dts: Seq<u64>)
    ensures
        total_time(dts) >= 0,
    decreases dts.len(),
{
    if dts.len() > 0 {
        lemma_total_time_nonneg(dts.skip(1));
    }
}

/// Law: the rate of progress is exactly one parameter range per time unit.
/// While moving forward, as long as the accumulated elapsed time stays short
/// of the end of the rail, progress is exactly the initial progress plus the
/// elapsed time, and the direction does not flip.
pub proof fn lemma_forward_leg(t: Traversal, dts: Seq<u64>)
    requires
        t.wf(),
        t.direction == Direction::Forward,
        t.progress + total_time(dts) <= PROGRESS_UNIT,
    ensures
        run_spec(t, dts).progress == t.progress + total_time(dts),
        run_spec(t, dts).direction == Direction::Forward,
    decreases dts.len(),
{
    if dts.len() > 0 {
        lemma_total_time_nonneg(dts.skip(1));
        lemma_forward_leg(tick_spec(t, dts[0]), dts.skip(1));
    }
}

/// Law: the mirror image while moving backward — as long as the accumulated
/// elapsed time stays short of the start of the rail, progress recedes by
/// exactly the elapsed time, and the direction does not flip.
pub proof fn lemma_backward_leg(t: Traversal, dts: Seq<u64>)
    requires
        t.wf(),
        t.direction == Direction::Backward,
        total_time(dts) <= t.progress,
    ensures
        run_spec(t, dts).progress == t.progress - total_time(dts),
        run_spec(t, dts).direction == Direction::Backward,
    decreases dts.len(),
{
    if dts.len() > 0 {
        lemma_total_time_nonneg(dts.skip(1));
        lemma_backward_leg(tick_spec(t, dts[0]), dts.skip(1));
    }
}

/// Law: a single transition keeps progress inside `[0, PROGRESS_UNIT]`.
pub proof fn lemma_tick_in_bounds(t: Traversal, dt: u64)
    requires
        t.wf(),
    ensures
        tick_spec(t, dt).wf(),
{
}

/// Law: starting from any well-formed state — in particular the initial
/// one — progress stays inside `[0, PROGRESS_UNIT]` after every sequence of
/// elapsed tick times, however long and however large each `dt`.
pub proof fn lemma_run_in_bounds(t: Traversal, dts: Seq<u64>)
    requires
        t.wf(),
    ensures
        run_spec(t, dts).wf(),
    decreases dts.len(),
{
    if dts.len() > 0 {
        lemma_tick_in_bounds(t, dts[0]);
        lemma_run_in_bounds(tick_spec(t, dts[0]), dts.skip(1));
    }
}

} // verus!
