//! Fixed-timestep simulation clock.
//!
//! The engine runs simulation at a locked 60 Hz. Each render frame the host
//! measures the elapsed wall-clock time, converts it to integer clock units
//! ([`UNITS_PER_SECOND`] units per second, so one tick is exactly
//! [`FIXED_DT_UNITS`] units) and hands it to [`TimeState::begin_frame`], which
//! caps it and feeds an accumulator. The game loop then calls
//! [`TimeState::should_step`] in a while-loop, consuming one tick's worth of
//! units per step: simulation advances deterministically regardless of the
//! display refresh rate.
//!
//! Spiral-of-death cap: if a frame takes longer than `max_accumulator` the
//! excess is discarded. Without the cap a single slow frame would queue dozens
//! of catch-up steps, which themselves take time, compounding forever.
//!
//! After all steps are consumed, [`TimeState::end_frame`] computes the
//! interpolation fraction (the leftover accumulator as thousandths of a tick)
//! for optional visual interpolation between the last two simulation states.

use vstd::prelude::*;
use vstd::arithmetic::div_mod::{lemma_multiply_divide_lt, lemma_div_pos_is_pos};

verus! {

/// Clock units per second. One unit is 1/600000 s, so both one 60 Hz tick
/// (10000 units) and the 250 ms stall cap (150000 units) are exact.
pub const UNITS_PER_SECOND: u64 = 600_000;

/// Duration of one fixed simulation tick: exactly 1/60 s.
pub const FIXED_DT_UNITS: u64 = 10_000;

/// Hard cap on how much wall-clock time one frame may contribute: 250 ms.
pub const MAX_ACCUMULATOR_UNITS: u64 = 150_000;

/// Size of the rolling window of frame durations used for FPS smoothing.
pub const FPS_SAMPLE_COUNT: usize = 60;

/// The interpolation fraction is reported in thousandths of a tick.
pub const ALPHA_SCALE: u64 = 1000;

/// Ceiling on the clock's per-field magnitudes; keeps every product and sum
/// in this module far from overflow.
pub const TIME_FIELD_LIMIT: u64 = 0x1000_0000;

/// Sum of a sequence of clock-unit samples.
pub open spec fn sum_units(s: Seq<u64>) -> int
    decreases s.len(),
{
    if s.len() == 0 {
        0
    } else {
        sum_units(s.drop_last()) + s.last()
    }
}

/// A sequence of bounded samples has a bounded sum.
pub proof fn lemma_sum_units_bound(s: Seq<u64>, bound: int)
    requires
        forall|i: int| 0 <= i < s.len() ==> #[trigger] s[i] as int <= bound,
        bound >= 0,
    ensures
        0 <= sum_units(s) <= s.len() * bound,
    decreases s.len(),
{
    if s.len() > 0 {
        lemma_sum_units_bound(s.drop_last(), bound);
        assert(s.last() as int <= bound);
        assert((s.len() - 1) * bound + bound == s.len() * bound) by (nonlinear_arith);
    }
}

/// Fixed-timestep clock state. All durations are integer clock units; the
/// FPS fields are diagnostics only and never affect simulation.
pub struct TimeState {
    /// Units per fixed tick.
    pub fixed_dt: u64,
    /// Largest per-frame contribution to the accumulator.
    pub max_accumulator: u64,
    /// Wall-clock units not yet consumed by a tick.
    pub accumulator: u64,
    /// Total simulated time, in units.
    pub total_time: u64,
    /// Ticks consumed since construction.
    pub fixed_step_count: u64,
    /// Frames begun since construction.
    pub frame_count: u64,
    /// Ticks consumed in the current frame.
    pub steps_this_frame: u32,
    /// The capped duration of the last frame, in units.
    pub real_dt: u64,
    /// Leftover accumulator after the last frame, in thousandths of a tick.
    pub interpolation_alpha: u64,
    /// Rolling window of recent capped frame durations. Managed by
    /// `begin_frame`; treated as read-only elsewhere.
    pub fps_samples: Vec<u64>,
    /// Next slot of `fps_samples` to overwrite.
    pub fps_sample_index: usize,
    /// Smoothed frames-per-second estimate (diagnostics only).
    pub smoothed_fps: u64,
    /// Smoothed frame duration in microseconds (diagnostics only).
    pub smoothed_frame_time_us: u64,
}

impl TimeState {
    /// The shape every constructed clock keeps: positive tick duration, a
    /// full sample window, and magnitudes the arithmetic never overflows on.
    pub open spec fn ok(self) -> bool {
        &&& 0 < self.fixed_dt <= TIME_FIELD_LIMIT
        &&& self.max_accumulator <= TIME_FIELD_LIMIT
        &&& self.accumulator <= 2 * TIME_FIELD_LIMIT
        &&& self.fps_samples@.len() == FPS_SAMPLE_COUNT
        &&& self.fps_sample_index < FPS_SAMPLE_COUNT
        &&& forall|i: int| 0 <= i < self.fps_samples@.len()
            ==> #[trigger] self.fps_samples@[i] <= TIME_FIELD_LIMIT
    }

    /// A fresh 60 Hz clock with a 250 ms stall cap and the FPS window primed
    /// to a 60 FPS estimate.
    pub fn new() -> (r: TimeState)
        ensures
            r.ok(),
            r.fixed_dt == FIXED_DT_UNITS,
            r.max_accumulator == MAX_ACCUMULATOR_UNITS,
            r.accumulator == 0,
            r.total_time == 0,
            r.fixed_step_count == 0,
            r.frame_count == 0,
            r.steps_this_frame == 0,
            r.real_dt == 0,
            r.interpolation_alpha == 0,
            r.fps_samples@.len() == FPS_SAMPLE_COUNT,
            forall|i: int| 0 <= i < r.fps_samples@.len()
                ==> #[trigger] r.fps_samples@[i] == FIXED_DT_UNITS,
            r.fps_sample_index == 0,
            r.smoothed_fps == 60,
            r.smoothed_frame_time_us == 16_666,
    {
        let mut samples: Vec<u64> = Vec::new();
        let mut i: usize = 0;
        while i < FPS_SAMPLE_COUNT
            invariant
                i <= FPS_SAMPLE_COUNT,
                samples@.len() == i,
                forall|k: int| 0 <= k < i ==> #[trigger] samples@[k] == FIXED_DT_UNITS,
            decreases FPS_SAMPLE_COUNT - i,
        {
            samples.push(FIXED_DT_UNITS);
            i = i + 1;
        }
        TimeState {
            fixed_dt: FIXED_DT_UNITS,
            max_accumulator: MAX_ACCUMULATOR_UNITS,
            accumulator: 0,
            total_time: 0,
            fixed_step_count: 0,
            frame_count: 0,
            steps_this_frame: 0,
            real_dt: 0,
            interpolation_alpha: 0,
            fps_samples: samples,
            fps_sample_index: 0,
            smoothed_fps: 60,
            smoothed_frame_time_us: 16_666,
        }
    }

    /// Feed one frame's elapsed wall-clock time (in units) into the clock:
    /// cap it against `max_accumulator`, add it to the accumulator, reset the
    /// per-frame tick counter, and refresh the smoothed FPS estimate from the
    /// rolling window.
    pub fn begin_frame(&mut self, real_dt: u64)
        requires
            old(self).ok(),
            old(self).accumulator + old(self).max_accumulator <= 2 * TIME_FIELD_LIMIT,
            old(self).frame_count < u64::MAX,
        ensures
            final(self).ok(),
            final(self).real_dt == if real_dt > old(self).max_accumulator {
                old(self).max_accumulator
            } else {
                real_dt
            },
            final(self).accumulator == old(self).accumulator + final(self).real_dt,
            final(self).steps_this_frame == 0,
            final(self).frame_count == old(self).frame_count + 1,
            final(self).fps_samples@ == old(self).fps_samples@.update(
                old(self).fps_sample_index as int,
                final(self).real_dt,
            ),
            final(self).fps_sample_index as int == (old(self).fps_sample_index + 1) % (
            FPS_SAMPLE_COUNT as int),
            final(self).smoothed_frame_time_us as int
                == (sum_units(final(self).fps_samples@) / FPS_SAMPLE_COUNT as int) * 5 / 3,
            final(self).smoothed_fps as int == if sum_units(final(self).fps_samples@) / FPS_SAMPLE_COUNT as int
                > 0 {
                UNITS_PER_SECOND as int / (sum_units(final(self).fps_samples@) / FPS_SAMPLE_COUNT as int)
            } else {
                0
            },
            final(self).fixed_dt == old(self).fixed_dt,
            final(self).max_accumulator == old(self).max_accumulator,
            final(self).total_time == old(self).total_time,
            final(self).fixed_step_count == old(self).fixed_step_count,
            final(self).interpolation_alpha == old(self).interpolation_alpha,
    {
        let capped = if real_dt > self.max_accumulator {
            self.max_accumulator
        } else {
            real_dt
        };
        self.real_dt = capped;
        self.accumulator = self.accumulator + capped;
        self.steps_this_frame = 0;
        self.frame_count = self.frame_count + 1;

        self.fps_samples.set(self.fps_sample_index, capped);
        self.fps_sample_index = (self.fps_sample_index + 1) % FPS_SAMPLE_COUNT;

        let ghost samples = self.fps_samples@;
        let mut sum: u64 = 0;
        let mut i: usize = 0;
        proof {
            lemma_sum_units_bound(samples, TIME_FIELD_LIMIT as int);
        }
        while i < FPS_SAMPLE_COUNT
            invariant
                i <= FPS_SAMPLE_COUNT,
                samples == self.fps_samples@,
                self.ok(),
                sum as int == sum_units(samples.subrange(0, i as int)),
                sum as int <= i * TIME_FIELD_LIMIT as int,
            decreases FPS_SAMPLE_COUNT - i,
        {
            proof {
                assert(samples.subrange(0, i as int + 1).drop_last()
                    == samples.subrange(0, i as int));
                assert(samples.subrange(0, i as int + 1).last() == samples[i as int]);
                assert((i as int) * TIME_FIELD_LIMIT as int + TIME_FIELD_LIMIT as int
                    == (i as int + 1) * TIME_FIELD_LIMIT as int) by (nonlinear_arith);
            }
            sum = sum + self.fps_samples[i];
            i = i + 1;
        }
        proof {
            assert(samples.subrange(0, FPS_SAMPLE_COUNT as int) == samples);
        }
        let avg: u64 = sum / (FPS_SAMPLE_COUNT as u64);
        self.smoothed_frame_time_us = avg * 5 / 3;
        self.smoothed_fps = if avg > 0 {
            UNITS_PER_SECOND / avg
        } else {
            0
        };
    }

    /// If at least one tick's worth of time is owed, consume it and say the
    /// caller should run one simulation tick; otherwise leave the clock
    /// untouched. The caller loops on this until it returns false.
    pub fn should_step(&mut self) -> (r: bool)
        requires
            old(self).ok(),
            old(self).fixed_step_count < u64::MAX,
            old(self).total_time + old(self).fixed_dt <= u64::MAX,
            old(self).steps_this_frame < u32::MAX,
        ensures
            final(self).ok(),
            r == (old(self).accumulator >= old(self).fixed_dt),
            r ==> final(self).accumulator == old(self).accumulator - old(self).fixed_dt
                && final(self).total_time == old(self).total_time + old(self).fixed_dt
                && final(self).fixed_step_count == old(self).fixed_step_count + 1
                && final(self).steps_this_frame == old(self).steps_this_frame + 1,
            !r ==> final(self).accumulator == old(self).accumulator
                && final(self).total_time == old(self).total_time
                && final(self).fixed_step_count == old(self).fixed_step_count
                && final(self).steps_this_frame == old(self).steps_this_frame,
            final(self).fixed_dt == old(self).fixed_dt,
            final(self).max_accumulator == old(self).max_accumulator,
            final(self).frame_count == old(self).frame_count,
            final(self).real_dt == old(self).real_dt,
            final(self).interpolation_alpha == old(self).interpolation_alpha,
            final(self).fps_samples@ == old(self).fps_samples@,
            final(self).fps_sample_index == old(self).fps_sample_index,
            final(self).smoothed_fps == old(self).smoothed_fps,
            final(self).smoothed_frame_time_us == old(self).smoothed_frame_time_us,
    {
        if self.accumulator >= self.fixed_dt {
            self.accumulator = self.accumulator - self.fixed_dt;
            self.total_time = self.total_time + self.fixed_dt;
            self.fixed_step_count = self.fixed_step_count + 1;
            self.steps_this_frame = self.steps_this_frame + 1;
            true
        } else {
            false
        }
    }

    /// Publish the interpolation fraction: the leftover accumulator as
    /// thousandths of a tick. After a frame whose ticks were fully drained
    /// (`should_step` returned false) the fraction is in `[0, ALPHA_SCALE)`.
    pub fn end_frame(&mut self)
        requires
            old(self).ok(),
        ensures
            final(self).ok(),
            final(self).interpolation_alpha as int
                == old(self).accumulator * ALPHA_SCALE / old(self).fixed_dt as int,
            old(self).accumulator < old(self).fixed_dt ==> final(self).interpolation_alpha < ALPHA_SCALE,
            *final(self) == (TimeState { interpolation_alpha: final(self).interpolation_alpha, ..*old(self) }),
    {
        proof {
            if old(self).accumulator < old(self).fixed_dt {
                lemma_alpha_bound(old(self).accumulator as int, old(self).fixed_dt as int);
            }
        }
        self.interpolation_alpha = (self.accumulator * ALPHA_SCALE) / self.fixed_dt;
    }
}

/// Law: whenever the accumulator holds less than one tick — as it always does
/// once a frame's ticks are drained — the interpolation fraction is a proper
/// fraction of a tick: it lies in `[0, ALPHA_SCALE)`.
pub proof fn lemma_alpha_bound(acc: int, dt: int)
    requires
        0 <= acc < dt,
    ensures
        0 <= acc * ALPHA_SCALE / dt < ALPHA_SCALE,
{
    assert(acc * ALPHA_SCALE < dt * ALPHA_SCALE) by (nonlinear_arith)
        requires
            0 <= acc < dt,
    ;
    lemma_multiply_divide_lt(acc * ALPHA_SCALE, dt, ALPHA_SCALE as int);
    assert(acc * ALPHA_SCALE >= 0) by (nonlinear_arith)
        requires
            acc >= 0,
    ;
    lemma_div_pos_is_pos(acc * ALPHA_SCALE, dt);
}

} // verus!
