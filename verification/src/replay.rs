//! Scripted input sequences for reproducible simulation runs.
//!
//! A replay is a list of frames, each repeated a number of ticks, expanded
//! into one controller input per tick. Horizontal intent is thousandths of
//! full deflection (clamped on expansion) and the fixed time slice is clock
//! units.

use vstd::prelude::*;
use crate::controller::{ControllerInput, MOVE_X_ONE};
use crate::num::max_i;

verus! {

/// One replay row: an input held for `repeat` consecutive ticks.
#[derive(Debug, Clone, Copy, PartialEq, Eq, Structural)]
pub struct ReplayFrame {
    pub move_x: i32,
    pub jump_pressed: bool,
    pub repeat: u32,
}

/// A whole replay: the fixed time slice (clock units) and the rows.
#[derive(Debug, Clone)]
pub struct ReplaySequence {
    pub fixed_dt: u64,
    pub frames: Vec<ReplayFrame>,
}

/// The controller input one replay row stands for, intent clamped to the
/// legal range.
pub open spec fn frame_input(f: ReplayFrame) -> ControllerInput {
    ControllerInput {
        move_x: if f.move_x < -MOVE_X_ONE {
            (-MOVE_X_ONE) as i32
        } else if f.move_x > MOVE_X_ONE {
            MOVE_X_ONE as i32
        } else {
            f.move_x
        },
        jump_pressed: f.jump_pressed,
    }
}

/// How many ticks one row covers: its repeat count, at least one.
pub open spec fn frame_reps(f: ReplayFrame) -> int {
    max_i(f.repeat as int, 1)
}

/// The tick-by-tick expansion of a list of replay rows.
pub open spec fn expanded_spec(frames: Seq<ReplayFrame>) -> Seq<ControllerInput>
    decreases frames.len(),
{
    if frames.len() == 0 {
        Seq::empty()
    } else {
        expanded_spec(frames.drop_last()) + Seq::new(
            frame_reps(frames.last()) as nat,
            |k: int| frame_input(frames.last()),
        )
    }
}

impl ReplaySequence {
    /// Expand the rows into one clamped input per tick, in order.
    pub fn expanded_inputs(&self) -> (r: Vec<ControllerInput>)
        requires
            expanded_spec(self.frames@).len() <= usize::MAX,
        ensures
            r@ == expanded_spec(self.frames@),
    {
        let mut out: Vec<ControllerInput> = Vec::new();
        let n = self.frames.len();
        let mut i: usize = 0;
        while i < n
            invariant
                i <= n,
                n == self.frames@.len(),
                out@ == expanded_spec(self.frames@.subrange(0, i as int)),
                expanded_spec(self.frames@).len() <= usize::MAX,
            decreases n - i,
        {
            let frame = self.frames[i];
            let reps: u32 = if frame.repeat < 1 {
                1
            } else {
                frame.repeat
            };
            let mx: i32 = if frame.move_x < -MOVE_X_ONE {
                -MOVE_X_ONE
            } else if frame.move_x > MOVE_X_ONE {
                MOVE_X_ONE
            } else {
                frame.move_x
            };
            let input = ControllerInput { move_x: mx, jump_pressed: frame.jump_pressed };
            proof {
                assert(input == frame_input(self.frames@[i as int]));
                assert(reps as int == frame_reps(self.frames@[i as int]));
                lemma_expanded_prefix_len(self.frames@, i as int + 1);
                assert(self.frames@.subrange(0, i as int + 1).drop_last()
                    == self.frames@.subrange(0, i as int));
                assert(self.frames@.subrange(0, i as int + 1).last() == self.frames@[i as int]);
            }
            let mut k: u32 = 0;
            while k < reps
                invariant
                    k <= reps,
                    out@ == expanded_spec(self.frames@.subrange(0, i as int)) + Seq::new(
                        k as nat,
                        |m: int| input,
                    ),
                    out@.len() + (reps - k) <= usize::MAX,
                decreases reps - k,
            {
                proof {
                    assert(Seq::new(k as nat + 1, |m: int| input) =~= Seq::new(
                        k as nat,
                        |m: int| input,
                    ).push(input));
                    assert(expanded_spec(self.frames@.subrange(0, i as int)) + Seq::new(
                        k as nat + 1,
                        |m: int| input,
                    ) =~= (expanded_spec(self.frames@.subrange(0, i as int)) + Seq::new(
                        k as nat,
                        |m: int| input,
                    )).push(input));
                }
                out.push(input);
                k = k + 1;
            }
            proof {
                assert(Seq::new(reps as nat, |m: int| input) =~= Seq::new(
                    frame_reps(self.frames@[i as int]) as nat,
                    |m: int| frame_input(self.frames@[i as int]),
                ));
                assert(out@ == expanded_spec(self.frames@.subrange(0, i as int + 1)));
            }
            i = i + 1;
        }
        proof {
            assert(self.frames@.subrange(0, n as int) == self.frames@);
        }
        out
    }
}

/// Expansion length grows with each prefix row, so any prefix expansion fits
/// whenever the whole expansion does.
pub proof fn lemma_expanded_prefix_len(frames: Seq<ReplayFrame>, k: int)
    requires
        0 <= k <= frames.len(),
    ensures
        expanded_spec(frames.subrange(0, k)).len() <= expanded_spec(frames).len(),
    decreases frames.len() - k,
{
    if k == frames.len() {
        assert(frames.subrange(0, k) == frames);
    } else {
        lemma_expanded_prefix_len(frames, k + 1);
        assert(frames.subrange(0, k + 1).drop_last() == frames.subrange(0, k));
    }
}

/// Check a replay before running it: a positive time slice and at least one
/// row. No partially valid replay is run.
pub fn validate_replay(replay: &ReplaySequence) -> (r: Result<(), String>)
    ensures
        r is Ok <==> replay.fixed_dt > 0 && replay.frames@.len() > 0,
{
    if replay.fixed_dt == 0 {
        return Err("Replay validation failed: fixed_dt must be > 0".to_owned());
    }
    if replay.frames.len() == 0 {
        return Err("Replay validation failed: frames list is empty".to_owned());
    }
    Ok(())
}

} // verus!
