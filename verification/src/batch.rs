//! Draw-call batching for the sprite renderer.
//!
//! Scene geometry is emitted as one index stream; consecutive quads that
//! share a texture and are contiguous in the stream collapse into one draw
//! call, and the overlay reports how many texture binds a frame costs.

use vstd::prelude::*;

verus! {

/// One batched draw: a texture and a contiguous index range.
#[derive(Debug, Clone)]
pub struct DrawCall {
    pub texture_key: String,
    pub index_start: u32,
    pub index_count: u32,
}

/// Append a quad's index range to the draw list: merged into the last call
/// when it uses the same texture and follows it contiguously, otherwise
/// appended as a new call.
pub fn push_draw_call(
    draw_calls: &mut Vec<DrawCall>,
    texture_key: String,
    index_start: u32,
    index_count: u32,
)
    requires
        old(draw_calls)@.len() > 0 ==> old(draw_calls)@.last().index_count + index_count
            <= u32::MAX,
    ensures
        ({
            let pre = old(draw_calls)@;
            if pre.len() > 0 && pre.last().texture_key@ == texture_key@
                && pre.last().index_start + pre.last().index_count == index_start {
                final(draw_calls)@ == pre.update(
                    pre.len() - 1,
                    DrawCall {
                        texture_key: pre.last().texture_key,
                        index_start: pre.last().index_start,
                        index_count: (pre.last().index_count + index_count) as u32,
                    },
                )
            } else {
                final(draw_calls)@ == pre.push(
                    DrawCall { texture_key, index_start, index_count },
                )
            }
        }),
{
    let n = draw_calls.len();
    if n > 0 {
        let merge = {
            let last = &draw_calls[n - 1];
            let contiguous = last.index_start as u64 + last.index_count as u64
                == index_start as u64;
            last.texture_key == texture_key && contiguous
        };
        if merge {
            let old_call = &draw_calls[n - 1];
            let updated = DrawCall {
                texture_key: old_call.texture_key.clone(),
                index_start: old_call.index_start,
                index_count: old_call.index_count + index_count,
            };
            draw_calls.set(n - 1, updated);
            proof {
                assert(final(draw_calls)@.last().texture_key@
                    == old(draw_calls)@.last().texture_key@);
                assert(final(draw_calls)@ =~= old(draw_calls)@.update(
                    old(draw_calls)@.len() - 1,
                    DrawCall {
                        texture_key: old(draw_calls)@.last().texture_key,
                        index_start: old(draw_calls)@.last().index_start,
                        index_count: (old(draw_calls)@.last().index_count + index_count) as u32,
                    },
                )) by {
                    assert(final(draw_calls)@.len() == old(draw_calls)@.len());
                    assert(final(draw_calls)@[old(draw_calls)@.len() - 1].texture_key
                        == old(draw_calls)@.last().texture_key);
                }
            }
            return ;
        }
    }
    draw_calls.push(DrawCall { texture_key, index_start, index_count });
}

/// How many texture binds a draw list costs: one per run of consecutive
/// calls that share a texture.
pub open spec fn binds_spec(s: Seq<DrawCall>) -> int
    decreases s.len(),
{
    if s.len() == 0 {
        0
    } else if s.len() == 1 {
        1
    } else {
        binds_spec(s.drop_last()) + if s[s.len() - 2].texture_key@ == s.last().texture_key@ {
            0int
        } else {
            1int
        }
    }
}

/// Count texture binds over a draw list.
pub fn count_texture_binds(draw_calls: &Vec<DrawCall>) -> (r: usize)
    ensures
        r as int == binds_spec(draw_calls@),
{
    let n = draw_calls.len();
    let mut binds: usize = 0;
    let mut i: usize = 0;
    while i < n
        invariant
            i <= n,
            n == draw_calls@.len(),
            binds as int == binds_spec(draw_calls@.subrange(0, i as int)),
            binds <= i,
        decreases n - i,
    {
        proof {
            assert(draw_calls@.subrange(0, i as int + 1).drop_last()
                == draw_calls@.subrange(0, i as int));
            assert(draw_calls@.subrange(0, i as int + 1).last() == draw_calls@[i as int]);
        }
        if i == 0 {
            binds = binds + 1;
        } else {
            let changed = !(draw_calls[i - 1].texture_key == draw_calls[i].texture_key);
            if changed {
                binds = binds + 1;
            }
        }
        i = i + 1;
    }
    proof {
        assert(draw_calls@.subrange(0, n as int) == draw_calls@);
    }
    binds
}

} // verus!
