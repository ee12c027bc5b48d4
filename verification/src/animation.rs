//! Frame-based sprite animation types and deterministic tick logic.
//!
//! Animation clips are sequences of sprite frames with per-frame durations.
//! All timing uses integer microseconds to guarantee deterministic
//! advancement under the engine's fixed-timestep model.
//!
//! The on-disk format stores `duration_ms` for human readability; a loader
//! parses it into [`AnimationFileJson`] and [`animation_file_from_json`]
//! validates it and converts durations to microseconds.

use vstd::prelude::*;

verus! {

/// A single frame in an animation clip.
#[derive(Debug, Clone)]
pub struct AnimationFrame {
    pub sprite_id: String,
    pub duration_us: u64,
}

/// A named sequence of frames that can loop or play once.
#[derive(Debug, Clone)]
pub struct AnimationClip {
    pub frames: Vec<AnimationFrame>,
    pub looping: bool,
}

/// Every frame lasts at least one microsecond; tick advancement relies on it.
pub open spec fn clip_wf(clip: AnimationClip) -> bool {
    forall|i: int| 0 <= i < clip.frames@.len() ==> #[trigger] clip.frames@[i].duration_us >= 1
}

/// Sum of the frame durations of a clip, in microseconds.
pub open spec fn total_duration_spec(frames: Seq<AnimationFrame>) -> int
    decreases frames.len(),
{
    if frames.len() == 0 {
        0
    } else {
        total_duration_spec(frames.drop_last()) + frames.last().duration_us
    }
}

impl AnimationClip {
    /// Total duration of one full cycle in microseconds.
    pub fn total_duration_us(&self) -> (r: u64)
        requires
            total_duration_spec(self.frames@) <= u64::MAX,
        ensures
            r as int == total_duration_spec(self.frames@),
    {
        let n = self.frames.len();
        let mut sum: u64 = 0;
        let mut i: usize = 0;
        while i < n
            invariant
                i <= n,
                n == self.frames@.len(),
                sum as int == total_duration_spec(self.frames@.subrange(0, i as int)),
                total_duration_spec(self.frames@) <= u64::MAX,
            decreases n - i,
        {
            proof {
                assert(self.frames@.subrange(0, i as int + 1).drop_last()
                    == self.frames@.subrange(0, i as int));
                assert(self.frames@.subrange(0, i as int + 1).last() == self.frames@[i as int]);
                lemma_total_duration_prefix(self.frames@, i as int + 1);
            }
            sum = sum + self.frames[i].duration_us;
            i = i + 1;
        }
        proof {
            assert(self.frames@.subrange(0, n as int) == self.frames@);
        }
        sum
    }
}

/// Every prefix sum of non-negative durations is at most the whole sum.
proof fn lemma_total_duration_prefix(frames: Seq<AnimationFrame>, k: int)
    requires
        0 <= k <= frames.len(),
    ensures
        total_duration_spec(frames.subrange(0, k)) <= total_duration_spec(frames),
    decreases frames.len() - k,
{
    if k == frames.len() {
        assert(frames.subrange(0, k) == frames);
    } else {
        lemma_total_duration_prefix(frames, k + 1);
        assert(frames.subrange(0, k + 1).drop_last() == frames.subrange(0, k));
        assert(frames.subrange(0, k + 1).last() == frames[k]);
    }
}

/// Top-level animation definition: clips keyed by name, in file order.
#[derive(Debug, Clone)]
pub struct AnimationFile {
    pub version: String,
    pub animation_id: String,
    pub animations: Vec<(String, AnimationClip)>,
}

/// Runtime state for one active animation instance.
#[derive(Debug, Clone)]
pub struct AnimationState {
    pub source_id: String,
    pub clip_name: String,
    pub frame_index: usize,
    pub elapsed_us: u64,
    pub finished: bool,
}

/// Where a clip playback lands after `elapsed` microseconds rest on frame
/// `idx`: the frame index, the time already spent inside that frame, and
/// whether a non-looping clip has finished. Mirrors one tick's catch-up loop.
pub open spec fn advance(
    frames: Seq<AnimationFrame>,
    looping: bool,
    idx: int,
    elapsed: int,
) -> (int, int, bool)
    decreases elapsed,
{
    if !(0 <= idx < frames.len()) || frames[idx].duration_us < 1 || elapsed < 0 {
        (idx, elapsed, false)
    } else if elapsed < frames[idx].duration_us {
        (idx, elapsed, false)
    } else {
        let rest = elapsed - frames[idx].duration_us;
        if idx + 1 >= frames.len() {
            if looping {
                advance(frames, looping, 0, rest)
            } else {
                (frames.len() - 1, 0, true)
            }
        } else {
            advance(frames, looping, idx + 1, rest)
        }
    }
}

/// The landing frame of [`advance`] is always a valid index.
pub proof fn lemma_advance_in_range(frames: Seq<AnimationFrame>, looping: bool, idx: int, elapsed: int)
    requires
        0 <= idx < frames.len(),
    ensures
        0 <= advance(frames, looping, idx, elapsed).0 < frames.len(),
    decreases elapsed,
{
    if frames[idx].duration_us >= 1 && elapsed >= frames[idx].duration_us {
        let rest = elapsed - frames[idx].duration_us;
        if idx + 1 >= frames.len() {
            if looping {
                lemma_advance_in_range(frames, looping, 0, rest);
            }
        } else {
            lemma_advance_in_range(frames, looping, idx + 1, rest);
        }
    }
}

impl AnimationState {
    /// A fresh playback at the first frame of the named clip.
    pub fn new(source_id: &str, clip_name: &str) -> (r: AnimationState)
        ensures
            r.source_id@ == source_id@,
            r.clip_name@ == clip_name@,
            r.frame_index == 0,
            r.elapsed_us == 0,
            !r.finished,
    {
        AnimationState {
            source_id: source_id.to_owned(),
            clip_name: clip_name.to_owned(),
            frame_index: 0,
            elapsed_us: 0,
            finished: false,
        }
    }

    /// Advance the animation by `dt_us` microseconds and return the current
    /// frame's sprite id. An empty clip yields an empty id; a finished
    /// playback is frozen on its last frame; otherwise the elapsed time is
    /// consumed frame by frame, wrapping for looping clips and freezing on
    /// the last frame of non-looping ones, exactly as [`advance`] says.
    pub fn tick<'a>(&mut self, dt_us: u64, clip: &'a AnimationClip) -> (r: &'a str)
        requires
            clip_wf(*clip),
            clip.frames@.len() == 0 || old(self).frame_index < clip.frames@.len(),
            old(self).elapsed_us + dt_us <= u64::MAX,
        ensures
            final(self).source_id@ == old(self).source_id@,
            final(self).clip_name@ == old(self).clip_name@,
            clip.frames@.len() == 0 ==> *final(self) == *old(self) && r@ == Seq::<char>::empty(),
            clip.frames@.len() > 0 && old(self).finished ==> *final(self) == *old(self)
                && r@ == clip.frames@[old(self).frame_index as int].sprite_id@,
            clip.frames@.len() > 0 && !old(self).finished ==> {
                let out = advance(
                    clip.frames@,
                    clip.looping,
                    old(self).frame_index as int,
                    old(self).elapsed_us + dt_us,
                );
                &&& final(self).frame_index as int == out.0
                &&& final(self).elapsed_us as int == out.1
                &&& final(self).finished == out.2
                &&& r@ == clip.frames@[out.0].sprite_id@
            },
    {
        let n = clip.frames.len();
        if n == 0 {
            proof {
                reveal_strlit("");
                assert(""@.len() == 0);
                assert(""@ =~= Seq::<char>::empty());
            }
            return "";
        }
        if self.finished {
            return clip.frames[self.frame_index].sprite_id.as_str();
        }

        self.elapsed_us = self.elapsed_us + dt_us;
        let ghost idx0 = self.frame_index as int;
        let ghost e0 = self.elapsed_us as int;

        let mut done = false;
        while !done
            invariant
                n == clip.frames@.len(),
                n > 0,
                clip_wf(*clip),
                self.frame_index < n,
                self.source_id@ == old(self).source_id@,
                self.clip_name@ == old(self).clip_name@,
                !done ==> !self.finished && advance(clip.frames@, clip.looping, idx0, e0)
                    == advance(
                    clip.frames@,
                    clip.looping,
                    self.frame_index as int,
                    self.elapsed_us as int,
                ),
                done ==> (self.frame_index as int, self.elapsed_us as int, self.finished)
                    == advance(clip.frames@, clip.looping, idx0, e0),
            decreases self.elapsed_us, (if done {
                0int
            } else {
                1int
            }),
        {
            let dur = clip.frames[self.frame_index].duration_us;
            if self.elapsed_us < dur {
                done = true;
            } else {
                self.elapsed_us = self.elapsed_us - dur;
                self.frame_index = self.frame_index + 1;
                if self.frame_index >= n {
                    if clip.looping {
                        self.frame_index = 0;
                    } else {
                        self.frame_index = n - 1;
                        self.elapsed_us = 0;
                        self.finished = true;
                        done = true;
                    }
                }
            }
        }
        proof {
            lemma_advance_in_range(clip.frames@, clip.looping, idx0, e0);
        }
        clip.frames[self.frame_index].sprite_id.as_str()
    }
}

/// On-disk form of a frame: duration in milliseconds.
#[derive(Debug, Clone)]
pub struct AnimationFrameJson {
    pub sprite_id: String,
    pub duration_ms: u64,
}

/// On-disk form of a clip.
#[derive(Debug, Clone)]
pub struct AnimationClipJson {
    pub frames: Vec<AnimationFrameJson>,
    pub looping: bool,
}

/// On-disk form of an animation definition file.
#[derive(Debug, Clone)]
pub struct AnimationFileJson {
    pub version: String,
    pub animation_id: String,
    pub animations: Vec<(String, AnimationClipJson)>,
}

/// What a well-formed animation definition looks like: supported version, a
/// non-empty id, and every clip non-empty with named sprites and positive
/// durations small enough that the microsecond conversion cannot overflow.
pub open spec fn animation_json_valid(json: AnimationFileJson) -> bool {
    &&& json.version@ == "0.1"@
    &&& json.animation_id@.len() > 0
    &&& forall|c: int| 0 <= c < json.animations@.len()
        ==> (#[trigger] json.animations@[c]).1.frames@.len() > 0
    &&& forall|c: int, f: int|
        0 <= c < json.animations@.len() && 0 <= f < json.animations@[c].1.frames@.len() ==> {
            &&& (#[trigger] json.animations@[c].1.frames@[f]).sprite_id@.len() > 0
            &&& 1 <= json.animations@[c].1.frames@[f].duration_ms <= 0xFFFF_FFFF
        }
}

/// Check an animation definition before converting it; on failure the error
/// says which rule broke.
pub fn validate_animation_json(json: &AnimationFileJson) -> (r: Result<(), String>)
    ensures
        r is Ok <==> animation_json_valid(*json),
{
    if !(json.version == "0.1".to_owned()) {
        return Err("Animation validation failed: unsupported version".to_owned());
    }
    if json.animation_id.as_str().unicode_len() == 0 {
        return Err("Animation validation failed: animation_id is empty".to_owned());
    }
    let nc = json.animations.len();
    let mut c: usize = 0;
    while c < nc
        invariant
            c <= nc,
            nc == json.animations@.len(),
            forall|k: int| 0 <= k < c
                ==> (#[trigger] json.animations@[k]).1.frames@.len() > 0,
            forall|k: int, f: int|
                0 <= k < c && 0 <= f < json.animations@[k].1.frames@.len() ==> {
                    &&& (#[trigger] json.animations@[k].1.frames@[f]).sprite_id@.len() > 0
                    &&& 1 <= json.animations@[k].1.frames@[f].duration_ms <= 0xFFFF_FFFF
                },
        decreases nc - c,
    {
        let clip = &json.animations[c].1;
        let nf = clip.frames.len();
        if nf == 0 {
            return Err("Animation validation failed: clip has no frames".to_owned());
        }
        let mut f: usize = 0;
        while f < nf
            invariant
                f <= nf,
                c < nc,
                nc == json.animations@.len(),
                nf == json.animations@[c as int].1.frames@.len(),
                clip == &json.animations@[c as int].1,
                forall|k: int| 0 <= k < f ==> {
                    &&& (#[trigger] clip.frames@[k]).sprite_id@.len() > 0
                    &&& 1 <= clip.frames@[k].duration_ms <= 0xFFFF_FFFF
                },
            decreases nf - f,
        {
            if clip.frames[f].sprite_id.as_str().unicode_len() == 0 {
                return Err("Animation validation failed: frame has empty sprite_id".to_owned());
            }
            if clip.frames[f].duration_ms == 0 {
                return Err("Animation validation failed: frame has zero duration".to_owned());
            }
            if clip.frames[f].duration_ms > 0xFFFF_FFFF {
                return Err("Animation validation failed: frame duration too large".to_owned());
            }
            f = f + 1;
        }
        c = c + 1;
    }
    Ok(())
}

/// Validate an on-disk animation definition and convert its millisecond
/// durations to microseconds. No partially converted file is ever returned.
pub fn animation_file_from_json(json: AnimationFileJson) -> (r: Result<AnimationFile, String>)
    ensures
        r is Ok <==> animation_json_valid(json),
        r is Ok ==> {
            let file = r->Ok_0;
            &&& file.version@ == json.version@
            &&& file.animation_id@ == json.animation_id@
            &&& file.animations@.len() == json.animations@.len()
            &&& forall|c: int| 0 <= c < file.animations@.len() ==> {
                let (name, clip) = #[trigger] file.animations@[c];
                let (jname, jclip) = json.animations@[c];
                &&& name@ == jname@
                &&& clip.looping == jclip.looping
                &&& clip.frames@.len() == jclip.frames@.len()
                &&& clip_wf(clip)
                &&& forall|f: int| 0 <= f < clip.frames@.len() ==> {
                    &&& (#[trigger] clip.frames@[f]).sprite_id@ == jclip.frames@[f].sprite_id@
                    &&& clip.frames@[f].duration_us == jclip.frames@[f].duration_ms * 1000
                }
            }
        },
{
    match validate_animation_json(&json) {
        Ok(_) => {},
        Err(e) => {
            return Err(e);
        },
    }
    let mut animations: Vec<(String, AnimationClip)> = Vec::new();
    let nc = json.animations.len();
    let mut c: usize = 0;
    while c < nc
        invariant
            c <= nc,
            nc == json.animations@.len(),
            animation_json_valid(json),
            animations@.len() == c,
            forall|k: int| 0 <= k < c ==> {
                let (name, clip) = #[trigger] animations@[k];
                let (jname, jclip) = json.animations@[k];
                &&& name@ == jname@
                &&& clip.looping == jclip.looping
                &&& clip.frames@.len() == jclip.frames@.len()
                &&& clip_wf(clip)
                &&& forall|f: int| 0 <= f < clip.frames@.len() ==> {
                    &&& (#[trigger] clip.frames@[f]).sprite_id@ == jclip.frames@[f].sprite_id@
                    &&& clip.frames@[f].duration_us == jclip.frames@[f].duration_ms * 1000
                }
            },
        decreases nc - c,
    {
        let jclip = &json.animations[c].1;
        let nf = jclip.frames.len();
        let mut frames: Vec<AnimationFrame> = Vec::new();
        let mut f: usize = 0;
        while f < nf
            invariant
                f <= nf,
                c < nc,
                nc == json.animations@.len(),
                nf == json.animations@[c as int].1.frames@.len(),
                jclip == &json.animations@[c as int].1,
                animation_json_valid(json),
                frames@.len() == f,
                forall|k: int| 0 <= k < f ==> {
                    &&& (#[trigger] frames@[k]).sprite_id@ == jclip.frames@[k].sprite_id@
                    &&& frames@[k].duration_us == jclip.frames@[k].duration_ms * 1000
                    &&& frames@[k].duration_us >= 1
                },
            decreases nf - f,
        {
            let frame = &jclip.frames[f];
            frames.push(AnimationFrame {
                sprite_id: frame.sprite_id.clone(),
                duration_us: frame.duration_ms * 1000,
            });
            f = f + 1;
        }
        let name = json.animations[c].0.clone();
        animations.push((name, AnimationClip { frames, looping: jclip.looping }));
        c = c + 1;
    }
    Ok(AnimationFile { version: json.version, animation_id: json.animation_id, animations })
}

} // verus!
