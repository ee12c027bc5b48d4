//! Animation registry: clips from multiple animation definition files,
//! resolved by name, plus construction of per-sprite playback states for a
//! scene.
//!
//! Clips are organised by the defining file's `animation_id` and then by clip
//! name. Lookup supports both targeted resolution (with a source id) and
//! global search (first loaded file that has the name wins).

use vstd::prelude::*;
use crate::animation::{AnimationClip, AnimationFile, AnimationState};
use crate::atlas::{MultiAtlasRegistry, pair_key_in};
use crate::scene::SceneFile;

verus! {

/// Clips of one loaded animation file, keyed by clip name, in file order.
pub type ClipSet = Vec<(String, AnimationClip)>;

/// Whether a clip name occurs in a clip set.
pub open spec fn clip_key_in(s: Seq<(String, AnimationClip)>, name: Seq<char>) -> bool {
    exists|i: int| 0 <= i < s.len() && s[i].0@ == name
}

/// Whether a file id occurs among loaded files.
pub open spec fn file_key_in(s: Seq<(String, ClipSet)>, id: Seq<char>) -> bool {
    exists|i: int| 0 <= i < s.len() && s[i].0@ == id
}

/// `j` is the first loaded file carrying `id`.
pub open spec fn is_first_file(s: Seq<(String, ClipSet)>, j: int, id: Seq<char>) -> bool {
    &&& 0 <= j < s.len()
    &&& s[j].0@ == id
    &&& forall|k: int| 0 <= k < j ==> s[k].0@ != id
}

/// Whether `resolve_clip` finds a clip: with a source only that file (the
/// first with the id) is searched; without one, any loaded file counts.
pub open spec fn clip_resolvable(
    s: Seq<(String, ClipSet)>,
    source: Option<Seq<char>>,
    name: Seq<char>,
) -> bool {
    if source is Some {
        exists|j: int| #[trigger] is_first_file(s, j, source->0) && clip_key_in(s[j].1@, name)
    } else {
        exists|j: int| 0 <= j < s.len() && clip_key_in(#[trigger] s[j].1@, name)
    }
}

/// Registry holding animation clips from multiple animation definition
/// files, organised by `animation_id` and clip name.
pub struct AnimationRegistry {
    /// Loaded files: `animation_id` to its clips, in load order. Managed by
    /// the methods below.
    pub clips: Vec<(String, ClipSet)>,
}

impl AnimationRegistry {
    /// An empty registry.
    pub fn new() -> (r: AnimationRegistry)
        ensures
            r.clips@.len() == 0,
    {
        AnimationRegistry { clips: Vec::new() }
    }

    /// Register a validated animation file's clips under its `animation_id`,
    /// replacing any earlier load of the same id.
    pub fn load_file(&mut self, file: AnimationFile)
        ensures
            file_key_in(old(self).clips@, file.animation_id@) ==> exists|j: int|
                {
                    &&& #[trigger] is_first_file(old(self).clips@, j, file.animation_id@)
                    &&& final(self).clips@ == old(self).clips@.update(
                        j,
                        (file.animation_id, file.animations),
                    )
                },
            !file_key_in(old(self).clips@, file.animation_id@) ==> final(self).clips@
                == old(self).clips@.push((file.animation_id, file.animations)),
    {
        let n = self.clips.len();
        let mut i: usize = 0;
        while i < n
            invariant
                i <= n,
                n == self.clips@.len(),
                self == old(self),
                forall|k: int| 0 <= k < i ==> self.clips@[k].0@ != file.animation_id@,
            decreases n - i,
        {
            if self.clips[i].0 == file.animation_id {
                proof {
                    assert(is_first_file(old(self).clips@, i as int, file.animation_id@));
                }
                self.clips.set(i, (file.animation_id, file.animations));
                return ;
            }
            i = i + 1;
        }
        self.clips.push((file.animation_id, file.animations));
    }

    /// Remove the clips of a previously loaded animation file (the first
    /// load under that id). Unknown ids change nothing.
    pub fn remove_file(&mut self, animation_id: &str)
        ensures
            !file_key_in(old(self).clips@, animation_id@) ==> final(self).clips@
                == old(self).clips@,
            file_key_in(old(self).clips@, animation_id@) ==> exists|j: int|
                {
                    &&& #[trigger] is_first_file(old(self).clips@, j, animation_id@)
                    &&& final(self).clips@ == old(self).clips@.remove(j)
                },
    {
        let owned = animation_id.to_owned();
        let n = self.clips.len();
        let mut i: usize = 0;
        while i < n
            invariant
                i <= n,
                n == self.clips@.len(),
                self == old(self),
                owned@ == animation_id@,
                forall|k: int| 0 <= k < i ==> self.clips@[k].0@ != animation_id@,
            decreases n - i,
        {
            if self.clips[i].0 == owned {
                proof {
                    assert(is_first_file(old(self).clips@, i as int, animation_id@));
                }
                self.clips.remove(i);
                return ;
            }
            i = i + 1;
        }
    }

    /// Drop all loaded animation data.
    pub fn clear(&mut self)
        ensures
            final(self).clips@.len() == 0,
    {
        self.clips = Vec::new();
    }

    /// Resolve a clip by name. With a source id only that animation file is
    /// searched; without one, all loaded files are searched in load order
    /// and the first match wins.
    pub fn resolve_clip(&self, source: Option<&str>, name: &str) -> (r: Option<&AnimationClip>)
        ensures
            source is Some ==> (r is Some <==> clip_resolvable(
                self.clips@,
                Some(source->0@),
                name@,
            )),
            source is None ==> (r is Some <==> clip_resolvable(self.clips@, None, name@)),
            r is Some ==> exists|j: int, i: int|
                {
                    &&& 0 <= j < self.clips@.len()
                    &&& 0 <= i < self.clips@[j].1@.len()
                    &&& (#[trigger] self.clips@[j].1@[i]).0@ == name@
                    &&& *r->0 == self.clips@[j].1@[i].1
                },
    {
        match source {
            Some(source_id) => {
                let ghost so: Option<Seq<char>> = Some(source_id@);
                let owned = source_id.to_owned();
                let n = self.clips.len();
                let mut i: usize = 0;
                while i < n
                    invariant
                        i <= n,
                        n == self.clips@.len(),
                        owned@ == source_id@,
                        so == Some(source_id@),
                        source is Some && source->0 == source_id,
                        forall|k: int| 0 <= k < i ==> self.clips@[k].0@ != source_id@,
                    decreases n - i,
                {
                    if self.clips[i].0 == owned {
                        let r = find_clip(&self.clips[i].1, name);
                        proof {
                            assert(is_first_file(self.clips@, i as int, source_id@));
                            if r is Some {
                                assert(clip_key_in(self.clips@[i as int].1@, name@));
                                assert(exists|j: int|
                                    #[trigger] is_first_file(self.clips@, j, so->0)
                                        && clip_key_in(self.clips@[j].1@, name@)) by {
                                    assert(is_first_file(self.clips@, i as int, so->0)
                                        && clip_key_in(self.clips@[i as int].1@, name@));
                                }
                                assert(clip_resolvable(self.clips@, so, name@));
                            } else {
                                assert(!clip_key_in(self.clips@[i as int].1@, name@));
                                assert(!clip_resolvable(self.clips@, so, name@)) by {
                                    if clip_resolvable(self.clips@, so, name@) {
                                        let j = choose|j: int|
                                            #[trigger] is_first_file(self.clips@, j, so->0)
                                                && clip_key_in(self.clips@[j].1@, name@);
                                        assert(j == i as int);
                                    }
                                }
                            }
                            assert(so == Some(source->0@));
                        }
                        return r;
                    }
                    i = i + 1;
                }
                proof {
                    assert(!clip_resolvable(self.clips@, so, name@)) by {
                        if clip_resolvable(self.clips@, so, name@) {
                            let j = choose|j: int|
                                #[trigger] is_first_file(self.clips@, j, so->0) && clip_key_in(
                                    self.clips@[j].1@,
                                    name@,
                                );
                            assert(self.clips@[j].0@ == source_id@);
                            assert(false);
                        }
                    }
                }
                None
            },
            None => {
                let n = self.clips.len();
                let mut i: usize = 0;
                while i < n
                    invariant
                        i <= n,
                        n == self.clips@.len(),
                        source is None,
                        forall|k: int| 0 <= k < i
                            ==> !clip_key_in(#[trigger] self.clips@[k].1@, name@),
                    decreases n - i,
                {
                    let r = find_clip(&self.clips[i].1, name);
                    if r.is_some() {
                        proof {
                            assert(clip_key_in(self.clips@[i as int].1@, name@));
                            assert(clip_resolvable(self.clips@, None, name@)) by {
                                assert(0 <= i);
                                assert((i as int) < self.clips@.len());
                                assert(clip_key_in(self.clips@[i as int].1@, name@));
                            }
                        }
                        return r;
                    }
                    i = i + 1;
                }
                None
            },
        }
    }
}

/// First-match clip lookup within one file's clips.
fn find_clip<'a>(clips: &'a ClipSet, name: &str) -> (r: Option<&'a AnimationClip>)
    ensures
        r is Some <==> clip_key_in(clips@, name@),
        r is Some ==> exists|i: int|
            {
                &&& 0 <= i < clips@.len()
                &&& (#[trigger] clips@[i]).0@ == name@
                &&& *r->0 == clips@[i].1
            },
{
    let owned = name.to_owned();
    let n = clips.len();
    let mut i: usize = 0;
    while i < n
        invariant
            i <= n,
            n == clips@.len(),
            owned@ == name@,
            forall|j: int| 0 <= j < i ==> clips@[j].0@ != name@,
        decreases n - i,
    {
        if clips[i].0 == owned {
            return Some(&clips[i].1);
        }
        i = i + 1;
    }
    None
}

/// The effective clip source of a scene sprite: its `animation_source`, with
/// an absent or empty source meaning a global search.
pub open spec fn sprite_source(sprite: crate::scene::SceneSprite) -> Option<Seq<char>> {
    match sprite.animation_source {
        Some(s) => if s@.len() > 0 {
            Some(s@)
        } else {
            None
        },
        None => None,
    }
}

/// The playback states a list of sprites contributes, as (sprite id, state
/// source id, clip name) views: one per sprite that names an animation whose
/// clip resolves in the registry.
pub open spec fn states_for_sprites(
    reg: Seq<(String, ClipSet)>,
    sprites: Seq<crate::scene::SceneSprite>,
) -> Seq<(Seq<char>, Seq<char>, Seq<char>)>
    decreases sprites.len(),
{
    if sprites.len() == 0 {
        Seq::empty()
    } else {
        let rest = states_for_sprites(reg, sprites.drop_last());
        let sprite = sprites.last();
        match sprite.animation {
            Some(clip_name) => {
                if clip_resolvable(reg, sprite_source(sprite), clip_name@) {
                    let src = match sprite_source(sprite) {
                        Some(s) => s,
                        None => clip_name@,
                    };
                    rest.push((sprite.id@, src, clip_name@))
                } else {
                    rest
                }
            },
            None => rest,
        }
    }
}

/// The playback states a whole scene contributes, layer by layer.
pub open spec fn states_for_layers(
    reg: Seq<(String, ClipSet)>,
    layers: Seq<crate::scene::SceneLayer>,
) -> Seq<(Seq<char>, Seq<char>, Seq<char>)>
    decreases layers.len(),
{
    if layers.len() == 0 {
        Seq::empty()
    } else {
        states_for_layers(reg, layers.drop_last()) + states_for_sprites(
            reg,
            layers.last().sprites@,
        )
    }
}

/// Build one fresh playback state per animated scene sprite whose clip
/// resolves in the registry, keyed by the sprite's id, in scene order. A
/// sprite whose clip cannot be resolved contributes nothing.
pub fn build_animation_states(
    scene: &SceneFile,
    animation_registry: &AnimationRegistry,
) -> (r: Vec<(String, AnimationState)>)
    ensures
        r@.len() == states_for_layers(animation_registry.clips@, scene.layers@).len(),
        forall|k: int| 0 <= k < r@.len() ==> {
            let expect = states_for_layers(animation_registry.clips@, scene.layers@)[k];
            &&& (#[trigger] r@[k]).0@ == expect.0
            &&& r@[k].1.source_id@ == expect.1
            &&& r@[k].1.clip_name@ == expect.2
            &&& r@[k].1.frame_index == 0
            &&& r@[k].1.elapsed_us == 0
            &&& !r@[k].1.finished
        },
{
    let ghost reg = animation_registry.clips@;
    let mut states: Vec<(String, AnimationState)> = Vec::new();
    let nl = scene.layers.len();
    let mut li: usize = 0;
    while li < nl
        invariant
            li <= nl,
            nl == scene.layers@.len(),
            reg == animation_registry.clips@,
            states_ok(states@, states_for_layers(reg, scene.layers@.subrange(0, li as int))),
        decreases nl - li,
    {
        let ns = scene.layers[li].sprites.len();
        let mut si: usize = 0;
        while si < ns
            invariant
                si <= ns,
                li < nl,
                nl == scene.layers@.len(),
                ns == scene.layers@[li as int].sprites@.len(),
                reg == animation_registry.clips@,
                states_ok(
                    states@,
                    states_for_layers(reg, scene.layers@.subrange(0, li as int))
                        + states_for_sprites(
                        reg,
                        scene.layers@[li as int].sprites@.subrange(0, si as int),
                    ),
                ),
            decreases ns - si,
        {
            let sprite = &scene.layers[li].sprites[si];
            proof {
                assert(scene.layers@[li as int].sprites@.subrange(0, si as int + 1).drop_last()
                    == scene.layers@[li as int].sprites@.subrange(0, si as int));
                assert(scene.layers@[li as int].sprites@.subrange(0, si as int + 1).last()
                    == scene.layers@[li as int].sprites@[si as int]);
            }
            match &sprite.animation {
                Some(clip_name) => {
                    let source_opt: Option<&str> = match &sprite.animation_source {
                        Some(s) => {
                            if s.as_str().unicode_len() == 0 {
                                None
                            } else {
                                Some(s.as_str())
                            }
                        },
                        None => None,
                    };
                    if animation_registry.resolve_clip(source_opt, clip_name.as_str()).is_some() {
                        let state_source: &str = match &sprite.animation_source {
                            Some(s) => {
                                if s.as_str().unicode_len() == 0 {
                                    clip_name.as_str()
                                } else {
                                    s.as_str()
                                }
                            },
                            None => clip_name.as_str(),
                        };
                        let state = AnimationState::new(state_source, clip_name.as_str());
                        states.push((sprite.id.clone(), state));
                    }
                },
                None => {},
            }
            si = si + 1;
        }
        proof {
            assert(scene.layers@.subrange(0, li as int + 1).drop_last()
                == scene.layers@.subrange(0, li as int));
            assert(scene.layers@.subrange(0, li as int + 1).last()
                == scene.layers@[li as int]);
            assert(scene.layers@[li as int].sprites@.subrange(
                0,
                scene.layers@[li as int].sprites@.len() as int,
            ) == scene.layers@[li as int].sprites@);
        }
        li = li + 1;
    }
    proof {
        assert(scene.layers@.subrange(0, nl as int) == scene.layers@);
    }
    states
}

/// The built states match the expected (sprite id, source, clip name) rows.
pub open spec fn states_ok(
    built: Seq<(String, AnimationState)>,
    expect: Seq<(Seq<char>, Seq<char>, Seq<char>)>,
) -> bool {
    &&& built.len() == expect.len()
    &&& forall|k: int| 0 <= k < built.len() ==> {
        &&& (#[trigger] built[k]).0@ == expect[k].0
        &&& built[k].1.source_id@ == expect[k].1
        &&& built[k].1.clip_name@ == expect[k].2
        &&& built[k].1.frame_index == 0
        &&& built[k].1.elapsed_us == 0
        &&& !built[k].1.finished
    }
}

impl AnimationRegistry {
    /// Check that every frame sprite id used by any loaded clip exists in the
    /// multi-atlas registry; the first missing id is reported.
    pub fn validate_sprites(&self, multi_atlas: &MultiAtlasRegistry) -> (r: Result<(), String>)
    ensures
        r is Ok <==> forall|j: int, c: int, f: int|
            {
                &&& 0 <= j < self.clips@.len()
                &&& 0 <= c < self.clips@[j].1@.len()
                &&& 0 <= f < self.clips@[j].1@[c].1.frames@.len()
            } ==> pair_key_in(
                multi_atlas.sprite_index@,
                (#[trigger] self.clips@[j].1@[c].1.frames@[f]).sprite_id@,
            ),
{
    let nj = self.clips.len();
    let mut j: usize = 0;
    while j < nj
        invariant
            j <= nj,
            nj == self.clips@.len(),
            forall|j2: int, c2: int, f2: int|
                {
                    &&& 0 <= j2 < j
                    &&& 0 <= c2 < self.clips@[j2].1@.len()
                    &&& 0 <= f2 < self.clips@[j2].1@[c2].1.frames@.len()
                } ==> pair_key_in(
                    multi_atlas.sprite_index@,
                    (#[trigger] self.clips@[j2].1@[c2].1.frames@[f2]).sprite_id@,
                ),
        decreases nj - j,
    {
        let nc = self.clips[j].1.len();
        let mut c: usize = 0;
        while c < nc
            invariant
                c <= nc,
                j < nj,
                nj == self.clips@.len(),
                nc == self.clips@[j as int].1@.len(),
                forall|c2: int, f2: int|
                    {
                        &&& 0 <= c2 < c
                        &&& 0 <= f2 < self.clips@[j as int].1@[c2].1.frames@.len()
                    } ==> pair_key_in(
                        multi_atlas.sprite_index@,
                        (#[trigger] self.clips@[j as int].1@[c2].1.frames@[f2]).sprite_id@,
                    ),
            decreases nc - c,
        {
            let nf = self.clips[j].1[c].1.frames.len();
            let mut f: usize = 0;
            while f < nf
                invariant
                    f <= nf,
                    c < nc,
                    j < nj,
                    nj == self.clips@.len(),
                    nc == self.clips@[j as int].1@.len(),
                    nf == self.clips@[j as int].1@[c as int].1.frames@.len(),
                    forall|f2: int| 0 <= f2 < f ==> pair_key_in(
                        multi_atlas.sprite_index@,
                        (#[trigger] self.clips@[j as int].1@[c as int].1.frames@[f2]).sprite_id@,
                    ),
                decreases nf - f,
            {
                if multi_atlas.resolve(
                    self.clips[j].1[c].1.frames[f].sprite_id.as_str(),
                ).is_none() {
                    return Err(
                        "Animation clip references a sprite_id missing from the atlases".to_owned(),
                    );
                }
                f = f + 1;
            }
            c = c + 1;
        }
        j = j + 1;
    }
    Ok(())
}
}

} // verus!
