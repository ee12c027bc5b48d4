//! Scene definition and hot-reload bookkeeping for the sprite-scene world
//! model.
//!
//! Scenes are ordered layers of sprites with parallax, depth sorting and
//! foreground occlusion. Positions are fixed-point subunits and the scalar
//! knobs (parallax, zoom, rotation, scale) are thousandths, so scene data
//! carries no platform-dependent rounding.
//!
//! Hot reload works by filesystem modification-time polling: the host reads
//! the scene file's modification time once per frame (as an opaque integer
//! timestamp) and hands it to [`SceneWatcher::should_reload`], which is
//! checked at the top of the simulation loop — a safe reload boundary.

use vstd::prelude::*;
use crate::atlas::{MultiAtlasRegistry, pair_key_in};

verus! {

/// Only sprites that name their texture through a stable sprite id are
/// accepted when this is set; it is the engine's shipping configuration.
pub const STRICT_SPRITE_ID_RESOLUTION: bool = true;

/// Initial camera placement: centre in subunits, zoom in thousandths.
#[derive(Debug, Clone, Copy, PartialEq, Eq, Structural)]
pub struct SceneCamera {
    pub start_x: i64,
    pub start_y: i64,
    pub zoom: i32,
}

/// How a layer orders its sprites before drawing.
#[derive(Debug, Clone, Copy, PartialEq, Eq, Structural)]
pub enum SortMode {
    Unsorted,
    Y,
}

impl Default for SortMode {
    /// Scenes leave sprites in authored order unless they opt in.
    fn default() -> (r: Self)
        ensures
            r is Unsorted,
    {
        SortMode::Unsorted
    }
}

/// One sprite placement in a layer. Either `asset` (a raw texture path) or
/// `sprite_id` (an atlas-stable id) must be present. Position is subunits;
/// rotation, scale are thousandths (of a degree, of unit scale).
#[derive(Debug, Clone)]
pub struct SceneSprite {
    pub id: String,
    pub asset: Option<String>,
    pub sprite_id: Option<String>,
    pub animation: Option<String>,
    pub animation_source: Option<String>,
    pub x: i64,
    pub y: i64,
    pub z: i64,
    pub rotation_deg: i32,
    pub scale_x: i32,
    pub scale_y: i32,
}

/// One ordered layer of sprites with a parallax factor in thousandths.
#[derive(Debug, Clone)]
pub struct SceneLayer {
    pub id: String,
    pub parallax: i32,
    pub sort_mode: SortMode,
    pub occlusion: bool,
    pub visible: bool,
    pub sprites: Vec<SceneSprite>,
}

/// A whole scene: identity, optional camera, atlas and animation file
/// references, and the layers in draw order.
#[derive(Debug, Clone)]
pub struct SceneFile {
    pub version: String,
    pub scene_id: String,
    pub camera: Option<SceneCamera>,
    pub atlases: Vec<String>,
    pub animations: Vec<String>,
    pub layers: Vec<SceneLayer>,
}

/// What a well-formed scene looks like: a supported version, at least one
/// layer, layer ids unique, sprite ids unique across the whole scene, and
/// every sprite naming a texture one way or the other.
pub open spec fn scene_valid(scene: SceneFile) -> bool {
    &&& (scene.version@ == "0.1"@ || scene.version@ == "0.2"@)
    &&& scene.layers@.len() > 0
    &&& forall|i: int, j: int| 0 <= i < j < scene.layers@.len()
        ==> (#[trigger] scene.layers@[i]).id@ != (#[trigger] scene.layers@[j]).id@
    &&& forall|li: int, si: int, lj: int, sj: int|
        {
            &&& 0 <= li < scene.layers@.len()
            &&& 0 <= si < scene.layers@[li].sprites@.len()
            &&& 0 <= lj < scene.layers@.len()
            &&& 0 <= sj < scene.layers@[lj].sprites@.len()
            &&& (li, si) != (lj, sj)
        } ==> (#[trigger] scene.layers@[li].sprites@[si]).id@
            != (#[trigger] scene.layers@[lj].sprites@[sj]).id@
    &&& forall|li: int, si: int|
        0 <= li < scene.layers@.len() && 0 <= si < scene.layers@[li].sprites@.len()
            ==> ((#[trigger] scene.layers@[li].sprites@[si]).asset is Some
                || scene.layers@[li].sprites@[si].sprite_id is Some)
}

/// Check a scene before using it. Identifier uniqueness is validated
/// strictly so loader and runtime paths can assume it without defensive
/// branching. On failure the error says which rule broke and the scene is
/// not used.
pub fn validate_scene(scene: &SceneFile) -> (r: Result<(), String>)
    ensures
        r is Ok <==> scene_valid(*scene),
{
    if !(scene.version == "0.1".to_owned()) && !(scene.version == "0.2".to_owned()) {
        return Err("Scene validation failed: unsupported version".to_owned());
    }
    if scene.layers.len() == 0 {
        return Err("Scene validation failed: layers array is empty".to_owned());
    }

    let nl = scene.layers.len();
    let mut li: usize = 0;
    while li < nl
        invariant
            li <= nl,
            nl == scene.layers@.len(),
            forall|i: int, j: int| 0 <= i < j < li
                ==> (#[trigger] scene.layers@[i]).id@ != (#[trigger] scene.layers@[j]).id@,
        decreases nl - li,
    {
        let mut lj: usize = 0;
        while lj < li
            invariant
                lj <= li,
                li < nl,
                nl == scene.layers@.len(),
                forall|j: int| 0 <= j < lj
                    ==> (#[trigger] scene.layers@[j]).id@ != scene.layers@[li as int].id@,
            decreases li - lj,
        {
            if scene.layers[lj].id == scene.layers[li].id {
                return Err("Scene validation failed: duplicate layer id".to_owned());
            }
            lj = lj + 1;
        }
        li = li + 1;
    }

    // Global sprite id uniqueness and texture reference presence, checked
    // pair by pair over (layer, sprite) positions.
    let mut ai: usize = 0;
    while ai < nl
        invariant
            ai <= nl,
            nl == scene.layers@.len(),
            forall|li2: int, si2: int|
                0 <= li2 < ai && 0 <= si2 < scene.layers@[li2].sprites@.len()
                    ==> ((#[trigger] scene.layers@[li2].sprites@[si2]).asset is Some
                        || scene.layers@[li2].sprites@[si2].sprite_id is Some),
            forall|li2: int, si2: int, lj2: int, sj2: int|
                {
                    &&& 0 <= li2 < nl
                    &&& 0 <= si2 < scene.layers@[li2].sprites@.len()
                    &&& 0 <= lj2 < nl
                    &&& 0 <= sj2 < scene.layers@[lj2].sprites@.len()
                    &&& (li2, si2) != (lj2, sj2)
                    &&& li2 < ai
                    &&& lj2 < ai
                } ==> (#[trigger] scene.layers@[li2].sprites@[si2]).id@
                    != (#[trigger] scene.layers@[lj2].sprites@[sj2]).id@,
        decreases nl - ai,
    {
        let ns = scene.layers[ai].sprites.len();
        let mut asx: usize = 0;
        while asx < ns
            invariant
                asx <= ns,
                ai < nl,
                nl == scene.layers@.len(),
                ns == scene.layers@[ai as int].sprites@.len(),
                forall|li2: int, si2: int|
                    0 <= li2 < ai && 0 <= si2 < scene.layers@[li2].sprites@.len()
                        ==> ((#[trigger] scene.layers@[li2].sprites@[si2]).asset is Some
                            || scene.layers@[li2].sprites@[si2].sprite_id is Some),
                forall|si2: int| 0 <= si2 < asx
                    ==> ((#[trigger] scene.layers@[ai as int].sprites@[si2]).asset is Some
                        || scene.layers@[ai as int].sprites@[si2].sprite_id is Some),
                forall|li2: int, si2: int, lj2: int, sj2: int|
                    {
                        &&& 0 <= li2 < nl
                        &&& 0 <= si2 < scene.layers@[li2].sprites@.len()
                        &&& 0 <= lj2 < nl
                        &&& 0 <= sj2 < scene.layers@[lj2].sprites@.len()
                        &&& (li2, si2) != (lj2, sj2)
                        &&& (li2 < ai || (li2 == ai && si2 < asx))
                        &&& (lj2 < ai || (lj2 == ai && sj2 < asx))
                    } ==> (#[trigger] scene.layers@[li2].sprites@[si2]).id@
                        != (#[trigger] scene.layers@[lj2].sprites@[sj2]).id@,
            decreases ns - asx,
        {
            let sprite = &scene.layers[ai].sprites[asx];
            if sprite.asset.is_none() && sprite.sprite_id.is_none() {
                return Err(
                    "Scene validation failed: sprite must provide either asset or sprite_id".to_owned(),
                );
            }
            // Compare against every earlier (layer, sprite) position.
            let mut bi: usize = 0;
            while bi <= ai
                invariant
                    bi <= ai + 1,
                    ai < nl,
                    asx < ns,
                    nl == scene.layers@.len(),
                    ns == scene.layers@[ai as int].sprites@.len(),
                    sprite == &scene.layers@[ai as int].sprites@[asx as int],
                    forall|lj2: int, sj2: int|
                        {
                            &&& 0 <= lj2 < bi
                            &&& 0 <= sj2 < scene.layers@[lj2].sprites@.len()
                            &&& (lj2, sj2) != (ai as int, asx as int)
                            &&& (lj2 < ai || sj2 < asx)
                        } ==> (#[trigger] scene.layers@[lj2].sprites@[sj2]).id@ != sprite.id@,
                decreases ai - bi + 1,
            {
                let ms = if bi == ai {
                    asx
                } else {
                    scene.layers[bi].sprites.len()
                };
                let mut bs: usize = 0;
                while bs < ms
                    invariant
                        bs <= ms,
                        bi <= ai,
                        ai < nl,
                        asx < ns,
                        nl == scene.layers@.len(),
                        ns == scene.layers@[ai as int].sprites@.len(),
                        ms == if bi == ai {
                            asx as int
                        } else {
                            scene.layers@[bi as int].sprites@.len() as int
                        },
                        sprite == &scene.layers@[ai as int].sprites@[asx as int],
                        forall|sj2: int| 0 <= sj2 < bs
                            ==> (#[trigger] scene.layers@[bi as int].sprites@[sj2]).id@
                                != sprite.id@,
                    decreases ms - bs,
                {
                    if scene.layers[bi].sprites[bs].id == sprite.id {
                        return Err("Scene validation failed: duplicate sprite id".to_owned());
                    }
                    bs = bs + 1;
                }
                bi = bi + 1;
            }
            proof {
                assert forall|li2: int, si2: int, lj2: int, sj2: int|
                    {
                        &&& 0 <= li2 < nl
                        &&& 0 <= si2 < scene.layers@[li2].sprites@.len()
                        &&& 0 <= lj2 < nl
                        &&& 0 <= sj2 < scene.layers@[lj2].sprites@.len()
                        &&& (li2, si2) != (lj2, sj2)
                        &&& (li2 < ai || (li2 == ai && si2 < asx + 1))
                        &&& (lj2 < ai || (lj2 == ai && sj2 < asx + 1))
                    } implies (#[trigger] scene.layers@[li2].sprites@[si2]).id@
                    != (#[trigger] scene.layers@[lj2].sprites@[sj2]).id@ by {
                    if (li2, si2) == (ai as int, asx as int) {
                        assert(scene.layers@[lj2].sprites@[sj2].id@
                            != scene.layers@[ai as int].sprites@[asx as int].id@);
                    } else if (lj2, sj2) == (ai as int, asx as int) {
                        assert(scene.layers@[li2].sprites@[si2].id@
                            != scene.layers@[ai as int].sprites@[asx as int].id@);
                    }
                }
            }
            asx = asx + 1;
        }
        ai = ai + 1;
    }
    Ok(())
}

/// When sprite ids are resolved strictly, every sprite that names a
/// `sprite_id` must find it in the loaded atlases, and some atlas metadata
/// must be loaded at all. Returns the first violation as an error.
pub fn validate_scene_sprite_references(
    scene: &SceneFile,
    multi_atlas: &MultiAtlasRegistry,
) -> (r: Result<(), String>)
    ensures
        r is Ok <==> (!STRICT_SPRITE_ID_RESOLUTION || forall|li: int, si: int|
            0 <= li < scene.layers@.len() && 0 <= si < scene.layers@[li].sprites@.len()
                && (#[trigger] scene.layers@[li].sprites@[si]).sprite_id is Some ==> {
                &&& multi_atlas.registries@.len() > 0
                &&& pair_key_in(
                    multi_atlas.sprite_index@,
                    scene.layers@[li].sprites@[si].sprite_id->0@,
                )
            }),
{
    if !STRICT_SPRITE_ID_RESOLUTION {
        return Ok(());
    }

    let nl = scene.layers.len();
    let mut li: usize = 0;
    while li < nl
        invariant
            li <= nl,
            nl == scene.layers@.len(),
            forall|li2: int, si2: int|
                0 <= li2 < li && 0 <= si2 < scene.layers@[li2].sprites@.len()
                    && (#[trigger] scene.layers@[li2].sprites@[si2]).sprite_id is Some ==> {
                    &&& multi_atlas.registries@.len() > 0
                    &&& pair_key_in(
                        multi_atlas.sprite_index@,
                        scene.layers@[li2].sprites@[si2].sprite_id->0@,
                    )
                },
        decreases nl - li,
    {
        let ns = scene.layers[li].sprites.len();
        let mut si: usize = 0;
        while si < ns
            invariant
                si <= ns,
                li < nl,
                nl == scene.layers@.len(),
                ns == scene.layers@[li as int].sprites@.len(),
                forall|li2: int, si2: int|
                    0 <= li2 < li && 0 <= si2 < scene.layers@[li2].sprites@.len()
                        && (#[trigger] scene.layers@[li2].sprites@[si2]).sprite_id is Some ==> {
                        &&& multi_atlas.registries@.len() > 0
                        &&& pair_key_in(
                            multi_atlas.sprite_index@,
                            scene.layers@[li2].sprites@[si2].sprite_id->0@,
                        )
                    },
                forall|si2: int|
                    0 <= si2 < si
                        && (#[trigger] scene.layers@[li as int].sprites@[si2]).sprite_id is Some
                        ==> {
                        &&& multi_atlas.registries@.len() > 0
                        &&& pair_key_in(
                            multi_atlas.sprite_index@,
                            scene.layers@[li as int].sprites@[si2].sprite_id->0@,
                        )
                    },
            decreases ns - si,
        {
            let sprite = &scene.layers[li].sprites[si];
            match &sprite.sprite_id {
                None => {},
                Some(sprite_id) => {
                    if multi_atlas.is_empty() {
                        return Err(
                            "sprite references a sprite_id but no atlas metadata is loaded".to_owned(),
                        );
                    }
                    if multi_atlas.resolve(sprite_id.as_str()).is_none() {
                        return Err("sprite references a missing sprite_id".to_owned());
                    }
                },
            }
            si = si + 1;
        }
        li = li + 1;
    }
    Ok(())
}

/// Mtime-polling hot-reload bookkeeping for one scene file. The host reads
/// the file's modification time (any monotone integer encoding, absent when
/// the file is missing) and this decides whether a reload is due.
pub struct SceneWatcher {
    /// The last modification time already acted on, if any.
    pub last_seen_modified: Option<u64>,
}

impl SceneWatcher {
    /// Start watching from the given initial modification time (absent if
    /// the file does not exist yet).
    pub fn new(initial_modified: Option<u64>) -> (r: SceneWatcher)
        ensures
            r.last_seen_modified == initial_modified,
    {
        SceneWatcher { last_seen_modified: initial_modified }
    }

    /// Report whether the scene should be reloaded given the file's current
    /// modification time: yes when the file changed since last seen, or when
    /// it appeared after being absent; never for a missing or unchanged
    /// file. Acting on a change records it, so a reload fires once.
    pub fn should_reload(&mut self, current_modified: Option<u64>) -> (r: bool)
        ensures
            r == match (old(self).last_seen_modified, current_modified) {
                (Some(prev), Some(now)) => now > prev,
                (None, Some(_)) => true,
                _ => false,
            },
            r ==> final(self).last_seen_modified == current_modified,
            !r ==> final(self).last_seen_modified == old(self).last_seen_modified,
    {
        match (self.last_seen_modified, current_modified) {
            (Some(prev), Some(now)) => {
                if now > prev {
                    self.last_seen_modified = Some(now);
                    true
                } else {
                    false
                }
            },
            (None, Some(now)) => {
                self.last_seen_modified = Some(now);
                true
            },
            _ => false,
        }
    }
}

} // verus!
