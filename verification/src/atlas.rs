//! Atlas metadata and sprite id resolution.
//!
//! The atlas packer outputs a metadata file that maps stable `sprite_id`
//! strings to texture regions (pixel rects, UV rects, pivots). Sprite ids are
//! content-addressed, so renaming or re-packing the atlas sheet does not
//! break scene references. UV coordinates and pivots are fixed-point parts
//! per million of the texture ([`UV_ONE`] is the full extent), so metadata
//! carries no platform-dependent rounding.
//!
//! [`AtlasRegistry::resolve`] is the primary lookup used at render time;
//! [`MultiAtlasRegistry`] spans several atlases with one flat index so that
//! individual atlases can be hot-reloaded without rebuilding everything.

use vstd::prelude::*;

verus! {

/// Full extent of UV space, in parts per million.
pub const UV_ONE: i64 = 1_000_000;

/// The texture a set of sprites was packed onto.
#[derive(Debug, Clone)]
pub struct AtlasTexture {
    pub path: String,
    pub width: u32,
    pub height: u32,
}

/// A sprite's pixel rectangle on the atlas texture.
#[derive(Debug, Clone, Copy, PartialEq, Eq, Structural)]
pub struct AtlasRectPx {
    pub x: u32,
    pub y: u32,
    pub w: u32,
    pub h: u32,
}

/// A sprite's UV rectangle, in parts per million of the texture extent.
#[derive(Debug, Clone, Copy, PartialEq, Eq, Structural)]
pub struct AtlasUvRect {
    pub u0: i64,
    pub v0: i64,
    pub u1: i64,
    pub v1: i64,
}

/// A sprite's pivot point, in parts per million of its own extent.
#[derive(Debug, Clone, Copy, PartialEq, Eq, Structural)]
pub struct AtlasPivot {
    pub x: i64,
    pub y: i64,
}

impl Default for AtlasPivot {
    /// Pivot at the sprite's centre.
    fn default() -> (r: Self)
        ensures
            r.x == 500_000 && r.y == 500_000,
    {
        AtlasPivot { x: 500_000, y: 500_000 }
    }
}

/// One packed sprite as the metadata file describes it.
#[derive(Debug, Clone)]
pub struct AtlasSprite {
    pub sprite_id: String,
    pub name: Option<String>,
    pub source_path: String,
    pub rect_px: AtlasRectPx,
    pub uv: AtlasUvRect,
    pub pivot: AtlasPivot,
}

/// A whole atlas metadata file.
#[derive(Debug, Clone)]
pub struct AtlasFile {
    pub version: String,
    pub atlas_id: String,
    pub texture: AtlasTexture,
    pub sprites: Vec<AtlasSprite>,
}

/// What render code needs about one sprite: its texture, pixel size, UV rect
/// and pivot.
#[derive(Debug)]
pub struct AtlasSpriteEntry {
    pub texture_path: String,
    pub size_px: (u32, u32),
    pub uv: AtlasUvRect,
    pub pivot: (i64, i64),
}

/// Whether a key occurs among keyed sprite entries.
pub open spec fn pair_key_in(s: Seq<(String, AtlasSpriteEntry)>, key: Seq<char>) -> bool {
    exists|i: int| 0 <= i < s.len() && s[i].0@ == key
}

/// What a well-formed atlas metadata file looks like: supported version, a
/// non-degenerate texture, unique sprite ids, and every sprite rect and UV
/// rect non-empty and inside the texture.
pub open spec fn atlas_valid(atlas: AtlasFile) -> bool {
    &&& atlas.version@ == "0.1"@
    &&& atlas.texture.width > 0
    &&& atlas.texture.height > 0
    &&& forall|i: int, j: int| 0 <= i < j < atlas.sprites@.len()
        ==> (#[trigger] atlas.sprites@[i]).sprite_id@ != (#[trigger] atlas.sprites@[j]).sprite_id@
    &&& forall|i: int| 0 <= i < atlas.sprites@.len() ==> {
        let s = #[trigger] atlas.sprites@[i];
        &&& s.rect_px.w > 0
        &&& s.rect_px.h > 0
        &&& s.rect_px.x + s.rect_px.w <= atlas.texture.width
        &&& s.rect_px.y + s.rect_px.h <= atlas.texture.height
        &&& 0 <= s.uv.u0 <= UV_ONE
        &&& 0 <= s.uv.v0 <= UV_ONE
        &&& 0 <= s.uv.u1 <= UV_ONE
        &&& 0 <= s.uv.v1 <= UV_ONE
        &&& s.uv.u0 < s.uv.u1
        &&& s.uv.v0 < s.uv.v1
    }
}

/// Check an atlas metadata file; the error says which rule broke.
pub fn validate_atlas(atlas: &AtlasFile) -> (r: Result<(), String>)
    ensures
        r is Ok <==> atlas_valid(*atlas),
{
    if !(atlas.version == "0.1".to_owned()) {
        return Err("Atlas validation failed: unsupported version".to_owned());
    }
    if atlas.texture.width == 0 || atlas.texture.height == 0 {
        return Err("Atlas validation failed: texture width/height must be > 0".to_owned());
    }
    let n = atlas.sprites.len();
    let mut i: usize = 0;
    while i < n
        invariant
            i <= n,
            n == atlas.sprites@.len(),
            atlas.texture.width > 0,
            atlas.texture.height > 0,
            forall|p: int, q: int| 0 <= p < q < i
                ==> (#[trigger] atlas.sprites@[p]).sprite_id@
                    != (#[trigger] atlas.sprites@[q]).sprite_id@,
            forall|p: int| 0 <= p < i ==> {
                let s = #[trigger] atlas.sprites@[p];
                &&& s.rect_px.w > 0
                &&& s.rect_px.h > 0
                &&& s.rect_px.x + s.rect_px.w <= atlas.texture.width
                &&& s.rect_px.y + s.rect_px.h <= atlas.texture.height
                &&& 0 <= s.uv.u0 <= UV_ONE
                &&& 0 <= s.uv.v0 <= UV_ONE
                &&& 0 <= s.uv.u1 <= UV_ONE
                &&& 0 <= s.uv.v1 <= UV_ONE
                &&& s.uv.u0 < s.uv.u1
                &&& s.uv.v0 < s.uv.v1
            },
        decreases n - i,
    {
        let sprite = &atlas.sprites[i];
        let mut j: usize = 0;
        while j < i
            invariant
                j <= i,
                i < n,
                n == atlas.sprites@.len(),
                sprite == &atlas.sprites@[i as int],
                forall|p: int| 0 <= p < j
                    ==> (#[trigger] atlas.sprites@[p]).sprite_id@
                        != atlas.sprites@[i as int].sprite_id@,
            decreases i - j,
        {
            if atlas.sprites[j].sprite_id == sprite.sprite_id {
                return Err("Atlas validation failed: duplicate sprite_id".to_owned());
            }
            j = j + 1;
        }
        if sprite.rect_px.w == 0 || sprite.rect_px.h == 0 {
            return Err("Atlas validation failed: sprite has zero-sized rect".to_owned());
        }
        let right = sprite.rect_px.x as u64 + sprite.rect_px.w as u64;
        let bottom = sprite.rect_px.y as u64 + sprite.rect_px.h as u64;
        if right > atlas.texture.width as u64 || bottom > atlas.texture.height as u64 {
            return Err("Atlas validation failed: sprite rect exceeds atlas bounds".to_owned());
        }
        if sprite.uv.u0 < 0 || sprite.uv.u0 > UV_ONE || sprite.uv.v0 < 0 || sprite.uv.v0 > UV_ONE
            || sprite.uv.u1 < 0 || sprite.uv.u1 > UV_ONE || sprite.uv.v1 < 0 || sprite.uv.v1
            > UV_ONE {
            return Err("Atlas validation failed: sprite has UV outside unit range".to_owned());
        }
        if sprite.uv.u0 >= sprite.uv.u1 || sprite.uv.v0 >= sprite.uv.v1 {
            return Err("Atlas validation failed: sprite has invalid UV range".to_owned());
        }
        i = i + 1;
    }
    Ok(())
}

/// Registry for one atlas: its id and the per-sprite entries, keyed by
/// sprite id, in file order.
#[derive(Debug)]
pub struct AtlasRegistry {
    pub atlas_id: String,
    pub sprite_entries: Vec<(String, AtlasSpriteEntry)>,
}

impl AtlasRegistry {
    /// Look a sprite id up; the first matching entry wins.
    pub fn resolve(&self, sprite_id: &str) -> (r: Option<&AtlasSpriteEntry>)
        ensures
            r is Some <==> pair_key_in(self.sprite_entries@, sprite_id@),
            r is Some ==> exists|i: int|
                {
                    &&& 0 <= i < self.sprite_entries@.len()
                    &&& self.sprite_entries@[i].0@ == sprite_id@
                    &&& *r->0 == (#[trigger] self.sprite_entries@[i]).1
                    &&& forall|j: int| 0 <= j < i ==> self.sprite_entries@[j].0@ != sprite_id@
                },
    {
        find_entry(&self.sprite_entries, sprite_id)
    }
}

/// First-match lookup in a keyed entry list.
fn find_entry<'a>(
    entries: &'a Vec<(String, AtlasSpriteEntry)>,
    key: &str,
) -> (r: Option<&'a AtlasSpriteEntry>)
    ensures
        r is Some <==> pair_key_in(entries@, key@),
        r is Some ==> exists|i: int|
            {
                &&& 0 <= i < entries@.len()
                &&& entries@[i].0@ == key@
                &&& *r->0 == (#[trigger] entries@[i]).1
                &&& forall|j: int| 0 <= j < i ==> entries@[j].0@ != key@
            },
{
    let owned = key.to_owned();
    let n = entries.len();
    let mut i: usize = 0;
    while i < n
        invariant
            i <= n,
            n == entries@.len(),
            owned@ == key@,
            forall|j: int| 0 <= j < i ==> entries@[j].0@ != key@,
        decreases n - i,
    {
        if entries[i].0 == owned {
            return Some(&entries[i].1);
        }
        i = i + 1;
    }
    None
}

/// Build a registry from a validated atlas description: one entry per
/// sprite, in file order, carrying the shared texture path, the sprite's
/// pixel size, UV rect and pivot. Fails exactly when validation does.
pub fn atlas_registry_from_file(atlas: AtlasFile) -> (r: Result<AtlasRegistry, String>)
    ensures
        r is Ok <==> atlas_valid(atlas),
        r is Ok ==> {
            let reg = r->Ok_0;
            &&& reg.atlas_id@ == atlas.atlas_id@
            &&& reg.sprite_entries@.len() == atlas.sprites@.len()
            &&& forall|i: int| 0 <= i < reg.sprite_entries@.len() ==> {
                let (key, entry) = #[trigger] reg.sprite_entries@[i];
                let sprite = atlas.sprites@[i];
                &&& key@ == sprite.sprite_id@
                &&& entry.texture_path@ == atlas.texture.path@
                &&& entry.size_px == (sprite.rect_px.w, sprite.rect_px.h)
                &&& entry.uv == sprite.uv
                &&& entry.pivot == (sprite.pivot.x, sprite.pivot.y)
            }
        },
{
    match validate_atlas(&atlas) {
        Ok(_) => {},
        Err(e) => {
            return Err(e);
        },
    }
    let n = atlas.sprites.len();
    let mut sprite_entries: Vec<(String, AtlasSpriteEntry)> = Vec::new();
    let mut i: usize = 0;
    while i < n
        invariant
            i <= n,
            n == atlas.sprites@.len(),
            sprite_entries@.len() == i,
            forall|k: int| 0 <= k < i ==> {
                let (key, entry) = #[trigger] sprite_entries@[k];
                let sprite = atlas.sprites@[k];
                &&& key@ == sprite.sprite_id@
                &&& entry.texture_path@ == atlas.texture.path@
                &&& entry.size_px == (sprite.rect_px.w, sprite.rect_px.h)
                &&& entry.uv == sprite.uv
                &&& entry.pivot == (sprite.pivot.x, sprite.pivot.y)
            },
        decreases n - i,
    {
        let sprite = &atlas.sprites[i];
        sprite_entries.push(
            (
                sprite.sprite_id.clone(),
                AtlasSpriteEntry {
                    texture_path: atlas.texture.path.clone(),
                    size_px: (sprite.rect_px.w, sprite.rect_px.h),
                    uv: sprite.uv,
                    pivot: (sprite.pivot.x, sprite.pivot.y),
                },
            ),
        );
        i = i + 1;
    }
    Ok(AtlasRegistry { atlas_id: atlas.atlas_id, sprite_entries })
}

/// Field-wise copy of an entry; the copy equals the original.
fn clone_entry(e: &AtlasSpriteEntry) -> (r: AtlasSpriteEntry)
    ensures
        r == *e,
{
    AtlasSpriteEntry {
        texture_path: e.texture_path.clone(),
        size_px: e.size_px,
        uv: e.uv,
        pivot: e.pivot,
    }
}

/// Registry spanning multiple atlases with one flat sprite index. Each atlas
/// is kept separately, keyed by its file path, so one atlas can be reloaded
/// without rebuilding the rest; the flat index answers lookups across all of
/// them.
pub struct MultiAtlasRegistry {
    /// Loaded atlases, keyed by file path, in load order.
    pub registries: Vec<(String, AtlasRegistry)>,
    /// Flat sprite index across all loaded atlases.
    pub sprite_index: Vec<(String, AtlasSpriteEntry)>,
}

/// Whether a pair (key and entry, both included) occurs in an index.
pub open spec fn pair_in(
    s: Seq<(String, AtlasSpriteEntry)>,
    key: Seq<char>,
    entry: AtlasSpriteEntry,
) -> bool {
    exists|i: int| 0 <= i < s.len() && s[i].0@ == key && s[i].1 == entry
}

/// Whether a path value occurs in a list of strings.
pub open spec fn path_in(s: Seq<String>, p: Seq<char>) -> bool {
    exists|i: int| 0 <= i < s.len() && s[i]@ == p
}

/// Whether some indexed sprite uses the texture path.
pub open spec fn tex_in(s: Seq<(String, AtlasSpriteEntry)>, p: Seq<char>) -> bool {
    exists|i: int| 0 <= i < s.len() && s[i].1.texture_path@ == p
}

/// Whether an atlas key occurs among loaded registries.
pub open spec fn reg_key_in(s: Seq<(String, AtlasRegistry)>, key: Seq<char>) -> bool {
    exists|i: int| 0 <= i < s.len() && s[i].0@ == key
}

impl MultiAtlasRegistry {
    /// An empty multi-atlas registry.
    pub fn new() -> (r: MultiAtlasRegistry)
        ensures
            r.registries@.len() == 0,
            r.sprite_index@.len() == 0,
    {
        MultiAtlasRegistry { registries: Vec::new(), sprite_index: Vec::new() }
    }

    /// Add an atlas keyed by its file path. Rejects the whole atlas if any
    /// of its sprite ids is already indexed (ids must stay unique across
    /// atlases); on success its entries join the flat index and the registry
    /// list grows by this atlas.
    pub fn add_atlas(&mut self, key: &str, registry: AtlasRegistry) -> (r: Result<(), String>)
        ensures
            r is Ok <==> (forall|i: int| 0 <= i < registry.sprite_entries@.len()
                ==> !pair_key_in(
                    old(self).sprite_index@,
                    (#[trigger] registry.sprite_entries@[i]).0@,
                )),
            r is Ok ==> final(self).sprite_index@ == old(self).sprite_index@
                + registry.sprite_entries@,
            r is Ok ==> final(self).registries@.len() == old(self).registries@.len() + 1
                && final(self).registries@[old(self).registries@.len() as int].0@ == key@
                && final(self).registries@[old(self).registries@.len() as int].1.sprite_entries@
                == registry.sprite_entries@
                && final(self).registries@.subrange(0, old(self).registries@.len() as int)
                == old(self).registries@,
            r is Err ==> final(self).sprite_index@ == old(self).sprite_index@
                && final(self).registries@ == old(self).registries@,
    {
        let n = registry.sprite_entries.len();
        let mut i: usize = 0;
        while i < n
            invariant
                i <= n,
                n == registry.sprite_entries@.len(),
                self == old(self),
                forall|k: int| 0 <= k < i
                    ==> !pair_key_in(
                        old(self).sprite_index@,
                        (#[trigger] registry.sprite_entries@[k]).0@,
                    ),
            decreases n - i,
        {
            if find_entry(&self.sprite_index, registry.sprite_entries[i].0.as_str()).is_some() {
                return Err("Duplicate sprite_id across atlases".to_owned());
            }
            i = i + 1;
        }

        let mut j: usize = 0;
        while j < n
            invariant
                j <= n,
                n == registry.sprite_entries@.len(),
                self.registries@ == old(self).registries@,
                self.sprite_index@ == old(self).sprite_index@
                    + registry.sprite_entries@.subrange(0, j as int),
            decreases n - j,
        {
            let pair = &registry.sprite_entries[j];
            let cloned = (pair.0.clone(), clone_entry(&pair.1));
            proof {
                assert(registry.sprite_entries@.subrange(0, j as int + 1)
                    == registry.sprite_entries@.subrange(0, j as int).push(
                    registry.sprite_entries@[j as int],
                ));
                assert(old(self).sprite_index@ + registry.sprite_entries@.subrange(0, j as int + 1)
                    == (old(self).sprite_index@ + registry.sprite_entries@.subrange(0, j as int)).push(
                    registry.sprite_entries@[j as int],
                ));
            }
            self.sprite_index.push(cloned);
            j = j + 1;
        }
        proof {
            assert(registry.sprite_entries@.subrange(0, n as int) == registry.sprite_entries@);
        }
        self.registries.push((key.to_owned(), registry));
        proof {
            assert(self.registries@.subrange(0, old(self).registries@.len() as int)
                == old(self).registries@);
        }
        Ok(())
    }

    /// Remove the atlas keyed by `key` (first occurrence) and drop all of its
    /// sprite ids from the flat index. Unknown keys change nothing.
    pub fn remove_atlas(&mut self, key: &str)
        ensures
            !reg_key_in(old(self).registries@, key@) ==> *final(self) == *old(self),
            reg_key_in(old(self).registries@, key@) ==> exists|i: int|
                {
                    &&& 0 <= i < old(self).registries@.len()
                    &&& (#[trigger] old(self).registries@[i]).0@ == key@
                    &&& forall|j: int| 0 <= j < i ==> old(self).registries@[j].0@ != key@
                    &&& final(self).registries@ == old(self).registries@.remove(i)
                    &&& forall|k: Seq<char>, e: AtlasSpriteEntry|
                        pair_in(final(self).sprite_index@, k, e) == (pair_in(
                            old(self).sprite_index@,
                            k,
                            e,
                        ) && !pair_key_in(old(self).registries@[i].1.sprite_entries@, k))
                },
    {
        let owned = key.to_owned();
        let n = self.registries.len();
        let mut i: usize = 0;
        while i < n
            invariant
                i <= n,
                n == self.registries@.len(),
                self == old(self),
                owned@ == key@,
                forall|j: int| 0 <= j < i ==> old(self).registries@[j].0@ != key@,
            decreases n - i,
        {
            if self.registries[i].0 == owned {
                let removed = self.registries.remove(i);
                remove_keys_of(&mut self.sprite_index, &removed.1.sprite_entries);
                return ;
            }
            i = i + 1;
        }
    }

    /// Resolve a sprite id across all loaded atlases; the first indexed
    /// entry wins.
    pub fn resolve(&self, sprite_id: &str) -> (r: Option<&AtlasSpriteEntry>)
        ensures
            r is Some <==> pair_key_in(self.sprite_index@, sprite_id@),
            r is Some ==> exists|i: int|
                {
                    &&& 0 <= i < self.sprite_index@.len()
                    &&& self.sprite_index@[i].0@ == sprite_id@
                    &&& *r->0 == (#[trigger] self.sprite_index@[i]).1
                    &&& forall|j: int| 0 <= j < i ==> self.sprite_index@[j].0@ != sprite_id@
                },
    {
        find_entry(&self.sprite_index, sprite_id)
    }

    /// The set of distinct texture paths across all indexed sprites.
    pub fn texture_paths(&self) -> (r: Vec<String>)
        ensures
            forall|p: Seq<char>| #[trigger] path_in(r@, p) == tex_in(self.sprite_index@, p),
            forall|i: int, j: int| 0 <= i < j < r@.len() ==> (#[trigger] r@[i])@ != (#[trigger] r@[j])@,
    {
        let n = self.sprite_index.len();
        let mut out: Vec<String> = Vec::new();
        let mut i: usize = 0;
        while i < n
            invariant
                i <= n,
                n == self.sprite_index@.len(),
                forall|p: Seq<char>| #[trigger] path_in(out@, p) == tex_in(
                    self.sprite_index@.subrange(0, i as int),
                    p,
                ),
                forall|p: int, q: int| 0 <= p < q < out@.len()
                    ==> (#[trigger] out@[p])@ != (#[trigger] out@[q])@,
            decreases n - i,
        {
            let path = &self.sprite_index[i].1.texture_path;
            let ghost pre = out@;
            let ghost prefix = self.sprite_index@.subrange(0, i as int);
            let ghost prefix1 = self.sprite_index@.subrange(0, i as int + 1);
            let had = contains_string(&out, path);
            if !had {
                out.push(path.clone());
            }
            proof {
                let cur = self.sprite_index@[i as int].1.texture_path@;
                assert(prefix1.drop_last() == prefix);
                assert(prefix1.last() == self.sprite_index@[i as int]);
                assert forall|p: Seq<char>| #[trigger] path_in(out@, p) == tex_in(prefix1, p) by {
                    if path_in(out@, p) {
                        let k = choose|k: int| 0 <= k < out@.len() && out@[k]@ == p;
                        if k < pre.len() {
                            assert(path_in(pre, p));
                            let m = choose|m: int| 0 <= m < prefix.len() && prefix[m].1.texture_path@ == p;
                            assert(prefix1[m].1.texture_path@ == p);
                        } else {
                            assert(p == cur);
                            assert(prefix1[i as int].1.texture_path@ == p);
                        }
                        assert(tex_in(prefix1, p));
                    }
                    if tex_in(prefix1, p) {
                        let m = choose|m: int| 0 <= m < prefix1.len() && prefix1[m].1.texture_path@ == p;
                        if m < i as int {
                            assert(prefix[m].1.texture_path@ == p);
                            assert(path_in(pre, p));
                            let k = choose|k: int| 0 <= k < pre.len() && pre[k]@ == p;
                            assert(out@[k]@ == p);
                        } else {
                            assert(p == cur);
                            if had {
                                assert(path_in(pre, p));
                                let k = choose|k: int| 0 <= k < pre.len() && pre[k]@ == p;
                                assert(out@[k]@ == p);
                            } else {
                                assert(out@[out@.len() - 1]@ == p);
                            }
                        }
                        assert(path_in(out@, p));
                    }
                }
                if !had {
                    assert forall|p: int, q: int| 0 <= p < q < out@.len() implies (#[trigger] out@[p])@
                        != (#[trigger] out@[q])@ by {
                        if q == pre.len() {
                            if pre[p]@ == cur {
                                assert(path_in(pre, cur));
                            }
                        }
                    }
                }
            }
            i = i + 1;
        }
        proof {
            assert(self.sprite_index@.subrange(0, n as int) == self.sprite_index@);
        }
        out
    }

    /// How many atlases are loaded.
    pub fn atlas_count(&self) -> (r: usize)
        ensures
            r == self.registries@.len(),
    {
        self.registries.len()
    }

    /// Whether no atlases are loaded.
    pub fn is_empty(&self) -> (r: bool)
        ensures
            r == (self.registries@.len() == 0),
    {
        self.registries.len() == 0
    }
}

/// Membership scan for a string value.
fn contains_string(v: &Vec<String>, s: &String) -> (r: bool)
    ensures
        r == path_in(v@, s@),
{
    let n = v.len();
    let mut i: usize = 0;
    while i < n
        invariant
            i <= n,
            n == v@.len(),
            forall|j: int| 0 <= j < i ==> (#[trigger] v@[j])@ != s@,
        decreases n - i,
    {
        if v[i] == *s {
            return true;
        }
        i = i + 1;
    }
    false
}

/// Remove every index entry whose key occurs in `keys` (an atlas's own
/// entries); used when an atlas is unloaded.
fn remove_keys_of(
    index: &mut Vec<(String, AtlasSpriteEntry)>,
    keys: &Vec<(String, AtlasSpriteEntry)>,
)
    ensures
        forall|k: Seq<char>, e: AtlasSpriteEntry|
            pair_in(final(index)@, k, e) == (pair_in(old(index)@, k, e) && !pair_key_in(keys@, k)),
{
    let n = keys.len();
    let mut i: usize = 0;
    while i < n
        invariant
            i <= n,
            n == keys@.len(),
            forall|k: Seq<char>, e: AtlasSpriteEntry|
                pair_in(index@, k, e) == (pair_in(old(index)@, k, e) && !pair_key_in(
                    keys@.subrange(0, i as int),
                    k,
                )),
        decreases n - i,
    {
        proof {
            assert(keys@.subrange(0, i as int + 1) == keys@.subrange(0, i as int).push(
                keys@[i as int],
            ));
        }
        remove_key(index, &keys[i].0);
        proof {
            let pre = keys@.subrange(0, i as int);
            let post = keys@.subrange(0, i as int + 1);
            assert forall|k: Seq<char>| pair_key_in(post, k) == (pair_key_in(pre, k) || k
                == keys@[i as int].0@) by {
                if pair_key_in(pre, k) {
                    let m = choose|m: int| 0 <= m < pre.len() && pre[m].0@ == k;
                    assert(post[m].0@ == k);
                }
                if k == keys@[i as int].0@ {
                    assert(post[i as int].0@ == k);
                }
                if pair_key_in(post, k) {
                    let m = choose|m: int| 0 <= m < post.len() && post[m].0@ == k;
                    if m < i as int {
                        assert(pre[m].0@ == k);
                    }
                }
            }
        }
        i = i + 1;
    }
    proof {
        assert(keys@.subrange(0, n as int) == keys@);
    }
}

/// Remove every index entry with the given key.
fn remove_key(index: &mut Vec<(String, AtlasSpriteEntry)>, key: &String)
    ensures
        forall|k: Seq<char>, e: AtlasSpriteEntry|
            pair_in(final(index)@, k, e) == (pair_in(old(index)@, k, e) && k != key@),
{
    let mut out: Vec<(String, AtlasSpriteEntry)> = Vec::new();
    let n = index.len();
    let mut i: usize = 0;
    while i < n
        invariant
            i <= n,
            n == index@.len(),
            index@ == old(index)@,
            forall|k: Seq<char>, e: AtlasSpriteEntry|
                pair_in(out@, k, e) == (pair_in(index@.subrange(0, i as int), k, e) && k != key@),
        decreases n - i,
    {
        let keep = !(index[i].0 == *key);
        proof {
            assert(index@.subrange(0, i as int + 1) == index@.subrange(0, i as int).push(
                index@[i as int],
            ));
        }
        let ghost pre_out = out@;
        if keep {
            let pair = &index[i];
            out.push((pair.0.clone(), clone_entry(&pair.1)));
        }
        proof {
            let prefix = index@.subrange(0, i as int);
            let prefix1 = index@.subrange(0, i as int + 1);
            let cur = index@[i as int];
            assert forall|k: Seq<char>, e: AtlasSpriteEntry|
                pair_in(out@, k, e) == (pair_in(prefix1, k, e) && k != key@) by {
                if pair_in(out@, k, e) {
                    let m = choose|m: int| 0 <= m < out@.len() && out@[m].0@ == k && out@[m].1 == e;
                    if m < pre_out.len() {
                        assert(pair_in(pre_out, k, e));
                        let m2 = choose|m2: int|
                            0 <= m2 < prefix.len() && prefix[m2].0@ == k && prefix[m2].1 == e;
                        assert(prefix1[m2].0@ == k && prefix1[m2].1 == e);
                    } else {
                        assert(out@[m].0@ == cur.0@ && out@[m].1 == cur.1);
                        assert(prefix1[i as int].0@ == k && prefix1[i as int].1 == e);
                    }
                }
                if pair_in(prefix1, k, e) && k != key@ {
                    let m = choose|m: int|
                        0 <= m < prefix1.len() && prefix1[m].0@ == k && prefix1[m].1 == e;
                    if m < i as int {
                        assert(prefix[m].0@ == k && prefix[m].1 == e);
                        assert(pair_in(pre_out, k, e));
                        let m2 = choose|m2: int|
                            0 <= m2 < pre_out.len() && pre_out[m2].0@ == k && pre_out[m2].1 == e;
                        assert(out@[m2].0@ == k && out@[m2].1 == e);
                    } else {
                        assert(cur.0@ == k && cur.1 == e);
                        assert(keep);
                        assert(out@[out@.len() - 1].0@ == k && out@[out@.len() - 1].1 == e);
                    }
                }
            }
        }
        i = i + 1;
    }
    proof {
        assert(index@.subrange(0, n as int) == index@);
    }
    *index = out;
}

} // verus!
