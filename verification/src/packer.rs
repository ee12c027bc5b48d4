//! Atlas packer bookkeeping: path normalisation for metadata files, the
//! sprite id registry that keeps ids stable across re-packs, and the
//! content hash that lets an id follow a renamed source image.
//!
//! Sprite ids are content-addressed: a source image is recognised first by
//! its last known path, then by the SHA-256 hash of its pixels, and only a
//! genuinely new image is assigned a fresh id.

use vstd::prelude::*;

verus! {

/// A path with every backslash replaced by a forward slash, so metadata is
/// identical across platforms.
pub open spec fn normalized_path(s: Seq<char>) -> Seq<char> {
    s.map(
        |i: int, c: char|
            if c == '\\' {
                '/'
            } else {
                c
            },
    )
}

/// Normalise a path for metadata output: backslashes become forward slashes.
pub fn normalize_path_for_json(path: &str) -> (r: String)
    ensures
        r@ == normalized_path(path@),
{
    let n = path.unicode_len();
    let mut out = String::new();
    let mut i: usize = 0;
    proof {
        assert(out@ =~= normalized_path(path@.subrange(0, 0)));
    }
    while i < n
        invariant
            i <= n,
            n == path@.len(),
            out@ == normalized_path(path@.subrange(0, i as int)),
        decreases n - i,
    {
        let c = path.get_char(i);
        if c == '\\' {
            out.append("/");
            proof {
                reveal_strlit("/");
            }
        } else {
            let piece = path.substring_char(i, i + 1);
            out.append(piece);
        }
        proof {
            assert(out@ =~= normalized_path(path@.subrange(0, i as int + 1)));
        }
        i = i + 1;
    }
    proof {
        assert(path@.subrange(0, n as int) == path@);
    }
    out
}

/// Where the last '.' of a path's file name sits, if any: the extension
/// separator that `id_registry_path_for` replaces from.
pub open spec fn last_dot_after_slash(s: Seq<char>) -> Option<int> {
    if exists|i: int| 0 <= i < s.len() && s[i] == '.' && (forall|j: int|
        i < j < s.len() ==> s[j] != '/' && s[j] != '.') {
        Some(
            choose|i: int|
                0 <= i < s.len() && s[i] == '.' && (forall|j: int|
                    i < j < s.len() ==> s[j] != '/' && s[j] != '.'),
        )
    } else {
        None
    }
}

/// The id registry that belongs to an atlas metadata path: the metadata
/// file's extension replaced by `ids.json` (so `atlas.json` maps to
/// `atlas.ids.json`), or the suffix appended when the name has no extension.
pub fn id_registry_path_for(atlas_json_output: &str) -> (r: String)
    ensures
        match last_dot_after_slash(atlas_json_output@) {
            Some(dot) => r@ == atlas_json_output@.subrange(0, dot) + ".ids.json"@,
            None => r@ == atlas_json_output@ + ".ids.json"@,
        },
{
    let n = atlas_json_output.unicode_len();
    // Scan backward for the extension separator, stopping at a path separator.
    let mut k: usize = n;
    while k > 0
        invariant
            k <= n,
            n == atlas_json_output@.len(),
            forall|j: int| k <= j < n ==> atlas_json_output@[j] != '/'
                && atlas_json_output@[j] != '.',
        decreases k,
    {
        let c = atlas_json_output.get_char(k - 1);
        if c == '.' {
            let stem = atlas_json_output.substring_char(0, k - 1);
            let r = stem.to_owned().concat(".ids.json");
            proof {
                let s = atlas_json_output@;
                let dot = k - 1 as int;
                assert(s[dot] == '.');
                assert(last_dot_after_slash(s) == Some(dot as int)) by {
                    assert(0 <= dot < s.len() && s[dot as int] == '.' && (forall|j: int|
                        dot < j < s.len() ==> s[j] != '/' && s[j] != '.'));
                    let w = choose|i: int|
                        0 <= i < s.len() && s[i] == '.' && (forall|j: int|
                            i < j < s.len() ==> s[j] != '/' && s[j] != '.');
                    if w < dot as int {
                        assert(s[dot as int] == '.');
                        assert(false);
                    }
                    if w > dot as int {
                        assert(s[w] != '.');
                        assert(false);
                    }
                }
            }
            return r;
        }
        if c == '/' {
            proof {
                let s = atlas_json_output@;
                if last_dot_after_slash(s) is Some {
                    let w = choose|i: int|
                        0 <= i < s.len() && s[i] == '.' && (forall|j: int|
                            i < j < s.len() ==> s[j] != '/' && s[j] != '.');
                    if w >= k {
                        assert(s[w] != '.');
                    } else {
                        assert(s[k - 1] == '/');
                        assert(w < k - 1 || w == k - 1);
                        if w == k - 1 {
                            assert(s[w] == '.');
                        } else {
                            assert(s[k - 1] != '/');
                        }
                    }
                    assert(false);
                }
            }
            return atlas_json_output.to_owned().concat(".ids.json");
        }
        k = k - 1;
    }
    proof {
        let s = atlas_json_output@;
        if last_dot_after_slash(s) is Some {
            let w = choose|i: int|
                0 <= i < s.len() && s[i] == '.' && (forall|j: int|
                    i < j < s.len() ==> s[j] != '/' && s[j] != '.');
            assert(s[w] != '.');
            assert(false);
        }
    }
    atlas_json_output.to_owned().concat(".ids.json")
}

/// The temporary sibling a freshly produced output is written to before it
/// replaces the real file: the path with `.tmp` appended.
pub fn temporary_output_path(path: &str) -> (r: String)
    ensures
        r@ == path@ + ".tmp"@,
{
    path.to_owned().concat(".tmp")
}

/// The SHA-256 digest of a byte string. Its value is fixed by the input
/// alone; nothing here states what it is.
pub uninterp spec fn sha256_of(bytes: Seq<u8>) -> Seq<u8>;

/// Relies on sha2's `Sha256` (via the `Digest` trait): the digest is a pure
/// function of the input bytes and is 32 bytes long.
#[verifier::external_body]
fn sha256_digest(bytes: &[u8]) -> (r: Vec<u8>)
    ensures
        r@ == sha256_of(bytes@),
        r@.len() == 32,
{
    let mut hasher = <sha2::Sha256 as sha2::Digest>::new();
    sha2::Digest::update(&mut hasher, bytes);
    let digest = sha2::Digest::finalize(hasher);
    digest.to_vec()
}

/// The sixteen lowercase hex digits, by value.
pub open spec fn hex_digit(n: int) -> char {
    seq!['0', '1', '2', '3', '4', '5', '6', '7', '8', '9', 'a', 'b', 'c', 'd', 'e', 'f'][n]
}

/// Lowercase hex encoding of a byte string, two digits per byte.
pub open spec fn hex_of(bytes: Seq<u8>) -> Seq<char>
    decreases bytes.len(),
{
    if bytes.len() == 0 {
        Seq::empty()
    } else {
        hex_of(bytes.drop_last()) + seq![
            hex_digit(bytes.last() as int / 16),
            hex_digit(bytes.last() as int % 16),
        ]
    }
}

/// One lowercase hex digit as a string slice.
fn hex_digit_str(n: u8) -> (r: &'static str)
    requires
        n < 16,
    ensures
        r@.len() == 1,
        r@[0] == hex_digit(n as int),
{
    proof {
        reveal_strlit("0");
        reveal_strlit("1");
        reveal_strlit("2");
        reveal_strlit("3");
        reveal_strlit("4");
        reveal_strlit("5");
        reveal_strlit("6");
        reveal_strlit("7");
        reveal_strlit("8");
        reveal_strlit("9");
        reveal_strlit("a");
        reveal_strlit("b");
        reveal_strlit("c");
        reveal_strlit("d");
        reveal_strlit("e");
        reveal_strlit("f");
    }
    if n == 0 {
        "0"
    } else if n == 1 {
        "1"
    } else if n == 2 {
        "2"
    } else if n == 3 {
        "3"
    } else if n == 4 {
        "4"
    } else if n == 5 {
        "5"
    } else if n == 6 {
        "6"
    } else if n == 7 {
        "7"
    } else if n == 8 {
        "8"
    } else if n == 9 {
        "9"
    } else if n == 10 {
        "a"
    } else if n == 11 {
        "b"
    } else if n == 12 {
        "c"
    } else if n == 13 {
        "d"
    } else if n == 14 {
        "e"
    } else {
        "f"
    }
}

/// Lowercase hex encoding of a byte string.
pub fn hex_encode(bytes: &Vec<u8>) -> (r: String)
    ensures
        r@ == hex_of(bytes@),
        r@.len() == 2 * bytes@.len(),
{
    let n = bytes.len();
    let mut out = String::new();
    let mut i: usize = 0;
    proof {
        lemma_hex_len(bytes@.subrange(0, 0));
        assert(out@ =~= hex_of(bytes@.subrange(0, 0)));
    }
    while i < n
        invariant
            i <= n,
            n == bytes@.len(),
            out@ == hex_of(bytes@.subrange(0, i as int)),
        decreases n - i,
    {
        let b = bytes[i];
        out.append(hex_digit_str(b / 16));
        out.append(hex_digit_str(b % 16));
        proof {
            assert(bytes@.subrange(0, i as int + 1).drop_last() == bytes@.subrange(0, i as int));
            assert(bytes@.subrange(0, i as int + 1).last() == bytes@[i as int]);
            assert(out@ =~= hex_of(bytes@.subrange(0, i as int + 1)));
        }
        i = i + 1;
    }
    proof {
        assert(bytes@.subrange(0, n as int) == bytes@);
        lemma_hex_len(bytes@);
    }
    out
}

/// Hex output is two characters per input byte.
pub proof fn lemma_hex_len(bytes: Seq<u8>)
    ensures
        hex_of(bytes).len() == 2 * bytes.len(),
    decreases bytes.len(),
{
    if bytes.len() > 0 {
        lemma_hex_len(bytes.drop_last());
    }
}

/// Content hash of raw RGBA8 pixel bytes: the lowercase hex form of their
/// SHA-256 digest, 64 characters.
pub fn hash_rgba8_bytes(bytes: &[u8]) -> (r: String)
    ensures
        r@ == hex_of(sha256_of(bytes@)),
        r@.len() == 64,
{
    let digest = sha256_digest(bytes);
    hex_encode(&digest)
}

/// One row of the sprite id registry: a stable id, the content hash it was
/// last seen with, and the source path it was last seen at.
#[derive(Debug, Clone)]
pub struct IdRegistryEntry {
    pub sprite_id: String,
    pub source_hash: String,
    pub last_known_path: String,
}

/// The sprite id registry an atlas carries beside its metadata.
#[derive(Debug, Clone)]
pub struct IdRegistryFile {
    pub entries: Vec<IdRegistryEntry>,
}

/// Whether some registry row has the given last-known path.
pub open spec fn entry_with_path(s: Seq<IdRegistryEntry>, path: Seq<char>) -> bool {
    exists|i: int| 0 <= i < s.len() && s[i].last_known_path@ == path
}

/// Whether some registry row has the given content hash.
pub open spec fn entry_with_hash(s: Seq<IdRegistryEntry>, hash: Seq<char>) -> bool {
    exists|i: int| 0 <= i < s.len() && s[i].source_hash@ == hash
}

/// Relies on uuid's `Uuid::new_v4` and its `Display` form: a random
/// version-4 UUID rendered as the 36-character lowercase hyphenated form.
/// Nothing is promised about which UUID comes back.
#[verifier::external_body]
fn new_uuid_string() -> (r: String)
    ensures
        r@.len() == 36,
{
    uuid::Uuid::new_v4().to_string()
}

/// Resolve the stable sprite id for a source image: a row with the same
/// last-known path wins and has its hash refreshed; otherwise a row with the
/// same content hash wins (the image moved) and has its path refreshed;
/// otherwise a fresh id is minted and recorded.
pub fn resolve_or_assign_sprite_id(
    id_registry: &mut IdRegistryFile,
    source_path: &str,
    source_hash: &str,
) -> (r: String)
    ensures
        entry_with_path(old(id_registry).entries@, source_path@) ==> exists|i: int|
            {
                &&& 0 <= i < old(id_registry).entries@.len()
                &&& (#[trigger] old(id_registry).entries@[i]).last_known_path@ == source_path@
                &&& forall|j: int| 0 <= j < i
                    ==> old(id_registry).entries@[j].last_known_path@ != source_path@
                &&& r@ == old(id_registry).entries@[i].sprite_id@
                &&& final(id_registry).entries@ == old(id_registry).entries@.update(
                    i,
                    IdRegistryEntry {
                        source_hash: final(id_registry).entries@[i].source_hash,
                        ..old(id_registry).entries@[i]
                    },
                )
                &&& final(id_registry).entries@[i].source_hash@ == source_hash@
            },
        !entry_with_path(old(id_registry).entries@, source_path@) && entry_with_hash(
            old(id_registry).entries@,
            source_hash@,
        ) ==> exists|i: int|
            {
                &&& 0 <= i < old(id_registry).entries@.len()
                &&& (#[trigger] old(id_registry).entries@[i]).source_hash@ == source_hash@
                &&& forall|j: int| 0 <= j < i
                    ==> old(id_registry).entries@[j].source_hash@ != source_hash@
                &&& r@ == old(id_registry).entries@[i].sprite_id@
                &&& final(id_registry).entries@ == old(id_registry).entries@.update(
                    i,
                    IdRegistryEntry {
                        last_known_path: final(id_registry).entries@[i].last_known_path,
                        ..old(id_registry).entries@[i]
                    },
                )
                &&& final(id_registry).entries@[i].last_known_path@ == source_path@
            },
        !entry_with_path(old(id_registry).entries@, source_path@) && !entry_with_hash(
            old(id_registry).entries@,
            source_hash@,
        ) ==> {
            &&& r@.len() == 36
            &&& final(id_registry).entries@.len() == old(id_registry).entries@.len() + 1
            &&& final(id_registry).entries@.subrange(0, old(id_registry).entries@.len() as int)
                == old(id_registry).entries@
            &&& final(id_registry).entries@.last().sprite_id@ == r@
            &&& final(id_registry).entries@.last().source_hash@ == source_hash@
            &&& final(id_registry).entries@.last().last_known_path@ == source_path@
        },
{
    let n = id_registry.entries.len();
    let path_owned = source_path.to_owned();
    let hash_owned = source_hash.to_owned();

    let mut i: usize = 0;
    while i < n
        invariant
            i <= n,
            n == id_registry.entries@.len(),
            id_registry == old(id_registry),
            path_owned@ == source_path@,
            hash_owned@ == source_hash@,
            forall|j: int| 0 <= j < i
                ==> (#[trigger] id_registry.entries@[j]).last_known_path@ != source_path@,
        decreases n - i,
    {
        if id_registry.entries[i].last_known_path == path_owned {
            let refreshed = IdRegistryEntry {
                sprite_id: id_registry.entries[i].sprite_id.clone(),
                source_hash: hash_owned,
                last_known_path: id_registry.entries[i].last_known_path.clone(),
            };
            let r = refreshed.sprite_id.clone();
            id_registry.entries.set(i, refreshed);
            proof {
                assert(final(id_registry).entries@ =~= old(id_registry).entries@.update(
                    i as int,
                    IdRegistryEntry {
                        source_hash: final(id_registry).entries@[i as int].source_hash,
                        ..old(id_registry).entries@[i as int]
                    },
                ));
            }
            return r;
        }
        i = i + 1;
    }

    let mut k: usize = 0;
    while k < n
        invariant
            k <= n,
            n == id_registry.entries@.len(),
            id_registry == old(id_registry),
            path_owned@ == source_path@,
            hash_owned@ == source_hash@,
            forall|j: int| 0 <= j < n
                ==> (#[trigger] id_registry.entries@[j]).last_known_path@ != source_path@,
            forall|j: int| 0 <= j < k
                ==> (#[trigger] id_registry.entries@[j]).source_hash@ != source_hash@,
        decreases n - k,
    {
        if id_registry.entries[k].source_hash == hash_owned {
            let moved = IdRegistryEntry {
                sprite_id: id_registry.entries[k].sprite_id.clone(),
                source_hash: id_registry.entries[k].source_hash.clone(),
                last_known_path: path_owned,
            };
            let r = moved.sprite_id.clone();
            id_registry.entries.set(k, moved);
            proof {
                assert(final(id_registry).entries@ =~= old(id_registry).entries@.update(
                    k as int,
                    IdRegistryEntry {
                        last_known_path: final(id_registry).entries@[k as int].last_known_path,
                        ..old(id_registry).entries@[k as int]
                    },
                ));
            }
            return r;
        }
        k = k + 1;
    }

    let sprite_id = new_uuid_string();
    let r = sprite_id.clone();
    id_registry.entries.push(
        IdRegistryEntry { sprite_id, source_hash: hash_owned, last_known_path: path_owned },
    );
    proof {
        assert(final(id_registry).entries@.subrange(0, old(id_registry).entries@.len() as int)
            =~= old(id_registry).entries@);
    }
    r
}

/// Whether some registry row carries the sprite id.
pub open spec fn has_sprite_id(s: Seq<IdRegistryEntry>, id: Seq<char>) -> bool {
    exists|i: int| 0 <= i < s.len() && s[i].sprite_id@ == id
}

/// Pushing a row keeps every id that was already present.
proof fn lemma_has_sprite_id_push(s: Seq<IdRegistryEntry>, e: IdRegistryEntry, id: Seq<char>)
    ensures
        has_sprite_id(s, id) ==> has_sprite_id(s.push(e), id),
        e.sprite_id@ == id ==> has_sprite_id(s.push(e), id),
{
    if has_sprite_id(s, id) {
        let i = choose|i: int| 0 <= i < s.len() && s[i].sprite_id@ == id;
        assert(s.push(e)[i].sprite_id@ == id);
    }
    if e.sprite_id@ == id {
        assert(s.push(e)[s.len() as int].sprite_id@ == id);
    }
}

/// Seed a fresh id registry from already-published atlas metadata: every
/// sprite id not yet in the registry gains a row with its source path and an
/// unknown content hash, so re-packing keeps the published ids. Sprites are
/// given as (sprite id, source path) pairs.
pub fn seed_registry_from_sprites(
    id_registry: &mut IdRegistryFile,
    sprites: &Vec<(String, String)>,
)
    ensures
        final(id_registry).entries@.len() >= old(id_registry).entries@.len(),
        final(id_registry).entries@.subrange(0, old(id_registry).entries@.len() as int)
            == old(id_registry).entries@,
        forall|s: int| 0 <= s < sprites@.len() ==> has_sprite_id(
            final(id_registry).entries@,
            (#[trigger] sprites@[s]).0@,
        ),
{
    let n = sprites.len();
    let mut s: usize = 0;
    while s < n
        invariant
            s <= n,
            n == sprites@.len(),
            id_registry.entries@.len() >= old(id_registry).entries@.len(),
            id_registry.entries@.subrange(0, old(id_registry).entries@.len() as int)
                == old(id_registry).entries@,
            forall|s2: int| 0 <= s2 < s ==> has_sprite_id(
                id_registry.entries@,
                (#[trigger] sprites@[s2]).0@,
            ),
        decreases n - s,
    {
        let sprite_id = &sprites[s].0;
        let source_path = &sprites[s].1;
        let ghost pre = id_registry.entries@;
        let mut found = false;
        let m = id_registry.entries.len();
        let mut i: usize = 0;
        while i < m
            invariant
                i <= m,
                m == id_registry.entries@.len(),
                sprite_id@ == sprites@[s as int].0@,
                s < n,
                n == sprites@.len(),
                found ==> has_sprite_id(id_registry.entries@, sprite_id@),
                !found ==> forall|j: int| 0 <= j < i
                    ==> (#[trigger] id_registry.entries@[j]).sprite_id@ != sprite_id@,
            decreases m - i,
        {
            if id_registry.entries[i].sprite_id == *sprite_id {
                found = true;
                proof {
                    assert(has_sprite_id(id_registry.entries@, sprite_id@));
                }
                break ;
            }
            i = i + 1;
        }
        if !found {
            let row = IdRegistryEntry {
                sprite_id: sprite_id.clone(),
                source_hash: String::new(),
                last_known_path: source_path.clone(),
            };
            proof {
                lemma_has_sprite_id_push(pre, row, sprites@[s as int].0@);
                assert forall|s2: int| 0 <= s2 < s implies has_sprite_id(
                    pre.push(row),
                    (#[trigger] sprites@[s2]).0@,
                ) by {
                    lemma_has_sprite_id_push(pre, row, sprites@[s2].0@);
                }
            }
            id_registry.entries.push(row);
            proof {
                assert(id_registry.entries@.subrange(0, old(id_registry).entries@.len() as int)
                    =~= pre.subrange(0, old(id_registry).entries@.len() as int));
            }
        }
        s = s + 1;
    }
}

} // verus!
