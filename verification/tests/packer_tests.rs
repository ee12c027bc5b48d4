use sme_core::packer::{
    hash_rgba8_bytes, hex_encode, id_registry_path_for, normalize_path_for_json,
    resolve_or_assign_sprite_id, seed_registry_from_sprites, temporary_output_path,
    IdRegistryEntry, IdRegistryFile,
};

#[test]
fn test_normalize_path_replaces_backslashes() {
    let result = normalize_path_for_json("foo\\bar\\baz.png");
    assert_eq!(result, "foo/bar/baz.png");
}

#[test]
fn test_normalize_path_preserves_forward_slashes() {
    let result = normalize_path_for_json("foo/bar/baz.png");
    assert_eq!(result, "foo/bar/baz.png");
}

#[test]
fn test_hash_rgba8_bytes_deterministic() {
    let bytes_a = vec![0u8, 1, 2, 3, 4, 5, 6, 7];
    let bytes_b = vec![10u8, 20, 30, 40, 50, 60, 70, 80];

    let hash_a1 = hash_rgba8_bytes(&bytes_a);
    let hash_a2 = hash_rgba8_bytes(&bytes_a);
    let hash_b = hash_rgba8_bytes(&bytes_b);

    // Same input produces same hash
    assert_eq!(hash_a1, hash_a2);

    // Different input produces different hash
    assert_ne!(hash_a1, hash_b);

    // Valid hex string: lowercase, 64 chars for SHA-256
    assert_eq!(hash_a1.len(), 64);
    assert!(hash_a1.chars().all(|c| c.is_ascii_hexdigit()));
    assert_eq!(hash_a1, hash_a1.to_lowercase());
}

#[test]
fn test_id_registry_path_for() {
    let result = id_registry_path_for("atlas.json");
    assert_eq!(result, "atlas.ids.json");
}

#[test]
fn test_temporary_output_path() {
    let result = temporary_output_path("output/atlas.png");
    assert_eq!(result, "output/atlas.png.tmp");
}

#[test]
fn id_registry_path_keeps_directories() {
    assert_eq!(
        id_registry_path_for("assets/generated/m4_sample_atlas.json"),
        "assets/generated/m4_sample_atlas.ids.json"
    );
    assert_eq!(id_registry_path_for("plain"), "plain.ids.json");
}

#[test]
fn test_resolve_sprite_id_by_path() {
    let mut registry = IdRegistryFile {
        entries: vec![IdRegistryEntry {
            sprite_id: "existing-id-123".to_string(),
            source_hash: "old_hash".to_string(),
            last_known_path: "a.png".to_string(),
        }],
    };

    let result = resolve_or_assign_sprite_id(&mut registry, "a.png", "some_hash");
    assert_eq!(result, "existing-id-123");
}

#[test]
fn test_resolve_sprite_id_by_hash() {
    let mut registry = IdRegistryFile {
        entries: vec![IdRegistryEntry {
            sprite_id: "hash-matched-id".to_string(),
            source_hash: "abc123".to_string(),
            last_known_path: "old.png".to_string(),
        }],
    };

    let result = resolve_or_assign_sprite_id(&mut registry, "renamed.png", "abc123");
    assert_eq!(result, "hash-matched-id");

    // Verify last_known_path was updated
    assert_eq!(registry.entries[0].last_known_path, "renamed.png");
}

#[test]
fn test_resolve_sprite_id_new_assignment() {
    let mut registry = IdRegistryFile { entries: vec![] };

    let result = resolve_or_assign_sprite_id(&mut registry, "brand_new.png", "new_hash_xyz");

    // Should return a non-empty string (UUID)
    assert!(!result.is_empty());
    // UUID format: 8-4-4-4-12 hex chars with dashes = 36 chars
    assert_eq!(result.len(), 36);
    assert!(result.contains('-'));

    // Should have added an entry
    assert_eq!(registry.entries.len(), 1);
    assert_eq!(registry.entries[0].sprite_id, result);
    assert_eq!(registry.entries[0].source_hash, "new_hash_xyz");
    assert_eq!(registry.entries[0].last_known_path, "brand_new.png");
}

#[test]
fn test_resolve_sprite_id_updates_hash_on_path_match() {
    let mut registry = IdRegistryFile {
        entries: vec![IdRegistryEntry {
            sprite_id: "stable-id-456".to_string(),
            source_hash: "old_hash".to_string(),
            last_known_path: "a.png".to_string(),
        }],
    };

    let result = resolve_or_assign_sprite_id(&mut registry, "a.png", "new_hash");

    // Should return the same sprite_id
    assert_eq!(result, "stable-id-456");

    // source_hash should be updated
    assert_eq!(registry.entries[0].source_hash, "new_hash");
}

#[test]
fn seed_registry_adds_only_missing_ids() {
    let mut registry = IdRegistryFile {
        entries: vec![IdRegistryEntry {
            sprite_id: "id-aaa".to_string(),
            source_hash: "hash-aaa".to_string(),
            last_known_path: "sprites/hero.png".to_string(),
        }],
    };
    let sprites = vec![
        ("id-aaa".to_string(), "sprites/hero.png".to_string()),
        ("id-bbb".to_string(), "sprites/enemy.png".to_string()),
    ];
    seed_registry_from_sprites(&mut registry, &sprites);
    assert_eq!(registry.entries.len(), 2);
    assert_eq!(registry.entries[0].sprite_id, "id-aaa");
    assert_eq!(registry.entries[0].source_hash, "hash-aaa");
    assert_eq!(registry.entries[1].sprite_id, "id-bbb");
    assert_eq!(registry.entries[1].source_hash, "");
    assert_eq!(registry.entries[1].last_known_path, "sprites/enemy.png");
}

#[test]
fn hex_of_known_bytes() {
    let bytes = vec![0x00u8, 0x0f, 0xa5, 0xff];
    assert_eq!(hex_encode(&bytes), "000fa5ff");
}
