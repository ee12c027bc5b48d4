use sme_core::atlas::{
    atlas_registry_from_file, AtlasFile, AtlasPivot, AtlasRectPx, AtlasRegistry, AtlasSprite,
    AtlasSpriteEntry, AtlasTexture, AtlasUvRect, MultiAtlasRegistry, UV_ONE,
};

fn make_sprite(id: &str, x: u32) -> AtlasSprite {
    AtlasSprite {
        sprite_id: id.to_string(),
        name: None,
        source_path: "assets/textures/a.png".to_string(),
        rect_px: AtlasRectPx { x, y: 0, w: 32, h: 32 },
        uv: AtlasUvRect { u0: 0, v0: 0, u1: UV_ONE / 2, v1: UV_ONE / 2 },
        pivot: AtlasPivot::default(),
    }
}

fn make_file(sprites: Vec<AtlasSprite>) -> AtlasFile {
    AtlasFile {
        version: "0.1".to_string(),
        atlas_id: "test".to_string(),
        texture: AtlasTexture {
            path: "assets/generated/test.png".to_string(),
            width: 64,
            height: 64,
        },
        sprites,
    }
}

#[test]
fn atlas_registry_from_valid_file_resolves() {
    let atlas = make_file(vec![make_sprite("id-1", 0)]);
    let reg = atlas_registry_from_file(atlas).expect("atlas should load");
    assert_eq!(reg.atlas_id, "test");
    assert!(reg.resolve("id-1").is_some());
    assert!(reg.resolve("missing").is_none());
}

#[test]
fn atlas_rejects_rect_exceeding_bounds() {
    let mut sprite = make_sprite("id-overflow", 0);
    sprite.rect_px = AtlasRectPx { x: 4_294_967_295, y: 0, w: 8, h: 8 };
    let atlas = make_file(vec![sprite]);
    let err = atlas_registry_from_file(atlas).expect_err("overflow rect should fail");
    assert!(err.contains("exceeds atlas bounds"));
}

#[test]
fn atlas_rejects_duplicate_ids_and_bad_uv() {
    let atlas = make_file(vec![make_sprite("id-1", 0), make_sprite("id-1", 32)]);
    let err = atlas_registry_from_file(atlas).expect_err("duplicate ids should fail");
    assert!(err.contains("duplicate sprite_id"));

    let mut sprite = make_sprite("id-2", 0);
    sprite.uv = AtlasUvRect { u0: UV_ONE / 2, v0: 0, u1: UV_ONE / 4, v1: UV_ONE };
    let err = atlas_registry_from_file(make_file(vec![sprite])).expect_err("bad uv should fail");
    assert!(err.contains("invalid UV range"));

    let mut sprite = make_sprite("id-3", 0);
    sprite.uv = AtlasUvRect { u0: -1, v0: 0, u1: UV_ONE, v1: UV_ONE };
    let err = atlas_registry_from_file(make_file(vec![sprite])).expect_err("uv out of range");
    assert!(err.contains("UV outside"));

    let mut sprite = make_sprite("id-4", 0);
    sprite.rect_px = AtlasRectPx { x: 0, y: 0, w: 0, h: 32 };
    let err = atlas_registry_from_file(make_file(vec![sprite])).expect_err("zero rect");
    assert!(err.contains("zero-sized rect"));

    let mut bad_version = make_file(vec![make_sprite("id-5", 0)]);
    bad_version.version = "9.9".to_string();
    let err = atlas_registry_from_file(bad_version).expect_err("bad version");
    assert!(err.contains("unsupported version"));
}

fn make_test_registry(atlas_id: &str, sprites: &[(&str, &str)]) -> AtlasRegistry {
    let mut sprite_entries = Vec::new();
    for &(id, tex) in sprites {
        sprite_entries.push((
            id.to_string(),
            AtlasSpriteEntry {
                texture_path: tex.to_string(),
                size_px: (32, 32),
                uv: AtlasUvRect { u0: 0, v0: 0, u1: UV_ONE, v1: UV_ONE },
                pivot: (500_000, 500_000),
            },
        ));
    }
    AtlasRegistry {
        atlas_id: atlas_id.to_string(),
        sprite_entries,
    }
}

#[test]
fn multi_atlas_single_atlas_resolve() {
    let mut multi = MultiAtlasRegistry::new();
    let reg = make_test_registry(
        "chars",
        &[("sprite-a", "chars.png"), ("sprite-b", "chars.png")],
    );
    multi.add_atlas("chars.json", reg).expect("add should succeed");

    assert_eq!(multi.atlas_count(), 1);
    assert!(multi.resolve("sprite-a").is_some());
    assert!(multi.resolve("sprite-b").is_some());
    assert!(multi.resolve("nonexistent").is_none());
}

#[test]
fn multi_atlas_cross_atlas_resolve() {
    let mut multi = MultiAtlasRegistry::new();
    let reg1 = make_test_registry("chars", &[("sprite-a", "chars.png")]);
    let reg2 = make_test_registry("env", &[("sprite-b", "env.png")]);
    multi.add_atlas("chars.json", reg1).expect("add chars");
    multi.add_atlas("env.json", reg2).expect("add env");

    assert_eq!(multi.atlas_count(), 2);
    assert!(multi.resolve("sprite-a").is_some());
    assert!(multi.resolve("sprite-b").is_some());

    let paths = multi.texture_paths();
    assert!(paths.contains(&"chars.png".to_string()));
    assert!(paths.contains(&"env.png".to_string()));
}

#[test]
fn multi_atlas_rejects_duplicate_sprite_ids() {
    let mut multi = MultiAtlasRegistry::new();
    let reg1 = make_test_registry("chars", &[("sprite-a", "chars.png")]);
    let reg2 = make_test_registry("env", &[("sprite-a", "env.png")]);
    multi.add_atlas("chars.json", reg1).expect("add chars");

    let err = multi.add_atlas("env.json", reg2).expect_err("duplicate should fail");
    assert!(err.contains("Duplicate sprite_id"));
}

#[test]
fn multi_atlas_remove_and_readd() {
    let mut multi = MultiAtlasRegistry::new();
    let reg = make_test_registry("chars", &[("sprite-a", "chars.png")]);
    multi.add_atlas("chars.json", reg).expect("add");

    assert!(multi.resolve("sprite-a").is_some());
    multi.remove_atlas("chars.json");
    assert!(multi.resolve("sprite-a").is_none());
    assert_eq!(multi.atlas_count(), 0);

    // Re-add should work
    let reg2 = make_test_registry("chars_v2", &[("sprite-a", "chars_v2.png")]);
    multi.add_atlas("chars.json", reg2).expect("re-add");
    assert!(multi.resolve("sprite-a").is_some());
}

#[test]
fn multi_atlas_texture_paths_union() {
    let mut multi = MultiAtlasRegistry::new();
    let reg1 = make_test_registry("a", &[("s1", "tex1.png"), ("s2", "tex1.png")]);
    let reg2 = make_test_registry("b", &[("s3", "tex2.png")]);
    multi.add_atlas("a.json", reg1).unwrap();
    multi.add_atlas("b.json", reg2).unwrap();

    let paths = multi.texture_paths();
    assert_eq!(paths.len(), 2);
    assert!(paths.contains(&"tex1.png".to_string()));
    assert!(paths.contains(&"tex2.png".to_string()));
}

#[test]
fn multi_atlas_is_empty_reflects_loads() {
    let mut multi = MultiAtlasRegistry::new();
    assert!(multi.is_empty());
    let reg = make_test_registry("a", &[("s1", "t.png")]);
    multi.add_atlas("a.json", reg).unwrap();
    assert!(!multi.is_empty());
}
