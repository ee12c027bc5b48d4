use sme_core::atlas::{AtlasRegistry, AtlasSpriteEntry, AtlasUvRect, MultiAtlasRegistry, UV_ONE};
use sme_core::scene::{
    validate_scene, validate_scene_sprite_references, SceneFile, SceneLayer, SceneSprite,
    SceneWatcher, SortMode,
};

fn make_sprite(id: &str, asset: Option<&str>, sprite_id: Option<&str>) -> SceneSprite {
    SceneSprite {
        id: id.to_string(),
        asset: asset.map(|s| s.to_string()),
        sprite_id: sprite_id.map(|s| s.to_string()),
        animation: None,
        animation_source: None,
        x: 0,
        y: 0,
        z: 0,
        rotation_deg: 0,
        scale_x: 1000,
        scale_y: 1000,
    }
}

fn make_layer(id: &str, sprites: Vec<SceneSprite>) -> SceneLayer {
    SceneLayer {
        id: id.to_string(),
        parallax: 500,
        sort_mode: SortMode::default(),
        occlusion: false,
        visible: true,
        sprites,
    }
}

fn make_scene(version: &str, layers: Vec<SceneLayer>) -> SceneFile {
    SceneFile {
        version: version.to_string(),
        scene_id: "test_scene".to_string(),
        camera: None,
        atlases: vec![],
        animations: vec![],
        layers,
    }
}

#[test]
fn scene_valid_file_passes() {
    let scene = make_scene(
        "0.1",
        vec![make_layer(
            "background",
            vec![make_sprite("s1", Some("assets/textures/test_sprite.png"), None)],
        )],
    );
    assert!(validate_scene(&scene).is_ok());
    assert!(matches!(scene.layers[0].sort_mode, SortMode::Unsorted));
    assert!(scene.layers[0].visible);
    assert_eq!(scene.layers[0].sprites[0].scale_x, 1000);
}

#[test]
fn scene_rejects_empty_layers() {
    let scene = make_scene("0.1", vec![]);
    let err = validate_scene(&scene).expect_err("empty layers should fail");
    assert!(err.contains("layers array is empty"));
}

#[test]
fn scene_rejects_duplicate_layer_ids() {
    let scene = make_scene(
        "0.1",
        vec![
            make_layer("layer_a", vec![make_sprite("s1", Some("a.png"), None)]),
            make_layer("layer_a", vec![make_sprite("s2", Some("a.png"), None)]),
        ],
    );
    let err = validate_scene(&scene).expect_err("duplicate layer ids should fail");
    assert!(err.contains("duplicate layer id"));
}

#[test]
fn scene_rejects_duplicate_sprite_ids() {
    let scene = make_scene(
        "0.1",
        vec![
            make_layer("layer_a", vec![make_sprite("same_sprite", Some("a.png"), None)]),
            make_layer("layer_b", vec![make_sprite("same_sprite", Some("a.png"), None)]),
        ],
    );
    let err = validate_scene(&scene).expect_err("duplicate sprite ids should fail");
    assert!(err.contains("duplicate sprite id"));
}

#[test]
fn scene_rejects_unsupported_version() {
    let scene = make_scene(
        "9.9",
        vec![make_layer("bg", vec![make_sprite("s1", Some("a.png"), None)])],
    );
    let err = validate_scene(&scene).expect_err("unsupported version should fail");
    assert!(err.contains("unsupported version"));
}

#[test]
fn scene_rejects_sprite_without_asset_or_sprite_id() {
    let scene = make_scene(
        "0.1",
        vec![make_layer("layer_a", vec![make_sprite("s1", None, None)])],
    );
    let err = validate_scene(&scene).expect_err("missing sprite refs should fail");
    assert!(err.contains("either asset or sprite_id"));
}

#[test]
fn scene_v02_accepts_both_versions() {
    let scene = make_scene(
        "0.2",
        vec![make_layer("gameplay", vec![make_sprite("player", None, Some("uuid-aaa"))])],
    );
    assert!(validate_scene(&scene).is_ok());
}

#[test]
fn scene_watcher_detects_newly_created_file() {
    // Watching a missing file: no reload until it appears.
    let mut watcher = SceneWatcher::new(None);
    assert!(!watcher.should_reload(None), "missing file should not reload");

    assert!(
        watcher.should_reload(Some(100)),
        "creating file should trigger reload once"
    );
    assert!(
        !watcher.should_reload(Some(100)),
        "without changes, second poll should not reload"
    );
}

#[test]
fn scene_watcher_detects_newer_mtime() {
    let mut watcher = SceneWatcher::new(Some(100));
    assert!(!watcher.should_reload(Some(100)));
    assert!(!watcher.should_reload(Some(50)), "older mtime must not reload");
    assert!(watcher.should_reload(Some(200)));
    assert!(!watcher.should_reload(Some(200)));
    assert!(!watcher.should_reload(None), "file vanishing must not reload");
}

fn multi_with(ids: &[&str]) -> MultiAtlasRegistry {
    let mut entries = Vec::new();
    for &id in ids {
        entries.push((
            id.to_string(),
            AtlasSpriteEntry {
                texture_path: "test.png".to_string(),
                size_px: (32, 32),
                uv: AtlasUvRect { u0: 0, v0: 0, u1: UV_ONE, v1: UV_ONE },
                pivot: (500_000, 500_000),
            },
        ));
    }
    let reg = AtlasRegistry {
        atlas_id: "test".to_string(),
        sprite_entries: entries,
    };
    let mut multi = MultiAtlasRegistry::new();
    multi.add_atlas("test.json", reg).unwrap();
    multi
}

#[test]
fn scene_sprite_references_validate_against_atlases() {
    let scene = make_scene(
        "0.2",
        vec![make_layer("gameplay", vec![make_sprite("player", None, Some("uuid-aaa"))])],
    );
    let multi = multi_with(&["uuid-aaa"]);
    assert!(validate_scene_sprite_references(&scene, &multi).is_ok());

    let empty = MultiAtlasRegistry::new();
    let err = validate_scene_sprite_references(&scene, &empty)
        .expect_err("no atlases loaded should fail");
    assert!(err.contains("no atlas metadata"));

    let wrong = multi_with(&["uuid-bbb"]);
    let err = validate_scene_sprite_references(&scene, &wrong)
        .expect_err("missing sprite_id should fail");
    assert!(err.contains("missing sprite_id"));
}
