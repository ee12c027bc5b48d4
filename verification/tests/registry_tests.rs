use sme_core::animation::{AnimationClip, AnimationFile, AnimationFrame};
use sme_core::atlas::{AtlasRegistry, AtlasSpriteEntry, AtlasUvRect, MultiAtlasRegistry, UV_ONE};
use sme_core::registry::{build_animation_states, AnimationRegistry};
use sme_core::scene::{SceneFile, SceneLayer, SceneSprite, SortMode};

fn clip_of(ids: &[&str]) -> AnimationClip {
    AnimationClip {
        frames: ids
            .iter()
            .map(|&id| AnimationFrame { sprite_id: id.to_string(), duration_us: 100_000 })
            .collect(),
        looping: true,
    }
}

fn hero_file() -> AnimationFile {
    AnimationFile {
        version: "0.1".to_string(),
        animation_id: "hero".to_string(),
        animations: vec![
            ("idle".to_string(), clip_of(&["sprite-a", "sprite-b"])),
            ("jump".to_string(), clip_of(&["sprite-c"])),
        ],
    }
}

#[test]
fn load_registers_clips_under_animation_id() {
    let mut registry = AnimationRegistry::new();
    registry.load_file(hero_file());

    assert!(registry.resolve_clip(Some("hero"), "idle").is_some());
    assert!(registry.resolve_clip(Some("hero"), "jump").is_some());
    assert!(registry.resolve_clip(Some("hero"), "nonexistent").is_none());
    assert!(registry.resolve_clip(Some("villain"), "idle").is_none());
}

#[test]
fn resolve_clip_without_source_searches_all_files() {
    let mut registry = AnimationRegistry::new();
    registry.load_file(hero_file());

    // Without source, should still find by name
    assert!(registry.resolve_clip(None, "idle").is_some());
    assert!(registry.resolve_clip(None, "nonexistent").is_none());
}

#[test]
fn remove_file_drops_its_clips() {
    let mut registry = AnimationRegistry::new();
    registry.load_file(hero_file());
    registry.remove_file("hero");
    assert!(registry.resolve_clip(None, "idle").is_none());

    registry.load_file(hero_file());
    assert!(registry.resolve_clip(None, "idle").is_some());
    registry.clear();
    assert!(registry.resolve_clip(None, "idle").is_none());
}

fn multi_with(ids: &[&str]) -> MultiAtlasRegistry {
    let mut entries = Vec::new();
    for &id in ids {
        entries.push((
            id.to_string(),
            AtlasSpriteEntry {
                texture_path: "test.png".to_string(),
                size_px: (32, 32),
                uv: AtlasUvRect { u0: 0, v0: 0, u1: UV_ONE, v1: UV_ONE },
                pivot: (500_000, 500_000),
            },
        ));
    }
    let reg = AtlasRegistry { atlas_id: "test".to_string(), sprite_entries: entries };
    let mut multi = MultiAtlasRegistry::new();
    multi.add_atlas("test.json", reg).unwrap();
    multi
}

#[test]
fn validate_sprites_passes_when_all_exist() {
    let mut registry = AnimationRegistry::new();
    registry.load_file(hero_file());

    let multi = multi_with(&["sprite-a", "sprite-b", "sprite-c"]);
    registry.validate_sprites(&multi).expect("should pass");
}

#[test]
fn validate_sprites_fails_when_missing() {
    let mut registry = AnimationRegistry::new();
    registry.load_file(hero_file());

    // Only provide sprite-a, missing sprite-b and sprite-c
    let multi = multi_with(&["sprite-a"]);
    let err = registry
        .validate_sprites(&multi)
        .expect_err("should fail with missing sprites");
    assert!(err.contains("missing"));
}

fn animated_sprite(id: &str, clip: &str, source: Option<&str>) -> SceneSprite {
    SceneSprite {
        id: id.to_string(),
        asset: None,
        sprite_id: Some("uuid-aaa".to_string()),
        animation: Some(clip.to_string()),
        animation_source: source.map(|s| s.to_string()),
        x: 0,
        y: 0,
        z: 0,
        rotation_deg: 0,
        scale_x: 1000,
        scale_y: 1000,
    }
}

#[test]
fn build_animation_states_covers_resolvable_sprites() {
    let mut registry = AnimationRegistry::new();
    registry.load_file(hero_file());

    let scene = SceneFile {
        version: "0.2".to_string(),
        scene_id: "test".to_string(),
        camera: None,
        atlases: vec![],
        animations: vec![],
        layers: vec![SceneLayer {
            id: "gameplay".to_string(),
            parallax: 1000,
            sort_mode: SortMode::Unsorted,
            occlusion: false,
            visible: true,
            sprites: vec![
                animated_sprite("player", "idle", Some("hero")),
                animated_sprite("ghost", "missing_clip", None),
                animated_sprite("npc", "jump", None),
            ],
        }],
    };

    let states = build_animation_states(&scene, &registry);
    assert_eq!(states.len(), 2);
    assert_eq!(states[0].0, "player");
    assert_eq!(states[0].1.source_id, "hero");
    assert_eq!(states[0].1.clip_name, "idle");
    assert_eq!(states[0].1.frame_index, 0);
    assert!(!states[0].1.finished);
    assert_eq!(states[1].0, "npc");
    assert_eq!(states[1].1.source_id, "jump");
    assert_eq!(states[1].1.clip_name, "jump");
}
