use sme_core::animation::{
    animation_file_from_json, validate_animation_json, AnimationClip, AnimationClipJson,
    AnimationFileJson, AnimationFrame, AnimationFrameJson, AnimationState,
};

fn make_clip(durations_ms: &[u64], looping: bool) -> AnimationClip {
    AnimationClip {
        frames: durations_ms
            .iter()
            .enumerate()
            .map(|(i, &d)| AnimationFrame {
                sprite_id: format!("sprite_{}", i),
                duration_us: d * 1000,
            })
            .collect(),
        looping,
    }
}

#[test]
fn tick_advances_through_frames() {
    let clip = make_clip(&[100, 100, 100], true);
    let mut state = AnimationState::new("test", "walk");

    // At t=0, should be on frame 0
    let id = state.tick(0, &clip);
    assert_eq!(id, "sprite_0");

    // Advance 50ms — still on frame 0
    let id = state.tick(50_000, &clip);
    assert_eq!(id, "sprite_0");

    // Advance another 60ms (total 110ms) — should be on frame 1
    let id = state.tick(60_000, &clip);
    assert_eq!(id, "sprite_1");
}

#[test]
fn looping_wraps_around() {
    let clip = make_clip(&[100, 100], true);
    let mut state = AnimationState::new("test", "idle");

    // Advance past both frames (250ms total)
    let id = state.tick(250_000, &clip);
    assert_eq!(id, "sprite_0");
    assert!(!state.finished);
}

#[test]
fn non_looping_stops_on_last_frame() {
    let clip = make_clip(&[100, 100], false);
    let mut state = AnimationState::new("test", "jump");

    // Advance past total duration
    let id = state.tick(300_000, &clip);
    assert_eq!(id, "sprite_1");
    assert!(state.finished);

    // Further ticks stay on last frame
    let id = state.tick(100_000, &clip);
    assert_eq!(id, "sprite_1");
    assert!(state.finished);
}

#[test]
fn variable_frame_durations() {
    let clip = make_clip(&[50, 200, 100], true);
    let mut state = AnimationState::new("test", "attack");

    // 50ms => end of frame 0, should be on frame 1
    let id = state.tick(50_000, &clip);
    assert_eq!(id, "sprite_1");

    // 150ms more (total 200ms) => still on frame 1 (200ms duration)
    let id = state.tick(150_000, &clip);
    assert_eq!(id, "sprite_1");

    // 50ms more (total 250ms) => frame 1 done, now on frame 2
    let id = state.tick(50_000, &clip);
    assert_eq!(id, "sprite_2");
}

#[test]
fn determinism_identical_results() {
    let clip = make_clip(&[100, 150, 80], true);
    let dt = 16_667u64; // ~60fps fixed step
    let steps = 100;

    let mut state_a = AnimationState::new("test", "run");
    let mut state_b = AnimationState::new("test", "run");

    for _ in 0..steps {
        let id_a = state_a.tick(dt, &clip).to_owned();
        let id_b = state_b.tick(dt, &clip).to_owned();
        assert_eq!(id_a, id_b);
    }
    assert_eq!(state_a.frame_index, state_b.frame_index);
    assert_eq!(state_a.elapsed_us, state_b.elapsed_us);
}

#[test]
fn total_duration_us() {
    let clip = make_clip(&[100, 200, 300], true);
    assert_eq!(clip.total_duration_us(), 600_000);
}

fn make_json(version: &str, id: &str, frames: &[(&str, u64)]) -> AnimationFileJson {
    AnimationFileJson {
        version: version.to_string(),
        animation_id: id.to_string(),
        animations: vec![(
            "idle".to_string(),
            AnimationClipJson {
                frames: frames
                    .iter()
                    .map(|&(sid, ms)| AnimationFrameJson {
                        sprite_id: sid.to_string(),
                        duration_ms: ms,
                    })
                    .collect(),
                looping: true,
            },
        )],
    }
}

#[test]
fn animation_json_valid_file_converts() {
    let json = make_json("0.1", "hero", &[("id-aaa", 100), ("id-bbb", 100)]);
    let file = animation_file_from_json(json).expect("should convert");
    assert_eq!(file.animation_id, "hero");
    assert_eq!(file.animations.len(), 1);
    let (name, clip) = &file.animations[0];
    assert_eq!(name, "idle");
    assert!(clip.looping);
    assert_eq!(clip.frames.len(), 2);
    assert_eq!(clip.frames[0].sprite_id, "id-aaa");
    assert_eq!(clip.frames[0].duration_us, 100_000);
}

#[test]
fn animation_json_rejects_bad_version() {
    let json = make_json("9.9", "hero", &[("a", 100)]);
    let err = animation_file_from_json(json).expect_err("bad version should fail");
    assert!(err.contains("unsupported version"));
}

#[test]
fn animation_json_rejects_zero_duration() {
    let json = make_json("0.1", "hero", &[("a", 0)]);
    let err = animation_file_from_json(json).expect_err("zero duration should fail");
    assert!(err.contains("zero duration"));
}

#[test]
fn animation_json_rejects_empty_id() {
    let json = make_json("0.1", "", &[("a", 100)]);
    assert!(validate_animation_json(&json).is_err());
}

#[test]
fn animation_json_rejects_empty_clip() {
    let json = make_json("0.1", "hero", &[]);
    let err = validate_animation_json(&json).expect_err("empty clip should fail");
    assert!(err.contains("no frames"));
}

#[test]
fn animation_json_rejects_empty_sprite_id() {
    let json = make_json("0.1", "hero", &[("", 100)]);
    let err = validate_animation_json(&json).expect_err("empty sprite_id should fail");
    assert!(err.contains("empty sprite_id"));
}
