use sme_core::collision::{Aabb, CollisionFile, CollisionGrid, GridCell, GridOrigin, SUBUNITS_PER_UNIT};
use sme_core::controller::{CharacterController, MOVE_X_ONE};
use sme_core::replay::{validate_replay, ReplayFrame, ReplaySequence};
use sme_core::time::FIXED_DT_UNITS;

const SUB: i64 = SUBUNITS_PER_UNIT;

fn sample_grid() -> CollisionGrid {
    CollisionGrid::from_file(CollisionFile {
        version: "0.1".to_string(),
        collision_id: "test".to_string(),
        cell_size: 32,
        origin: GridOrigin { x: -320, y: -192 },
        width: 20,
        height: 12,
        solids: (0..20).map(|x| GridCell { x, y: 0 }).collect(),
    })
}

#[test]
fn replay_expands_frames_with_repeats() {
    let replay = ReplaySequence {
        fixed_dt: FIXED_DT_UNITS,
        frames: vec![
            ReplayFrame { move_x: MOVE_X_ONE, jump_pressed: false, repeat: 3 },
            ReplayFrame { move_x: 0, jump_pressed: true, repeat: 1 },
        ],
    };
    assert!(validate_replay(&replay).is_ok());
    let expanded = replay.expanded_inputs();
    assert_eq!(expanded.len(), 4);
    assert!(expanded[3].jump_pressed);
}

#[test]
fn replay_clamps_intent_and_defaults_repeat() {
    let replay = ReplaySequence {
        fixed_dt: FIXED_DT_UNITS,
        frames: vec![ReplayFrame { move_x: 5000, jump_pressed: false, repeat: 0 }],
    };
    let expanded = replay.expanded_inputs();
    assert_eq!(expanded.len(), 1, "zero repeat still plays once");
    assert_eq!(expanded[0].move_x, MOVE_X_ONE, "intent is clamped to full deflection");
}

#[test]
fn replay_validation_rejects_bad_files() {
    let no_frames = ReplaySequence { fixed_dt: FIXED_DT_UNITS, frames: vec![] };
    assert!(validate_replay(&no_frames)
        .expect_err("empty frames should fail")
        .contains("frames list is empty"));

    let zero_dt = ReplaySequence {
        fixed_dt: 0,
        frames: vec![ReplayFrame { move_x: 0, jump_pressed: false, repeat: 1 }],
    };
    assert!(validate_replay(&zero_dt)
        .expect_err("zero dt should fail")
        .contains("fixed_dt"));
}

#[test]
fn replay_run_is_deterministic() {
    let replay = ReplaySequence {
        fixed_dt: FIXED_DT_UNITS,
        frames: vec![
            ReplayFrame { move_x: MOVE_X_ONE, jump_pressed: false, repeat: 60 },
            ReplayFrame { move_x: MOVE_X_ONE, jump_pressed: true, repeat: 1 },
            ReplayFrame { move_x: MOVE_X_ONE, jump_pressed: false, repeat: 120 },
            ReplayFrame { move_x: -MOVE_X_ONE, jump_pressed: false, repeat: 45 },
        ],
    };
    let inputs = replay.expanded_inputs();
    let grid = sample_grid();
    let start = Aabb {
        center_x: (grid.origin.x as i64 + 64) * SUB,
        center_y: (grid.origin.y as i64 + 96) * SUB,
        half_w: 10 * SUB,
        half_h: 14 * SUB,
    };

    let mut run_a = CharacterController::new(start);
    let mut run_b = CharacterController::new(start);
    for input in &inputs {
        run_a.step(*input, replay.fixed_dt, &grid);
    }
    for input in &inputs {
        run_b.step(*input, replay.fixed_dt, &grid);
    }

    assert_eq!(run_a.aabb.center_x, run_b.aabb.center_x);
    assert_eq!(run_a.aabb.center_y, run_b.aabb.center_y);
    assert_eq!(run_a.velocity_x, run_b.velocity_x);
    assert_eq!(run_a.velocity_y, run_b.velocity_y);
    assert_eq!(run_a.grounded, run_b.grounded);
}
