use sme_core::collision::{Aabb, CollisionFile, CollisionGrid, GridCell, GridOrigin, SUBUNITS_PER_UNIT};
use sme_core::controller::{CharacterController, ControllerInput, MOVE_X_ONE};
use sme_core::time::FIXED_DT_UNITS;

const SUB: i64 = SUBUNITS_PER_UNIT;

fn sample_grid() -> CollisionGrid {
    let mut solids: Vec<GridCell> = (0..20).map(|x| GridCell { x, y: 0 }).collect();
    solids.push(GridCell { x: 6, y: 1 });
    solids.push(GridCell { x: 6, y: 2 });
    solids.push(GridCell { x: 10, y: 1 });
    solids.push(GridCell { x: 10, y: 2 });
    CollisionGrid::from_file(CollisionFile {
        version: "0.1".to_string(),
        collision_id: "test".to_string(),
        cell_size: 32,
        origin: GridOrigin { x: -320, y: -192 },
        width: 20,
        height: 12,
        solids,
    })
}

fn start_box(grid: &CollisionGrid) -> Aabb {
    Aabb {
        center_x: (grid.origin.x as i64 + 64) * SUB,
        center_y: (grid.origin.y as i64 + 96) * SUB,
        half_w: 10 * SUB,
        half_h: 14 * SUB,
    }
}

#[test]
fn deterministic_sequence_reaches_same_final_state() {
    let grid = sample_grid();
    let start = start_box(&grid);

    let mut inputs = Vec::new();
    for _ in 0..60 {
        inputs.push(ControllerInput { move_x: MOVE_X_ONE, jump_pressed: false });
    }
    inputs.push(ControllerInput { move_x: MOVE_X_ONE, jump_pressed: true });
    for _ in 0..120 {
        inputs.push(ControllerInput { move_x: MOVE_X_ONE, jump_pressed: false });
    }
    for _ in 0..60 {
        inputs.push(ControllerInput { move_x: -MOVE_X_ONE, jump_pressed: false });
    }

    let dt = FIXED_DT_UNITS;
    let mut run_a = CharacterController::new(start);
    let mut run_b = CharacterController::new(start);

    for input in &inputs {
        run_a.step(*input, dt, &grid);
    }
    for input in &inputs {
        run_b.step(*input, dt, &grid);
    }

    assert_eq!(run_a.aabb.center_x, run_b.aabb.center_x);
    assert_eq!(run_a.aabb.center_y, run_b.aabb.center_y);
    assert_eq!(run_a.velocity_x, run_b.velocity_x);
    assert_eq!(run_a.velocity_y, run_b.velocity_y);
    assert_eq!(run_a.grounded, run_b.grounded);
}

#[test]
fn jump_only_activates_when_grounded() {
    let grid = sample_grid();
    let start = start_box(&grid);

    let mut controller = CharacterController::new(start);
    controller.grounded = false;
    controller.step(
        ControllerInput { move_x: 0, jump_pressed: true },
        FIXED_DT_UNITS,
        &grid,
    );
    assert!(controller.velocity_y <= 0);
}

#[test]
fn contact_state_reports_wall_block() {
    let grid = sample_grid();
    let start = Aabb {
        center_x: (grid.origin.x as i64 + 6 * 32 - 12) * SUB,
        center_y: (grid.origin.y as i64 + 32 + 20) * SUB,
        half_w: 10 * SUB,
        half_h: 14 * SUB,
    };

    let mut controller = CharacterController::new(start);
    controller.grounded = true;
    let mut hit_right_wall = false;
    for _ in 0..120 {
        controller.step(
            ControllerInput { move_x: MOVE_X_ONE, jump_pressed: false },
            FIXED_DT_UNITS,
            &grid,
        );
        if controller.is_blocked_right() {
            hit_right_wall = true;
            break;
        }
    }

    assert!(hit_right_wall, "controller should eventually hit right wall");
}

#[test]
fn landing_sets_grounded_and_stops_fall() {
    let grid = sample_grid();
    let start = start_box(&grid);
    let mut controller = CharacterController::new(start);
    // Fall freely until the floor blocks the drop.
    let mut landed = false;
    for _ in 0..300 {
        controller.step(
            ControllerInput { move_x: 0, jump_pressed: false },
            FIXED_DT_UNITS,
            &grid,
        );
        if controller.is_grounded() {
            landed = true;
            break;
        }
    }
    assert!(landed, "controller should land on the floor");
    assert_eq!(controller.velocity_y, 0);
    assert!(controller.is_blocked_down());
    // Standing flush on the floor: bottom of the box at the floor's top face.
    assert_eq!(
        controller.aabb.center_y,
        (grid.origin.y as i64 + 32) * SUB + controller.aabb.half_h
    );
}

#[test]
fn jump_from_ground_gives_upward_velocity() {
    let grid = sample_grid();
    let start = start_box(&grid);
    let mut controller = CharacterController::new(start);
    for _ in 0..300 {
        controller.step(
            ControllerInput { move_x: 0, jump_pressed: false },
            FIXED_DT_UNITS,
            &grid,
        );
        if controller.is_grounded() {
            break;
        }
    }
    assert!(controller.is_grounded());
    controller.step(
        ControllerInput { move_x: 0, jump_pressed: true },
        FIXED_DT_UNITS,
        &grid,
    );
    assert!(controller.velocity_y > 0, "jump from ground must rise");
    assert!(!controller.is_grounded());
}

#[test]
fn horizontal_velocity_is_capped_at_max_speed() {
    // An open floor with no walls: running right must settle exactly at the
    // configured top speed, never past it.
    let grid = CollisionGrid::from_file(CollisionFile {
        version: "0.1".to_string(),
        collision_id: "floor".to_string(),
        cell_size: 32,
        origin: GridOrigin { x: -320, y: -192 },
        width: 20,
        height: 12,
        solids: (0..20).map(|x| GridCell { x, y: 0 }).collect(),
    });
    let start = start_box(&grid);
    let mut controller = CharacterController::new(start);
    for _ in 0..120 {
        controller.step(
            ControllerInput { move_x: MOVE_X_ONE, jump_pressed: false },
            FIXED_DT_UNITS,
            &grid,
        );
    }
    assert_eq!(controller.velocity_x, controller.config.max_speed);
}
