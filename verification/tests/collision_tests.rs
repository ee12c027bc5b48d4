use sme_core::collision::{
    validate_collision_file, Aabb, CollisionFile, CollisionGrid, GridCell, GridOrigin,
    SUBUNITS_PER_UNIT,
};

const SUB: i64 = SUBUNITS_PER_UNIT;

fn wall_grid() -> CollisionGrid {
    CollisionGrid::from_file(CollisionFile {
        version: "0.1".to_string(),
        collision_id: "test".to_string(),
        cell_size: 32,
        origin: GridOrigin { x: 0, y: 0 },
        width: 8,
        height: 8,
        solids: vec![GridCell { x: 2, y: 1 }],
    })
}

#[test]
fn validate_collision_valid_file_passes() {
    let file = CollisionFile {
        version: "0.1".to_string(),
        collision_id: "test".to_string(),
        cell_size: 32,
        origin: GridOrigin { x: 0, y: 0 },
        width: 4,
        height: 4,
        solids: vec![GridCell { x: 1, y: 1 }, GridCell { x: 2, y: 1 }],
    };
    assert!(validate_collision_file(&file).is_ok());
    let grid = CollisionGrid::from_file(file);
    assert_eq!(grid.cell_size, 32);
    assert!(grid.is_solid(1, 1));
    assert!(!grid.is_solid(0, 0));
}

#[test]
fn validate_collision_rejects_duplicate_cells() {
    let file = CollisionFile {
        version: "0.1".to_string(),
        collision_id: "test".to_string(),
        cell_size: 32,
        origin: GridOrigin { x: 0, y: 0 },
        width: 4,
        height: 4,
        solids: vec![GridCell { x: 1, y: 1 }, GridCell { x: 1, y: 1 }],
    };
    let err = validate_collision_file(&file).expect_err("duplicate cells should fail");
    assert!(err.contains("duplicate solid cell"));
}

#[test]
fn validate_collision_rejects_bad_geometry() {
    let mut file = CollisionFile {
        version: "0.1".to_string(),
        collision_id: "test".to_string(),
        cell_size: 0,
        origin: GridOrigin { x: 0, y: 0 },
        width: 4,
        height: 4,
        solids: vec![],
    };
    assert!(validate_collision_file(&file)
        .expect_err("zero cell size should fail")
        .contains("cell_size"));
    file.cell_size = 32;
    file.width = 0;
    assert!(validate_collision_file(&file)
        .expect_err("zero width should fail")
        .contains("width and height"));
    file.width = 4;
    file.solids = vec![GridCell { x: 4, y: 0 }];
    assert!(validate_collision_file(&file)
        .expect_err("out of bounds cell should fail")
        .contains("out of bounds"));
}

#[test]
fn is_solid_out_of_range_is_not_solid() {
    let grid = wall_grid();
    assert!(grid.is_solid(2, 1));
    assert!(!grid.is_solid(-1, 1));
    assert!(!grid.is_solid(2, 8));
    assert!(!grid.is_solid(8, 1));
}

#[test]
fn move_and_collide_blocks_motion_into_wall() {
    let grid = wall_grid();

    let start = Aabb {
        center_x: 40 * SUB,
        center_y: 40 * SUB,
        half_w: 8 * SUB,
        half_h: 8 * SUB,
    };
    let moved = grid.move_and_collide(start, 40 * SUB, 0);
    assert!(
        moved.center_x <= 64 * SUB - start.half_w,
        "AABB should stop at left edge of wall cell"
    );
}

#[test]
fn move_up_against_obstacle_does_not_push_downward() {
    let grid = CollisionGrid::from_file(CollisionFile {
        version: "0.1".to_string(),
        collision_id: "test".to_string(),
        cell_size: 32,
        origin: GridOrigin { x: 0, y: 0 },
        width: 8,
        height: 8,
        solids: vec![
            // floor
            GridCell { x: 0, y: 0 },
            GridCell { x: 1, y: 0 },
            GridCell { x: 2, y: 0 },
            GridCell { x: 3, y: 0 },
            // side obstacle to the right of player
            GridCell { x: 2, y: 1 },
        ],
    });

    let start = Aabb {
        // Standing on floor and touching near side obstacle.
        center_x: 48 * SUB,
        center_y: 40 * SUB,
        half_w: 8 * SUB,
        half_h: 8 * SUB,
    };

    let moved = grid.move_and_collide(start, 0, 10 * SUB);
    assert!(
        moved.center_y >= start.center_y,
        "Moving up should never push the character downward"
    );
}

#[test]
fn move_and_collide_detailed_sets_blocked_direction_flags() {
    let grid = wall_grid();

    let start = Aabb {
        center_x: 40 * SUB,
        center_y: 40 * SUB,
        half_w: 8 * SUB,
        half_h: 8 * SUB,
    };

    let moved = grid.move_and_collide_detailed(start, 40 * SUB, 0);
    assert!(moved.blocked_right);
    assert!(!moved.blocked_left);
    assert!(!moved.collided_y);
}

#[test]
fn touching_edge_is_not_a_collision() {
    // An AABB whose leading edge exactly aligns with the wall's face must
    // not count as colliding with the cell it rests against.
    let grid = wall_grid();
    let start = Aabb {
        center_x: 56 * SUB, // right edge exactly at x = 64, the wall's left face
        center_y: 40 * SUB,
        half_w: 8 * SUB,
        half_h: 8 * SUB,
    };
    let res = grid.move_and_collide_detailed(start, 0, 2 * SUB);
    // Moving straight up beside the wall: no horizontal block, free to rise.
    assert!(!res.blocked_right);
    assert!(!res.collided_y);
    assert_eq!(res.aabb.center_y, start.center_y + 2 * SUB);
}

#[test]
fn zero_delta_short_circuits() {
    let grid = wall_grid();
    let start = Aabb {
        center_x: 40 * SUB,
        center_y: 40 * SUB,
        half_w: 8 * SUB,
        half_h: 8 * SUB,
    };
    let res = grid.move_and_collide_detailed(start, 0, 0);
    assert_eq!(res.aabb, start);
    assert!(!res.blocked_left && !res.blocked_right && !res.blocked_down && !res.blocked_up);
    assert!(!res.collided_y);
}

#[test]
fn solids_iter_lists_unique_cells() {
    let grid = CollisionGrid::from_file(CollisionFile {
        version: "0.1".to_string(),
        collision_id: "test".to_string(),
        cell_size: 32,
        origin: GridOrigin { x: 0, y: 0 },
        width: 4,
        height: 4,
        solids: vec![
            GridCell { x: 1, y: 1 },
            GridCell { x: 1, y: 1 },
            GridCell { x: 2, y: 1 },
        ],
    });
    let cells = grid.solids_iter();
    assert_eq!(cells.len(), 2);
    assert!(cells.contains(&GridCell { x: 1, y: 1 }));
    assert!(cells.contains(&GridCell { x: 2, y: 1 }));
}
