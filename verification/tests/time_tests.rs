use sme_core::time::{TimeState, FIXED_DT_UNITS, MAX_ACCUMULATOR_UNITS, UNITS_PER_SECOND};

#[test]
fn time_test_new_defaults() {
    let ts = TimeState::new();
    assert_eq!(ts.fixed_dt, FIXED_DT_UNITS);
    assert_eq!(ts.max_accumulator, MAX_ACCUMULATOR_UNITS);
    assert_eq!(ts.total_time, 0);
    assert_eq!(ts.fixed_step_count, 0);
    assert_eq!(ts.frame_count, 0);
    assert_eq!(ts.steps_this_frame, 0);
    assert_eq!(ts.real_dt, 0);
    assert_eq!(ts.interpolation_alpha, 0);
    assert!((ts.smoothed_fps as f64 - 60.0).abs() < 0.1);
    assert!((ts.smoothed_frame_time_us as f64 / 1000.0 - 16.667).abs() < 0.01);
}

#[test]
fn test_should_step_consumes_accumulator() {
    let mut ts = TimeState::new();
    let dt = FIXED_DT_UNITS;
    ts.begin_frame(dt);

    // First call: enough accumulator for one step
    assert!(ts.should_step());
    assert_eq!(ts.fixed_step_count, 1);
    assert_eq!(ts.steps_this_frame, 1);
    assert_eq!(ts.total_time, dt);

    // Second call: accumulator should be drained
    assert!(!ts.should_step());
    assert_eq!(ts.fixed_step_count, 1);
    assert_eq!(ts.steps_this_frame, 1);
}

#[test]
fn test_multiple_steps_per_frame() {
    let mut ts = TimeState::new();
    let dt = 3 * FIXED_DT_UNITS; // three fixed steps worth
    ts.begin_frame(dt);

    assert!(ts.should_step());
    assert!(ts.should_step());
    assert!(ts.should_step());
    assert!(!ts.should_step());

    assert_eq!(ts.steps_this_frame, 3);
    assert_eq!(ts.fixed_step_count, 3);
    assert_eq!(ts.total_time, 3 * ts.fixed_dt);
}

#[test]
fn test_spiral_of_death_cap() {
    let mut ts = TimeState::new();
    ts.begin_frame(UNITS_PER_SECOND); // 1 second, way over the 250 ms cap

    // real_dt should be capped
    assert_eq!(ts.real_dt, MAX_ACCUMULATOR_UNITS);

    // Count how many steps are consumed
    let mut step_count = 0u32;
    while ts.should_step() {
        step_count += 1;
    }

    // 0.25 / (1/60) = 15
    assert_eq!(step_count, 15);
    assert_eq!(ts.steps_this_frame, 15);
}

#[test]
fn test_interpolation_alpha() {
    let mut ts = TimeState::new();
    let dt = 3 * FIXED_DT_UNITS / 2; // 1.5 steps worth
    ts.begin_frame(dt);

    // Consume exactly one step
    assert!(ts.should_step());
    // After one step, 0.5 * fixed_dt should remain in accumulator
    assert!(!ts.should_step());

    ts.end_frame();

    // alpha = remaining_accumulator / fixed_dt = 0.5, i.e. 500 thousandths
    assert_eq!(ts.interpolation_alpha, 500);
}

#[test]
fn test_frame_count_increments() {
    let mut ts = TimeState::new();
    assert_eq!(ts.frame_count, 0);

    ts.begin_frame(FIXED_DT_UNITS);
    assert_eq!(ts.frame_count, 1);

    ts.begin_frame(FIXED_DT_UNITS);
    assert_eq!(ts.frame_count, 2);

    ts.begin_frame(FIXED_DT_UNITS);
    assert_eq!(ts.frame_count, 3);

    for _ in 0..10 {
        while ts.should_step() {}
        ts.begin_frame(FIXED_DT_UNITS);
    }
    assert_eq!(ts.frame_count, 13);
}

#[test]
fn test_fps_smoothing() {
    let mut ts = TimeState::new();
    let dt = 2 * FIXED_DT_UNITS; // 30 FPS

    // Fill all 60 samples with the 30-FPS dt to flush the initial values
    for _ in 0..60 {
        ts.begin_frame(dt);
        // Drain accumulator so it doesn't grow unboundedly
        while ts.should_step() {}
    }

    assert!((ts.smoothed_fps as f64 - 30.0).abs() < 0.1);
    assert!((ts.smoothed_frame_time_us as f64 / 1000.0 - 33.333).abs() < 0.1);
}

#[test]
fn test_accumulator_does_not_go_negative() {
    let mut ts = TimeState::new();

    // Try several different frame deltas
    let deltas = [
        FIXED_DT_UNITS,
        5 * FIXED_DT_UNITS / 2,
        UNITS_PER_SECOND / 10,
        600,
        MAX_ACCUMULATOR_UNITS,
    ];
    for &dt in &deltas {
        ts.begin_frame(dt);
        while ts.should_step() {}
        ts.end_frame();

        // interpolation_alpha is in thousandths; after draining it must be
        // a proper fraction of a tick.
        assert!(ts.interpolation_alpha < 1000);
    }
}
