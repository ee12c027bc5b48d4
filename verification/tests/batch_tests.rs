use sme_core::batch::{count_texture_binds, push_draw_call, DrawCall};
use sme_core::devtools::OverlayActions;
use sme_core::platform::PlatformConfig;

#[test]
fn push_draw_call_merges_contiguous_same_texture() {
    let mut calls: Vec<DrawCall> = Vec::new();
    push_draw_call(&mut calls, "a.png".to_string(), 0, 6);
    push_draw_call(&mut calls, "a.png".to_string(), 6, 6);
    assert_eq!(calls.len(), 1);
    assert_eq!(calls[0].index_start, 0);
    assert_eq!(calls[0].index_count, 12);
}

#[test]
fn push_draw_call_splits_on_texture_change_or_gap() {
    let mut calls: Vec<DrawCall> = Vec::new();
    push_draw_call(&mut calls, "a.png".to_string(), 0, 6);
    push_draw_call(&mut calls, "b.png".to_string(), 6, 6);
    push_draw_call(&mut calls, "b.png".to_string(), 18, 6); // gap: not contiguous
    assert_eq!(calls.len(), 3);
    assert_eq!(calls[1].index_count, 6);
}

#[test]
fn count_texture_binds_counts_runs() {
    let mut calls: Vec<DrawCall> = Vec::new();
    assert_eq!(count_texture_binds(&calls), 0);
    push_draw_call(&mut calls, "a.png".to_string(), 0, 6);
    push_draw_call(&mut calls, "b.png".to_string(), 6, 6);
    push_draw_call(&mut calls, "b.png".to_string(), 18, 6);
    push_draw_call(&mut calls, "a.png".to_string(), 24, 6);
    // a | b b | a  -> three runs
    assert_eq!(count_texture_binds(&calls), 3);
}

#[test]
fn platform_config_defaults() {
    let cfg = PlatformConfig::default();
    assert_eq!(cfg.title, "Saturday Morning Engine");
    assert_eq!(cfg.width, 1280);
    assert_eq!(cfg.height, 720);
}

#[test]
fn overlay_actions_default_to_none() {
    let actions = OverlayActions::default();
    assert!(!actions.cycle_tier);
    assert!(!actions.toggle_pause);
    assert!(!actions.single_step);
}
