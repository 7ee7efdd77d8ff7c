use markview::layout::{LayoutController, DEFAULT_DIVIDER_POSITION};

#[test]
fn toggle_round_trip_at_350() {
    let mut layout = LayoutController::new();
    layout.resize(350);
    assert!(layout.is_visible());
    layout.toggle_hidden();
    assert!(!layout.is_visible());
    assert_eq!(layout.position(), 0);
    layout.toggle_hidden();
    assert!(layout.is_visible());
    assert_eq!(layout.position(), 350);
}

#[test]
fn fresh_layout() {
    let layout = LayoutController::new();
    assert_eq!(DEFAULT_DIVIDER_POSITION, 400);
    assert!(layout.is_visible());
    assert_eq!(layout.position(), 400);
    assert_eq!(layout.remembered_position(), 400);
}

#[test]
fn hiding_a_collapsed_panel_remembers_the_default() {
    for position in [0, -1, i32::MIN] {
        let mut layout = LayoutController::new();
        layout.resize(position);
        layout.toggle_hidden();
        assert_eq!(layout.remembered_position(), 400);
        layout.toggle_hidden();
        assert_eq!(layout.position(), 400);
    }
}

#[test]
fn showing_does_not_change_what_is_remembered() {
    let mut layout = LayoutController::new();
    layout.resize(123);
    layout.toggle_hidden();
    layout.resize(77);
    assert_eq!(layout.remembered_position(), 123);
    layout.toggle_hidden();
    assert_eq!(layout.position(), 123);
    assert_eq!(layout.remembered_position(), 123);
}

#[test]
fn repeated_toggles_keep_the_position() {
    let mut layout = LayoutController::new();
    layout.resize(i32::MAX);
    for _ in 0..5 {
        layout.toggle_hidden();
        assert_eq!(layout.position(), 0);
        layout.toggle_hidden();
        assert_eq!(layout.position(), i32::MAX);
    }
}
