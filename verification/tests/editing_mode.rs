use markview::editing_mode::EditingModeController;

#[test]
fn enable_twice_attaches_one_controller() {
    let mut made = 0;
    let mut mode: EditingModeController<u32> = EditingModeController::new();
    assert!(mode.enable(|| {
        made += 1;
        10
    }));
    assert!(!mode.enable(|| {
        made += 1;
        20
    }));
    assert_eq!(made, 1);
    assert_eq!(mode.attached_count(), 1);
    assert_eq!(mode.attached(), Some(&10));
    assert!(mode.is_enabled());
}

#[test]
fn disable_detaches_the_controller() {
    let mut mode: EditingModeController<String> = EditingModeController::new();
    mode.enable(|| "first".to_string());
    mode.enable(|| "second".to_string());
    assert_eq!(mode.disable(), Some("first".to_string()));
    assert!(!mode.is_enabled());
    assert_eq!(mode.attached_count(), 0);
    assert_eq!(mode.attached(), None);
}

#[test]
fn disable_without_controller_does_nothing() {
    let mut mode: EditingModeController<u8> = EditingModeController::new();
    assert_eq!(mode.disable(), None);
    assert_eq!(mode.disable(), None);
    assert!(!mode.is_enabled());
}

#[test]
fn enable_after_disable_attaches_a_new_controller() {
    let mut mode: EditingModeController<u32> = EditingModeController::new();
    mode.enable(|| 1);
    assert_eq!(mode.disable(), Some(1));
    assert!(mode.enable(|| 2));
    assert_eq!(mode.attached(), Some(&2));
    assert_eq!(mode.attached_count(), 1);
}
