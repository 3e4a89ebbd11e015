use zeroclaw_ui::touch::{RawTouchEvent, TouchController, TouchError, TouchPoint};

#[test]
fn touch_inside_screen_passes_through() {
    let t = TouchController::new(320, 240);
    let p = t.get_touch_event(Ok(RawTouchEvent::Touch { x: 10, y: 20 }));
    assert_eq!(p, Some(TouchPoint { x: 10, y: 20, pressed: true }));
}

#[test]
fn touch_outside_screen_is_clamped() {
    let t = TouchController::new(100, 50);
    let p = t.get_touch_event(Ok(RawTouchEvent::Touch { x: 255, y: 50 }));
    assert_eq!(p, Some(TouchPoint { x: 99, y: 49, pressed: true }));
    let p = t.get_touch_event(Ok(RawTouchEvent::Touch { x: u16::MAX, y: u16::MAX }));
    assert_eq!(p, Some(TouchPoint { x: 99, y: 49, pressed: true }));
}

#[test]
fn wide_screen_does_not_wrap() {
    let t = TouchController::new(320, 240);
    let p = t.get_touch_event(Ok(RawTouchEvent::Touch { x: 300, y: 250 }));
    assert_eq!(p, Some(TouchPoint { x: 300, y: 239, pressed: true }));
}

#[test]
fn release_none_and_failure() {
    let t = TouchController::new(320, 240);
    assert_eq!(
        t.get_touch_event(Ok(RawTouchEvent::Release)),
        Some(TouchPoint { x: 0, y: 0, pressed: false })
    );
    assert_eq!(t.get_touch_event(Ok(RawTouchEvent::NoEvent)), None);
    assert_eq!(t.get_touch_event(Err(TouchError::ReadFailed("bus".to_string()))), None);
}

#[test]
fn uninitialized_reports_nothing() {
    let t = TouchController::uninitialized(320, 240);
    assert_eq!(t.get_touch_event(Ok(RawTouchEvent::Touch { x: 1, y: 1 })), None);
    assert!(!t.is_pressed(Ok(true)));
}

#[test]
fn pressed_query() {
    let t = TouchController::new(320, 240);
    assert!(t.is_pressed(Ok(true)));
    assert!(!t.is_pressed(Ok(false)));
    assert!(!t.is_pressed(Err(TouchError::NotInitialized)));
    assert_eq!(TouchError::NotInitialized.message(), "Touch not initialized");
}
