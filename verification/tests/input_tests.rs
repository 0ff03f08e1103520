use piecanvas::geometry::Point;
use piecanvas::input::{
    map_button, map_key, GuiButton, GuiInput, InputTracker, KeyCode, NavKey, PointerButton,
    WheelUnit, WindowInput, SCROLL_SCALE,
};

#[test]
fn keys_map_to_their_navigation_keys() {
    assert_eq!(map_key(KeyCode::Back), NavKey::Backspace);
    assert_eq!(map_key(KeyCode::Delete), NavKey::Del);
    assert_eq!(map_key(KeyCode::Up), NavKey::Up);
    assert_eq!(map_key(KeyCode::Down), NavKey::Down);
    assert_eq!(map_key(KeyCode::Left), NavKey::Left);
    assert_eq!(map_key(KeyCode::Right), NavKey::Right);
    assert_eq!(map_key(KeyCode::Other), NavKey::Unmapped);
}

#[test]
fn buttons_map_to_their_interface_buttons() {
    assert_eq!(map_button(PointerButton::Left), GuiButton::Left);
    assert_eq!(map_button(PointerButton::Middle), GuiButton::Middle);
    assert_eq!(map_button(PointerButton::Right), GuiButton::Right);
    assert_eq!(map_button(PointerButton::Other), GuiButton::Max);
}

#[test]
fn button_event_happens_where_the_pointer_was_last_seen() {
    let mut tracker = InputTracker::new();
    assert_eq!(tracker.pointer, Point { x: 0, y: 0 });
    assert_eq!(
        tracker.feed(WindowInput::Mouse { button: PointerButton::Left, pressed: true }),
        Some(GuiInput::Button { button: GuiButton::Left, x: 0, y: 0, down: true })
    );
    assert_eq!(
        tracker.feed(WindowInput::CursorMoved { x: 240, y: 100 }),
        Some(GuiInput::Motion { x: 240, y: 100 })
    );
    assert_eq!(tracker.pointer, Point { x: 240, y: 100 });
    assert_eq!(
        tracker.feed(WindowInput::Mouse { button: PointerButton::Right, pressed: false }),
        Some(GuiInput::Button { button: GuiButton::Right, x: 240, y: 100, down: false })
    );
    assert_eq!(tracker.pointer, Point { x: 240, y: 100 });
}

#[test]
fn wheel_lines_scroll_by_the_scale_and_wheel_pixels_do_not() {
    let mut tracker = InputTracker::new();
    assert_eq!(SCROLL_SCALE, 22);
    assert_eq!(
        tracker.feed(WindowInput::Wheel { unit: WheelUnit::Lines }),
        Some(GuiInput::Scroll { per_line: 22 })
    );
    assert_eq!(tracker.feed(WindowInput::Wheel { unit: WheelUnit::Pixels }), None);
    assert_eq!(tracker.pointer, Point { x: 0, y: 0 });
}

#[test]
fn keys_and_characters_are_forwarded() {
    let mut tracker = InputTracker::new();
    assert_eq!(tracker.feed(WindowInput::Character('x')), Some(GuiInput::Unicode('x')));
    assert_eq!(
        tracker.feed(WindowInput::Keyboard { code: Some(KeyCode::Back), pressed: true }),
        Some(GuiInput::Key { key: NavKey::Backspace, down: true })
    );
    assert_eq!(
        tracker.feed(WindowInput::Keyboard { code: Some(KeyCode::Other), pressed: false }),
        Some(GuiInput::Key { key: NavKey::Unmapped, down: false })
    );
    assert_eq!(tracker.feed(WindowInput::Keyboard { code: None, pressed: true }), None);
    assert_eq!(tracker.pointer, Point { x: 0, y: 0 });
}
