use graviplex::InputState;

const SPACE: u32 = 32;
const ESCAPE: u32 = 27;
const LEFT: u32 = 0;

#[test]
fn new_state_is_empty() {
    let input = InputState::new();
    assert!(!input.is_key_down(SPACE));
    assert!(!input.is_key_just_pressed(SPACE));
    assert!(!input.is_key_just_released(SPACE));
    assert!(input.pressed_keys().is_empty());
    assert_eq!(input.mouse_pos_bits(), [0, 0]);
    assert!(!input.is_mouse_down(LEFT));
    let d = InputState::default();
    assert!(d.pressed_keys().is_empty());
}

#[test]
fn key_press_and_release_edges() {
    let mut input = InputState::new();
    input.handle_keyboard_event(SPACE, true);
    assert!(input.is_key_down(SPACE));
    assert!(input.is_key_just_pressed(SPACE));
    assert!(!input.is_key_just_released(SPACE));

    input.begin_frame();
    assert!(input.is_key_down(SPACE));
    assert!(!input.is_key_just_pressed(SPACE));

    // A repeated press of a held key is no new press.
    input.handle_keyboard_event(SPACE, true);
    assert!(!input.is_key_just_pressed(SPACE));

    input.handle_keyboard_event(SPACE, false);
    assert!(!input.is_key_down(SPACE));
    assert!(input.is_key_just_released(SPACE));
    assert!(!input.is_key_down(ESCAPE));

    input.begin_frame();
    assert!(!input.is_key_just_released(SPACE));
}

#[test]
fn press_and_release_in_one_frame() {
    let mut input = InputState::new();
    input.handle_keyboard_event(ESCAPE, true);
    input.handle_keyboard_event(ESCAPE, false);
    assert!(input.is_key_just_pressed(ESCAPE));
    assert!(input.is_key_just_released(ESCAPE));
    assert!(!input.is_key_down(ESCAPE));
    assert!(input.pressed_keys().is_empty());
}

#[test]
fn mouse_buttons_and_cursor() {
    let mut input = InputState::new();
    input.handle_mouse_input(true, LEFT);
    assert!(input.is_mouse_down(LEFT));
    assert!(input.is_mouse_just_pressed(LEFT));
    assert!(!input.is_key_down(LEFT));

    input.handle_cursor_moved([12.5f32.to_bits(), 3.0f32.to_bits()]);
    assert_eq!(input.mouse_pos_bits(), [12.5f32.to_bits(), 3.0f32.to_bits()]);
    assert!(input.is_mouse_down(LEFT));

    input.begin_frame();
    assert!(!input.is_mouse_just_pressed(LEFT));
    input.handle_mouse_input(false, LEFT);
    assert!(!input.is_mouse_down(LEFT));
    assert!(input.is_mouse_just_released(LEFT));
    assert_eq!(input.mouse_pos_bits(), [12.5f32.to_bits(), 3.0f32.to_bits()]);
}

#[test]
fn pressed_keys_lists_held_keys() {
    let mut input = InputState::new();
    input.handle_keyboard_event(1, true);
    input.handle_keyboard_event(2, true);
    input.handle_keyboard_event(1, false);
    let keys = input.pressed_keys();
    assert_eq!(keys.len(), 1);
    assert!(keys.contains(&2));
}
