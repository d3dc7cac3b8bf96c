use astra_gui::{ButtonSet, InputState, Key, MouseButton, NamedKey};

#[test]
fn test_button_press_release() {
    let mut input = InputState::new();

    // Press left button
    input.press_button(MouseButton::Left);
    assert!(input.is_button_down(MouseButton::Left));
    assert!(input.is_button_just_pressed(MouseButton::Left));
    assert!(!input.is_button_just_released(MouseButton::Left));

    // New frame
    input.begin_frame();
    assert!(input.is_button_down(MouseButton::Left));
    assert!(!input.is_button_just_pressed(MouseButton::Left));

    // Release
    input.release_button(MouseButton::Left);
    assert!(!input.is_button_down(MouseButton::Left));
    assert!(input.is_button_just_released(MouseButton::Left));
}

#[test]
fn test_modifier_keys() {
    let mut input = InputState::new();

    assert!(!input.shift_held);
    assert!(!input.ctrl_held);

    input.press_key(Key::Named(NamedKey::Shift), false, false);
    assert!(input.shift_held);

    input.press_key(Key::Named(NamedKey::Control), false, false);
    assert!(input.ctrl_held);

    input.release_key(Key::Named(NamedKey::Shift));
    assert!(!input.shift_held);
    assert!(input.ctrl_held);
}

#[test]
fn test_character_input() {
    let mut input = InputState::new();

    input.type_character('a');
    input.type_character('b');
    input.type_character('c');

    assert_eq!(input.characters_typed, vec!['a', 'b', 'c']);

    input.begin_frame();
    assert!(input.characters_typed.is_empty());
}

#[test]
fn key_repeats_follow_allow_flag() {
    let mut input = InputState::default();
    input.press_key(Key::Character("x".to_string()), true, false);
    assert!(input.keys_just_pressed.is_empty());
    input.press_key(Key::Character("x".to_string()), true, true);
    assert_eq!(input.keys_just_pressed.len(), 1);
    assert!(input.is_key_just_pressed(&Key::Character("x".to_string())));
    assert!(!input.is_key_just_pressed(&Key::Character("y".to_string())));
    assert!(!input.is_key_just_pressed(&Key::Unknown));
    input.press_key(Key::Named(NamedKey::Enter), false, false);
    assert!(input.is_named_key_just_pressed(NamedKey::Enter));
    assert!(!input.is_named_key_just_pressed(NamedKey::Escape));
    input.release_key(Key::Named(NamedKey::Enter));
    assert_eq!(input.keys_just_released.len(), 1);
    input.begin_frame();
    assert!(!input.is_named_key_just_pressed(NamedKey::Enter));
    assert!(input.keys_just_released.is_empty());
}

#[test]
fn modifiers_survive_new_frame() {
    let mut input = InputState::new();
    assert!(!input.any_modifier_held());
    input.press_key(Key::Named(NamedKey::Shift), false, false);
    assert!(!input.any_modifier_held());
    input.press_key(Key::Named(NamedKey::Alt), false, false);
    input.press_key(Key::Named(NamedKey::Super), true, false);
    assert!(input.alt_held && input.super_held);
    assert!(input.any_modifier_held());
    input.begin_frame();
    assert!(input.shift_held && input.alt_held && input.super_held);
    input.release_key(Key::Named(NamedKey::Alt));
    input.release_key(Key::Named(NamedKey::Super));
    assert!(!input.any_modifier_held());
    assert!(input.shift_held);
}

#[test]
fn buttons_are_tracked_separately() {
    let mut input = InputState::new();
    input.press_button(MouseButton::Right);
    input.press_button(MouseButton::Other(4));
    input.press_button(MouseButton::Right);
    assert!(input.is_button_down(MouseButton::Right));
    assert!(input.is_button_down(MouseButton::Other(4)));
    assert!(!input.is_button_down(MouseButton::Other(5)));
    assert!(!input.is_button_down(MouseButton::Left));
    input.release_button(MouseButton::Right);
    assert!(!input.is_button_down(MouseButton::Right));
    assert!(input.is_button_down(MouseButton::Other(4)));
    assert!(input.is_button_just_pressed(MouseButton::Right));
    assert!(input.is_button_just_released(MouseButton::Right));
}

#[test]
fn button_set_operations() {
    let mut set = ButtonSet::new();
    assert!(set.is_empty());
    set.insert(MouseButton::Middle);
    set.insert(MouseButton::Middle);
    assert!(set.contains(MouseButton::Middle));
    let copy = set.clone();
    set.remove(MouseButton::Middle);
    assert!(set.is_empty());
    assert!(copy.contains(MouseButton::Middle));
    set.insert(MouseButton::Left);
    set.clear();
    assert!(!set.contains(MouseButton::Left));
}
