use astra_gui::{
    CollapsibleState, DragValueState, SliderState, TextInputState, ToggleState, WidgetMemory, WidgetStateId,
};

#[test]
fn test_text_input_state() {
    let mut state = TextInputState::new("hello");
    assert_eq!(state.text, "hello");
    assert_eq!(state.cursor_pos, 5);
    assert!(state.selection.is_none());

    state.selection = Some((0, 3));
    assert_eq!(state.selected_text(), Some("hel"));

    state.clear_selection();
    assert!(state.selection.is_none());
}

#[test]
fn test_widget_memory_basic() {
    let mut memory = WidgetMemory::new();
    assert!(memory.is_empty());

    let state = memory.text_input("my_input");
    state.text = "test".to_string();

    assert_eq!(memory.len(), 1);
    assert!(memory.contains("my_input"));

    let state = memory.get::<TextInputState>("my_input").unwrap();
    assert_eq!(state.text, "test");
}

#[test]
fn test_collapsible_state() {
    let mut state = CollapsibleState::new(false);
    assert!(!state.expanded);

    state.toggle();
    assert!(state.expanded);

    state.toggle();
    assert!(!state.expanded);
}

#[test]
fn test_toggle_state() {
    let mut state = ToggleState::new(false);
    assert!(!state.checked);

    state.toggle();
    assert!(state.checked);
}

#[test]
fn widget_memory_wrong_kind_reads_nothing() {
    let mut memory = WidgetMemory::new();
    memory.text_input("widget1");
    memory.slider("widget2");

    assert!(memory.get::<TextInputState>("widget1").is_some());
    assert!(memory.get::<SliderState>("widget2").is_some());

    assert!(memory.get::<SliderState>("widget1").is_none());
    assert!(memory.get::<TextInputState>("widget2").is_none());
    assert!(memory.get::<ToggleState>("missing").is_none());
}

#[test]
fn widget_memory_existing_state_is_kept() {
    let mut memory = WidgetMemory::new();
    memory.toggle("t", true).checked = false;
    // The initial value only applies when nothing is stored yet.
    let t = memory.toggle("t", true);
    assert!(!t.checked);
    let c = memory.collapsible("c", false);
    assert!(!c.expanded);
    c.toggle();
    assert!(memory.get::<CollapsibleState>("c").unwrap().expanded);
    assert_eq!(memory.len(), 2);
}

#[test]
fn widget_memory_text_with_initial_text() {
    let mut memory = WidgetMemory::new();
    let s = memory.text_input_with_text("name", "héllo");
    assert_eq!(s.text, "héllo");
    assert_eq!(s.cursor_pos, 6);
    s.text.push_str("!");
    let again = memory.text_input_with_text("name", "other");
    assert_eq!(again.text, "héllo!");
}

#[test]
fn widget_memory_get_mut_writes_through() {
    let mut memory = WidgetMemory::new();
    assert!(memory.get_mut::<SliderState>("s").is_none());
    memory.slider("s");
    memory.get_mut::<SliderState>("s").unwrap().dragging = true;
    assert!(memory.get::<SliderState>("s").unwrap().dragging);
    assert!(memory.get_mut::<ToggleState>("s").is_none());
}

#[test]
fn widget_memory_remove_and_clear() {
    let mut memory = WidgetMemory::default();
    memory.text_input("a");
    memory.slider("b");
    memory.toggle("c", false);
    assert_eq!(memory.len(), 3);
    assert!(memory.remove("b"));
    assert!(!memory.remove("b"));
    assert!(!memory.contains("b"));
    assert!(memory.contains("a"));
    assert!(memory.contains("c"));
    assert_eq!(memory.len(), 2);
    memory.clear();
    assert!(memory.is_empty());
    assert_eq!(memory.len(), 0);
}

#[test]
fn widget_memory_get_or_default_uses_kind_default() {
    let mut memory = WidgetMemory::new();
    let c: &mut CollapsibleState = memory.get_or_default("c");
    assert!(c.expanded);
    let t: &mut ToggleState = memory.get_or_default("t");
    assert!(!t.checked);
    let s: &mut TextInputState = memory.get_or_default("x");
    assert_eq!(s.text, "");
    assert_eq!(s.cursor_pos, 0);
}

#[test]
fn widget_memory_get_or_insert_returns_stored() {
    let mut memory = WidgetMemory::new();
    let v = memory.get_or_insert("k", ToggleState::new(true));
    assert!(v.checked);
    v.toggle();
    let w = memory.get_or_insert("k", ToggleState::new(true));
    assert!(!w.checked);
}

#[test]
fn toggle_twice_restores() {
    let mut t = ToggleState::new(true);
    t.toggle();
    t.toggle();
    assert!(t.checked);
    let mut c = CollapsibleState::default();
    c.toggle();
    c.toggle();
    assert!(c.expanded);
}

#[test]
fn text_input_cursor_is_clamped() {
    let mut s = TextInputState::new("abc");
    s.set_cursor_pos(2);
    assert_eq!(s.cursor_pos, 2);
    s.set_cursor_pos(10);
    assert_eq!(s.cursor_pos, 3);
    let mut e = TextInputState::default();
    e.set_cursor_pos(1);
    assert_eq!(e.cursor_pos, 0);
}

#[test]
fn text_input_selection_on_multibyte_text() {
    let mut s = TextInputState::new("aé€b");
    assert_eq!(s.cursor_pos, 7);
    s.selection = Some((1, 6));
    assert_eq!(s.selected_text(), Some("é€"));
    s.selection = Some((3, 3));
    assert_eq!(s.selected_text(), Some(""));
    s.selection = None;
    assert_eq!(s.selected_text(), None);
}

#[test]
fn widget_state_id_suffix() {
    let id = WidgetStateId::with_suffix("slider", "drag");
    assert_eq!(id.as_str(), "slider_drag");
    let plain = WidgetStateId::new("x");
    assert_eq!(plain.as_str(), "x");
}

#[test]
fn widget_memory_counts_follow_insert_and_remove() {
    let mut memory = WidgetMemory::new();
    assert_eq!(memory.len(), 0);
    memory.toggle("a", false);
    assert_eq!(memory.len(), 1);
    memory.toggle("b", true);
    assert_eq!(memory.len(), 2);
    // An ID that is already there keeps the count.
    memory.toggle("a", true);
    assert_eq!(memory.len(), 2);
    assert!(memory.remove("a"));
    assert_eq!(memory.len(), 1);
    assert!(!memory.remove("a"));
    assert_eq!(memory.len(), 1);
}

#[test]
fn widget_state_id_from_text() {
    let a = WidgetStateId::from("slider");
    assert_eq!(a.as_str(), "slider");
    let b = WidgetStateId::from(String::from("panel"));
    assert_eq!(b.as_str(), "panel");
    let c: WidgetStateId = "knob".into();
    assert_eq!(c.as_str(), "knob");
}

#[test]
fn test_widget_memory_type_safety() {
    let mut memory = WidgetMemory::new();

    memory.text_input("widget1");
    memory.drag_value("widget2", 10.0f32.to_bits());

    // Different types for different IDs work fine
    assert!(memory.get::<TextInputState>("widget1").is_some());
    assert!(memory.get::<DragValueState>("widget2").is_some());

    // Wrong type returns None
    assert!(memory.get::<DragValueState>("widget1").is_none());
    assert!(memory.get::<TextInputState>("widget2").is_none());
}

#[test]
fn drag_value_state_modes() {
    let mut state = DragValueState::new(42.0f32.to_bits());
    assert_eq!(f32::from_bits(state.drag_accumulator_bits), 42.0);
    assert!(!state.text_mode);

    state.enter_text_mode("42.5");
    assert!(state.text_mode);
    assert_eq!(state.text_input.text, "42.5");
    assert_eq!(state.text_input.cursor_pos, 4);
    assert!(state.text_input.focused);

    state.exit_text_mode();
    assert!(!state.text_mode);
    assert!(!state.text_input.focused);
    assert_eq!(state.text_input.text, "42.5");
    assert_eq!(DragValueState::default().drag_accumulator_bits, 0.0f32.to_bits());
}

#[test]
fn drag_value_is_kept_in_widget_memory() {
    let mut memory = WidgetMemory::new();
    memory.drag_value("d", 1.5f32.to_bits()).drag_accumulator_bits = 3.0f32.to_bits();
    assert_eq!(memory.len(), 1);
    assert!(memory.contains("d"));
    // An existing state keeps its value.
    let kept = memory.drag_value("d", 9.0f32.to_bits()).drag_accumulator_bits;
    assert_eq!(f32::from_bits(kept), 3.0);
}
