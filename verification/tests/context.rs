use astra_gui::{
    EventKind, FrameEvent, InteractionState, MouseButton, NodeId, TextInputState, UiContext,
};

#[test]
fn test_context_creation() {
    let ctx = UiContext::new();
    assert!(ctx.events().is_empty());
    assert!(ctx.focused_widget().is_none());
}

#[test]
fn test_id_generation() {
    let mut ctx = UiContext::new();

    let id1 = ctx.generate_id("button");
    let id2 = ctx.generate_id("button");
    let id3 = ctx.generate_id("slider");

    assert_eq!(id1, "button_0");
    assert_eq!(id2, "button_1");
    assert_eq!(id3, "slider_2");
}

#[test]
fn test_id_scoping() {
    let mut ctx = UiContext::new();

    ctx.push_id("parent");
    let id1 = ctx.generate_id("child");
    ctx.pop_id();

    let id2 = ctx.generate_id("sibling");

    assert_eq!(id1, "parent/child_0");
    assert_eq!(id2, "sibling_1");
}

#[test]
fn test_with_id_scope() {
    let mut ctx = UiContext::new();

    let id = ctx.with_id_scope("container", |ctx| ctx.generate_id("item"));

    assert_eq!(id, "container/item_0");
    assert!(ctx.id_stack().is_empty());
}

#[test]
fn context_test_focus_management() {
    let mut ctx = UiContext::new();

    assert!(!ctx.is_focused("my_input"));

    ctx.set_focus(Some("my_input"));
    assert!(ctx.is_focused("my_input"));

    ctx.set_focus(None);
    assert!(!ctx.is_focused("my_input"));
}

#[test]
fn nested_scopes_and_large_counters() {
    let mut ctx = UiContext::default();
    for _ in 0..12 {
        ctx.generate_id("w");
    }
    assert_eq!(ctx.peek_id("w"), "w_12");
    ctx.push_id("a");
    ctx.push_id("b");
    assert_eq!(ctx.peek_id("x"), "a/b/x_12");
    assert_eq!(ctx.generate_id("x"), "a/b/x_12");
    assert_eq!(ctx.generate_id("x"), "a/b/x_13");
    ctx.pop_id();
    assert_eq!(ctx.id_stack().len(), 1);
    ctx.pop_id();
    ctx.pop_id();
    assert!(ctx.id_stack().is_empty());
    ctx.begin_frame();
    assert_eq!(ctx.generate_id("w"), "w_0");
}

#[test]
fn generated_ids_in_a_frame_are_distinct() {
    let mut ctx = UiContext::new();
    // Labels chosen so that label and counter could run together textually.
    let a = ctx.generate_id("x_1");
    let mut others = Vec::new();
    for _ in 0..11 {
        others.push(ctx.generate_id("x"));
    }
    assert_eq!(a, "x_1_0");
    assert_eq!(others[0], "x_1");
    assert_eq!(others[10], "x_11");
    for o in &others {
        assert_ne!(&a, o);
    }
}

#[test]
fn peek_does_not_use_the_counter() {
    let mut ctx = UiContext::new();
    assert_eq!(ctx.peek_id("b"), "b_0");
    assert_eq!(ctx.peek_id("b"), "b_0");
    assert_eq!(ctx.generate_id("b"), "b_0");
    assert_eq!(ctx.peek_id("b"), "b_1");
}

#[test]
fn recorded_events_answer_queries() {
    let mut ctx = UiContext::new();
    let events = vec![
        FrameEvent { kind: EventKind::Click(MouseButton::Right), target: NodeId::new("btn") },
        FrameEvent { kind: EventKind::Hover, target: NodeId::new("btn") },
        FrameEvent { kind: EventKind::DragMove, target: NodeId::new("knob") },
    ];
    ctx.record_frame(
        events,
        Some(NodeId::new("knob")),
        None,
        vec![NodeId::new("btn"), NodeId::new("knob")],
    );
    assert_eq!(ctx.events().len(), 3);
    assert!(ctx.was_clicked("btn"));
    assert!(!ctx.was_clicked("knob"));
    assert!(ctx.was_clicked_with("btn", MouseButton::Right));
    assert!(!ctx.was_clicked_with("btn", MouseButton::Left));
    assert!(ctx.is_hovered("btn"));
    assert!(!ctx.is_hovered("knob"));
    assert!(ctx.is_dragging("knob"));
    assert!(!ctx.is_dragging("btn"));
    assert_eq!(ctx.interaction_state("knob"), InteractionState::Active);
    assert_eq!(ctx.interaction_state("btn"), InteractionState::Hovered);
    assert_eq!(ctx.interaction_state("other"), InteractionState::Idle);
}

#[test]
fn new_drag_target_is_not_hovered() {
    let mut ctx = UiContext::new();
    ctx.record_frame(
        Vec::new(),
        None,
        Some(NodeId::new("knob")),
        vec![NodeId::new("knob"), NodeId::new("panel")],
    );
    assert_eq!(ctx.interaction_state("knob"), InteractionState::Idle);
    assert_eq!(ctx.interaction_state("panel"), InteractionState::Hovered);
}

#[test]
fn context_input_and_memory_access() {
    let mut ctx = UiContext::new();
    ctx.input_mut().press_button(MouseButton::Left);
    ctx.input_mut().shift_held = true;
    assert!(ctx.is_button_down(MouseButton::Left));
    assert!(ctx.shift_held());
    assert!(!ctx.ctrl_held());
    assert!(ctx.input().is_button_just_pressed(MouseButton::Left));
    ctx.memory().text_input("field").text = "abc".to_string();
    assert_eq!(ctx.memory_ref().get::<TextInputState>("field").unwrap().text, "abc");
}

#[test]
fn context_cursor_blink_follows_focus() {
    let mut ctx = UiContext::new();
    assert!(ctx.is_cursor_visible("edit"));
    ctx.set_focus(Some("edit"));
    assert!(ctx.is_cursor_visible("edit"));
    // A zero blink interval flips the cursor on every update.
    assert!(!ctx.update_cursor_blink("edit", 0));
    assert!(!ctx.is_cursor_visible("edit"));
    assert!(ctx.update_cursor_blink("edit", 0));
    assert!(!ctx.update_cursor_blink("edit", 0));
    ctx.reset_cursor_blink("edit");
    assert!(ctx.is_cursor_visible("edit"));
    // A node without focus always reports a visible cursor.
    assert!(ctx.update_cursor_blink("other", 0));
    assert_eq!(ctx.focused_widget().unwrap().as_str(), "edit");
    assert!(ctx.dispatcher_ref().focused_node().is_some());
    ctx.dispatcher().set_focus(None);
    assert!(ctx.focused_widget().is_none());
}

#[test]
fn events_for_keeps_order_and_target() {
    let mut ctx = UiContext::new();
    let events = vec![
        FrameEvent { kind: EventKind::Hover, target: NodeId::new("btn") },
        FrameEvent { kind: EventKind::Hover, target: NodeId::new("panel") },
        FrameEvent { kind: EventKind::Click(MouseButton::Left), target: NodeId::new("btn") },
    ];
    ctx.record_frame(events, None, None, Vec::new());
    let for_btn = ctx.events_for("btn");
    assert_eq!(for_btn.len(), 2);
    assert_eq!(for_btn[0].kind, EventKind::Hover);
    assert_eq!(for_btn[1].kind, EventKind::Click(MouseButton::Left));
    assert!(for_btn.iter().all(|e| e.target.as_str() == "btn"));
    assert_eq!(ctx.events_for("panel").len(), 1);
    assert!(ctx.events_for("other").is_empty());
}

#[test]
fn end_frame_without_cursor_records_nothing() {
    let mut ctx = UiContext::new();
    ctx.record_frame(
        vec![FrameEvent { kind: EventKind::Hover, target: NodeId::new("btn") }],
        None,
        None,
        vec![NodeId::new("btn")],
    );
    let hits = vec![Some(NodeId::new("btn"))];
    assert!(ctx.end_frame(false, &hits, false, true, &vec![true]).is_none());
    assert!(ctx.events().is_empty());
    assert_eq!(ctx.interaction_state("btn"), InteractionState::Idle);
    assert!(!ctx.is_hovered("btn"));
}

#[test]
fn end_frame_records_focus_hover_and_scroll() {
    let mut ctx = UiContext::new();
    ctx.input_mut().press_button(MouseButton::Left);
    let hits = vec![Some(NodeId::new("a")), None, Some(NodeId::new("b"))];
    let (outcome, scrolled) =
        ctx.end_frame(true, &hits, false, true, &vec![false, true, true]).unwrap();
    assert_eq!(scrolled, Some(2));
    assert_eq!(outcome.events.len(), 3);
    let kinds: Vec<(EventKind, String)> =
        ctx.events().iter().map(|e| (e.kind, e.target.as_str().to_string())).collect();
    assert_eq!(
        kinds,
        vec![
            (EventKind::Focus, "a".to_string()),
            (EventKind::Hover, "a".to_string()),
            (EventKind::Hover, "b".to_string()),
            (EventKind::Scroll, "b".to_string()),
        ]
    );
    assert!(ctx.is_focused("a"));
    assert!(ctx.is_hovered("a") && ctx.is_hovered("b"));
    assert_eq!(ctx.interaction_state("b"), InteractionState::Hovered);
}

#[test]
fn end_frame_without_wheel_records_no_scroll() {
    let mut ctx = UiContext::new();
    let hits = vec![Some(NodeId::new("a"))];
    let (_, scrolled) = ctx.end_frame(true, &hits, false, false, &vec![true]).unwrap();
    assert_eq!(scrolled, None);
    assert!(ctx.events().iter().all(|e| e.kind != EventKind::Scroll));
}

#[test]
fn end_frame_reports_focus_set_since_last_frame() {
    let mut ctx = UiContext::new();
    ctx.set_focus(Some("a"));
    ctx.set_focus(Some("b"));
    ctx.end_frame(true, &Vec::new(), false, false, &Vec::new()).unwrap();
    let kinds: Vec<(EventKind, String)> =
        ctx.events().iter().map(|e| (e.kind, e.target.as_str().to_string())).collect();
    assert_eq!(
        kinds,
        vec![
            (EventKind::Focus, "a".to_string()),
            (EventKind::Blur, "a".to_string()),
            (EventKind::Focus, "b".to_string()),
        ]
    );
    // The change is reported once.
    ctx.end_frame(true, &Vec::new(), false, false, &Vec::new()).unwrap();
    assert!(ctx.events().is_empty());
}

#[test]
fn node_id_from_text() {
    let a = NodeId::from("btn");
    assert_eq!(a, NodeId::new("btn"));
    assert_eq!(a.as_str(), "btn");
    let b = NodeId::from(String::from("panel"));
    assert_eq!(b.as_str(), "panel");
    let c: NodeId = "knob".into();
    assert_eq!(c, NodeId::new("knob"));
    assert_ne!(c, NodeId::new("btn"));
}
