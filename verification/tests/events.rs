use astra_gui::events::{blink_visibility, first_identified, first_scrollable, topmost_identified};
use astra_gui::{EventDispatcher, InteractionState, NodeId};

#[test]
fn test_event_dispatcher_creation() {
    let dispatcher = EventDispatcher::new();
    assert!(dispatcher.focused_node().is_none());
}

#[test]
fn events_test_focus_management() {
    let mut dispatcher = EventDispatcher::new();

    let node_id = NodeId::new("test_node");
    dispatcher.set_focus(Some(node_id.clone()));

    assert_eq!(dispatcher.focused_node(), Some(&node_id));

    dispatcher.set_focus(None);
    assert!(dispatcher.focused_node().is_none());
}

#[test]
fn test_cursor_blink() {
    let mut dispatcher = EventDispatcher::new();

    let node_id = NodeId::new("text_input");
    dispatcher.set_focus(Some(node_id.clone()));

    // Initially visible
    assert!(dispatcher.is_cursor_visible(&node_id));

    // Reset should keep visible
    dispatcher.reset_cursor_blink(&node_id);
    assert!(dispatcher.is_cursor_visible(&node_id));
}

#[test]
fn blink_visibility_flips_after_interval() {
    assert!(!blink_visibility(true, 500, 500));
    assert!(blink_visibility(false, 501, 500));
    assert!(blink_visibility(true, 499, 500));
    assert!(!blink_visibility(false, 0, 500));
    assert!(blink_visibility(false, 0, 0));
}

#[test]
fn refocusing_same_node_keeps_cursor_state() {
    let mut d = EventDispatcher::new();
    let a = NodeId::new("a");
    d.set_focus(Some(a.clone()));
    assert!(!d.update_cursor_blink(&a, 0));
    d.set_focus(Some(NodeId::new("a")));
    assert!(!d.is_cursor_visible(&a));
    // Moving focus away and back starts visible again.
    d.set_focus(Some(NodeId::new("b")));
    assert!(d.is_cursor_visible(&a));
    d.set_focus(Some(a.clone()));
    assert!(d.is_cursor_visible(&a));
}

#[test]
fn press_moves_focus_to_first_identified_hit() {
    let mut d = EventDispatcher::default();
    let mut input = InputState::new();
    input.press_button(MouseButton::Left);
    let hits = vec![None, Some(NodeId::new("inner")), Some(NodeId::new("outer"))];
    let out = d.dispatch(&input, &hits, false);
    assert_eq!(kinds(&out)[0], (EventKind::Focus, "inner".to_string(), None));
    assert_eq!(d.focused_node(), Some(&NodeId::new("inner")));

    // Pressing on the same node again reports no focus change.
    let out = d.dispatch(&input, &hits, false);
    assert_eq!(kinds(&out)[0].0, EventKind::Hover);

    // Pressing elsewhere moves focus.
    let out = d.dispatch(&input, &vec![Some(NodeId::new("other"))], false);
    assert_eq!(kinds(&out)[0], (EventKind::Blur, "inner".to_string(), None));
    assert_eq!(kinds(&out)[1], (EventKind::Focus, "other".to_string(), None));

    // Pressing on nothing identified drops focus.
    let out = d.dispatch(&input, &vec![None], false);
    assert_eq!(kinds(&out), vec![(EventKind::Blur, "other".to_string(), None)]);
    assert!(d.focused_node().is_none());
}

#[test]
fn set_focus_is_reported_by_next_dispatch() {
    let mut d = EventDispatcher::new();
    let input = InputState::new();
    d.set_focus(Some(NodeId::new("a")));
    let out = d.dispatch(&input, &Vec::new(), false);
    assert_eq!(kinds(&out), vec![(EventKind::Focus, "a".to_string(), None)]);
    d.set_focus(Some(NodeId::new("b")));
    let out = d.dispatch(&input, &Vec::new(), false);
    assert_eq!(
        kinds(&out),
        vec![(EventKind::Blur, "a".to_string(), None), (EventKind::Focus, "b".to_string(), None)]
    );
    let out = d.dispatch(&input, &Vec::new(), false);
    assert!(out.events.is_empty());
    // Moving away and back before a dispatch reports both changes, in order.
    d.set_focus(None);
    d.set_focus(Some(NodeId::new("b")));
    let out = d.dispatch(&input, &Vec::new(), false);
    assert_eq!(
        kinds(&out),
        vec![(EventKind::Blur, "b".to_string(), None), (EventKind::Focus, "b".to_string(), None)]
    );
}

#[test]
fn every_set_focus_since_last_dispatch_is_reported() {
    let mut d = EventDispatcher::new();
    let input = InputState::new();
    d.set_focus(Some(NodeId::new("b")));
    d.dispatch(&input, &Vec::new(), false);
    d.set_focus(Some(NodeId::new("a")));
    d.set_focus(Some(NodeId::new("b")));
    let out = d.dispatch(&input, &Vec::new(), false);
    assert_eq!(
        kinds(&out),
        vec![
            (EventKind::Blur, "b".to_string(), None),
            (EventKind::Focus, "a".to_string(), None),
            (EventKind::Blur, "a".to_string(), None),
            (EventKind::Focus, "b".to_string(), None),
        ]
    );
}

#[test]
fn set_focus_then_press_reports_both_changes() {
    let mut d = EventDispatcher::new();
    let mut input = InputState::new();
    d.set_focus(Some(NodeId::new("a")));
    input.press_button(MouseButton::Left);
    let out = d.dispatch(&input, &vec![Some(NodeId::new("c"))], false);
    let k = kinds(&out);
    assert_eq!(k[0], (EventKind::Focus, "a".to_string(), None));
    assert_eq!(k[1], (EventKind::Blur, "a".to_string(), None));
    assert_eq!(k[2], (EventKind::Focus, "c".to_string(), None));
    assert_eq!(d.focused_node(), Some(&NodeId::new("c")));
}

#[test]
fn topmost_and_first_identified_hits() {
    let hits = vec![Some(NodeId::new("a")), None, Some(NodeId::new("c")), None];
    assert_eq!(topmost_identified(&hits), Some(2));
    assert_eq!(first_identified(&hits), Some(NodeId::new("a")));
    let none: Vec<Option<NodeId>> = vec![None, None];
    assert_eq!(topmost_identified(&none), None);
    assert_eq!(first_identified(&none), None);
    assert_eq!(topmost_identified(&Vec::new()), None);
}

#[test]
fn hovered_nodes_update() {
    let mut d = EventDispatcher::new();
    d.update_hovered(&vec![None, Some(NodeId::new("x"))]);
    d.clear_hovered();
    assert!(d.focused_node().is_none());
}

#[test]
fn interaction_state_default_is_idle() {
    assert_eq!(InteractionState::default(), InteractionState::Idle);
}

use astra_gui::events::DispatchOutcome;
use astra_gui::{EventKind, InputState, MouseButton};

fn kinds(out: &DispatchOutcome) -> Vec<(EventKind, String, Option<usize>)> {
    out.events
        .iter()
        .map(|e| (e.kind, e.target.as_str().to_string(), e.hit))
        .collect()
}

#[test]
fn dispatch_press_focuses_and_hovers() {
    let mut d = EventDispatcher::new();
    let mut input = InputState::new();
    input.press_button(MouseButton::Left);
    let hits = vec![Some(NodeId::new("child")), None, Some(NodeId::new("root"))];
    let out = d.dispatch(&input, &hits, false);
    assert_eq!(
        kinds(&out),
        vec![
            (EventKind::Focus, "child".to_string(), None),
            (EventKind::Hover, "child".to_string(), Some(0)),
            (EventKind::Hover, "root".to_string(), Some(2)),
        ]
    );
    assert!(out.active.is_none() && out.dragging.is_none() && !out.drag_started);
    assert_eq!(d.focused_node(), Some(&NodeId::new("child")));
}

#[test]
fn dispatch_drag_start_move_end_then_click() {
    let mut d = EventDispatcher::new();
    let mut input = InputState::new();
    let hits = vec![Some(NodeId::new("a")), Some(NodeId::new("knob"))];
    input.press_button(MouseButton::Left);
    d.dispatch(&input, &hits, false);
    // Next frame the button is held over: a drag starts on the topmost hit.
    input.begin_frame();
    let out = d.dispatch(&input, &hits, false);
    assert!(out.drag_started);
    assert_eq!(out.dragging, Some(NodeId::new("knob")));
    assert_eq!(kinds(&out)[0], (EventKind::DragStart(MouseButton::Left), "knob".to_string(), Some(1)));
    // The pointer moves while held.
    input.begin_frame();
    let out = d.dispatch(&input, &hits, true);
    assert_eq!(kinds(&out)[0], (EventKind::DragMove, "knob".to_string(), None));
    assert_eq!(out.active, Some(NodeId::new("knob")));
    assert!(!out.drag_started);
    // Release ends the drag; with the drag over, the release also clicks.
    input.begin_frame();
    input.release_button(MouseButton::Left);
    let out = d.dispatch(&input, &hits, true);
    let k = kinds(&out);
    assert_eq!(k[0], (EventKind::DragEnd(MouseButton::Left), "knob".to_string(), None));
    assert_eq!(k[1], (EventKind::Click(MouseButton::Left), "knob".to_string(), Some(1)));
    assert_eq!(out.active, Some(NodeId::new("knob")));
    assert!(out.dragging.is_none());
}

#[test]
fn dispatch_clicks_need_an_identified_hit() {
    let mut d = EventDispatcher::new();
    let mut input = InputState::new();
    input.press_button(MouseButton::Right);
    input.begin_frame();
    input.release_button(MouseButton::Right);
    let out = d.dispatch(&input, &vec![None], false);
    assert!(out.events.is_empty());
    let out = d.dispatch(&input, &vec![Some(NodeId::new("x")), None], false);
    assert_eq!(
        kinds(&out),
        vec![
            (EventKind::Click(MouseButton::Right), "x".to_string(), Some(0)),
            (EventKind::Hover, "x".to_string(), Some(0)),
        ]
    );
}

#[test]
fn wheel_scrolls_first_scrollable_identified_hit() {
    let hits = vec![Some(NodeId::new("label")), None, Some(NodeId::new("list")), Some(NodeId::new("page"))];
    assert_eq!(first_scrollable(&hits, &vec![false, true, true, true]), Some(2));
    assert_eq!(first_scrollable(&hits, &vec![false, true, false, false]), None);
    assert_eq!(first_scrollable(&hits, &vec![true, false, false, false]), Some(0));
}

#[test]
fn advance_cursor_blink_follows_elapsed_time() {
    let mut d = EventDispatcher::new();
    let a = NodeId::new("a");
    d.set_focus(Some(a.clone()));
    // Before the interval passes the cursor stays visible.
    assert!(d.advance_cursor_blink(&a, 499, 500));
    assert!(d.is_cursor_visible(&a));
    // Once it has passed the cursor flips.
    assert!(!d.advance_cursor_blink(&a, 500, 500));
    assert!(!d.is_cursor_visible(&a));
    assert!(d.advance_cursor_blink(&a, 800, 500));
    // A node without focus reports a visible cursor and changes nothing.
    let b = NodeId::new("b");
    assert!(d.advance_cursor_blink(&b, 10_000, 500));
    assert!(d.is_cursor_visible(&a));
}
