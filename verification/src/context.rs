//! The UI context: what components consult while the UI is built — the
//! input of the current frame, the interactions recorded at the end of the
//! previous frame, focus, widget memory and widget ID generation.
use vstd::prelude::*;
use crate::events::EventDispatcher;
use crate::ids::{make_id, push_decimal, push_joined};
use crate::input::{InputState, MouseButton};
use crate::memory::WidgetMemory;
use crate::node::{NodeId, opt_id_view};
use crate::events::InteractionState;

verus! {

/// Kind of an interaction recorded for a node during a frame.
#[derive(Debug, Clone, Copy, PartialEq, Eq, Structural)]
pub enum EventKind {
    /// Button pressed and released on the same target
    Click(MouseButton),
    /// Cursor over the node
    Hover,
    /// A drag started with this button
    DragStart(MouseButton),
    /// The pointer moved while dragging
    DragMove,
    /// The drag ended with this button
    DragEnd(MouseButton),
    /// The node gained focus
    Focus,
    /// The node lost focus
    Blur,
    /// Mouse wheel scroll over the node
    Scroll,
}

/// An interaction recorded for a node during a frame.
#[derive(Debug, Clone)]
pub struct FrameEvent {
    /// What happened
    pub kind: EventKind,
    /// The node it happened to
    pub target: NodeId,
}

/// Whether an event kind belongs to a drag: its start, a move, or its end.
pub open spec fn is_drag_kind(k: EventKind) -> bool {
    ||| k matches EventKind::DragStart(_)
    ||| k matches EventKind::DragMove
    ||| k matches EventKind::DragEnd(_)
}

/// The interaction state of node `id` for a frame in which `active` was the
/// node being dragged when the frame began, `dragging` the node being dragged
/// when hovering was assessed, and `hovered` the nodes under the pointer.
pub open spec fn interaction_for(
    active: Option<Seq<char>>,
    dragging: Option<Seq<char>>,
    hovered: Seq<Seq<char>>,
    id: Seq<char>,
) -> InteractionState {
    if active == Some(id) {
        InteractionState::Active
    } else if dragging != Some(id) && hovered.contains(id) {
        InteractionState::Hovered
    } else {
        InteractionState::Idle
    }
}

/// The node being dragged is active for the frame; a hovered node that no
/// drag holds is hovered; every other node is idle.
pub proof fn law_interaction_states(
    active: Option<Seq<char>>,
    dragging: Option<Seq<char>>,
    hovered: Seq<Seq<char>>,
    id: Seq<char>,
)
    ensures
        active == Some(id) ==> interaction_for(active, dragging, hovered, id)
            == InteractionState::Active,
        active != Some(id) && dragging != Some(id) && hovered.contains(id) ==> interaction_for(
            active,
            dragging,
            hovered,
            id,
        ) == InteractionState::Hovered,
        !hovered.contains(id) && active != Some(id) ==> interaction_for(
            active,
            dragging,
            hovered,
            id,
        ) == InteractionState::Idle,
{
}

/// The kind and target text of a recorded event.
pub open spec fn frame_event_view(e: FrameEvent) -> (EventKind, Seq<char>) {
    (e.kind, e.target@)
}

/// The kinds and target texts of a list of recorded events.
pub open spec fn frame_event_views(s: Seq<FrameEvent>) -> Seq<(EventKind, Seq<char>)> {
    s.map_values(|e: FrameEvent| frame_event_view(e))
}

/// Whether a recorded event (by its kind and target text) targets `id`.
pub open spec fn targets(id: Seq<char>) -> spec_fn((EventKind, Seq<char>)) -> bool {
    |p: (EventKind, Seq<char>)| p.1 == id
}

/// The kinds and targets of dispatched interactions, as they are recorded.
pub open spec fn recorded_views(v: Seq<crate::events::EventView>) -> Seq<(EventKind, Seq<char>)> {
    v.map_values(|e: crate::events::EventView| (e.0, e.1))
}

/// The scroll recorded for the hit at `scrolled`, if any.
pub open spec fn scroll_views(hits: Seq<Option<NodeId>>, scrolled: Option<usize>) -> Seq<
    (EventKind, Seq<char>),
> {
    match scrolled {
        Some(k) => match hits[k as int] {
            Some(id) => seq![(EventKind::Scroll, id@)],
            None => Seq::empty(),
        },
        None => Seq::empty(),
    }
}

/// The textual views of a list of strings.
pub open spec fn string_views(v: Seq<String>) -> Seq<Seq<char>> {
    v.map_values(|s: String| s@)
}

/// The textual views of a list of node identifiers.
pub open spec fn node_views(v: Seq<NodeId>) -> Seq<Seq<char>> {
    v.map_values(|n: NodeId| n@)
}

/// The main UI context that coordinates UI operations.
///
/// It is passed to components when building the UI tree and provides the
/// input state, the interactions of the last frame, focus management,
/// widget memory and ID generation.
#[derive(Debug)]
pub struct UiContext {
    /// Current input state
    input: InputState,
    /// Interactions recorded at the end of the last frame
    events: Vec<FrameEvent>,
    /// Node being dragged when the last frame's dispatch began
    active: Option<NodeId>,
    /// Node being dragged when the last frame's hovering was assessed
    dragging: Option<NodeId>,
    /// Nodes under the pointer in the last frame
    hovered: Vec<NodeId>,
    /// Focus and cursor blink tracking
    dispatcher: EventDispatcher,
    /// Widget memory for storing internal state
    memory: WidgetMemory,
    /// ID stack for hierarchical ID generation
    id_stack: Vec<String>,
    /// Counter for generating unique IDs within a scope
    id_counter: usize,
}

impl UiContext {
    /// The scope names on the ID stack, outermost first.
    pub closed spec fn scopes(&self) -> Seq<Seq<char>> {
        string_views(self.id_stack@)
    }

    /// The counter the next generated ID gets.
    pub closed spec fn counter(&self) -> nat {
        self.id_counter as nat
    }

    /// The input state.
    pub closed spec fn input_state(&self) -> InputState {
        self.input
    }

    /// The focus tracker.
    pub closed spec fn focus(&self) -> EventDispatcher {
        self.dispatcher
    }

    /// The widget memory.
    pub closed spec fn widget_memory(&self) -> WidgetMemory {
        self.memory
    }

    /// The interactions recorded for the last frame.
    pub closed spec fn frame_events(&self) -> Seq<FrameEvent> {
        self.events@
    }

    /// The interaction state of node `id` in the last frame.
    pub closed spec fn state_of(&self, id: Seq<char>) -> InteractionState {
        interaction_for(
            opt_id_view(self.active),
            opt_id_view(self.dragging),
            node_views(self.hovered@),
            id,
        )
    }

    /// Everything but the ID stack and counter is the same in both contexts.
    pub open spec fn same_but_ids(&self, other: &UiContext) -> bool {
        &&& self.input_state() == other.input_state()
        &&& self.focus() == other.focus()
        &&& self.widget_memory() == other.widget_memory()
        &&& self.frame_events() == other.frame_events()
        &&& forall|id: Seq<char>| self.state_of(id) == other.state_of(id)
    }


    /// Create a new UI context
    pub fn new() -> (r: Self)
        ensures
            r.scopes() == Seq::<Seq<char>>::empty(),
            r.counter() == 0,
            r.frame_events() == Seq::<FrameEvent>::empty(),
            r.focus()@.focused is None,
            r.focus()@.blink == Map::<Seq<char>, bool>::empty(),
            r.focus()@.hovered == Seq::<Seq<char>>::empty(),
            r.focus()@.drag is None,
            r.focus()@.pending == Seq::<crate::events::EventView>::empty(),
            r.widget_memory()@ == Map::<Seq<char>, crate::memory::WidgetState>::empty(),
            r.input_state()@ == crate::input::InputModel::initial(),
            forall|id: Seq<char>| r.state_of(id) == InteractionState::Idle,
    {
        let r = Self {
            input: InputState::new(),
            events: Vec::new(),
            active: None,
            dragging: None,
            hovered: Vec::new(),
            dispatcher: EventDispatcher::new(),
            memory: WidgetMemory::new(),
            id_stack: Vec::new(),
            id_counter: 0,
        };
        assert(r.scopes() =~= Seq::<Seq<char>>::empty());
        assert(r.frame_events() =~= Seq::<FrameEvent>::empty());
        r
    }

    /// Begin a new frame: ID generation restarts from counter zero.
    pub fn begin_frame(&mut self)
        ensures
            final(self).counter() == 0,
            final(self).scopes() == old(self).scopes(),
            final(self).same_but_ids(old(self)),
    {
        self.id_counter = 0;
    }

    /// Record the interactions dispatched at the end of a frame: the events,
    /// the node being dragged when dispatch began (`active`), the node being
    /// dragged when hovering was assessed (`dragging`), and the hovered nodes.
    pub fn record_frame(
        &mut self,
        events: Vec<FrameEvent>,
        active: Option<NodeId>,
        dragging: Option<NodeId>,
        hovered: Vec<NodeId>,
    )
        ensures
            final(self).frame_events() == events@,
            forall|id: Seq<char>|
                final(self).state_of(id) == interaction_for(
                    opt_id_view(active),
                    opt_id_view(dragging),
                    node_views(hovered@),
                    id,
                ),
            final(self).input_state() == old(self).input_state(),
            final(self).focus() == old(self).focus(),
            final(self).widget_memory() == old(self).widget_memory(),
            final(self).scopes() == old(self).scopes(),
            final(self).counter() == old(self).counter(),
    {
        self.events = events;
        self.active = active;
        self.dragging = dragging;
        self.hovered = hovered;
    }

    /// Decide this frame's interactions from the current input and the nodes
    /// under the pointer (see `EventDispatcher::dispatch`).
    pub fn dispatch_input(&mut self, hits: &Vec<Option<NodeId>>, drag_moved: bool) -> (r:
        crate::events::DispatchOutcome)
        ensures
            crate::events::events_view(r.events@) == crate::events::dispatch_events(
                old(self).focus()@,
                old(self).input_state()@,
                hits@,
                drag_moved,
            ),
            final(self).focus()@ == crate::events::after_dispatch(
                old(self).focus()@,
                old(self).input_state()@,
                hits@,
            ),
            opt_id_view(r.active) == crate::events::drag_target_of(old(self).focus()@.drag),
            opt_id_view(r.dragging) == crate::events::drag_target_of(final(self).focus()@.drag),
            final(self).input_state() == old(self).input_state(),
            final(self).widget_memory() == old(self).widget_memory(),
            final(self).frame_events() == old(self).frame_events(),
            final(self).scopes() == old(self).scopes(),
            final(self).counter() == old(self).counter(),
    {
        self.dispatcher.dispatch(&self.input, hits, drag_moved)
    }

    /// End the current frame: dispatch this frame's interactions and record
    /// them, so that they are what the next frame's queries see.
    ///
    /// `cursor_present` tells whether the pointer is in the window, `hits`
    /// are the nodes under it in hit order, `drag_moved` whether the pointer
    /// moved noticeably since the last frame, `wheel_moved` whether the wheel
    /// moved noticeably this frame, and `scrollable[i]` whether the node of
    /// hit `i` scrolls. Without a pointer nothing is dispatched, nothing is
    /// hovered and no interaction is recorded. Otherwise the dispatched
    /// interactions are recorded in order, followed by a scroll of the first
    /// scrollable identified hit when the wheel moved; the outcome and the
    /// position of that hit are returned.
    pub fn end_frame(
        &mut self,
        cursor_present: bool,
        hits: &Vec<Option<NodeId>>,
        drag_moved: bool,
        wheel_moved: bool,
        scrollable: &Vec<bool>,
    ) -> (r: Option<(crate::events::DispatchOutcome, Option<usize>)>)
        requires
            scrollable@.len() == hits@.len(),
        ensures
            final(self).input_state() == old(self).input_state(),
            final(self).widget_memory() == old(self).widget_memory(),
            final(self).scopes() == old(self).scopes(),
            final(self).counter() == old(self).counter(),
            !cursor_present ==> {
                &&& r is None
                &&& final(self).frame_events() == Seq::<FrameEvent>::empty()
                &&& final(self).focus()@ == (crate::events::DispatcherModel {
                    hovered: Seq::<Seq<char>>::empty(),
                    ..old(self).focus()@
                })
                &&& forall|id: Seq<char>| final(self).state_of(id) == InteractionState::Idle
            },
            cursor_present ==> match r {
                Some((out, scrolled)) => {
                    &&& crate::events::events_view(out.events@) == crate::events::dispatch_events(
                        old(self).focus()@,
                        old(self).input_state()@,
                        hits@,
                        drag_moved,
                    )
                    &&& final(self).focus()@ == crate::events::after_dispatch(
                        old(self).focus()@,
                        old(self).input_state()@,
                        hits@,
                    )
                    &&& opt_id_view(out.active) == crate::events::drag_target_of(
                        old(self).focus()@.drag,
                    )
                    &&& opt_id_view(out.dragging) == crate::events::drag_target_of(
                        final(self).focus()@.drag,
                    )
                    &&& wheel_moved ==> crate::events::is_first_scrollable(
                        hits@,
                        scrollable@,
                        scrolled,
                    )
                    &&& !wheel_moved ==> scrolled is None
                    &&& frame_event_views(final(self).frame_events()) == recorded_views(
                        crate::events::events_view(out.events@),
                    ) + scroll_views(hits@, scrolled)
                    &&& forall|id: Seq<char>|
                        final(self).state_of(id) == interaction_for(
                            opt_id_view(out.active),
                            opt_id_view(out.dragging),
                            crate::events::hit_ids_view(hits@),
                            id,
                        )
                },
                None => false,
            },
    {
        if !cursor_present {
            self.dispatcher.clear_hovered();
            self.record_frame(Vec::new(), None, None, Vec::new());
            assert(self.frame_events() =~= Seq::<FrameEvent>::empty());
            return None;
        }
        let outcome = self.dispatcher.dispatch(&self.input, hits, drag_moved);
        let mut events: Vec<FrameEvent> = Vec::new();
        let n = outcome.events.len();
        let mut i: usize = 0;
        while i < n
            invariant
                n == outcome.events@.len(),
                i <= n,
                frame_event_views(events@) == recorded_views(
                    crate::events::events_view(outcome.events@.take(i as int)),
                ),
            decreases n - i,
        {
            let e = &outcome.events[i];
            let ghost before = events@;
            let fe = FrameEvent { kind: e.kind, target: e.target.clone() };
            assert(frame_event_view(fe) == (e.kind, e.target@));
            events.push(fe);
            proof {
                let prev = outcome.events@.take(i as int);
                assert(outcome.events@.take(i + 1) =~= prev.push(*e));
                assert(crate::events::events_view(prev.push(*e)) =~= crate::events::events_view(
                    prev,
                ).push((e.kind, e.target@, e.hit)));
                assert(recorded_views(crate::events::events_view(prev).push((e.kind, e.target@, e.hit)))
                    =~= recorded_views(crate::events::events_view(prev)).push((e.kind, e.target@)));
                assert(frame_event_views(events@) =~= frame_event_views(before).push(
                    frame_event_view(fe),
                ));
            }
            i = i + 1;
        }
        assert(outcome.events@.take(n as int) =~= outcome.events@);
        let ghost recorded = frame_event_views(events@);
        let scrolled = if wheel_moved {
            crate::events::first_scrollable(hits, scrollable)
        } else {
            None
        };
        match scrolled {
            Some(k) => match &hits[k] {
                Some(id) => {
                    events.push(FrameEvent { kind: EventKind::Scroll, target: id.clone() });
                },
                None => {},
            },
            None => {},
        }
        assert(frame_event_views(events@) =~= recorded + scroll_views(hits@, scrolled));
        let hovered = crate::events::hit_ids(hits);
        assert(node_views(hovered@) =~= crate::events::hit_ids_view(hits@));
        let active = crate::events::copy_opt_id(&outcome.active);
        let dragging = crate::events::copy_opt_id(&outcome.dragging);
        self.record_frame(events, active, dragging, hovered);
        Some((outcome, scrolled))
    }

    // ========== Input State Access ==========
    /// Get the current input state
    pub fn input(&self) -> (r: &InputState)
        ensures
            *r == self.input_state(),
    {
        &self.input
    }

    /// Get mutable access to the input state
    pub fn input_mut(&mut self) -> (r: &mut InputState)
        ensures
            *r == old(self).input_state(),
            final(self).input_state() == *final(r),
            final(self).focus() == old(self).focus(),
            final(self).widget_memory() == old(self).widget_memory(),
            final(self).frame_events() == old(self).frame_events(),
            final(self).scopes() == old(self).scopes(),
            final(self).counter() == old(self).counter(),
    {
        &mut self.input
    }

    /// Check if a mouse button is currently held
    pub fn is_button_down(&self, button: MouseButton) -> (r: bool)
        ensures
            r == self.input_state()@.pressed.contains(button),
    {
        self.input.is_button_down(button)
    }

    /// Check if Shift is held
    pub fn shift_held(&self) -> (r: bool)
        ensures
            r == self.input_state().shift_held,
    {
        self.input.shift_held
    }

    /// Check if Ctrl (or Cmd on macOS) is held
    pub fn ctrl_held(&self) -> (r: bool)
        ensures
            r == self.input_state().ctrl_held,
    {
        self.input.ctrl_held
    }

    // ========== Event Checking ==========
    /// Get all events from the last frame
    pub fn events(&self) -> (r: &[FrameEvent])
        ensures
            r@ == self.frame_events(),
    {
        self.events.as_slice()
    }

    /// Get all events of the last frame that target a specific widget, in the
    /// order they were recorded.
    pub fn events_for(&self, id: &str) -> (r: Vec<FrameEvent>)
        ensures
            frame_event_views(r@) == frame_event_views(self.frame_events()).filter(targets(id@)),
    {
        let key = id.to_owned();
        let mut out: Vec<FrameEvent> = Vec::new();
        let n = self.events.len();
        let mut i: usize = 0;
        while i < n
            invariant
                n == self.events@.len(),
                i <= n,
                key@ == id@,
                frame_event_views(out@) == frame_event_views(self.events@.take(i as int)).filter(
                    targets(id@),
                ),
            decreases n - i,
        {
            let e = &self.events[i];
            let ghost prev = frame_event_views(self.events@.take(i as int));
            let ghost next = frame_event_views(self.events@.take(i as int + 1));
            proof {
                assert(next.drop_last() =~= prev);
                assert(next.last() == frame_event_view(*e));
                reveal(Seq::filter);
            }
            if e.target.as_str().to_owned() == key {
                let copy = FrameEvent { kind: e.kind, target: e.target.clone() };
                out.push(copy);
                assert(frame_event_views(out@) =~= prev.filter(targets(id@)).push(
                    frame_event_view(*e),
                ));
            }
            i = i + 1;
        }
        assert(self.events@.take(n as int) =~= self.events@);
        out
    }

    /// Whether an event of the last frame targets `id` and has a kind the
    /// query looks for (see `kind_matches`).
    fn any_event(&self, id: &str, want: EventKind, any_button: bool, drag: bool) -> (r: bool)
        ensures
            r == exists|i: int|
                0 <= i < self.frame_events().len() && #[trigger] self.frame_events()[i].target@
                    == id@ && Self::kind_matches(self.frame_events()[i].kind, want, any_button, drag),
    {
        let key = id.to_owned();
        let n = self.events.len();
        let mut i: usize = 0;
        while i < n
            invariant
                n == self.events@.len(),
                i <= n,
                key@ == id@,
                forall|j: int|
                    0 <= j < i ==> !(#[trigger] self.events@[j].target@ == id@ && Self::kind_matches(
                        self.events@[j].kind,
                        want,
                        any_button,
                        drag,
                    )),
            decreases n - i,
        {
            let e = &self.events[i];
            let kind_ok = if drag {
                match e.kind {
                    EventKind::DragStart(_) | EventKind::DragMove | EventKind::DragEnd(_) => true,
                    _ => false,
                }
            } else if any_button {
                match (e.kind, want) {
                    (EventKind::Click(_), EventKind::Click(_)) => true,
                    _ => e.kind == want,
                }
            } else {
                e.kind == want
            };
            if kind_ok && e.target.as_str().to_owned() == key {
                return true;
            }
            i = i + 1;
        }
        false
    }

    /// Whether event kind `k` is what a query looks for: a drag kind when
    /// `drag`, a click with any button when `any_button` and `want` is a click,
    /// else exactly `want`.
    pub open spec fn kind_matches(k: EventKind, want: EventKind, any_button: bool, drag: bool) -> bool {
        if drag {
            is_drag_kind(k)
        } else if any_button && (k matches EventKind::Click(_)) && (want matches EventKind::Click(_)) {
            true
        } else {
            k == want
        }
    }

    /// Check if a widget was clicked in the last frame
    pub fn was_clicked(&self, id: &str) -> (r: bool)
        ensures
            r == exists|i: int|
                0 <= i < self.frame_events().len() && #[trigger] self.frame_events()[i].target@
                    == id@ && (self.frame_events()[i].kind matches EventKind::Click(_)),
    {
        self.any_event(id, EventKind::Click(MouseButton::Left), true, false)
    }

    /// Check if a widget was clicked with a specific button
    pub fn was_clicked_with(&self, id: &str, button: MouseButton) -> (r: bool)
        ensures
            r == exists|i: int|
                0 <= i < self.frame_events().len() && #[trigger] self.frame_events()[i].target@
                    == id@ && self.frame_events()[i].kind == EventKind::Click(button),
    {
        self.any_event(id, EventKind::Click(button), false, false)
    }

    /// Check if a widget is currently hovered
    pub fn is_hovered(&self, id: &str) -> (r: bool)
        ensures
            r == exists|i: int|
                0 <= i < self.frame_events().len() && #[trigger] self.frame_events()[i].target@
                    == id@ && self.frame_events()[i].kind == EventKind::Hover,
    {
        self.any_event(id, EventKind::Hover, false, false)
    }

    /// Check if a widget is being dragged
    pub fn is_dragging(&self, id: &str) -> (r: bool)
        ensures
            r == exists|i: int|
                0 <= i < self.frame_events().len() && #[trigger] self.frame_events()[i].target@
                    == id@ && is_drag_kind(self.frame_events()[i].kind),
    {
        self.any_event(id, EventKind::DragMove, false, true)
    }

    /// Get the interaction state for a widget
    pub fn interaction_state(&self, id: &str) -> (r: InteractionState)
        ensures
            r == self.state_of(id@),
    {
        let key = NodeId::new(id);
        let is_active = match &self.active {
            Some(a) => *a == key,
            None => false,
        };
        if is_active {
            return InteractionState::Active;
        }
        let is_dragging = match &self.dragging {
            Some(d) => *d == key,
            None => false,
        };
        if is_dragging {
            return InteractionState::Idle;
        }
        let n = self.hovered.len();
        let mut i: usize = 0;
        while i < n
            invariant
                n == self.hovered@.len(),
                i <= n,
                key@ == id@,
                opt_id_view(self.active) != Some(id@),
                opt_id_view(self.dragging) != Some(id@),
                forall|j: int| 0 <= j < i ==> (#[trigger] self.hovered@[j])@ != id@,
            decreases n - i,
        {
            if self.hovered[i] == key {
                proof {
                    assert(node_views(self.hovered@)[i as int] == id@);
                }
                return InteractionState::Hovered;
            }
            i = i + 1;
        }
        proof {
            if node_views(self.hovered@).contains(id@) {
                let j = choose|j: int|
                    0 <= j < node_views(self.hovered@).len() && node_views(self.hovered@)[j]
                        == id@;
                assert(self.hovered@[j]@ == id@);
            }
        }
        InteractionState::Idle
    }

    // ========== Focus Management ==========
    /// Get the currently focused widget ID
    pub fn focused_widget(&self) -> (r: Option<&NodeId>)
        ensures
            match r {
                Some(n) => self.focus()@.focused == Some(n@),
                None => self.focus()@.focused is None,
            },
    {
        self.dispatcher.focused_node()
    }

    /// Check if a widget is focused
    pub fn is_focused(&self, id: &str) -> (r: bool)
        ensures
            r == (self.focus()@.focused == Some(id@)),
    {
        match self.dispatcher.focused_node() {
            Some(f) => f.as_str().to_owned() == id.to_owned(),
            None => false,
        }
    }

    /// Set the focused widget
    pub fn set_focus(&mut self, id: Option<&str>)
        ensures
            final(self).focus()@ == old(self).focus()@.refocus(
                match id {
                    Some(s) => Some(s@),
                    None => None,
                },
            ),
            final(self).input_state() == old(self).input_state(),
            final(self).widget_memory() == old(self).widget_memory(),
            final(self).frame_events() == old(self).frame_events(),
            final(self).scopes() == old(self).scopes(),
            final(self).counter() == old(self).counter(),
    {
        let node = match id {
            Some(s) => Some(NodeId::new(s)),
            None => None,
        };
        self.dispatcher.set_focus(node);
    }

    /// Update cursor blink for a focused text widget
    pub fn update_cursor_blink(&mut self, id: &str, blink_rate_ms: u64) -> (r: bool)
        ensures
            final(self).focus()@.focused == old(self).focus()@.focused,
            !old(self).focus()@.blink.contains_key(id@) ==> r && final(self).focus()@.blink == old(
                self,
            ).focus()@.blink,
            old(self).focus()@.blink.contains_key(id@) ==> {
                &&& exists|elapsed_ms: u64|
                    r == crate::events::blink_after(
                        #[trigger] old(self).focus()@.blink[id@],
                        elapsed_ms,
                        blink_rate_ms,
                    )
                &&& final(self).focus()@.blink == old(self).focus()@.blink.insert(id@, r)
            },
            final(self).input_state() == old(self).input_state(),
            final(self).widget_memory() == old(self).widget_memory(),
            final(self).frame_events() == old(self).frame_events(),
            final(self).scopes() == old(self).scopes(),
            final(self).counter() == old(self).counter(),
    {
        let node = NodeId::new(id);
        self.dispatcher.update_cursor_blink(&node, blink_rate_ms)
    }

    /// Reset cursor blink to visible (call when text changes)
    pub fn reset_cursor_blink(&mut self, id: &str)
        ensures
            final(self).focus()@.focused == old(self).focus()@.focused,
            final(self).focus()@.blink == if old(self).focus()@.blink.contains_key(id@) {
                old(self).focus()@.blink.insert(id@, true)
            } else {
                old(self).focus()@.blink
            },
            final(self).input_state() == old(self).input_state(),
            final(self).widget_memory() == old(self).widget_memory(),
            final(self).frame_events() == old(self).frame_events(),
            final(self).scopes() == old(self).scopes(),
            final(self).counter() == old(self).counter(),
    {
        let node = NodeId::new(id);
        self.dispatcher.reset_cursor_blink(&node);
    }

    /// Check if cursor should be visible for a widget
    pub fn is_cursor_visible(&self, id: &str) -> (r: bool)
        ensures
            r == if self.focus()@.blink.contains_key(id@) {
                self.focus()@.blink[id@]
            } else {
                true
            },
    {
        let node = NodeId::new(id);
        self.dispatcher.is_cursor_visible(&node)
    }

    // ========== Widget Memory ==========
    /// Get access to widget memory for storing internal state
    pub fn memory(&mut self) -> (r: &mut WidgetMemory)
        ensures
            *r == old(self).widget_memory(),
            final(self).widget_memory() == *final(r),
            final(self).input_state() == old(self).input_state(),
            final(self).focus() == old(self).focus(),
            final(self).frame_events() == old(self).frame_events(),
            final(self).scopes() == old(self).scopes(),
            final(self).counter() == old(self).counter(),
    {
        &mut self.memory
    }

    /// Get read-only access to widget memory
    pub fn memory_ref(&self) -> (r: &WidgetMemory)
        ensures
            *r == self.widget_memory(),
    {
        &self.memory
    }

    // ========== ID Generation ==========
    /// The ID that `generate_id(label)` would return now, without using up
    /// the counter: `"{label}_{counter}"`, prefixed by the scopes joined with
    /// `'/'` and a `'/'` when any scope is open.
    pub fn peek_id(&self, label: &str) -> (r: String)
        ensures
            r@ == make_id(self.scopes(), label@, self.counter()),
    {
        let mut s = String::new();
        proof {
            reveal_strlit("/");
            reveal_strlit("_");
        }
        if self.id_stack.len() == 0 {
            s.append(label);
        } else {
            push_joined(&mut s, &self.id_stack);
            s.append("/");
            s.append(label);
        }
        s.append("_");
        push_decimal(&mut s, self.id_counter);
        assert(s@ =~= make_id(self.scopes(), label@, self.counter()));
        s
    }

    /// Generate a unique ID for a widget.
    ///
    /// IDs are built from the current ID stack (parent scopes), the label, and
    /// a counter for disambiguation, so they are stable across frames as long
    /// as the UI structure stays the same.
    pub fn generate_id(&mut self, label: &str) -> (r: String)
        requires
            old(self).counter() < usize::MAX,
        ensures
            r@ == make_id(old(self).scopes(), label@, old(self).counter()),
            final(self).counter() == old(self).counter() + 1,
            final(self).scopes() == old(self).scopes(),
            final(self).same_but_ids(old(self)),
    {
        let id = self.peek_id(label);
        self.id_counter = self.id_counter + 1;
        id
    }

    /// The scope names on the ID stack, outermost first.
    pub fn id_stack(&self) -> (r: &[String])
        ensures
            string_views(r@) == self.scopes(),
    {
        self.id_stack.as_slice()
    }

    /// Push a scope onto the ID stack.
    ///
    /// All IDs generated while this scope is active are prefixed with it.
    pub fn push_id(&mut self, scope: &str)
        ensures
            final(self).scopes() == old(self).scopes().push(scope@),
            final(self).counter() == old(self).counter(),
            final(self).same_but_ids(old(self)),
    {
        self.id_stack.push(scope.to_owned());
        assert(self.scopes() =~= old(self).scopes().push(scope@));
    }

    /// Pop the current scope from the ID stack (nothing happens when it is empty).
    pub fn pop_id(&mut self)
        ensures
            final(self).scopes() == if old(self).scopes().len() == 0 {
                old(self).scopes()
            } else {
                old(self).scopes().drop_last()
            },
            final(self).counter() == old(self).counter(),
            final(self).same_but_ids(old(self)),
    {
        let _ = self.id_stack.pop();
        assert(self.scopes() =~= if old(self).scopes().len() == 0 {
            old(self).scopes()
        } else {
            old(self).scopes().drop_last()
        });
    }

    /// Execute a closure with a temporary ID scope: `scope` is pushed before
    /// `f` runs and popped after it returns.
    pub fn with_id_scope<R, F: FnOnce(&mut Self) -> R>(&mut self, scope: &str, f: F) -> (r: R)
        requires
            forall|c: &mut Self|
                c.scopes() == old(self).scopes().push(scope@) && c.counter() == old(self).counter()
                    && c.same_but_ids(old(self)) ==> f.requires((c,)),
        ensures
            exists|c: &mut Self|
                {
                    &&& c.scopes() == old(self).scopes().push(scope@)
                    &&& c.counter() == old(self).counter()
                    &&& c.same_but_ids(old(self))
                    &&& f.ensures((c,), r)
                    &&& final(self).scopes() == if final(c).scopes().len() == 0 {
                        final(c).scopes()
                    } else {
                        final(c).scopes().drop_last()
                    }
                    &&& final(self).counter() == final(c).counter()
                    &&& final(self).same_but_ids(&*final(c))
                },
    {
        self.push_id(scope);
        let result = f(self);
        self.pop_id();
        result
    }

    // ========== Event Dispatcher Access ==========
    /// Get mutable access to the focus tracker
    pub fn dispatcher(&mut self) -> (r: &mut EventDispatcher)
        ensures
            *r == old(self).focus(),
            final(self).focus() == *final(r),
            final(self).input_state() == old(self).input_state(),
            final(self).widget_memory() == old(self).widget_memory(),
            final(self).frame_events() == old(self).frame_events(),
            final(self).scopes() == old(self).scopes(),
            final(self).counter() == old(self).counter(),
    {
        &mut self.dispatcher
    }

    /// Get read-only access to the focus tracker
    pub fn dispatcher_ref(&self) -> (r: &EventDispatcher)
        ensures
            *r == self.focus(),
    {
        &self.dispatcher
    }
}

impl Default for UiContext {
    fn default() -> (r: Self)
        ensures
            r.scopes() == Seq::<Seq<char>>::empty(),
            r.counter() == 0,
            r.frame_events() == Seq::<FrameEvent>::empty(),
            r.focus()@.focused is None,
    {
        Self::new()
    }
}

} // verus!
