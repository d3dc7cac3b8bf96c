//! Interaction bookkeeping for interactive UI components: which node has
//! keyboard focus, whether its text cursor is currently shown, which nodes are
//! under the pointer, and how a click moves focus.
use vstd::prelude::*;
use crate::node::{NodeId, opt_id_view};
use crate::input::{InputModel, InputState, MouseButton};
use crate::context::EventKind;
use std::time::{Duration, Instant};

verus! {

/// Interaction state of a node (for style transitions)
#[derive(Debug, Clone, Copy, PartialEq, Eq, Hash, Structural)]
pub enum InteractionState {
    /// Node is idle (not being interacted with)
    Idle,
    /// Mouse is hovering over the node
    Hovered,
    /// Node is being actively interacted with (pressed/dragged)
    Active,
    /// Node is disabled and cannot be interacted with
    Disabled,
}

impl Default for InteractionState {
    fn default() -> (r: Self)
        ensures
            r == InteractionState::Idle,
    {
        InteractionState::Idle
    }
}

/// `std::time::Instant`, a clock reading, carried as an opaque value.
#[verifier::external_type_specification]
#[verifier::external_body]
pub struct ExInstant(Instant);

/// Reads the clock through `std::time::Instant::now`. Nothing is stated of
/// the reading: it depends on the time.
#[verifier::external_body]
fn instant_now() -> Instant {
    Instant::now()
}

/// Calls `std::time::Instant::elapsed`: the time passed since `since`.
/// Nothing is stated of it: it depends on the time.
#[verifier::external_body]
fn time_since(since: &Instant) -> Duration {
    since.elapsed()
}

/// Calls `std::time::Duration::as_millis`: the whole milliseconds of `d`.
/// No clause states the number: a `Duration` is opaque here.
#[verifier::external_body]
fn whole_millis(d: &Duration) -> u128 {
    d.as_millis()
}

/// Visibility of a blinking cursor after `elapsed_ms` milliseconds since its
/// last blink: it flips once the blink interval has passed.
pub open spec fn blink_after(visible: bool, elapsed_ms: u64, blink_rate_ms: u64) -> bool {
    if elapsed_ms >= blink_rate_ms {
        !visible
    } else {
        visible
    }
}

/// Visibility of a blinking cursor after `elapsed_ms` milliseconds since its
/// last blink, for a blink interval of `blink_rate_ms`.
pub fn blink_visibility(visible: bool, elapsed_ms: u64, blink_rate_ms: u64) -> (r: bool)
    ensures
        r == blink_after(visible, elapsed_ms, blink_rate_ms),
{
    if elapsed_ms >= blink_rate_ms {
        !visible
    } else {
        visible
    }
}

/// The first hit that carries an identifier, as an identifier.
pub fn first_identified(hits: &Vec<Option<NodeId>>) -> (r: Option<NodeId>)
    ensures
        opt_id_view(r) == first_hit_id(hits@),
{
    let n = hits.len();
    let mut i: usize = 0;
    assert(hits@.subrange(0, n as int) =~= hits@);
    while i < n
        invariant
            n == hits@.len(),
            i <= n,
            first_hit_id(hits@.subrange(i as int, n as int)) == first_hit_id(hits@),
        decreases n - i,
    {
        proof {
            let rest = hits@.subrange(i as int, n as int);
            assert(rest.drop_first() =~= hits@.subrange(i + 1, n as int));
            assert(rest[0] == hits@[i as int]);
        }
        match &hits[i] {
            Some(id) => {
                return Some(id.clone());
            },
            None => {},
        }
        i = i + 1;
    }
    None
}

/// Index of the topmost hit that carries an identifier: the last one in hit order.
pub fn topmost_identified(hits: &Vec<Option<NodeId>>) -> (r: Option<usize>)
    ensures
        match r {
            Some(i) => {
                &&& i < hits@.len()
                &&& hits@[i as int] is Some
                &&& forall|j: int| i < j < hits@.len() ==> hits@[j] is None
            },
            None => forall|j: int| 0 <= j < hits@.len() ==> hits@[j] is None,
        },
        match r {
            Some(i) => topmost_hit(hits@) == Some(i as int),
            None => topmost_hit(hits@) is None,
        },
{
    let mut i: usize = hits.len();
    while i > 0
        invariant
            i <= hits@.len(),
            forall|j: int| i <= j < hits@.len() ==> hits@[j] is None,
        decreases i,
    {
        i = i - 1;
        if hits[i].is_some() {
            proof {
                lemma_topmost_hit(hits@, i + 1);
                assert(hits@.subrange(0, i + 1).drop_last() =~= hits@.subrange(0, i as int));
            }
            return Some(i);
        }
    }
    proof {
        lemma_topmost_hit(hits@, 0);
    }
    None
}

/// An interaction decided by dispatch, as values: its kind, its target, and
/// the position in the hit list of the hit it comes from.
pub type EventView = (EventKind, Seq<char>, Option<usize>);

/// An interaction decided by dispatch: what happened, to which node, and the
/// position in the hit list of the hit it comes from (none for focus changes
/// and for the moves and end of a drag, which belong to the drag).
#[derive(Debug, Clone)]
pub struct DispatchedEvent {
    pub kind: EventKind,
    pub target: NodeId,
    pub hit: Option<usize>,
}

/// The values of a list of dispatched events.
pub open spec fn events_view(v: Seq<DispatchedEvent>) -> Seq<EventView> {
    v.map_values(|e: DispatchedEvent| (e.kind, e.target@, e.hit))
}

/// What a dispatch decided.
#[derive(Debug)]
pub struct DispatchOutcome {
    /// The interactions of this frame, in the order they were decided
    pub events: Vec<DispatchedEvent>,
    /// The node being dragged when dispatch began
    pub active: Option<NodeId>,
    /// The node being dragged once drags were ended and started
    pub dragging: Option<NodeId>,
    /// Whether a drag started in this dispatch
    pub drag_started: bool,
}

/// Position of the topmost hit that carries an identifier: the last one.
pub open spec fn topmost_hit(hits: Seq<Option<NodeId>>) -> Option<int>
    decreases hits.len(),
{
    if hits.len() == 0 {
        None
    } else if hits.last() is Some {
        Some(hits.len() - 1)
    } else {
        topmost_hit(hits.drop_last())
    }
}

/// The topmost identified hit is the last hit that carries an identifier.
proof fn lemma_topmost_hit(hits: Seq<Option<NodeId>>, i: int)
    requires
        0 <= i <= hits.len(),
        forall|j: int| i <= j < hits.len() ==> hits[j] is None,
    ensures
        topmost_hit(hits) == topmost_hit(hits.subrange(0, i)),
    decreases hits.len() - i,
{
    if i < hits.len() {
        assert(hits.drop_last().subrange(0, i) =~= hits.subrange(0, i));
        lemma_topmost_hit(hits.drop_last(), i);
    } else {
        assert(hits.subrange(0, i) =~= hits);
    }
}

/// Whether `b` is held down and was not pressed in this frame: held over from before.
pub open spec fn held_over(input: InputModel, b: MouseButton) -> bool {
    input.pressed.contains(b) && !input.just_pressed.contains(b)
}

/// The first of left, right and middle button that is held over from before.
pub open spec fn drag_button(input: InputModel) -> Option<MouseButton> {
    if held_over(input, MouseButton::Left) {
        Some(MouseButton::Left)
    } else if held_over(input, MouseButton::Right) {
        Some(MouseButton::Right)
    } else if held_over(input, MouseButton::Middle) {
        Some(MouseButton::Middle)
    } else {
        None
    }
}

/// Blur of the node that loses focus, then focus of the node that gains it.
pub open spec fn focus_events(old: Option<Seq<char>>, new: Option<Seq<char>>) -> Seq<EventView> {
    (if old is Some && new != old {
        seq![(EventKind::Blur, old->0, None::<usize>)]
    } else {
        Seq::empty()
    }) + (if new is Some && old != new {
        seq![(EventKind::Focus, new->0, None::<usize>)]
    } else {
        Seq::empty()
    })
}

/// The focus change of a frame: only a left-button press moves focus, to the
/// first identified hit.
pub open spec fn press_focus(m: DispatcherModel, input: InputModel, hits: Seq<Option<NodeId>>) -> Option<Seq<char>> {
    if input.just_pressed.contains(MouseButton::Left) {
        first_hit_id(hits)
    } else {
        m.focused
    }
}

/// The events of the drag in progress: its end when its button was released,
/// else a move when the pointer moved.
pub open spec fn drag_events(drag: Option<(MouseButton, Seq<char>)>, input: InputModel, moved: bool) -> Seq<EventView> {
    match drag {
        Some((b, t)) => if input.just_released.contains(b) {
            seq![(EventKind::DragEnd(b), t, None::<usize>)]
        } else if moved {
            seq![(EventKind::DragMove, t, None::<usize>)]
        } else {
            Seq::empty()
        },
        None => Seq::empty(),
    }
}

/// The drag once a released drag has ended.
pub open spec fn drag_after_release(drag: Option<(MouseButton, Seq<char>)>, input: InputModel) -> Option<(MouseButton, Seq<char>)> {
    match drag {
        Some((b, _)) => if input.just_released.contains(b) {
            None
        } else {
            drag
        },
        None => None,
    }
}

/// Whether a drag starts: no drag is in progress, a button is held over from
/// before, and an identified node is under the pointer.
pub open spec fn drag_starts(d1: Option<(MouseButton, Seq<char>)>, input: InputModel, hits: Seq<Option<NodeId>>) -> bool {
    d1 is None && drag_button(input) is Some && topmost_hit(hits) is Some
}

/// The drag after this frame's drag handling.
pub open spec fn drag_after(m: DispatcherModel, input: InputModel, hits: Seq<Option<NodeId>>) -> Option<(MouseButton, Seq<char>)> {
    let d1 = drag_after_release(m.drag, input);
    if drag_starts(d1, input, hits) {
        Some((drag_button(input)->0, hits[topmost_hit(hits)->0]->0@))
    } else {
        d1
    }
}

/// The start event of a drag that starts in this frame.
pub open spec fn start_events(m: DispatcherModel, input: InputModel, hits: Seq<Option<NodeId>>) -> Seq<EventView> {
    let d1 = drag_after_release(m.drag, input);
    if drag_starts(d1, input, hits) {
        let i = topmost_hit(hits)->0;
        seq![(EventKind::DragStart(drag_button(input)->0), hits[i]->0@, Some(i as usize))]
    } else {
        Seq::empty()
    }
}

/// A click on the topmost identified hit for each of left, right and middle
/// button released in this frame, when no drag is in progress.
pub open spec fn click_events(m: DispatcherModel, input: InputModel, hits: Seq<Option<NodeId>>) -> Seq<EventView> {
    if drag_after(m, input, hits) is None && topmost_hit(hits) is Some {
        let i = topmost_hit(hits)->0;
        let t = hits[i]->0@;
        let c = |b: MouseButton|
            if input.just_released.contains(b) {
                seq![(EventKind::Click(b), t, Some(i as usize))]
            } else {
                Seq::<EventView>::empty()
            };
        c(MouseButton::Left) + c(MouseButton::Right) + c(MouseButton::Middle)
    } else {
        Seq::empty()
    }
}

/// A hover for every hit that carries an identifier, in hit order.
pub open spec fn hover_events(hits: Seq<Option<NodeId>>) -> Seq<EventView>
    decreases hits.len(),
{
    if hits.len() == 0 {
        Seq::empty()
    } else {
        let rest = hover_events(hits.drop_last());
        match hits.last() {
            Some(id) => rest.push((EventKind::Hover, id@, Some((hits.len() - 1) as usize))),
            None => rest,
        }
    }
}

/// All events a dispatch decides, in order: the focus changes made by
/// `set_focus` since the last dispatch, the focus change of this frame's
/// left-button press, drag end or move, drag start, clicks, hovers.
pub open spec fn dispatch_events(
    m: DispatcherModel,
    input: InputModel,
    hits: Seq<Option<NodeId>>,
    moved: bool,
) -> Seq<EventView> {
    m.pending + focus_events(m.focused, press_focus(m, input, hits)) + drag_events(m.drag, input, moved) + start_events(m, input, hits) + click_events(
        m,
        input,
        hits,
    ) + hover_events(hits)
}

/// The dispatcher state after a dispatch.
pub open spec fn after_dispatch(m: DispatcherModel, input: InputModel, hits: Seq<Option<NodeId>>) -> DispatcherModel {
    let f = if input.just_pressed.contains(MouseButton::Left) {
        m.refocus(first_hit_id(hits))
    } else {
        m
    };
    DispatcherModel {
        hovered: hit_ids_view(hits),
        drag: drag_after(m, input, hits),
        pending: Seq::empty(),
        ..f
    }
}

/// The identifier of the drag target, if any.
pub open spec fn drag_target_of(d: Option<(MouseButton, Seq<char>)>) -> Option<Seq<char>> {
    match d {
        Some((_, t)) => Some(t),
        None => None,
    }
}

/// Laws of dispatch.
///
/// Focus moves only on a left-button press; without one, dispatch leaves
/// focus and cursor blinking as they were.
pub proof fn law_focus_moves_only_on_left_press(
    m: DispatcherModel,
    input: InputModel,
    hits: Seq<Option<NodeId>>,
)
    requires
        !input.just_pressed.contains(MouseButton::Left),
    ensures
        after_dispatch(m, input, hits).focused == m.focused,
        after_dispatch(m, input, hits).blink == m.blink,
{
}

/// A drag whose button is released ends with a drag-end event and no longer
/// holds its node; a drag whose button stays held keeps its node, and no new
/// drag starts.
pub proof fn law_drag_lifecycle(
    m: DispatcherModel,
    input: InputModel,
    hits: Seq<Option<NodeId>>,
    moved: bool,
    b: MouseButton,
    t: Seq<char>,
)
    requires
        m.drag == Some((b, t)),
    ensures
        input.just_released.contains(b) ==> drag_events(m.drag, input, moved) == seq![
            (EventKind::DragEnd(b), t, None::<usize>),
        ] && drag_after_release(m.drag, input) is None,
        !input.just_released.contains(b) ==> after_dispatch(m, input, hits).drag == m.drag
            && start_events(m, input, hits).len() == 0,
        !input.just_released.contains(b) && moved ==> drag_events(m.drag, input, moved) == seq![
            (EventKind::DragMove, t, None::<usize>),
        ],
{
}

/// The focus after a series of `set_focus` calls made from focus `start`.
pub open spec fn final_focus(start: Option<Seq<char>>, calls: Seq<Option<Seq<char>>>) -> Option<
    Seq<char>,
> {
    if calls.len() == 0 {
        start
    } else {
        calls.last()
    }
}

/// The Blur and Focus events of a series of `set_focus` calls made from
/// focus `start`: for each call, those of the change it makes, in order.
pub open spec fn focus_history(start: Option<Seq<char>>, calls: Seq<Option<Seq<char>>>) -> Seq<
    EventView,
>
    decreases calls.len(),
{
    if calls.len() == 0 {
        Seq::empty()
    } else {
        focus_history(start, calls.drop_last()) + focus_events(
            final_focus(start, calls.drop_last()),
            calls.last(),
        )
    }
}

/// The dispatcher state after a series of `set_focus` calls, in order.
pub open spec fn refocus_all(m: DispatcherModel, calls: Seq<Option<Seq<char>>>) -> DispatcherModel
    decreases calls.len(),
{
    if calls.len() == 0 {
        m
    } else {
        refocus_all(m, calls.drop_last()).refocus(calls.last())
    }
}

/// After a series of `set_focus` calls, the focus is the last one set and
/// the unreported focus changes are the earlier ones followed by those of
/// each call.
pub proof fn lemma_refocus_all(m: DispatcherModel, calls: Seq<Option<Seq<char>>>)
    ensures
        refocus_all(m, calls).focused == final_focus(m.focused, calls),
        refocus_all(m, calls).pending == m.pending + focus_history(m.focused, calls),
    decreases calls.len(),
{
    if calls.len() == 0 {
        assert(m.pending + Seq::<EventView>::empty() =~= m.pending);
    } else {
        lemma_refocus_all(m, calls.drop_last());
        let h = focus_history(m.focused, calls.drop_last());
        let e = focus_events(final_focus(m.focused, calls.drop_last()), calls.last());
        assert(m.pending + h + e =~= m.pending + (h + e));
    }
}

/// Every focus change made by `set_focus` is reported by the next dispatch:
/// for each call since the last dispatch, a Blur for the node that lost focus
/// and a Focus for the node that gained it, in the order of the calls and
/// before the change of a left-button press and any other event. The
/// dispatch after that has no focus change left to report.
pub proof fn law_set_focus_reported_by_next_dispatch(
    m: DispatcherModel,
    calls: Seq<Option<Seq<char>>>,
    input: InputModel,
    hits: Seq<Option<NodeId>>,
    moved: bool,
)
    ensures
        ({
            let n = refocus_all(m, calls);
            let reported = m.pending + focus_history(m.focused, calls);
            &&& dispatch_events(n, input, hits, moved).subrange(0, reported.len() as int)
                == reported
            &&& dispatch_events(n, input, hits, moved).subrange(
                reported.len() as int,
                (reported.len() + focus_events(n.focused, press_focus(n, input, hits)).len()) as int,
            ) == focus_events(final_focus(m.focused, calls), press_focus(n, input, hits))
            &&& after_dispatch(n, input, hits).pending.len() == 0
        }),
{
    lemma_refocus_all(m, calls);
    let n = refocus_all(m, calls);
    let reported = m.pending + focus_history(m.focused, calls);
    let f = focus_events(n.focused, press_focus(n, input, hits));
    let all = dispatch_events(n, input, hits, moved);
    assert(all =~= reported + (f + (drag_events(n.drag, input, moved) + start_events(n, input, hits)
        + click_events(n, input, hits) + hover_events(hits))));
    assert(all.subrange(0, reported.len() as int) =~= reported);
    assert(all.subrange(reported.len() as int, (reported.len() + f.len()) as int) =~= f);
}

/// Focus moving from `a` to `b` and back to `a` before a dispatch is reported
/// as both changes, in order.
pub proof fn law_focus_round_trip_is_reported(m: DispatcherModel, a: Seq<char>, b: Seq<char>)
    requires
        m.focused == Some(a),
        a != b,
    ensures
        m.refocus(Some(b)).refocus(Some(a)).pending == m.pending + seq![
            (EventKind::Blur, a, None::<usize>),
            (EventKind::Focus, b, None::<usize>),
            (EventKind::Blur, b, None::<usize>),
            (EventKind::Focus, a, None::<usize>),
        ],
{
    assert(m.refocus(Some(b)).refocus(Some(a)).pending =~= m.pending + seq![
        (EventKind::Blur, a, None::<usize>),
        (EventKind::Focus, b, None::<usize>),
        (EventKind::Blur, b, None::<usize>),
        (EventKind::Focus, a, None::<usize>),
    ]);
}

/// With no drag in progress, a left, right or middle button held down since
/// before this frame starts a drag when an identified node is under the
/// pointer: the first of left, right and middle that is held over drags the
/// topmost identified hit, the dispatch reports the drag's start there, and
/// the dispatcher keeps that button and node as its drag.
pub proof fn law_held_button_starts_drag(
    m: DispatcherModel,
    input: InputModel,
    hits: Seq<Option<NodeId>>,
    b: MouseButton,
    i: int,
)
    requires
        m.drag is None,
        b == MouseButton::Left || b == MouseButton::Right || b == MouseButton::Middle,
        input.pressed.contains(b),
        !input.just_pressed.contains(b),
        b != MouseButton::Left ==> !(input.pressed.contains(MouseButton::Left)
            && !input.just_pressed.contains(MouseButton::Left)),
        b == MouseButton::Middle ==> !(input.pressed.contains(MouseButton::Right)
            && !input.just_pressed.contains(MouseButton::Right)),
        0 <= i < hits.len(),
        hits[i] is Some,
        forall|j: int| i < j < hits.len() ==> hits[j] is None,
    ensures
        drag_button(input) == Some(b),
        drag_starts(drag_after_release(m.drag, input), input, hits),
        start_events(m, input, hits) == seq![
            (EventKind::DragStart(b), hits[i]->0@, Some(i as usize)),
        ],
        after_dispatch(m, input, hits).drag == Some((b, hits[i]->0@)),
        click_events(m, input, hits).len() == 0,
{
    lemma_topmost_hit(hits, i + 1);
    assert(topmost_hit(hits.subrange(0, i + 1)) == Some(i));
}

/// With no drag in progress and none of left, right and middle held down
/// since before this frame, no drag starts.
pub proof fn law_no_held_button_no_drag(m: DispatcherModel, input: InputModel, hits: Seq<
    Option<NodeId>,
>)
    requires
        m.drag is None,
        forall|b: MouseButton|
            (b == MouseButton::Left || b == MouseButton::Right || b == MouseButton::Middle)
                ==> !(input.pressed.contains(b) && !input.just_pressed.contains(b)),
    ensures
        drag_button(input) is None,
        start_events(m, input, hits).len() == 0,
        after_dispatch(m, input, hits).drag is None,
{
    assert(!(input.pressed.contains(MouseButton::Left) && !input.just_pressed.contains(MouseButton::Left)));
    assert(!(input.pressed.contains(MouseButton::Right) && !input.just_pressed.contains(MouseButton::Right)));
    assert(!(input.pressed.contains(MouseButton::Middle) && !input.just_pressed.contains(MouseButton::Middle)));
}

/// While a drag is in progress after drag handling, no button clicks.
pub proof fn law_no_click_while_dragging(m: DispatcherModel, input: InputModel, hits: Seq<Option<NodeId>>)
    requires
        drag_after(m, input, hits) is Some,
    ensures
        click_events(m, input, hits).len() == 0,
{
}

/// The hover events of a frame target exactly the identified hits, in order.
pub proof fn law_hover_targets_are_hits(hits: Seq<Option<NodeId>>)
    ensures
        hover_events(hits).map_values(|e: EventView| e.1) == hit_ids_view(hits),
        forall|i: int|
            0 <= i < hover_events(hits).len() ==> (#[trigger] hover_events(hits)[i]).0
                == EventKind::Hover,
    decreases hits.len(),
{
    if hits.len() > 0 {
        law_hover_targets_are_hits(hits.drop_last());
        assert(hover_events(hits).map_values(|e: EventView| e.1) =~= hit_ids_view(hits));
    } else {
        assert(hover_events(hits).map_values(|e: EventView| e.1) =~= hit_ids_view(hits));
    }
}

/// Whether `r` is the position of the first hit that carries an identifier
/// and whose node scrolls, or none when no hit is such.
pub open spec fn is_first_scrollable(
    hits: Seq<Option<NodeId>>,
    scrollable: Seq<bool>,
    r: Option<usize>,
) -> bool {
    match r {
        Some(i) => {
            &&& i < hits.len()
            &&& hits[i as int] is Some
            &&& scrollable[i as int]
            &&& forall|j: int| 0 <= j < i ==> !(#[trigger] hits[j] is Some && scrollable[j])
        },
        None => forall|j: int| 0 <= j < hits.len() ==> !(#[trigger] hits[j] is Some && scrollable[j]),
    }
}

/// Position of the first hit that carries an identifier and whose node
/// scrolls (`scrollable[i]` tells whether hit `i`'s node has scrolling
/// overflow): the node a wheel event scrolls.
pub fn first_scrollable(hits: &Vec<Option<NodeId>>, scrollable: &Vec<bool>) -> (r: Option<usize>)
    requires
        scrollable@.len() == hits@.len(),
    ensures
        is_first_scrollable(hits@, scrollable@, r),
{
    let n = hits.len();
    let mut i: usize = 0;
    while i < n
        invariant
            n == hits@.len(),
            n == scrollable@.len(),
            i <= n,
            forall|j: int| 0 <= j < i ==> !(hits@[j] is Some && scrollable@[j]),
        decreases n - i,
    {
        if hits[i].is_some() && scrollable[i] {
            return Some(i);
        }
        i = i + 1;
    }
    None
}

/// The first of left, right and middle button held over from before.
pub fn held_over_button(input: &InputState) -> (r: Option<MouseButton>)
    ensures
        r == drag_button(input@),
{
    if input.is_button_down(MouseButton::Left) && !input.is_button_just_pressed(MouseButton::Left) {
        Some(MouseButton::Left)
    } else if input.is_button_down(MouseButton::Right) && !input.is_button_just_pressed(
        MouseButton::Right,
    ) {
        Some(MouseButton::Right)
    } else if input.is_button_down(MouseButton::Middle) && !input.is_button_just_pressed(
        MouseButton::Middle,
    ) {
        Some(MouseButton::Middle)
    } else {
        None
    }
}

/// Cursor blink state of the focused node.
#[derive(Debug, Clone, Copy)]
struct CursorBlinkState {
    /// When the cursor last blinked
    last_blink: Instant,
    /// Whether the cursor is currently visible
    visible: bool,
}

/// What an event dispatcher holds, as mathematical values.
pub struct DispatcherModel {
    /// The focused node, if any
    pub focused: Option<Seq<char>>,
    /// Cursor visibility per node with a blinking cursor
    pub blink: Map<Seq<char>, bool>,
    /// Nodes under the pointer, topmost last
    pub hovered: Seq<Seq<char>>,
    /// The drag in progress: the button that drags and the dragged node
    pub drag: Option<(MouseButton, Seq<char>)>,
    /// The focus changes made by `set_focus` since the last dispatch, as
    /// Blur and Focus events in the order they happened
    pub pending: Seq<EventView>,
}

impl DispatcherModel {
    /// The state after focus moves to `new_focus`: a node that loses focus
    /// loses its cursor blink state, a node that gains focus starts with a
    /// visible cursor, the Blur and Focus events of the change wait for the
    /// next dispatch, and keeping focus on the same node changes nothing.
    pub open spec fn refocus(self, new_focus: Option<Seq<char>>) -> DispatcherModel {
        let m1 = match self.focused {
            Some(o) => if new_focus != Some(o) {
                self.blink.remove(o)
            } else {
                self.blink
            },
            None => self.blink,
        };
        let m2 = match new_focus {
            Some(n) => if self.focused != Some(n) {
                m1.insert(n, true)
            } else {
                m1
            },
            None => m1,
        };
        DispatcherModel {
            focused: new_focus,
            blink: m2,
            pending: self.pending + focus_events(self.focused, new_focus),
            ..self
        }
    }
}

/// Focusing the node that already has focus changes nothing.
pub proof fn law_refocus_same_is_noop(m: DispatcherModel)
    ensures
        m.refocus(m.focused) == m,
{
    assert(m.refocus(m.focused).blink =~= m.blink);
    assert(m.refocus(m.focused).pending =~= m.pending);
}

/// A node that gains focus shows its cursor; the node that lost focus no
/// longer has a blinking cursor; dropping focus drops the cursor.
pub proof fn law_focus_moves_cursor(m: DispatcherModel, n: Seq<char>)
    ensures
        m.focused != Some(n) ==> m.refocus(Some(n)).blink.contains_key(n) && m.refocus(
            Some(n),
        ).blink[n],
        forall|o: Seq<char>|
            m.focused == Some(o) && o != n ==> !#[trigger] m.refocus(Some(n)).blink.contains_key(o),
        forall|o: Seq<char>| m.focused == Some(o) ==> !#[trigger] m.refocus(None).blink.contains_key(o),
        m.refocus(Some(n)).focused == Some(n),
        m.refocus(None).focused is None,
{
}

/// With a blink interval of zero the cursor flips on every update; before
/// the interval has passed it keeps its visibility.
pub proof fn law_blink_interval(visible: bool, elapsed_ms: u64, rate_ms: u64)
    ensures
        blink_after(visible, elapsed_ms, 0) == !visible,
        elapsed_ms < rate_ms ==> blink_after(visible, elapsed_ms, rate_ms) == visible,
        elapsed_ms >= rate_ms ==> blink_after(visible, elapsed_ms, rate_ms) == !visible,
{
}

/// The identifiers carried by a hit list, in order, skipping hits without one.
pub open spec fn hit_ids_view(hits: Seq<Option<NodeId>>) -> Seq<Seq<char>> {
    hits.filter_map(|h: Option<NodeId>| opt_id_view(h))
}

/// The first identifier of a hit list, if any hit carries one.
pub open spec fn first_hit_id(hits: Seq<Option<NodeId>>) -> Option<Seq<char>>
    decreases hits.len(),
{
    if hits.len() == 0 {
        None
    } else {
        match hits[0] {
            Some(id) => Some(id@),
            None => first_hit_id(hits.drop_first()),
        }
    }
}

/// Focus and cursor-blink tracking across frames.
///
/// A blinking cursor belongs to the focused node: gaining focus starts it
/// visible, losing focus drops it.
#[derive(Debug)]
pub struct EventDispatcher {
    /// Currently hovered node IDs
    hovered_nodes: Vec<NodeId>,
    /// Currently focused node ID, if any
    focused_node: Option<NodeId>,
    /// Cursor blink state of the focused node
    cursor_blink: Option<CursorBlinkState>,
    /// The drag in progress, if any
    drag: Option<DragTarget>,
    /// Blur and Focus events of the focus changes not yet reported
    pending_focus: Vec<DispatchedEvent>,
}

/// A drag in progress: which button drags which node.
#[derive(Debug)]
struct DragTarget {
    button: MouseButton,
    target: NodeId,
}

/// The identifiers the hits carry, in hit order.
pub fn hit_ids(hits: &Vec<Option<NodeId>>) -> (r: Vec<NodeId>)
    ensures
        r@.map_values(|x: NodeId| x@) == hit_ids_view(hits@),
{
    let mut ids: Vec<NodeId> = Vec::new();
    let n = hits.len();
    let mut i: usize = 0;
    while i < n
        invariant
            n == hits@.len(),
            i <= n,
            ids@.map_values(|x: NodeId| x@) == hit_ids_view(hits@.take(i as int)),
        decreases n - i,
    {
        match &hits[i] {
            Some(id) => {
                ids.push(id.clone());
            },
            None => {},
        }
        proof {
            let t = hits@.take(i + 1);
            assert(t.drop_last() =~= hits@.take(i as int));
            assert(t.last() == hits@[i as int]);
            assert(ids@.map_values(|x: NodeId| x@) =~= hit_ids_view(t));
        }
        i = i + 1;
    }
    proof {
        assert(hits@.take(n as int) =~= hits@);
    }
    ids
}

/// A copy of an optional node identifier.
pub(crate) fn copy_opt_id(o: &Option<NodeId>) -> (r: Option<NodeId>)
    ensures
        opt_id_view(r) == opt_id_view(*o),
{
    match o {
        Some(n) => Some(n.clone()),
        None => None,
    }
}

/// A copy of a drag target.
fn copy_drag(d: &DragTarget) -> (r: DragTarget)
    ensures
        r.button == d.button,
        r.target@ == d.target@,
{
    DragTarget { button: d.button, target: d.target.clone() }
}

impl View for EventDispatcher {
    type V = DispatcherModel;

    closed spec fn view(&self) -> DispatcherModel {
        DispatcherModel {
            focused: opt_id_view(self.focused_node),
            blink: match (self.focused_node, self.cursor_blink) {
                (Some(f), Some(b)) => Map::empty().insert(f@, b.visible),
                _ => Map::empty(),
            },
            hovered: self.hovered_nodes@.map_values(|n: NodeId| n@),
            drag: match self.drag {
                Some(d) => Some((d.button, d.target@)),
                None => None,
            },
            pending: events_view(self.pending_focus@),
        }
    }
}

impl EventDispatcher {
    /// Create a new event dispatcher
    pub fn new() -> (r: Self)
        ensures
            r@.focused is None,
            r@.blink == Map::<Seq<char>, bool>::empty(),
            r@.hovered == Seq::<Seq<char>>::empty(),
            r@.drag is None,
            r@.pending == Seq::<EventView>::empty(),
    {
        let r = Self {
            hovered_nodes: Vec::new(),
            focused_node: None,
            cursor_blink: None,
            drag: None,
            pending_focus: Vec::new(),
        };
        assert(r@.hovered =~= Seq::<Seq<char>>::empty());
        assert(r@.pending =~= Seq::<EventView>::empty());
        r
    }

    /// Get the currently focused node ID, if any
    pub fn focused_node(&self) -> (r: Option<&NodeId>)
        ensures
            match r {
                Some(n) => self@.focused == Some(n@),
                None => self@.focused is None,
            },
    {
        match &self.focused_node {
            Some(n) => Some(n),
            None => None,
        }
    }

    /// Whether the focused node is `id`.
    fn is_focused_on(&self, id: &NodeId) -> (r: bool)
        ensures
            r == (self@.focused == Some(id@)),
    {
        match &self.focused_node {
            Some(f) => *f == *id,
            None => false,
        }
    }

    /// Set the focused node.
    ///
    /// The next dispatch reports a Blur for the node that lost focus and a
    /// Focus for the node that gained it, for every call that changes focus,
    /// in order. The previously focused node, if it
    /// loses focus, loses its cursor blink state; a node that gains focus
    /// starts with a visible cursor.
    pub fn set_focus(&mut self, node_id: Option<NodeId>)
        ensures
            final(self)@ == old(self)@.refocus(opt_id_view(node_id)),
    {
        let ghost old_view = self@;
        let same = match (&self.focused_node, &node_id) {
            (Some(a), Some(b)) => *a == *b,
            (None, None) => true,
            _ => false,
        };
        if !same {
            match &self.focused_node {
                Some(o) => {
                    self.pending_focus.push(
                        DispatchedEvent { kind: EventKind::Blur, target: o.clone(), hit: None },
                    );
                },
                None => {},
            }
            match &node_id {
                Some(n) => {
                    self.pending_focus.push(
                        DispatchedEvent { kind: EventKind::Focus, target: n.clone(), hit: None },
                    );
                },
                None => {},
            }
            assert(self@.pending =~= old_view.pending + focus_events(
                old_view.focused,
                opt_id_view(node_id),
            ));
            let blink = match node_id {
                Some(_) => Some(CursorBlinkState { last_blink: instant_now(), visible: true }),
                None => None,
            };
            self.focused_node = node_id;
            self.cursor_blink = blink;
            proof {
                assert(self@.hovered == old_view.hovered);
                assert(self@.blink =~= (match node_id {
                    Some(n) => Map::<Seq<char>, bool>::empty().insert(n@, true),
                    None => Map::<Seq<char>, bool>::empty(),
                }));
                match old_view.focused {
                    Some(o) => {
                        assert(old_view.blink.remove(o) =~= Map::<Seq<char>, bool>::empty());
                    },
                    None => {},
                }
            }
        } else {
            self.focused_node = node_id;
            assert(old_view.pending + focus_events(old_view.focused, opt_id_view(node_id))
                =~= old_view.pending);
        }
        assert(self@.blink =~= old_view.refocus(opt_id_view(node_id)).blink);
    }

    /// End or move the drag in progress, appending its event.
    fn drag_phase(&mut self, input: &InputState, drag_moved: bool, events: &mut Vec<DispatchedEvent>)
        ensures
            events_view(final(events)@) == events_view(old(events)@) + drag_events(
                old(self)@.drag,
                input@,
                drag_moved,
            ),
            final(self)@ == (DispatcherModel {
                drag: drag_after_release(old(self)@.drag, input@),
                ..old(self)@
            }),
    {
        let ghost prev = events@;
        let current = match &self.drag {
            Some(d) => Some(copy_drag(d)),
            None => None,
        };
        match current {
            Some(d) => {
                if input.is_button_just_released(d.button) {
                    events.push(
                        DispatchedEvent { kind: EventKind::DragEnd(d.button), target: d.target, hit: None },
                    );
                    self.drag = None;
                } else if drag_moved {
                    events.push(
                        DispatchedEvent { kind: EventKind::DragMove, target: d.target, hit: None },
                    );
                }
            },
            None => {},
        }
        assert(events_view(events@) =~= events_view(prev) + drag_events(
            old(self)@.drag,
            input@,
            drag_moved,
        ));
    }

    /// Start a drag on the topmost identified hit when no drag is in progress
    /// and a button is held over from before, appending its event.
    fn start_phase(
        &mut self,
        input: &InputState,
        hits: &Vec<Option<NodeId>>,
        top: Option<usize>,
        events: &mut Vec<DispatchedEvent>,
    ) -> (started: bool)
        requires
            match top {
                Some(i) => topmost_hit(hits@) == Some(i as int),
                None => topmost_hit(hits@) is None,
            },
            top matches Some(i) ==> i < hits@.len() && hits@[i as int] is Some,
        ensures
            started == drag_starts(old(self)@.drag, input@, hits@),
            events_view(final(events)@) == events_view(old(events)@) + (if started {
                let i = topmost_hit(hits@)->0;
                seq![(EventKind::DragStart(drag_button(input@)->0), hits@[i]->0@, Some(i as usize))]
            } else {
                Seq::<EventView>::empty()
            }),
            final(self)@ == (DispatcherModel {
                drag: if started {
                    Some((drag_button(input@)->0, hits@[topmost_hit(hits@)->0]->0@))
                } else {
                    old(self)@.drag
                },
                ..old(self)@
            }),
    {
        let ghost prev = events@;
        if self.drag.is_none() {
            match (held_over_button(input), top) {
                (Some(b), Some(i)) => {
                    let id = hits[i].clone().unwrap();
                    self.drag = Some(DragTarget { button: b, target: id.clone() });
                    events.push(
                        DispatchedEvent { kind: EventKind::DragStart(b), target: id, hit: Some(i) },
                    );
                    assert(events_view(events@) =~= events_view(prev).push(
                        (EventKind::DragStart(b), hits@[i as int]->0@, Some(i)),
                    ));
                    return true;
                },
                _ => {},
            }
        }
        assert(events_view(events@) =~= events_view(prev) + Seq::<EventView>::empty());
        false
    }

    /// With no drag in progress, each released button clicks the topmost
    /// identified hit; appends those clicks.
    fn click_phase(
        &self,
        input: &InputState,
        hits: &Vec<Option<NodeId>>,
        top: Option<usize>,
        events: &mut Vec<DispatchedEvent>,
    )
        requires
            match top {
                Some(i) => topmost_hit(hits@) == Some(i as int),
                None => topmost_hit(hits@) is None,
            },
            top matches Some(i) ==> i < hits@.len() && hits@[i as int] is Some,
        ensures
            events_view(final(events)@) == events_view(old(events)@) + (if self@.drag is None
                && topmost_hit(hits@) is Some {
                let i = topmost_hit(hits@)->0;
                let t = hits@[i]->0@;
                let c = |b: MouseButton|
                    if input@.just_released.contains(b) {
                        seq![(EventKind::Click(b), t, Some(i as usize))]
                    } else {
                        Seq::<EventView>::empty()
                    };
                c(MouseButton::Left) + c(MouseButton::Right) + c(MouseButton::Middle)
            } else {
                Seq::<EventView>::empty()
            }),
    {
        let ghost prev = events@;
        if self.drag.is_none() {
            match top {
                Some(i) => {
                    let id = hits[i].clone().unwrap();
                    let ghost t = id@;
                    let ghost c = |b: MouseButton|
                        if input@.just_released.contains(b) {
                            seq![(EventKind::Click(b), t, Some(i))]
                        } else {
                            Seq::<EventView>::empty()
                        };
                    if input.is_button_just_released(MouseButton::Left) {
                        events.push(
                            DispatchedEvent {
                                kind: EventKind::Click(MouseButton::Left),
                                target: id.clone(),
                                hit: Some(i),
                            },
                        );
                    }
                    assert(events_view(events@) =~= events_view(prev) + c(MouseButton::Left));
                    let ghost p2 = events@;
                    if input.is_button_just_released(MouseButton::Right) {
                        events.push(
                            DispatchedEvent {
                                kind: EventKind::Click(MouseButton::Right),
                                target: id.clone(),
                                hit: Some(i),
                            },
                        );
                    }
                    assert(events_view(events@) =~= events_view(p2) + c(MouseButton::Right));
                    let ghost p3 = events@;
                    if input.is_button_just_released(MouseButton::Middle) {
                        events.push(
                            DispatchedEvent {
                                kind: EventKind::Click(MouseButton::Middle),
                                target: id,
                                hit: Some(i),
                            },
                        );
                    }
                    assert(events_view(events@) =~= events_view(p3) + c(MouseButton::Middle));
                    assert(events_view(events@) =~= events_view(prev) + (c(MouseButton::Left) + c(
                        MouseButton::Right,
                    ) + c(MouseButton::Middle)));
                    return ;
                },
                None => {},
            }
        }
        assert(events_view(events@) =~= events_view(prev) + Seq::<EventView>::empty());
    }

    /// Append a hover for every identified hit, in hit order.
    fn hover_phase(hits: &Vec<Option<NodeId>>, events: &mut Vec<DispatchedEvent>)
        ensures
            events_view(final(events)@) == events_view(old(events)@) + hover_events(hits@),
    {
        let ghost before_hovers = events_view(events@);
        let n = hits.len();
        let mut k: usize = 0;
        assert(hover_events(hits@.take(0)) =~= Seq::<EventView>::empty());
        assert(events_view(events@) =~= before_hovers + hover_events(hits@.take(0)));
        while k < n
            invariant
                n == hits@.len(),
                k <= n,
                events_view(events@) == before_hovers + hover_events(hits@.take(k as int)),
            decreases n - k,
        {
            let ghost prev = events@;
            proof {
                let t = hits@.take(k + 1);
                assert(t.drop_last() =~= hits@.take(k as int));
                assert(t.last() == hits@[k as int]);
            }
            match &hits[k] {
                Some(id) => {
                    let e = DispatchedEvent { kind: EventKind::Hover, target: id.clone(), hit: Some(k) };
                    events.push(e);
                    proof {
                        let t = hits@.take(k + 1);
                        assert(hover_events(t) == hover_events(hits@.take(k as int)).push(
                            (EventKind::Hover, id@, Some(k)),
                        ));
                        assert(events_view(events@) =~= events_view(prev).push(
                            (EventKind::Hover, id@, Some(k)),
                        ));
                    }
                },
                None => {
                    proof {
                        let t = hits@.take(k + 1);
                        assert(hover_events(t) == hover_events(hits@.take(k as int)));
                    }
                },
            }
            proof {
                let t = hits@.take(k + 1);
                assert(events_view(events@) =~= before_hovers + hover_events(t));
            }
            k = k + 1;
        }
        assert(hits@.take(n as int) =~= hits@);
    }

    /// Decide the interactions of a frame from the input state and the nodes
    /// under the pointer (`hits`, in hit-test order), and update focus, the
    /// drag in progress and the hovered nodes accordingly.
    ///
    /// `drag_moved` tells whether the pointer moved since the last frame
    /// while dragging. A left-button press moves focus to the first hit with
    /// an identifier; a drag ends when its button is released, and otherwise
    /// reports a move when the pointer moved; with no drag in progress, a
    /// button held over from before starts one on the topmost identified hit;
    /// with still no drag, each released button clicks the topmost identified
    /// hit; every identified hit is hovered.
    pub fn dispatch(&mut self, input: &InputState, hits: &Vec<Option<NodeId>>, drag_moved: bool) -> (r: DispatchOutcome)
        ensures
            events_view(r.events@) == dispatch_events(old(self)@, input@, hits@, drag_moved),
            final(self)@ == after_dispatch(old(self)@, input@, hits@),
            opt_id_view(r.active) == drag_target_of(old(self)@.drag),
            opt_id_view(r.dragging) == drag_target_of(final(self)@.drag),
            r.drag_started == drag_starts(drag_after_release(old(self)@.drag, input@), input@, hits@),
    {
        let ghost m = self@;
        let ghost im = input@;
        if input.is_button_just_pressed(MouseButton::Left) {
            self.set_focus(first_identified(hits));
        } else {
            assert(m.pending + focus_events(m.focused, m.focused) =~= m.pending);
        }
        let mut events: Vec<DispatchedEvent> = Vec::new();
        std::mem::swap(&mut events, &mut self.pending_focus);
        assert(events_view(events@) =~= m.pending + focus_events(m.focused, press_focus(m, im, hits@)));
        assert(self@.pending =~= Seq::<EventView>::empty());
        let ghost part1 = events_view(events@);
        let active = match &self.drag {
            Some(d) => Some(d.target.clone()),
            None => None,
        };
        self.drag_phase(input, drag_moved, &mut events);
        let top = topmost_identified(hits);
        let drag_started = self.start_phase(input, hits, top, &mut events);
        self.click_phase(input, hits, top, &mut events);
        Self::hover_phase(hits, &mut events);
        assert(events_view(events@) =~= dispatch_events(m, im, hits@, drag_moved));
        self.update_hovered(hits);
        let dragging = match &self.drag {
            Some(d) => Some(d.target.clone()),
            None => None,
        };
        DispatchOutcome { events, active, dragging, drag_started }
    }

    /// Record the nodes under the pointer: the hits that carry an identifier, in order.
    pub fn update_hovered(&mut self, hits: &Vec<Option<NodeId>>)
        ensures
            final(self)@ == (DispatcherModel { hovered: hit_ids_view(hits@), ..old(self)@ }),
    {
        self.hovered_nodes = hit_ids(hits);
    }

    /// Forget the nodes under the pointer (the pointer left the window).
    pub fn clear_hovered(&mut self)
        ensures
            final(self)@ == (DispatcherModel { hovered: Seq::<Seq<char>>::empty(), ..old(self)@ }),
    {
        self.hovered_nodes = Vec::new();
        assert(self@.hovered =~= Seq::<Seq<char>>::empty());
    }

    /// Update cursor blink state for a node.
    ///
    /// Call this each frame to update the cursor visibility: once
    /// `blink_rate_ms` milliseconds have passed since the last blink, the
    /// cursor flips. Returns the current visibility; a node without a
    /// blinking cursor reports a visible one. The time passed is read from
    /// the clock; `advance_cursor_blink` says what happens for each value.
    pub fn update_cursor_blink(&mut self, node_id: &NodeId, blink_rate_ms: u64) -> (r: bool)
        ensures
            final(self)@.focused == old(self)@.focused,
            final(self)@.hovered == old(self)@.hovered,
            final(self)@.drag == old(self)@.drag,
            final(self)@.pending == old(self)@.pending,
            !old(self)@.blink.contains_key(node_id@) ==> r && final(self)@.blink == old(
                self,
            )@.blink,
            old(self)@.blink.contains_key(node_id@) ==> {
                &&& exists|elapsed_ms: u64|
                    r == blink_after(#[trigger] old(self)@.blink[node_id@], elapsed_ms, blink_rate_ms)
                &&& final(self)@.blink == old(self)@.blink.insert(node_id@, r)
            },
    {
        if self.is_focused_on(node_id) {
            match self.cursor_blink {
                Some(state) => {
                    let elapsed = time_since(&state.last_blink);
                    let elapsed_ms = #[verifier::truncate] (whole_millis(&elapsed) as u64);
                    self.advance_cursor_blink(node_id, elapsed_ms, blink_rate_ms)
                },
                None => true,
            }
        } else {
            true
        }
    }

    /// Advance the cursor blink of a node by `elapsed_ms` milliseconds since
    /// its last blink: once `blink_rate_ms` milliseconds have passed the
    /// cursor flips and its blink timer restarts. Returns the current
    /// visibility; a node without a blinking cursor reports a visible one.
    pub fn advance_cursor_blink(&mut self, node_id: &NodeId, elapsed_ms: u64, blink_rate_ms: u64) -> (r: bool)
        ensures
            final(self)@.focused == old(self)@.focused,
            final(self)@.hovered == old(self)@.hovered,
            final(self)@.drag == old(self)@.drag,
            final(self)@.pending == old(self)@.pending,
            r == if old(self)@.blink.contains_key(node_id@) {
                blink_after(old(self)@.blink[node_id@], elapsed_ms, blink_rate_ms)
            } else {
                true
            },
            final(self)@.blink == if old(self)@.blink.contains_key(node_id@) {
                old(self)@.blink.insert(node_id@, r)
            } else {
                old(self)@.blink
            },
    {
        if self.is_focused_on(node_id) {
            match self.cursor_blink {
                Some(state) => {
                    let visible = blink_visibility(state.visible, elapsed_ms, blink_rate_ms);
                    if elapsed_ms >= blink_rate_ms {
                        self.cursor_blink = Some(
                            CursorBlinkState { last_blink: instant_now(), visible },
                        );
                    }
                    proof {
                        assert(self@.blink =~= old(self)@.blink.insert(node_id@, visible));
                    }
                    visible
                },
                None => true,
            }
        } else {
            true
        }
    }

    /// Reset cursor blink to visible (call when text changes)
    pub fn reset_cursor_blink(&mut self, node_id: &NodeId)
        ensures
            final(self)@.focused == old(self)@.focused,
            final(self)@.hovered == old(self)@.hovered,
            final(self)@.drag == old(self)@.drag,
            final(self)@.blink == if old(self)@.blink.contains_key(node_id@) {
                old(self)@.blink.insert(node_id@, true)
            } else {
                old(self)@.blink
            },
    {
        if self.is_focused_on(node_id) {
            if self.cursor_blink.is_some() {
                self.cursor_blink = Some(CursorBlinkState { last_blink: instant_now(), visible: true });
                proof {
                    assert(self@.blink =~= old(self)@.blink.insert(node_id@, true));
                }
            }
        }
    }

    /// Check if the cursor should be visible for a node
    pub fn is_cursor_visible(&self, node_id: &NodeId) -> (r: bool)
        ensures
            r == if self@.blink.contains_key(node_id@) {
                self@.blink[node_id@]
            } else {
                true
            },
    {
        if self.is_focused_on(node_id) {
            match self.cursor_blink {
                Some(state) => state.visible,
                None => true,
            }
        } else {
            true
        }
    }
}

impl Default for EventDispatcher {
    fn default() -> (r: Self)
        ensures
            r@.focused is None,
            r@.blink == Map::<Seq<char>, bool>::empty(),
            r@.hovered == Seq::<Seq<char>>::empty(),
            r@.drag is None,
            r@.pending == Seq::<EventView>::empty(),
    {
        Self::new()
    }
}

} // verus!
