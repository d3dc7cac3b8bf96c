//! Widget memory: per-widget internal state that persists across frames.
//!
//! Every stored state is one of the widget state kinds of this module
//! (text input, slider, collapsible, toggle); a lookup asks for a kind and
//! only answers when the stored state is of that kind.
use vstd::prelude::*;
use vstd::utf8::{encode_utf8, is_char_boundary};

verus! {

/// Unique identifier for widget state storage.
///
/// This is typically derived from the widget's ID and type.
#[derive(Debug, Clone, Eq, Hash)]
pub struct WidgetStateId(String);

impl View for WidgetStateId {
    type V = Seq<char>;

    closed spec fn view(&self) -> Seq<char> {
        self.0@
    }
}

impl WidgetStateId {
    /// Create a new widget state ID
    pub fn new(id: &str) -> (r: Self)
        ensures
            r@ == id@,
    {
        WidgetStateId(id.to_owned())
    }

    /// Create a widget state ID with a type suffix: `"{id}_{suffix}"`.
    ///
    /// This is useful when a single widget needs to store multiple types of state.
    pub fn with_suffix(id: &str, suffix: &str) -> (r: Self)
        ensures
            r@ == id@ + seq!['_'] + suffix@,
    {
        let mut s = id.to_owned();
        s.append("_");
        proof {
            reveal_strlit("_");
        }
        s.append(suffix);
        WidgetStateId(s)
    }

    /// The identifier as a string slice.
    pub fn as_str(&self) -> (r: &str)
        ensures
            r@ == self@,
    {
        self.0.as_str()
    }
}

impl PartialEq for WidgetStateId {
    fn eq(&self, other: &Self) -> (r: bool) {
        self.0 == other.0
    }
}

impl vstd::std_specs::cmp::PartialEqSpecImpl for WidgetStateId {
    open spec fn obeys_eq_spec() -> bool {
        true
    }

    open spec fn eq_spec(&self, other: &WidgetStateId) -> bool {
        self@ == other@
    }
}

impl From<&str> for WidgetStateId {
    fn from(s: &str) -> (r: Self)
        ensures
            r@ == s@,
    {
        Self::new(s)
    }
}

impl vstd::std_specs::convert::FromSpecImpl<&str> for WidgetStateId {
    open spec fn obeys_from_spec() -> bool {
        false
    }

    closed spec fn from_spec(v: &str) -> WidgetStateId {
        choose|w: WidgetStateId| w@ == v@
    }
}

impl From<String> for WidgetStateId {
    fn from(s: String) -> (r: Self)
        ensures
            r@ == s@,
    {
        WidgetStateId(s)
    }
}

impl vstd::std_specs::convert::FromSpecImpl<String> for WidgetStateId {
    open spec fn obeys_from_spec() -> bool {
        true
    }

    closed spec fn from_spec(v: String) -> WidgetStateId {
        WidgetStateId(v)
    }
}

/// Number of UTF-8 bytes of a text.
pub open spec fn byte_len(s: Seq<char>) -> usize {
    encode_utf8(s).len() as usize
}

/// State for a text input widget
#[derive(Debug, Clone)]
pub struct TextInputState {
    /// The text content
    pub text: String,
    /// Cursor position (byte offset)
    pub cursor_pos: usize,
    /// Selection range (start, end) in byte offsets, if any
    pub selection: Option<(usize, usize)>,
    /// Whether the widget is focused
    pub focused: bool,
}

impl TextInputState {
    /// A selection that `selected_text` can cut out of the text: ordered and
    /// on character boundaries of the text's UTF-8 encoding.
    pub open spec fn selection_in_bounds(&self) -> bool {
        match self.selection {
            Some((start, end)) => {
                &&& start <= end
                &&& is_char_boundary(encode_utf8(self.text@), start as int)
                &&& is_char_boundary(encode_utf8(self.text@), end as int)
            },
            None => true,
        }
    }

    /// Create new text input state with initial text; the cursor goes to the end.
    pub fn new(text: &str) -> (r: Self)
        ensures
            r.text@ == text@,
            r.cursor_pos == byte_len(text@),
            r.selection is None,
            !r.focused,
    {
        let cursor_pos = text.len();
        Self { text: text.to_owned(), cursor_pos, selection: None, focused: false }
    }

    /// Get the selected text, if any
    pub fn selected_text(&self) -> (r: Option<&str>)
        requires
            self.selection_in_bounds(),
        ensures
            r is Some <==> self.selection is Some,
            r matches Some(t) ==> (self.selection matches Some((start, end)) && encode_utf8(t@)
                == encode_utf8(self.text@).subrange(start as int, end as int)),
    {
        match self.selection {
            Some((start, end)) => {
                let whole = self.text.as_str();
                let ghost bytes = encode_utf8(whole@);
                let (head, _tail) = whole.split_at(end);
                proof {
                    let hb = encode_utf8(head@);
                    assert(hb =~= bytes.subrange(0, end as int));
                    vstd::utf8::encode_utf8_valid_utf8(head@);
                    vstd::utf8::encode_utf8_valid_utf8(whole@);
                    vstd::utf8::is_char_boundary_start_end_of_seq(hb);
                    if 0 < start < end {
                        assert(hb[start as int] == bytes[start as int]);
                        vstd::utf8::is_char_boundary_iff_not_is_continuation_byte(hb, start as int);
                        vstd::utf8::is_char_boundary_iff_not_is_continuation_byte(
                            bytes,
                            start as int,
                        );
                    }
                }
                let (_before, sel) = head.split_at(start);
                proof {
                    let hb = encode_utf8(head@);
                    assert(encode_utf8(sel@) =~= bytes.subrange(start as int, end as int));
                }
                Some(sel)
            },
            None => None,
        }
    }

    /// Clear the selection
    pub fn clear_selection(&mut self)
        ensures
            *final(self) == (TextInputState { selection: None, ..*old(self) }),
    {
        self.selection = None;
    }

    /// Set cursor position, clamping to the text's byte length
    pub fn set_cursor_pos(&mut self, pos: usize)
        ensures
            final(self).cursor_pos == if pos <= byte_len(old(self).text@) {
                pos
            } else {
                byte_len(old(self).text@)
            },
            final(self).text == old(self).text,
            final(self).selection == old(self).selection,
            final(self).focused == old(self).focused,
    {
        let len = self.text.as_str().len();
        self.cursor_pos = if pos <= len {
            pos
        } else {
            len
        };
    }
}

impl Default for TextInputState {
    fn default() -> (r: Self)
        ensures
            r.text@ == Seq::<char>::empty(),
            r.cursor_pos == 0,
            r.selection is None,
            !r.focused,
    {
        Self { text: String::new(), cursor_pos: 0, selection: None, focused: false }
    }
}

/// State for a drag value widget.
///
/// The drag accumulator is a floating-point number. The library only stores
/// it, so it holds the number's bit pattern (`f32::to_bits`).
#[derive(Debug, Clone)]
pub struct DragValueState {
    /// Text input state (for when in text input mode)
    pub text_input: TextInputState,
    /// Bit pattern of the continuous accumulator for drag movements
    pub drag_accumulator_bits: u32,
    /// Whether currently in text input mode
    pub text_mode: bool,
}

impl DragValueState {
    /// Create new drag value state with the initial value's bit pattern
    pub fn new(value_bits: u32) -> (r: Self)
        ensures
            TextInputState::is_default(r.text_input),
            r.drag_accumulator_bits == value_bits,
            !r.text_mode,
    {
        Self { text_input: TextInputState::default(), drag_accumulator_bits: value_bits, text_mode: false }
    }

    /// Enter text input mode showing `text`, the current value as text: the
    /// text input holds it with the cursor at its end, no selection, and focus.
    pub fn enter_text_mode(&mut self, text: &str)
        ensures
            final(self).text_mode,
            final(self).text_input.text@ == text@,
            final(self).text_input.cursor_pos == byte_len(text@),
            final(self).text_input.selection is None,
            final(self).text_input.focused,
            final(self).drag_accumulator_bits == old(self).drag_accumulator_bits,
    {
        self.text_mode = true;
        self.text_input.text = text.to_owned();
        self.text_input.cursor_pos = text.len();
        self.text_input.selection = None;
        self.text_input.focused = true;
    }

    /// Exit text input mode
    pub fn exit_text_mode(&mut self)
        ensures
            *final(self) == (DragValueState {
                text_mode: false,
                text_input: TextInputState { focused: false, ..old(self).text_input },
                ..*old(self)
            }),
    {
        self.text_mode = false;
        self.text_input.focused = false;
    }
}

impl Default for DragValueState {
    fn default() -> (r: Self)
        ensures
            TextInputState::is_default(r.text_input),
            r.drag_accumulator_bits == 0,
            !r.text_mode,
    {
        Self::new(0)
    }
}

/// State for a slider widget
#[derive(Debug, Clone)]
pub struct SliderState {
    /// Whether the slider is currently being dragged
    pub dragging: bool,
}

impl Default for SliderState {
    fn default() -> (r: Self)
        ensures
            !r.dragging,
    {
        Self { dragging: false }
    }
}

/// State for a collapsible widget
#[derive(Debug, Clone)]
pub struct CollapsibleState {
    /// Whether the collapsible is expanded
    pub expanded: bool,
}

impl Default for CollapsibleState {
    fn default() -> (r: Self)
        ensures
            r.expanded,
    {
        Self { expanded: true }
    }
}

impl CollapsibleState {
    /// Create new collapsible state
    pub fn new(expanded: bool) -> (r: Self)
        ensures
            r.expanded == expanded,
    {
        Self { expanded }
    }

    /// The state with the flag flipped.
    pub open spec fn toggled(self) -> Self {
        CollapsibleState { expanded: !self.expanded }
    }

    /// Toggle the expanded state
    pub fn toggle(&mut self)
        ensures
            *final(self) == old(self).toggled(),
    {
        self.expanded = !self.expanded;
    }
}

/// State for a toggle/checkbox widget
#[derive(Debug, Clone)]
pub struct ToggleState {
    /// Whether the toggle is on/checked
    pub checked: bool,
}

impl Default for ToggleState {
    fn default() -> (r: Self)
        ensures
            !r.checked,
    {
        Self { checked: false }
    }
}

impl ToggleState {
    /// Create new toggle state
    pub fn new(checked: bool) -> (r: Self)
        ensures
            r.checked == checked,
    {
        Self { checked }
    }

    /// The state with the flag flipped.
    pub open spec fn toggled(self) -> Self {
        ToggleState { checked: !self.checked }
    }

    /// Toggle the checked state
    pub fn toggle(&mut self)
        ensures
            *final(self) == old(self).toggled(),
    {
        self.checked = !self.checked;
    }
}

/// One stored widget state, tagged with its kind.
#[derive(Debug, Clone)]
pub enum WidgetState {
    TextInput(TextInputState),
    DragValue(DragValueState),
    Slider(SliderState),
    Collapsible(CollapsibleState),
    Toggle(ToggleState),
}

/// A kind of widget state that widget memory can hold.
pub trait StoredState: Sized {
    /// The state of this kind held by `s`, if `s` is of this kind.
    spec fn spec_unwrap(s: WidgetState) -> Option<Self>;

    /// The tagged form of a state of this kind.
    spec fn spec_wrap(v: Self) -> WidgetState;

    /// Whether `v` is the default state of this kind.
    spec fn is_default(v: Self) -> bool;

    /// Unwrapping a wrapped state gives it back.
    proof fn lemma_unwrap_wrap(v: Self)
        ensures
            Self::spec_unwrap(Self::spec_wrap(v)) == Some(v),
    ;

    /// Only a state of this kind unwraps to this kind, and it is its own wrapping.
    proof fn lemma_wrap_unwrap(s: WidgetState)
        ensures
            Self::spec_unwrap(s) matches Some(v) ==> Self::spec_wrap(v) == s,
    ;

    fn wrap(self) -> (r: WidgetState)
        ensures
            r == Self::spec_wrap(self),
    ;

    fn default_state() -> (r: Self)
        ensures
            Self::is_default(r),
    ;

    fn unwrap_ref(s: &WidgetState) -> (r: Option<&Self>)
        ensures
            match r {
                Some(v) => Self::spec_unwrap(*s) == Some(*v),
                None => Self::spec_unwrap(*s) is None,
            },
    ;

    fn unwrap_mut(s: &mut WidgetState) -> (r: Option<&mut Self>)
        ensures
            match r {
                Some(v) => {
                    &&& Self::spec_unwrap(*old(s)) == Some(*v)
                    &&& *final(s) == Self::spec_wrap(*final(v))
                },
                None => {
                    &&& Self::spec_unwrap(*old(s)) is None
                    &&& *final(s) == *old(s)
                },
            },
    ;
}

impl StoredState for TextInputState {
    open spec fn spec_unwrap(s: WidgetState) -> Option<Self> {
        match s {
            WidgetState::TextInput(v) => Some(v),
            _ => None,
        }
    }

    open spec fn spec_wrap(v: Self) -> WidgetState {
        WidgetState::TextInput(v)
    }

    open spec fn is_default(v: Self) -> bool {
        &&& v.text@ == Seq::<char>::empty()
        &&& v.cursor_pos == 0
        &&& v.selection is None
        &&& !v.focused
    }

    proof fn lemma_unwrap_wrap(v: Self) {
    }

    proof fn lemma_wrap_unwrap(s: WidgetState) {
    }

    fn wrap(self) -> (r: WidgetState) {
        WidgetState::TextInput(self)
    }

    fn default_state() -> (r: Self) {
        Self::default()
    }

    fn unwrap_ref(s: &WidgetState) -> (r: Option<&Self>) {
        match s {
            WidgetState::TextInput(v) => Some(v),
            _ => None,
        }
    }

    fn unwrap_mut(s: &mut WidgetState) -> (r: Option<&mut Self>) {
        match s {
            WidgetState::TextInput(v) => Some(v),
            _ => None,
        }
    }
}

impl StoredState for SliderState {
    open spec fn spec_unwrap(s: WidgetState) -> Option<Self> {
        match s {
            WidgetState::Slider(v) => Some(v),
            _ => None,
        }
    }

    open spec fn spec_wrap(v: Self) -> WidgetState {
        WidgetState::Slider(v)
    }

    open spec fn is_default(v: Self) -> bool {
        !v.dragging
    }

    proof fn lemma_unwrap_wrap(v: Self) {
    }

    proof fn lemma_wrap_unwrap(s: WidgetState) {
    }

    fn wrap(self) -> (r: WidgetState) {
        WidgetState::Slider(self)
    }

    fn default_state() -> (r: Self) {
        Self::default()
    }

    fn unwrap_ref(s: &WidgetState) -> (r: Option<&Self>) {
        match s {
            WidgetState::Slider(v) => Some(v),
            _ => None,
        }
    }

    fn unwrap_mut(s: &mut WidgetState) -> (r: Option<&mut Self>) {
        match s {
            WidgetState::Slider(v) => Some(v),
            _ => None,
        }
    }
}

impl StoredState for CollapsibleState {
    open spec fn spec_unwrap(s: WidgetState) -> Option<Self> {
        match s {
            WidgetState::Collapsible(v) => Some(v),
            _ => None,
        }
    }

    open spec fn spec_wrap(v: Self) -> WidgetState {
        WidgetState::Collapsible(v)
    }

    open spec fn is_default(v: Self) -> bool {
        v.expanded
    }

    proof fn lemma_unwrap_wrap(v: Self) {
    }

    proof fn lemma_wrap_unwrap(s: WidgetState) {
    }

    fn wrap(self) -> (r: WidgetState) {
        WidgetState::Collapsible(self)
    }

    fn default_state() -> (r: Self) {
        Self::default()
    }

    fn unwrap_ref(s: &WidgetState) -> (r: Option<&Self>) {
        match s {
            WidgetState::Collapsible(v) => Some(v),
            _ => None,
        }
    }

    fn unwrap_mut(s: &mut WidgetState) -> (r: Option<&mut Self>) {
        match s {
            WidgetState::Collapsible(v) => Some(v),
            _ => None,
        }
    }
}

impl StoredState for ToggleState {
    open spec fn spec_unwrap(s: WidgetState) -> Option<Self> {
        match s {
            WidgetState::Toggle(v) => Some(v),
            _ => None,
        }
    }

    open spec fn spec_wrap(v: Self) -> WidgetState {
        WidgetState::Toggle(v)
    }

    open spec fn is_default(v: Self) -> bool {
        !v.checked
    }

    proof fn lemma_unwrap_wrap(v: Self) {
    }

    proof fn lemma_wrap_unwrap(s: WidgetState) {
    }

    fn wrap(self) -> (r: WidgetState) {
        WidgetState::Toggle(self)
    }

    fn default_state() -> (r: Self) {
        Self::default()
    }

    fn unwrap_ref(s: &WidgetState) -> (r: Option<&Self>) {
        match s {
            WidgetState::Toggle(v) => Some(v),
            _ => None,
        }
    }

    fn unwrap_mut(s: &mut WidgetState) -> (r: Option<&mut Self>) {
        match s {
            WidgetState::Toggle(v) => Some(v),
            _ => None,
        }
    }
}

impl StoredState for DragValueState {
    open spec fn spec_unwrap(s: WidgetState) -> Option<Self> {
        match s {
            WidgetState::DragValue(v) => Some(v),
            _ => None,
        }
    }

    open spec fn spec_wrap(v: Self) -> WidgetState {
        WidgetState::DragValue(v)
    }

    open spec fn is_default(v: Self) -> bool {
        &&& TextInputState::is_default(v.text_input)
        &&& v.drag_accumulator_bits == 0
        &&& !v.text_mode
    }

    proof fn lemma_unwrap_wrap(v: Self) {
    }

    proof fn lemma_wrap_unwrap(s: WidgetState) {
    }

    fn wrap(self) -> (r: WidgetState) {
        WidgetState::DragValue(self)
    }

    fn default_state() -> (r: Self) {
        Self::default()
    }

    fn unwrap_ref(s: &WidgetState) -> (r: Option<&Self>) {
        match s {
            WidgetState::DragValue(v) => Some(v),
            _ => None,
        }
    }

    fn unwrap_mut(s: &mut WidgetState) -> (r: Option<&mut Self>) {
        match s {
            WidgetState::DragValue(v) => Some(v),
            _ => None,
        }
    }
}

/// Laws of widget state kinds.
///
/// Toggling twice gives back the state one started with.
pub proof fn law_toggle_twice_restores(t: ToggleState, c: CollapsibleState)
    ensures
        t.toggled().toggled() == t,
        c.toggled().toggled() == c,
{
}

/// A state is of at most one kind: asking for another kind than the stored
/// one finds nothing.
pub proof fn law_kinds_exclusive(s: WidgetState)
    ensures
        TextInputState::spec_unwrap(s) is Some ==> DragValueState::spec_unwrap(s) is None
            && SliderState::spec_unwrap(s) is None && CollapsibleState::spec_unwrap(s) is None
            && ToggleState::spec_unwrap(s) is None,
        DragValueState::spec_unwrap(s) is Some ==> SliderState::spec_unwrap(s) is None
            && CollapsibleState::spec_unwrap(s) is None && ToggleState::spec_unwrap(s) is None,
        SliderState::spec_unwrap(s) is Some ==> CollapsibleState::spec_unwrap(s) is None
            && ToggleState::spec_unwrap(s) is None,
        CollapsibleState::spec_unwrap(s) is Some ==> ToggleState::spec_unwrap(s) is None,
{
}

/// What is written under an ID is what a read of the same kind gives back,
/// and every other ID keeps what it held.
pub proof fn law_read_back_written<T: StoredState>(
    m: Map<Seq<char>, WidgetState>,
    id: Seq<char>,
    v: T,
    other: Seq<char>,
)
    requires
        other != id,
    ensures
        m.insert(id, T::spec_wrap(v)).contains_key(id),
        T::spec_unwrap(m.insert(id, T::spec_wrap(v))[id]) == Some(v),
        m.insert(id, T::spec_wrap(v)).contains_key(other) == m.contains_key(other),
        m.contains_key(other) ==> m.insert(id, T::spec_wrap(v))[other] == m[other],
{
    T::lemma_unwrap_wrap(v);
}

/// Getting or inserting at an ID that already holds a state of the asked kind
/// and writing nothing back leaves the memory as it was.
pub proof fn law_get_or_insert_existing_is_identity<T: StoredState>(
    m: Map<Seq<char>, WidgetState>,
    id: Seq<char>,
)
    requires
        m.contains_key(id),
        T::spec_unwrap(m[id]) is Some,
    ensures
        m.insert(id, T::spec_wrap(T::spec_unwrap(m[id])->0)) == m,
{
    T::lemma_wrap_unwrap(m[id]);
    assert(m.insert(id, T::spec_wrap(T::spec_unwrap(m[id])->0)) =~= m);
}

/// After removing an ID it holds nothing, and the other IDs are untouched.
pub proof fn law_removed_is_gone(m: Map<Seq<char>, WidgetState>, id: Seq<char>, other: Seq<char>)
    requires
        other != id,
    ensures
        !m.remove(id).contains_key(id),
        m.remove(id).contains_key(other) == m.contains_key(other),
        m.contains_key(other) ==> m.remove(id)[other] == m[other],
{
}

/// One slot of widget memory: an identifier and the state stored under it.
pub type Slot = (Seq<char>, WidgetState);

/// The identifiers of a sequence of slots, in order.
spec fn keys_of(entries: Seq<Slot>) -> Seq<Seq<char>> {
    entries.map_values(|e: Slot| e.0)
}

/// The map from identifier to state that a sequence of slots stands for.
spec fn map_of(entries: Seq<Slot>) -> Map<Seq<char>, WidgetState> {
    let keys = keys_of(entries);
    Map::new(|k: Seq<char>| keys.contains(k), |k: Seq<char>| entries[keys.index_of(k)].1)
}

/// With distinct identifiers, slot `i` is what the map holds under its identifier.
proof fn lemma_map_of_at(entries: Seq<Slot>, i: int)
    requires
        keys_of(entries).no_duplicates(),
        0 <= i < entries.len(),
    ensures
        map_of(entries).contains_key(entries[i].0),
        map_of(entries)[entries[i].0] == entries[i].1,
{
    let keys = keys_of(entries);
    assert(keys[i] == entries[i].0);
    assert(keys.contains(entries[i].0));
    let j = keys.index_of(entries[i].0);
    assert(keys[j] == keys[i]);
}

/// Every identifier in the map is held by some slot.
proof fn lemma_map_of_key(entries: Seq<Slot>, k: Seq<char>) -> (i: int)
    requires
        map_of(entries).contains_key(k),
    ensures
        0 <= i < entries.len(),
        entries[i].0 == k,
{
    let keys = keys_of(entries);
    let i = keys.index_of(k);
    assert(keys[i] == entries[i].0);
    i
}

/// The number of entries of the map is the number of slots, when identifiers are distinct.
proof fn lemma_map_of_len(entries: Seq<Slot>)
    requires
        keys_of(entries).no_duplicates(),
    ensures
        map_of(entries).len() == entries.len(),
{
    let keys = keys_of(entries);
    assert(map_of(entries).dom() =~= keys.to_set());
    keys.unique_seq_to_set();
}

/// Replacing the state of a slot replaces what the map holds under its identifier.
proof fn lemma_map_of_update(entries: Seq<Slot>, i: int, e: Slot)
    requires
        keys_of(entries).no_duplicates(),
        0 <= i < entries.len(),
        e.0 == entries[i].0,
    ensures
        keys_of(entries.update(i, e)) == keys_of(entries),
        map_of(entries.update(i, e)) == map_of(entries).insert(e.0, e.1),
{
    let new_entries = entries.update(i, e);
    assert(keys_of(new_entries) =~= keys_of(entries));
    let m = map_of(new_entries);
    let m2 = map_of(entries).insert(e.0, e.1);
    assert forall|k: Seq<char>| m.contains_key(k) <==> m2.contains_key(k) by {
        if m.contains_key(k) {
            let j = lemma_map_of_key(new_entries, k);
            if j != i {
                assert(new_entries[j] == entries[j]);
                lemma_map_of_at(entries, j);
            }
        }
        if m2.contains_key(k) {
            if k == e.0 {
                lemma_map_of_at(new_entries, i);
            } else {
                let j = lemma_map_of_key(entries, k);
                assert(new_entries[j] == entries[j]);
                lemma_map_of_at(new_entries, j);
            }
        }
    }
    assert forall|k: Seq<char>| m.contains_key(k) implies m[k] == m2[k] by {
        let j = lemma_map_of_key(new_entries, k);
        lemma_map_of_at(new_entries, j);
        if j != i {
            assert(new_entries[j] == entries[j]);
            assert(keys_of(new_entries)[j] != keys_of(new_entries)[i]);
            lemma_map_of_at(entries, j);
        }
    }
    assert(m =~= m2);
}

/// Appending a slot with a new identifier adds it to the map.
proof fn lemma_map_of_push(entries: Seq<Slot>, e: Slot)
    requires
        keys_of(entries).no_duplicates(),
        !map_of(entries).contains_key(e.0),
    ensures
        keys_of(entries.push(e)).no_duplicates(),
        map_of(entries.push(e)) == map_of(entries).insert(e.0, e.1),
{
    let new_entries = entries.push(e);
    let keys = keys_of(entries);
    assert(keys_of(new_entries) =~= keys.push(e.0));
    assert forall|a: int, b: int|
        0 <= a < b < new_entries.len() implies keys_of(new_entries)[a] != keys_of(
        new_entries,
    )[b] by {
        if b == entries.len() {
            assert(keys[a] == entries[a].0);
            lemma_map_of_at(entries, a);
        }
    }
    let m = map_of(new_entries);
    let m2 = map_of(entries).insert(e.0, e.1);
    assert forall|k: Seq<char>| m.contains_key(k) <==> m2.contains_key(k) by {
        if m.contains_key(k) {
            let j = lemma_map_of_key(new_entries, k);
            if j < entries.len() {
                lemma_map_of_at(entries, j);
            }
        }
        if m2.contains_key(k) {
            if k == e.0 {
                lemma_map_of_at(new_entries, entries.len() as int);
            } else {
                let j = lemma_map_of_key(entries, k);
                assert(new_entries[j] == entries[j]);
                lemma_map_of_at(new_entries, j);
            }
        }
    }
    assert forall|k: Seq<char>| m.contains_key(k) implies m[k] == m2[k] by {
        let j = lemma_map_of_key(new_entries, k);
        lemma_map_of_at(new_entries, j);
        if j < entries.len() {
            assert(new_entries[j] == entries[j]);
            lemma_map_of_at(entries, j);
        }
    }
    assert(m =~= m2);
}

/// Removing a slot removes its identifier from the map.
proof fn lemma_map_of_remove(entries: Seq<Slot>, i: int)
    requires
        keys_of(entries).no_duplicates(),
        0 <= i < entries.len(),
    ensures
        keys_of(entries.remove(i)).no_duplicates(),
        map_of(entries.remove(i)) == map_of(entries).remove(entries[i].0),
{
    let new_entries = entries.remove(i);
    let keys = keys_of(entries);
    let nkeys = keys_of(new_entries);
    assert(nkeys =~= keys.remove(i));
    assert forall|a: int, b: int| 0 <= a < b < nkeys.len() implies nkeys[a] != nkeys[b] by {
        let a2 = if a < i {
            a
        } else {
            a + 1
        };
        let b2 = if b < i {
            b
        } else {
            b + 1
        };
        assert(nkeys[a] == keys[a2]);
        assert(nkeys[b] == keys[b2]);
    }
    let m = map_of(new_entries);
    let m2 = map_of(entries).remove(entries[i].0);
    assert forall|k: Seq<char>| m.contains_key(k) <==> m2.contains_key(k) by {
        if m.contains_key(k) {
            let j = lemma_map_of_key(new_entries, k);
            let j2 = if j < i {
                j
            } else {
                j + 1
            };
            assert(new_entries[j] == entries[j2]);
            lemma_map_of_at(entries, j2);
            assert(keys[j2] != keys[i]);
        }
        if m2.contains_key(k) {
            let j = lemma_map_of_key(entries, k);
            let j2 = if j < i {
                j
            } else {
                j - 1
            };
            assert(new_entries[j2] == entries[j]);
            lemma_map_of_at(new_entries, j2);
        }
    }
    assert forall|k: Seq<char>| m.contains_key(k) implies m[k] == m2[k] by {
        let j = lemma_map_of_key(new_entries, k);
        let j2 = if j < i {
            j
        } else {
            j + 1
        };
        assert(new_entries[j] == entries[j2]);
        lemma_map_of_at(new_entries, j);
        lemma_map_of_at(entries, j2);
    }
    assert(m =~= m2);
}

/// Widget memory - stores internal state for all widgets.
///
/// Each identifier holds at most one state; a state keeps its kind for as
/// long as it is stored.
#[derive(Debug)]
pub struct WidgetMemory {
    /// The identifiers, one per stored state
    ids: Vec<WidgetStateId>,
    /// The stored states, in the order of their identifiers
    states: Vec<WidgetState>,
}

/// The slots that parallel lists of identifiers and states stand for.
spec fn slots_of(ids: Seq<WidgetStateId>, states: Seq<WidgetState>) -> Seq<Slot> {
    Seq::new(ids.len(), |i: int| (ids[i]@, states[i]))
}

impl View for WidgetMemory {
    type V = Map<Seq<char>, WidgetState>;

    closed spec fn view(&self) -> Map<Seq<char>, WidgetState> {
        map_of(self.slots())
    }
}

impl WidgetMemory {
    /// The slots of the memory, in storage order.
    spec fn slots(&self) -> Seq<Slot> {
        slots_of(self.ids@, self.states@)
    }

    /// Every identifier has its state, and no identifier is stored twice.
    #[verifier::type_invariant]
    spec fn well_formed(&self) -> bool {
        &&& self.ids@.len() == self.states@.len()
        &&& keys_of(self.slots()).no_duplicates()
    }

    /// The memory holds finitely many states.
    pub proof fn lemma_finite(&self)
        ensures
            self@.dom().finite(),
    {
        let keys = keys_of(self.slots());
        assert(map_of(self.slots()).dom() =~= keys.to_set());
        vstd::seq_lib::seq_to_set_is_finite(keys);
    }

    /// Whether `key` holds no state, or a state of kind `T`.
    pub open spec fn kind_fits<T: StoredState>(&self, key: Seq<char>) -> bool {
        self@.contains_key(key) ==> T::spec_unwrap(self@[key]) is Some
    }

    /// Create a new empty widget memory
    pub fn new() -> (r: Self)
        ensures
            r@ == Map::<Seq<char>, WidgetState>::empty(),
    {
        let r = Self { ids: Vec::new(), states: Vec::new() };
        assert(r.slots() =~= Seq::<Slot>::empty());
        assert(r@ =~= Map::<Seq<char>, WidgetState>::empty());
        r
    }

    /// Replacing the state at `idx` with any state replaces what the memory
    /// holds under its identifier, and keeps the identifiers.
    proof fn lemma_replace_at(&self, idx: int)
        requires
            self.ids@.len() == self.states@.len(),
            keys_of(self.slots()).no_duplicates(),
            0 <= idx < self.ids@.len(),
        ensures
            map_of(self.slots()).contains_key(self.ids@[idx]@),
            map_of(self.slots())[self.ids@[idx]@] == self.states@[idx],
            forall|st: WidgetState|
                #[trigger] map_of(slots_of(self.ids@, self.states@.update(idx, st))) == map_of(
                    self.slots(),
                ).insert(self.ids@[idx]@, st),
            forall|st: WidgetState|
                #[trigger] keys_of(slots_of(self.ids@, self.states@.update(idx, st))) == keys_of(
                    self.slots(),
                ),
    {
        let cur = self.slots();
        lemma_map_of_at(cur, idx);
        assert forall|st: WidgetState|
            #[trigger] map_of(slots_of(self.ids@, self.states@.update(idx, st))) == map_of(
                cur,
            ).insert(self.ids@[idx]@, st) by {
            assert(slots_of(self.ids@, self.states@.update(idx, st)) =~= cur.update(
                idx,
                (self.ids@[idx]@, st),
            ));
            lemma_map_of_update(cur, idx, (self.ids@[idx]@, st));
        }
        assert forall|st: WidgetState|
            #[trigger] keys_of(slots_of(self.ids@, self.states@.update(idx, st))) == keys_of(
                cur,
            ) by {
            assert(slots_of(self.ids@, self.states@.update(idx, st)) =~= cur.update(
                idx,
                (self.ids@[idx]@, st),
            ));
            lemma_map_of_update(cur, idx, (self.ids@[idx]@, st));
        }
    }

    /// Store `state` under a new identifier `id`, after the others.
    fn push_slot(&mut self, id: WidgetStateId, state: WidgetState)
        requires
            !old(self)@.contains_key(id@),
        ensures
            final(self)@ == old(self)@.insert(id@, state),
            final(self).ids@ == old(self).ids@.push(id),
            final(self).states@ == old(self).states@.push(state),
    {
        proof {
            use_type_invariant(&*self);
            lemma_map_of_push(self.slots(), (id@, state));
        }
        let ghost cur = self.slots();
        let mut me = WidgetMemory::new();
        std::mem::swap(&mut me, self);
        let WidgetMemory { mut ids, mut states } = me;
        ids.push(id);
        states.push(state);
        assert(slots_of(ids@, states@) =~= cur.push((id@, state)));
        *self = WidgetMemory { ids, states };
    }

    /// Drop the slot at `idx`.
    fn remove_slot(&mut self, idx: usize)
        requires
            idx < old(self).ids@.len(),
        ensures
            final(self)@ == old(self)@.remove(old(self).ids@[idx as int]@),
    {
        proof {
            use_type_invariant(&*self);
            lemma_map_of_remove(self.slots(), idx as int);
        }
        let ghost cur = self.slots();
        let mut me = WidgetMemory::new();
        std::mem::swap(&mut me, self);
        let WidgetMemory { mut ids, mut states } = me;
        ids.remove(idx);
        states.remove(idx);
        assert(slots_of(ids@, states@) =~= cur.remove(idx as int));
        *self = WidgetMemory { ids, states };
    }

    /// Position of the identifier `key`, if it is stored; with the
    /// memory's own facts about what that position holds.
    fn find(&self, key: &String) -> (r: Option<usize>)
        ensures
            match r {
                Some(i) => {
                    &&& i < self.ids@.len()
                    &&& i < self.states@.len()
                    &&& self.ids@[i as int]@ == key@
                    &&& self@.contains_key(key@)
                    &&& self@[key@] == self.states@[i as int]
                },
                None => !self@.contains_key(key@),
            },
    {
        proof {
            use_type_invariant(self);
        }
        let n = self.ids.len();
        let mut i: usize = 0;
        while i < n
            invariant
                n == self.ids@.len(),
                n == self.states@.len(),
                keys_of(self.slots()).no_duplicates(),
                i <= n,
                forall|j: int| 0 <= j < i ==> self.ids@[j]@ != key@,
            decreases n - i,
        {
            if self.ids[i].0 == *key {
                proof {
                    lemma_map_of_at(self.slots(), i as int);
                }
                return Some(i);
            }
            i = i + 1;
        }
        proof {
            if map_of(self.slots()).contains_key(key@) {
                let j = lemma_map_of_key(self.slots(), key@);
            }
        }
        None
    }

    /// Get or create state for a widget.
    ///
    /// If no state exists for this ID, stores `default` first. The returned
    /// reference is the stored state; whatever it holds when the borrow ends
    /// is what the memory holds under `id`.
    pub fn get_or_insert<T: StoredState>(&mut self, id: &str, default: T) -> (r: &mut T)
        requires
            old(self).kind_fits::<T>(id@),
        ensures
            old(self)@.contains_key(id@) ==> T::spec_unwrap(old(self)@[id@]) == Some(*r),
            !old(self)@.contains_key(id@) ==> *r == default,
            final(self)@ == old(self)@.insert(id@, T::spec_wrap(*final(r))),
            final(self)@.len() == old(self)@.len() + if old(self)@.contains_key(id@) {
                0int
            } else {
                1int
            },
    {
        proof {
            self.lemma_finite();
        }
        let key = id.to_owned();
        let idx = match self.find(&key) {
            Some(i) => i,
            None => {
                proof {
                    T::lemma_unwrap_wrap(default);
                }
                self.push_slot(WidgetStateId(key), default.wrap());
                proof {
                    use_type_invariant(&*self);
                }
                self.states.len() - 1
            },
        };
        proof {
            use_type_invariant(&*self);
            self.lemma_replace_at(idx as int);
        }
        let state = &mut self.states[idx];
        T::unwrap_mut(state).unwrap()
    }

    /// Get or create state for a widget using the kind's default state.
    pub fn get_or_default<T: StoredState>(&mut self, id: &str) -> (r: &mut T)
        requires
            old(self).kind_fits::<T>(id@),
        ensures
            old(self)@.contains_key(id@) ==> T::spec_unwrap(old(self)@[id@]) == Some(*r),
            !old(self)@.contains_key(id@) ==> T::is_default(*r),
            final(self)@ == old(self)@.insert(id@, T::spec_wrap(*final(r))),
            final(self)@.len() == old(self)@.len() + if old(self)@.contains_key(id@) {
                0int
            } else {
                1int
            },
    {
        self.get_or_insert(id, T::default_state())
    }

    /// Get state for a widget, if it exists and is of kind `T`.
    pub fn get<T: StoredState>(&self, id: &str) -> (r: Option<&T>)
        ensures
            match r {
                Some(v) => self@.contains_key(id@) && T::spec_unwrap(self@[id@]) == Some(*v),
                None => !self@.contains_key(id@) || T::spec_unwrap(self@[id@]) is None,
            },
    {
        let key = id.to_owned();
        match self.find(&key) {
            Some(i) => T::unwrap_ref(&self.states[i]),
            None => None,
        }
    }

    /// Get mutable state for a widget, if it exists and is of kind `T`.
    pub fn get_mut<T: StoredState>(&mut self, id: &str) -> (r: Option<&mut T>)
        ensures
            match r {
                Some(v) => {
                    &&& old(self)@.contains_key(id@)
                    &&& T::spec_unwrap(old(self)@[id@]) == Some(*v)
                    &&& final(self)@ == old(self)@.insert(id@, T::spec_wrap(*final(v)))
                },
                None => {
                    &&& !old(self)@.contains_key(id@) || T::spec_unwrap(old(self)@[id@]) is None
                    &&& final(self)@ == old(self)@
                },
            },
    {
        let key = id.to_owned();
        match self.find(&key) {
            Some(idx) => {
                proof {
                    use_type_invariant(&*self);
                    self.lemma_replace_at(idx as int);
                    assert(map_of(self.slots()).insert(key@, self.states@[idx as int]) =~= map_of(
                        self.slots(),
                    ));
                }
                let state = &mut self.states[idx];
                T::unwrap_mut(state)
            },
            None => None,
        }
    }

    /// Check if state exists for a widget
    pub fn contains(&self, id: &str) -> (r: bool)
        ensures
            r == self@.contains_key(id@),
    {
        let key = id.to_owned();
        self.find(&key).is_some()
    }

    /// Remove state for a widget; tells whether there was any.
    pub fn remove(&mut self, id: &str) -> (r: bool)
        ensures
            r == old(self)@.contains_key(id@),
            final(self)@ == old(self)@.remove(id@),
            final(self)@.len() == old(self)@.len() - if r {
                1int
            } else {
                0int
            },
    {
        proof {
            self.lemma_finite();
        }
        let key = id.to_owned();
        match self.find(&key) {
            Some(i) => {
                self.remove_slot(i);
                true
            },
            None => {
                assert(self@.remove(key@) =~= self@);
                false
            },
        }
    }

    /// Clear all widget state
    pub fn clear(&mut self)
        ensures
            final(self)@ == Map::<Seq<char>, WidgetState>::empty(),
    {
        *self = WidgetMemory::new();
    }

    /// Get the number of stored states
    pub fn len(&self) -> (r: usize)
        ensures
            r == self@.len(),
            self@.dom().finite(),
    {
        proof {
            use_type_invariant(self);
            lemma_map_of_len(self.slots());
            self.lemma_finite();
        }
        self.ids.len()
    }

    /// Check if the memory is empty
    pub fn is_empty(&self) -> (r: bool)
        ensures
            r == (self@.len() == 0),
    {
        proof {
            use_type_invariant(self);
            lemma_map_of_len(self.slots());
        }
        self.ids.len() == 0
    }

    /// Get or create text input state
    pub fn text_input(&mut self, id: &str) -> (r: &mut TextInputState)
        requires
            old(self).kind_fits::<TextInputState>(id@),
        ensures
            old(self)@.contains_key(id@) ==> old(self)@[id@] == WidgetState::TextInput(*r),
            !old(self)@.contains_key(id@) ==> TextInputState::is_default(*r),
            final(self)@ == old(self)@.insert(id@, WidgetState::TextInput(*final(r))),
    {
        self.get_or_default(id)
    }

    /// Get or create text input state with initial text
    pub fn text_input_with_text(&mut self, id: &str, initial_text: &str) -> (r:
        &mut TextInputState)
        requires
            old(self).kind_fits::<TextInputState>(id@),
        ensures
            old(self)@.contains_key(id@) ==> old(self)@[id@] == WidgetState::TextInput(*r),
            !old(self)@.contains_key(id@) ==> {
                &&& r.text@ == initial_text@
                &&& r.cursor_pos == byte_len(initial_text@)
                &&& r.selection is None
                &&& !r.focused
            },
            final(self)@ == old(self)@.insert(id@, WidgetState::TextInput(*final(r))),
    {
        self.get_or_insert(id, TextInputState::new(initial_text))
    }

    /// Get or create drag value state, starting from the bit pattern of
    /// `initial_value_bits`
    pub fn drag_value(&mut self, id: &str, initial_value_bits: u32) -> (r: &mut DragValueState)
        requires
            old(self).kind_fits::<DragValueState>(id@),
        ensures
            old(self)@.contains_key(id@) ==> old(self)@[id@] == WidgetState::DragValue(*r),
            !old(self)@.contains_key(id@) ==> {
                &&& TextInputState::is_default(r.text_input)
                &&& r.drag_accumulator_bits == initial_value_bits
                &&& !r.text_mode
            },
            final(self)@ == old(self)@.insert(id@, WidgetState::DragValue(*final(r))),
    {
        self.get_or_insert(id, DragValueState::new(initial_value_bits))
    }

    /// Get or create slider state
    pub fn slider(&mut self, id: &str) -> (r: &mut SliderState)
        requires
            old(self).kind_fits::<SliderState>(id@),
        ensures
            old(self)@.contains_key(id@) ==> old(self)@[id@] == WidgetState::Slider(*r),
            !old(self)@.contains_key(id@) ==> !r.dragging,
            final(self)@ == old(self)@.insert(id@, WidgetState::Slider(*final(r))),
    {
        self.get_or_default(id)
    }

    /// Get or create collapsible state
    pub fn collapsible(&mut self, id: &str, initial_expanded: bool) -> (r: &mut CollapsibleState)
        requires
            old(self).kind_fits::<CollapsibleState>(id@),
        ensures
            old(self)@.contains_key(id@) ==> old(self)@[id@] == WidgetState::Collapsible(*r),
            !old(self)@.contains_key(id@) ==> r.expanded == initial_expanded,
            final(self)@ == old(self)@.insert(id@, WidgetState::Collapsible(*final(r))),
    {
        self.get_or_insert(id, CollapsibleState::new(initial_expanded))
    }

    /// Get or create toggle state
    pub fn toggle(&mut self, id: &str, initial_checked: bool) -> (r: &mut ToggleState)
        requires
            old(self).kind_fits::<ToggleState>(id@),
        ensures
            old(self)@.contains_key(id@) ==> old(self)@[id@] == WidgetState::Toggle(*r),
            !old(self)@.contains_key(id@) ==> r.checked == initial_checked,
            final(self)@ == old(self)@.insert(id@, WidgetState::Toggle(*final(r))),
    {
        self.get_or_insert(id, ToggleState::new(initial_checked))
    }

}

impl Default for WidgetMemory {
    fn default() -> (r: Self)
        ensures
            r@ == Map::<Seq<char>, WidgetState>::empty(),
    {
        Self::new()
    }
}

} // verus!
