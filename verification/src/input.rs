//! Backend-agnostic input state tracking for mouse buttons and keys.
//!
//! The state keeps what is held down across frames and what happened during
//! the current frame (just pressed / just released), independent of any
//! windowing library. Pointer position and wheel deltas are tracked by the
//! embedding application.
use vstd::prelude::*;

verus! {

/// Backend-agnostic mouse button representation
#[derive(Debug, Clone, Copy, PartialEq, Eq, Hash, Structural)]
pub enum MouseButton {
    /// Left mouse button
    Left,
    /// Right mouse button
    Right,
    /// Middle mouse button (scroll wheel click)
    Middle,
    /// Additional mouse buttons (back, forward, etc.)
    Other(u8),
}

/// Backend-agnostic named key representation
#[derive(Debug, Clone, Copy, PartialEq, Eq, Hash, Structural)]
pub enum NamedKey {
    /// Enter/Return key
    Enter,
    /// Escape key
    Escape,
    /// Backspace key
    Backspace,
    /// Delete key
    Delete,
    /// Tab key
    Tab,
    /// Space key
    Space,
    /// Left arrow key
    ArrowLeft,
    /// Right arrow key
    ArrowRight,
    /// Up arrow key
    ArrowUp,
    /// Down arrow key
    ArrowDown,
    /// Home key
    Home,
    /// End key
    End,
    /// Page Up key
    PageUp,
    /// Page Down key
    PageDown,
    /// Shift key (left or right)
    Shift,
    /// Control key (left or right)
    Control,
    /// Alt key (left or right)
    Alt,
    /// Super/Meta/Windows/Command key
    Super,
    /// Caps Lock key
    CapsLock,
    /// Function keys F1-F12
    F(u8),
    /// Insert key
    Insert,
    /// Print Screen key
    PrintScreen,
    /// Scroll Lock key
    ScrollLock,
    /// Pause/Break key
    Pause,
    /// Num Lock key
    NumLock,
    /// Context menu key
    ContextMenu,
}

/// Backend-agnostic key representation
#[derive(Debug, Clone, Eq, Hash)]
pub enum Key {
    /// A named key (Enter, Escape, arrows, etc.)
    Named(NamedKey),
    /// A character key (letters, numbers, symbols)
    Character(String),
    /// Unknown/unhandled key
    Unknown,
}

/// Whether two keys are the same key: same named key, same characters, or both unknown.
pub open spec fn same_key(a: Key, b: Key) -> bool {
    match (a, b) {
        (Key::Named(x), Key::Named(y)) => x == y,
        (Key::Character(x), Key::Character(y)) => x@ == y@,
        (Key::Unknown, Key::Unknown) => true,
        _ => false,
    }
}

impl PartialEq for Key {
    fn eq(&self, other: &Self) -> (r: bool) {
        match (self, other) {
            (Key::Named(x), Key::Named(y)) => *x == *y,
            (Key::Character(x), Key::Character(y)) => *x == *y,
            (Key::Unknown, Key::Unknown) => true,
            _ => false,
        }
    }
}

impl vstd::std_specs::cmp::PartialEqSpecImpl for Key {
    open spec fn obeys_eq_spec() -> bool {
        true
    }

    open spec fn eq_spec(&self, other: &Key) -> bool {
        same_key(*self, *other)
    }
}

/// A set of mouse buttons.
#[derive(Debug)]
pub struct ButtonSet {
    items: Vec<MouseButton>,
}

impl View for ButtonSet {
    type V = Set<MouseButton>;

    closed spec fn view(&self) -> Set<MouseButton> {
        self.items@.to_set()
    }
}

impl ButtonSet {
    #[verifier::type_invariant]
    spec fn no_repeats(&self) -> bool {
        self.items@.no_duplicates()
    }

    /// An empty set.
    pub fn new() -> (r: Self)
        ensures
            r@ == Set::<MouseButton>::empty(),
    {
        let r = ButtonSet { items: Vec::new() };
        assert(r@ =~= Set::<MouseButton>::empty());
        r
    }

    fn position(&self, b: MouseButton) -> (r: Option<usize>)
        ensures
            match r {
                Some(i) => i < self.items@.len() && self.items@[i as int] == b,
                None => !self.items@.contains(b),
            },
    {
        let n = self.items.len();
        let mut i: usize = 0;
        while i < n
            invariant
                n == self.items@.len(),
                i <= n,
                forall|j: int| 0 <= j < i ==> self.items@[j] != b,
            decreases n - i,
        {
            if self.items[i] == b {
                return Some(i);
            }
            i = i + 1;
        }
        None
    }

    /// Whether `b` is in the set.
    pub fn contains(&self, b: MouseButton) -> (r: bool)
        ensures
            r == self@.contains(b),
    {
        self.position(b).is_some()
    }

    /// Add `b` to the set.
    pub fn insert(&mut self, b: MouseButton)
        ensures
            final(self)@ == old(self)@.insert(b),
    {
        proof {
            use_type_invariant(&*self);
        }
        if self.position(b).is_none() {
            let ghost before = self.items@;
            let mut items = Vec::new();
            std::mem::swap(&mut items, &mut self.items);
            items.push(b);
            proof {
                assert forall|x, y| 0 <= x < y < items@.len() implies items@[x] != items@[y] by {
                    if y == before.len() {
                        assert(before.contains(before[x]));
                    }
                }
                assert(items@ == before.push(b));
                before.lemma_push_to_set_commute(b);
            }
            self.items = items;
        } else {
            assert(self.items@.to_set() =~= self.items@.to_set().insert(b));
        }
    }

    /// Take `b` out of the set.
    pub fn remove(&mut self, b: MouseButton)
        ensures
            final(self)@ == old(self)@.remove(b),
    {
        proof {
            use_type_invariant(&*self);
        }
        match self.position(b) {
            Some(i) => {
                let ghost before = self.items@;
                let mut items = Vec::new();
                std::mem::swap(&mut items, &mut self.items);
                items.remove(i);
                proof {
                    let after = items@;
                    assert(after =~= before.remove(i as int));
                    assert forall|x, y| 0 <= x < y < after.len() implies after[x] != after[y] by {
                        let x2 = if x < i {
                            x
                        } else {
                            x + 1
                        };
                        let y2 = if y < i {
                            y
                        } else {
                            y + 1
                        };
                        assert(after[x] == before[x2]);
                        assert(after[y] == before[y2]);
                    }
                    assert forall|m: MouseButton| after.contains(m) <==> (before.contains(m) && m
                        != b) by {
                        if after.contains(m) {
                            let k = choose|k: int| 0 <= k < after.len() && after[k] == m;
                            let k2 = if k < i {
                                k
                            } else {
                                k + 1
                            };
                            assert(before[k2] == m);
                        }
                        if before.contains(m) && m != b {
                            let k = choose|k: int| 0 <= k < before.len() && before[k] == m;
                            assert(k != i);
                            let k2 = if k < i {
                                k
                            } else {
                                k - 1
                            };
                            assert(after[k2] == m);
                        }
                    }
                    assert(after.to_set() =~= before.to_set().remove(b));
                }
                self.items = items;
            },
            None => {
                assert(self.items@.to_set() =~= self.items@.to_set().remove(b));
            },
        }
    }

    /// Empty the set.
    pub fn clear(&mut self)
        ensures
            final(self)@ == Set::<MouseButton>::empty(),
    {
        self.items = Vec::new();
        assert(self.items@.to_set() =~= Set::<MouseButton>::empty());
    }

    /// Whether the set is empty.
    pub fn is_empty(&self) -> (r: bool)
        ensures
            r == (self@ == Set::<MouseButton>::empty()),
    {
        if self.items.len() == 0 {
            assert(self.items@.to_set() =~= Set::<MouseButton>::empty());
            true
        } else {
            assert(self@.contains(self.items@[0]));
            false
        }
    }
}

impl Clone for ButtonSet {
    fn clone(&self) -> (r: Self)
        ensures
            r@ == self@,
    {
        proof {
            use_type_invariant(self);
        }
        let items = self.items.clone();
        assert forall|i: int| 0 <= i < items@.len() implies items@[i] == self.items@[i] by {
            assert(cloned::<MouseButton>(self.items@[i], items@[i]));
        }
        assert(items@ =~= self.items@);
        ButtonSet { items }
    }
}

/// What an input state holds, as mathematical values.
pub struct InputModel {
    pub pressed: Set<MouseButton>,
    pub just_pressed: Set<MouseButton>,
    pub just_released: Set<MouseButton>,
    pub typed: Seq<char>,
    pub keys_pressed: Seq<Key>,
    pub keys_released: Seq<Key>,
    pub shift: bool,
    pub ctrl: bool,
    pub alt: bool,
    pub sup: bool,
}

impl InputModel {
    /// No button held, nothing happened this frame, no modifier held.
    pub open spec fn initial() -> InputModel {
        InputModel {
            pressed: Set::empty(),
            just_pressed: Set::empty(),
            just_released: Set::empty(),
            typed: Seq::empty(),
            keys_pressed: Seq::empty(),
            keys_released: Seq::empty(),
            shift: false,
            ctrl: false,
            alt: false,
            sup: false,
        }
    }

    /// The state at the start of a new frame: per-frame events are forgotten,
    /// what is held stays held.
    pub open spec fn next_frame(self) -> InputModel {
        InputModel {
            just_pressed: Set::empty(),
            just_released: Set::empty(),
            typed: Seq::empty(),
            keys_pressed: Seq::empty(),
            keys_released: Seq::empty(),
            ..self
        }
    }

    /// The state after button `b` goes down.
    pub open spec fn button_pressed(self, b: MouseButton) -> InputModel {
        InputModel {
            pressed: self.pressed.insert(b),
            just_pressed: self.just_pressed.insert(b),
            ..self
        }
    }

    /// The state after button `b` goes up.
    pub open spec fn button_released(self, b: MouseButton) -> InputModel {
        InputModel {
            pressed: self.pressed.remove(b),
            just_released: self.just_released.insert(b),
            ..self
        }
    }

    /// The modifier flags with the modifier that `key` is (if any) set to `held`.
    pub open spec fn with_modifier(self, key: Key, held: bool) -> InputModel {
        match key {
            Key::Named(NamedKey::Shift) => InputModel { shift: held, ..self },
            Key::Named(NamedKey::Control) => InputModel { ctrl: held, ..self },
            Key::Named(NamedKey::Alt) => InputModel { alt: held, ..self },
            Key::Named(NamedKey::Super) => InputModel { sup: held, ..self },
            _ => self,
        }
    }

    /// The state after `key` goes down; a repeat is recorded only when repeats are allowed.
    pub open spec fn key_pressed(self, key: Key, is_repeat: bool, allow_repeat: bool) -> InputModel {
        let m = self.with_modifier(key, true);
        if !is_repeat || allow_repeat {
            InputModel { keys_pressed: m.keys_pressed.push(key), ..m }
        } else {
            m
        }
    }

    /// The state after `key` goes up.
    pub open spec fn key_released(self, key: Key) -> InputModel {
        let m = self.with_modifier(key, false);
        InputModel { keys_released: m.keys_released.push(key), ..m }
    }

    /// The state after character `c` is typed.
    pub open spec fn char_typed(self, c: char) -> InputModel {
        InputModel { typed: self.typed.push(c), ..self }
    }
}

/// A pressed button is held down and was just pressed.
pub proof fn law_press_marks_button(m: InputModel, b: MouseButton)
    ensures
        m.button_pressed(b).pressed.contains(b),
        m.button_pressed(b).just_pressed.contains(b),
        !m.button_pressed(b).button_released(b).pressed.contains(b),
        m.button_pressed(b).button_released(b).just_released.contains(b),
{
}

/// A new frame forgets the events of the last one and keeps what is held:
/// buttons and modifiers.
pub proof fn law_new_frame_keeps_held(m: InputModel)
    ensures
        m.next_frame().pressed == m.pressed,
        m.next_frame().just_pressed.is_empty(),
        m.next_frame().just_released.is_empty(),
        m.next_frame().typed.len() == 0,
        m.next_frame().keys_pressed.len() == 0,
        m.next_frame().keys_released.len() == 0,
        m.next_frame().shift == m.shift && m.next_frame().ctrl == m.ctrl && m.next_frame().alt
            == m.alt && m.next_frame().sup == m.sup,
        m.next_frame().next_frame() == m.next_frame(),
{
}

/// Pressing a modifier key sets its flag, releasing it clears the flag, and
/// the other modifiers are untouched by either.
pub proof fn law_modifier_press_release(m: InputModel, rep: bool, allow: bool)
    ensures
        m.key_pressed(Key::Named(NamedKey::Shift), rep, allow).shift,
        !m.key_pressed(Key::Named(NamedKey::Shift), rep, allow).key_released(
            Key::Named(NamedKey::Shift),
        ).shift,
        m.key_pressed(Key::Named(NamedKey::Shift), rep, allow).ctrl == m.ctrl,
        m.key_pressed(Key::Named(NamedKey::Control), rep, allow).ctrl,
        !m.key_pressed(Key::Named(NamedKey::Control), rep, allow).key_released(
            Key::Named(NamedKey::Control),
        ).ctrl,
        m.key_pressed(Key::Named(NamedKey::Control), rep, allow).shift == m.shift,
        m.key_pressed(Key::Named(NamedKey::Alt), rep, allow).alt,
        m.key_pressed(Key::Named(NamedKey::Super), rep, allow).sup,
        m.key_released(Key::Named(NamedKey::Alt)).alt == false,
        m.key_released(Key::Named(NamedKey::Super)).sup == false,
{
}

/// A repeated key press is recorded only when repeats are allowed; a first
/// press always is.
pub proof fn law_repeat_filter(m: InputModel, key: Key)
    ensures
        m.key_pressed(key, false, false).keys_pressed == m.keys_pressed.push(key),
        m.key_pressed(key, true, true).keys_pressed == m.keys_pressed.push(key),
        m.key_pressed(key, true, false).keys_pressed == m.keys_pressed,
{
}

/// A key press that is not a repeat is recorded, whatever the repeat
/// setting; a repeat is recorded exactly when repeats are allowed. Either way
/// the press is recorded after the keys pressed before it, and it touches
/// neither the buttons nor the typed characters nor the released keys.
pub proof fn law_key_press_recorded(m: InputModel, key: Key, is_repeat: bool, allow_repeat: bool)
    ensures
        m.key_pressed(key, false, allow_repeat).keys_pressed == m.keys_pressed.push(key),
        m.key_pressed(key, true, allow_repeat).keys_pressed == if allow_repeat {
            m.keys_pressed.push(key)
        } else {
            m.keys_pressed
        },
        m.key_pressed(key, is_repeat, allow_repeat).pressed == m.pressed,
        m.key_pressed(key, is_repeat, allow_repeat).just_pressed == m.just_pressed,
        m.key_pressed(key, is_repeat, allow_repeat).typed == m.typed,
        m.key_pressed(key, is_repeat, allow_repeat).keys_released == m.keys_released,
{
}

/// Typing a character appends exactly that character, whatever it is, and
/// changes nothing else.
pub proof fn law_typing_appends(m: InputModel, c: char)
    ensures
        m.char_typed(c).typed == m.typed.push(c),
        m.char_typed(c).typed.len() == m.typed.len() + 1,
        m.char_typed(c).typed.last() == c,
        m.char_typed(c) == (InputModel { typed: m.char_typed(c).typed, ..m }),
{
}

/// Two keys are the same key exactly when they are the same named key, keys
/// with the same characters, or both unknown; keys of different variants
/// differ.
pub proof fn law_key_equality(x: NamedKey, y: NamedKey, s: String, t: String)
    ensures
        same_key(Key::Named(x), Key::Named(y)) <==> x == y,
        same_key(Key::Character(s), Key::Character(t)) <==> s@ == t@,
        same_key(Key::Unknown, Key::Unknown),
        !same_key(Key::Named(x), Key::Character(s)),
        !same_key(Key::Character(s), Key::Named(x)),
        !same_key(Key::Named(x), Key::Unknown),
        !same_key(Key::Unknown, Key::Named(x)),
        !same_key(Key::Character(s), Key::Unknown),
        !same_key(Key::Unknown, Key::Character(s)),
{
}

/// Tracks the current state of mouse buttons and keyboard input.
///
/// This structure maintains both the current state and frame-specific events
/// (just pressed/just released) to enable easy input handling in the UI.
#[derive(Debug, Clone)]
pub struct InputState {
    /// Set of mouse buttons currently held down
    pub buttons_pressed: ButtonSet,
    /// Set of mouse buttons that were pressed this frame
    pub buttons_just_pressed: ButtonSet,
    /// Set of mouse buttons that were released this frame
    pub buttons_just_released: ButtonSet,
    /// Characters typed this frame (for text input)
    pub characters_typed: Vec<char>,
    /// Keys pressed this frame
    pub keys_just_pressed: Vec<Key>,
    /// Keys released this frame
    pub keys_just_released: Vec<Key>,
    /// Whether Shift is currently held down
    pub shift_held: bool,
    /// Whether Ctrl (or Cmd on macOS) is currently held down
    pub ctrl_held: bool,
    /// Whether Alt is currently held down
    pub alt_held: bool,
    /// Whether Super/Meta/Windows/Command is currently held down
    pub super_held: bool,
}

impl View for InputState {
    type V = InputModel;

    open spec fn view(&self) -> InputModel {
        InputModel {
            pressed: self.buttons_pressed@,
            just_pressed: self.buttons_just_pressed@,
            just_released: self.buttons_just_released@,
            typed: self.characters_typed@,
            keys_pressed: self.keys_just_pressed@,
            keys_released: self.keys_just_released@,
            shift: self.shift_held,
            ctrl: self.ctrl_held,
            alt: self.alt_held,
            sup: self.super_held,
        }
    }
}

impl InputState {
    /// Create a new input state with no active input
    pub fn new() -> (r: Self)
        ensures
            r@ == InputModel::initial(),
    {
        Self {
            buttons_pressed: ButtonSet::new(),
            buttons_just_pressed: ButtonSet::new(),
            buttons_just_released: ButtonSet::new(),
            characters_typed: Vec::new(),
            keys_just_pressed: Vec::new(),
            keys_just_released: Vec::new(),
            shift_held: false,
            ctrl_held: false,
            alt_held: false,
            super_held: false,
        }
    }

    /// Call at the start of each frame to clear frame-specific state.
    ///
    /// This clears the "just pressed" and "just released" sets so they only
    /// contain events from the current frame.
    pub fn begin_frame(&mut self)
        ensures
            final(self)@ == old(self)@.next_frame(),
    {
        self.buttons_just_pressed.clear();
        self.buttons_just_released.clear();
        self.characters_typed.clear();
        self.keys_just_pressed.clear();
        self.keys_just_released.clear();
    }

    /// Record a mouse button press
    pub fn press_button(&mut self, button: MouseButton)
        ensures
            final(self)@ == old(self)@.button_pressed(button),
    {
        self.buttons_pressed.insert(button);
        self.buttons_just_pressed.insert(button);
    }

    /// Record a mouse button release
    pub fn release_button(&mut self, button: MouseButton)
        ensures
            final(self)@ == old(self)@.button_released(button),
    {
        self.buttons_pressed.remove(button);
        self.buttons_just_released.insert(button);
    }

    fn set_modifier(&mut self, key: &Key, held: bool)
        ensures
            final(self)@ == old(self)@.with_modifier(*key, held),
    {
        if let Key::Named(named) = key {
            match named {
                NamedKey::Shift => self.shift_held = held,
                NamedKey::Control => self.ctrl_held = held,
                NamedKey::Alt => self.alt_held = held,
                NamedKey::Super => self.super_held = held,
                _ => {},
            }
        }
    }

    /// Record a key press.
    ///
    /// `is_repeat` tells whether this is a key repeat event, `allow_repeat`
    /// whether repeat events are recorded for this key.
    pub fn press_key(&mut self, key: Key, is_repeat: bool, allow_repeat: bool)
        ensures
            final(self)@ == old(self)@.key_pressed(key, is_repeat, allow_repeat),
    {
        self.set_modifier(&key, true);
        if !is_repeat || allow_repeat {
            self.keys_just_pressed.push(key);
        }
    }

    /// Record a key release
    pub fn release_key(&mut self, key: Key)
        ensures
            final(self)@ == old(self)@.key_released(key),
    {
        self.set_modifier(&key, false);
        self.keys_just_released.push(key);
    }

    /// Record a character typed (for text input)
    pub fn type_character(&mut self, ch: char)
        ensures
            final(self)@ == old(self)@.char_typed(ch),
    {
        self.characters_typed.push(ch);
    }

    /// Check if a mouse button is currently held down
    pub fn is_button_down(&self, button: MouseButton) -> (r: bool)
        ensures
            r == self@.pressed.contains(button),
    {
        self.buttons_pressed.contains(button)
    }

    /// Check if a mouse button was pressed this frame
    pub fn is_button_just_pressed(&self, button: MouseButton) -> (r: bool)
        ensures
            r == self@.just_pressed.contains(button),
    {
        self.buttons_just_pressed.contains(button)
    }

    /// Check if a mouse button was released this frame
    pub fn is_button_just_released(&self, button: MouseButton) -> (r: bool)
        ensures
            r == self@.just_released.contains(button),
    {
        self.buttons_just_released.contains(button)
    }

    /// Check if a specific key was just pressed this frame
    pub fn is_key_just_pressed(&self, key: &Key) -> (r: bool)
        ensures
            r == exists|i: int|
                0 <= i < self@.keys_pressed.len() && same_key(#[trigger] self@.keys_pressed[i], *key),
    {
        let n = self.keys_just_pressed.len();
        let mut i: usize = 0;
        while i < n
            invariant
                n == self.keys_just_pressed@.len(),
                i <= n,
                forall|j: int| 0 <= j < i ==> !same_key(#[trigger] self.keys_just_pressed@[j], *key),
            decreases n - i,
        {
            if self.keys_just_pressed[i] == *key {
                assert(same_key(self@.keys_pressed[i as int], *key));
                return true;
            }
            i = i + 1;
        }
        false
    }

    /// Check if a specific named key was just pressed this frame
    pub fn is_named_key_just_pressed(&self, named: NamedKey) -> (r: bool)
        ensures
            r == exists|i: int|
                0 <= i < self@.keys_pressed.len() && #[trigger] self@.keys_pressed[i]
                    == Key::Named(named),
    {
        let n = self.keys_just_pressed.len();
        let mut i: usize = 0;
        while i < n
            invariant
                n == self.keys_just_pressed@.len(),
                i <= n,
                forall|j: int| 0 <= j < i ==> #[trigger] self.keys_just_pressed@[j] != Key::Named(named),
            decreases n - i,
        {
            match &self.keys_just_pressed[i] {
                Key::Named(n2) => {
                    if *n2 == named {
                        return true;
                    }
                },
                _ => {},
            }
            i = i + 1;
        }
        false
    }

    /// Check if any modifier key is held (Ctrl, Alt, Super, but not Shift)
    pub fn any_modifier_held(&self) -> (r: bool)
        ensures
            r == (self.ctrl_held || self.alt_held || self.super_held),
    {
        self.ctrl_held || self.alt_held || self.super_held
    }
}

impl Default for InputState {
    fn default() -> (r: Self)
        ensures
            r@ == InputModel::initial(),
    {
        Self::new()
    }
}

} // verus!
