use vstd::prelude::*;

verus! {

/// A key of the keyboard, as the terminal reports it.
///
/// `Media` and `Modifier` carry the position of the media or modifier key in the
/// terminal backend's own list of such keys.
#[derive(Clone, Copy, Debug, PartialEq, Eq, Structural)]
pub enum KeyCode {
    Backspace,
    Enter,
    Left,
    Right,
    Up,
    Down,
    Home,
    End,
    PageUp,
    PageDown,
    Tab,
    BackTab,
    Delete,
    Insert,
    F(u8),
    Char(char),
    Null,
    Esc,
    CapsLock,
    ScrollLock,
    NumLock,
    PrintScreen,
    Pause,
    Menu,
    KeypadBegin,
    Media(u8),
    Modifier(u8),
}

/// The set of modifier keys held during an event.
#[derive(Clone, Copy, Debug, PartialEq, Eq, Structural, Default)]
pub struct KeyModifiers {
    pub shift: bool,
    pub control: bool,
    pub alt: bool,
    pub super_key: bool,
    pub hyper: bool,
    pub meta: bool,
}

/// Whether a key was pressed, repeated or released.
#[derive(Clone, Copy, Debug, PartialEq, Eq, Structural)]
pub enum KeyEventKind {
    Press,
    Repeat,
    Release,
}

/// Extra state flags that some terminals report with a key event.
#[derive(Clone, Copy, Debug, PartialEq, Eq, Structural, Default)]
pub struct KeyEventState {
    pub keypad: bool,
    pub caps_lock: bool,
    pub num_lock: bool,
}

/// A keyboard event.
#[derive(Clone, Copy, Debug, PartialEq, Eq, Structural)]
pub struct KeyEvent {
    pub code: KeyCode,
    pub modifiers: KeyModifiers,
    pub kind: KeyEventKind,
    pub state: KeyEventState,
}

/// A mouse button.
#[derive(Clone, Copy, Debug, PartialEq, Eq, Structural)]
pub enum MouseButton {
    Left,
    Right,
    Middle,
}

/// What happened with the mouse.
#[derive(Clone, Copy, Debug, PartialEq, Eq, Structural)]
pub enum MouseEventKind {
    Down(MouseButton),
    Up(MouseButton),
    Drag(MouseButton),
    Moved,
    ScrollDown,
    ScrollUp,
    ScrollLeft,
    ScrollRight,
}

/// A mouse event at a terminal cell.
#[derive(Clone, Copy, Debug, PartialEq, Eq, Structural)]
pub struct MouseEvent {
    pub kind: MouseEventKind,
    pub column: u16,
    pub row: u16,
    pub modifiers: KeyModifiers,
}

/// A terminal event.
#[derive(Clone, Debug)]
pub enum Event {
    FocusGained,
    FocusLost,
    Key(KeyEvent),
    Mouse(MouseEvent),
    Paste(String),
    Resize(u16, u16),
}

impl KeyModifiers {
    pub open spec fn spec_none() -> KeyModifiers {
        KeyModifiers {
            shift: false,
            control: false,
            alt: false,
            super_key: false,
            hyper: false,
            meta: false,
        }
    }

    pub open spec fn spec_is_empty(self) -> bool {
        self == KeyModifiers::spec_none()
    }

    /// Every modifier of `other` is in `self`.
    pub open spec fn spec_contains(self, other: KeyModifiers) -> bool {
        &&& other.shift ==> self.shift
        &&& other.control ==> self.control
        &&& other.alt ==> self.alt
        &&& other.super_key ==> self.super_key
        &&& other.hyper ==> self.hyper
        &&& other.meta ==> self.meta
    }

    /// The modifiers of `self` that are not in `other`.
    pub open spec fn spec_difference(self, other: KeyModifiers) -> KeyModifiers {
        KeyModifiers {
            shift: self.shift && !other.shift,
            control: self.control && !other.control,
            alt: self.alt && !other.alt,
            super_key: self.super_key && !other.super_key,
            hyper: self.hyper && !other.hyper,
            meta: self.meta && !other.meta,
        }
    }

    /// The modifiers of `self` and of `other`.
    pub open spec fn spec_union(self, other: KeyModifiers) -> KeyModifiers {
        KeyModifiers {
            shift: self.shift || other.shift,
            control: self.control || other.control,
            alt: self.alt || other.alt,
            super_key: self.super_key || other.super_key,
            hyper: self.hyper || other.hyper,
            meta: self.meta || other.meta,
        }
    }

    pub open spec fn spec_shift() -> KeyModifiers {
        KeyModifiers { shift: true, ..KeyModifiers::spec_none() }
    }

    pub open spec fn spec_control() -> KeyModifiers {
        KeyModifiers { control: true, ..KeyModifiers::spec_none() }
    }

    pub open spec fn spec_alt() -> KeyModifiers {
        KeyModifiers { alt: true, ..KeyModifiers::spec_none() }
    }

    pub open spec fn spec_super() -> KeyModifiers {
        KeyModifiers { super_key: true, ..KeyModifiers::spec_none() }
    }

    pub open spec fn spec_meta() -> KeyModifiers {
        KeyModifiers { meta: true, ..KeyModifiers::spec_none() }
    }

    /// No modifier.
    pub fn none() -> (m: KeyModifiers)
        ensures
            m == KeyModifiers::spec_none(),
    {
        KeyModifiers {
            shift: false,
            control: false,
            alt: false,
            super_key: false,
            hyper: false,
            meta: false,
        }
    }

    /// Shift alone.
    pub fn shift() -> (m: KeyModifiers)
        ensures
            m == KeyModifiers::spec_shift(),
    {
        KeyModifiers { shift: true, ..KeyModifiers::none() }
    }

    /// Control alone.
    pub fn control() -> (m: KeyModifiers)
        ensures
            m == KeyModifiers::spec_control(),
    {
        KeyModifiers { control: true, ..KeyModifiers::none() }
    }

    /// Alt alone.
    pub fn alt() -> (m: KeyModifiers)
        ensures
            m == KeyModifiers::spec_alt(),
    {
        KeyModifiers { alt: true, ..KeyModifiers::none() }
    }

    /// Super alone.
    pub fn super_() -> (m: KeyModifiers)
        ensures
            m == KeyModifiers::spec_super(),
    {
        KeyModifiers { super_key: true, ..KeyModifiers::none() }
    }

    /// Meta alone.
    pub fn meta() -> (m: KeyModifiers)
        ensures
            m == KeyModifiers::spec_meta(),
    {
        KeyModifiers { meta: true, ..KeyModifiers::none() }
    }

    pub fn is_empty(&self) -> (b: bool)
        ensures
            b == self.spec_is_empty(),
    {
        !self.shift && !self.control && !self.alt && !self.super_key && !self.hyper && !self.meta
    }

    pub fn contains(&self, other: KeyModifiers) -> (b: bool)
        ensures
            b == self.spec_contains(other),
    {
        (!other.shift || self.shift) && (!other.control || self.control) && (!other.alt
            || self.alt) && (!other.super_key || self.super_key) && (!other.hyper || self.hyper)
            && (!other.meta || self.meta)
    }

    pub fn difference(self, other: KeyModifiers) -> (m: KeyModifiers)
        ensures
            m == self.spec_difference(other),
    {
        KeyModifiers {
            shift: self.shift && !other.shift,
            control: self.control && !other.control,
            alt: self.alt && !other.alt,
            super_key: self.super_key && !other.super_key,
            hyper: self.hyper && !other.hyper,
            meta: self.meta && !other.meta,
        }
    }

    pub fn union(self, other: KeyModifiers) -> (m: KeyModifiers)
        ensures
            m == self.spec_union(other),
    {
        KeyModifiers {
            shift: self.shift || other.shift,
            control: self.control || other.control,
            alt: self.alt || other.alt,
            super_key: self.super_key || other.super_key,
            hyper: self.hyper || other.hyper,
            meta: self.meta || other.meta,
        }
    }
}

impl KeyEventState {
    pub open spec fn spec_empty() -> KeyEventState {
        KeyEventState { keypad: false, caps_lock: false, num_lock: false }
    }

    pub fn empty() -> (s: KeyEventState)
        ensures
            s == KeyEventState::spec_empty(),
    {
        KeyEventState { keypad: false, caps_lock: false, num_lock: false }
    }
}

/// `c` is an ASCII character.
pub open spec fn spec_is_ascii(c: char) -> bool {
    (c as int) < 128
}

/// Every character of `s` is ASCII.
pub open spec fn spec_is_ascii_text(s: Seq<char>) -> bool {
    forall|i: int| 0 <= i < s.len() ==> spec_is_ascii(#[trigger] s[i])
}

/// `c` is an ASCII capital letter.
pub open spec fn spec_is_ascii_uppercase(c: char) -> bool {
    'A' <= c <= 'Z'
}

/// `c` with an ASCII small letter turned into its capital.
pub open spec fn spec_to_ascii_uppercase(c: char) -> char {
    if 'a' <= c <= 'z' {
        ((c as int) - 32) as char
    } else {
        c
    }
}

pub fn is_ascii_uppercase(c: char) -> (b: bool)
    ensures
        b == spec_is_ascii_uppercase(c),
{
    'A' <= c && c <= 'Z'
}

pub fn to_ascii_uppercase(c: char) -> (r: char)
    ensures
        r == spec_to_ascii_uppercase(c),
{
    if 'a' <= c && c <= 'z' {
        let b: u8 = c as u8;
        (b - 32) as char
    } else {
        c
    }
}

impl KeyEvent {
    /// The event with its letter case made canonical: Shift is present exactly
    /// when the key is an ASCII capital letter, small letters under Shift being
    /// turned into capitals.
    pub open spec fn spec_normalize_case(self) -> KeyEvent {
        match self.code {
            KeyCode::Char(c) => {
                if spec_is_ascii_uppercase(c) {
                    KeyEvent {
                        modifiers: self.modifiers.spec_union(KeyModifiers::spec_shift()),
                        ..self
                    }
                } else if self.modifiers.shift {
                    KeyEvent { code: KeyCode::Char(spec_to_ascii_uppercase(c)), ..self }
                } else {
                    self
                }
            },
            _ => self,
        }
    }

    /// Key events are equal when they are equal after case normalization.
    pub open spec fn spec_eq(self, other: KeyEvent) -> bool {
        self.spec_normalize_case() == other.spec_normalize_case()
    }

    /// A key press with empty state.
    pub fn new(code: KeyCode, modifiers: KeyModifiers) -> (k: KeyEvent)
        ensures
            k == (KeyEvent {
                code,
                modifiers,
                kind: KeyEventKind::Press,
                state: KeyEventState::spec_empty(),
            }),
    {
        KeyEvent { code, modifiers, kind: KeyEventKind::Press, state: KeyEventState::empty() }
    }

    pub fn normalize_case(self) -> (k: KeyEvent)
        ensures
            k == self.spec_normalize_case(),
    {
        match self.code {
            KeyCode::Char(c) => {
                if is_ascii_uppercase(c) {
                    KeyEvent { modifiers: self.modifiers.union(KeyModifiers::shift()), ..self }
                } else if self.modifiers.shift {
                    KeyEvent { code: KeyCode::Char(to_ascii_uppercase(c)), ..self }
                } else {
                    self
                }
            },
            _ => self,
        }
    }

    /// Equality of key events up to letter case normalization.
    pub fn key_eq(&self, other: &KeyEvent) -> (b: bool)
        ensures
            b == self.spec_eq(*other),
    {
        let a = self.normalize_case();
        let b = other.normalize_case();
        a.code == b.code && a.modifiers == b.modifiers && a.kind == b.kind && a.state == b.state
    }

    pub fn is_press(&self) -> (b: bool)
        ensures
            b == (self.kind == KeyEventKind::Press),
    {
        self.kind == KeyEventKind::Press
    }
}

/// The event is a press of `code` with exactly the modifiers `mods`, whatever
/// the extra key state.
pub open spec fn spec_is_press(ev: Event, code: KeyCode, mods: KeyModifiers) -> bool {
    ev matches Event::Key(k) && k.code == code && k.kind == KeyEventKind::Press && k.modifiers
        == mods
}

impl Event {
    pub open spec fn spec_as_key_event(self) -> Option<KeyEvent> {
        match self {
            Event::Key(k) => Some(k),
            _ => None,
        }
    }

    /// The key event that this event holds, of whatever kind.
    pub fn as_key_event(&self) -> (r: Option<KeyEvent>)
        ensures
            r == self.spec_as_key_event(),
    {
        match self {
            Event::Key(k) => Some(*k),
            _ => None,
        }
    }

    /// Whether the event is a press of `code` with exactly the modifiers `mods`.
    pub fn is_press(&self, code: KeyCode, mods: KeyModifiers) -> (b: bool)
        ensures
            b == spec_is_press(*self, code, mods),
    {
        match self {
            Event::Key(k) => k.code == code && k.kind == KeyEventKind::Press && k.modifiers
                == mods,
            _ => false,
        }
    }

    /// Whether the event is a press of `code` with no modifier.
    pub fn is_plain_press(&self, code: KeyCode) -> (b: bool)
        ensures
            b == spec_is_press(*self, code, KeyModifiers::spec_none()),
    {
        self.is_press(code, KeyModifiers::none())
    }
}

} // verus!
