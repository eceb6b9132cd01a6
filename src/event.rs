//! The structured events that terminal input decodes into.
use vstd::prelude::*;

use crate::csi::Csi;
use crate::dcs::Dcs;
use crate::WindowSize;

verus! {

/// One discrete occurrence read from the terminal.
#[derive(Debug, Clone, PartialEq, Eq)]
pub enum Event {
    Key(KeyEvent),
    Mouse(MouseEvent),
    /// The window was resized to the given dimensions.
    WindowResized(WindowSize),
    FocusIn,
    FocusOut,
    /// A "bracketed" paste: the pasted text as one unit.
    Paste(String),
    /// A parsed escape sequence starting with CSI (control sequence introducer).
    Csi(Csi),
    Dcs(Dcs),
}

impl Event {
    /// Whether this event is a raw control-sequence report rather than user input.
    pub open spec fn spec_is_escape(&self) -> bool {
        self is Csi || self is Dcs
    }

    #[verifier::when_used_as_spec(spec_is_escape)]
    pub fn is_escape(&self) -> (r: bool)
        ensures
            r == self.spec_is_escape(),
    {
        match self {
            Event::Csi(_) | Event::Dcs(_) => true,
            _ => false,
        }
    }
}

/// A set of modifier keys, held as bits.
#[derive(Debug, Clone, Copy, PartialEq, Eq, Structural)]
pub struct Modifiers {
    pub bits: u8,
}

impl Modifiers {
    pub const NONE: u8 = 0;

    pub const SHIFT: u8 = 2;

    pub const ALT: u8 = 4;

    pub const CONTROL: u8 = 8;

    pub const SUPER: u8 = 16;

    pub const HYPER: u8 = 32;

    pub const META: u8 = 64;

    /// Whether every bit of `flag` is set.
    pub open spec fn has(self, flag: u8) -> bool {
        self.bits & flag == flag
    }

    #[verifier::when_used_as_spec(has)]
    pub fn contains(self, flag: u8) -> (r: bool)
        ensures
            r == self.has(flag),
    {
        self.bits & flag == flag
    }

    pub open spec fn spec_with(self, flag: u8) -> Modifiers {
        Modifiers { bits: self.bits | flag }
    }

    /// These modifiers with the bits of `flag` added.
    #[verifier::when_used_as_spec(spec_with)]
    pub fn with(self, flag: u8) -> (r: Modifiers)
        ensures
            r == self.spec_with(flag),
    {
        Modifiers { bits: self.bits | flag }
    }

    pub open spec fn spec_without(self, flag: u8) -> Modifiers {
        Modifiers { bits: self.bits & !flag }
    }

    /// These modifiers with the bits of `flag` taken out.
    #[verifier::when_used_as_spec(spec_without)]
    pub fn without(self, flag: u8) -> (r: Modifiers)
        ensures
            r == self.spec_without(flag),
    {
        Modifiers { bits: self.bits & !flag }
    }

    pub fn is_empty(self) -> (r: bool)
        ensures
            r == (self.bits == 0),
    {
        self.bits == 0
    }
}

/// Extra state that a key event may carry.
#[derive(Debug, Clone, Copy, PartialEq, Eq, Structural)]
pub struct KeyEventState {
    pub bits: u8,
}

impl KeyEventState {
    pub const NONE: u8 = 0;

    pub const KEYPAD: u8 = 2;

    pub const CAPS_LOCK: u8 = 4;

    pub const NUM_LOCK: u8 = 8;

    pub open spec fn spec_union(self, other: KeyEventState) -> KeyEventState {
        KeyEventState { bits: self.bits | other.bits }
    }

    #[verifier::when_used_as_spec(spec_union)]
    pub fn union(self, other: KeyEventState) -> (r: KeyEventState)
        ensures
            r == self.spec_union(other),
    {
        KeyEventState { bits: self.bits | other.bits }
    }
}

#[derive(Debug, Clone, Copy, PartialEq, Eq, Structural)]
pub struct KeyEvent {
    pub code: KeyCode,
    pub kind: KeyEventKind,
    pub modifiers: Modifiers,
    pub state: KeyEventState,
}

/// A key press with the given code and modifiers and no extra state.
pub open spec fn press(code: KeyCode, modifiers: Modifiers) -> KeyEvent {
    KeyEvent { code, modifiers, kind: KeyEventKind::Press, state: KeyEventState { bits: 0 } }
}

impl KeyEvent {
    pub fn new(code: KeyCode, modifiers: Modifiers) -> (r: KeyEvent)
        ensures
            r == press(code, modifiers),
    {
        KeyEvent { code, modifiers, kind: KeyEventKind::Press, state: KeyEventState { bits: 0 } }
    }
}

impl From<KeyCode> for KeyEvent {
    fn from(code: KeyCode) -> (r: KeyEvent) {
        KeyEvent { code, kind: KeyEventKind::Press, modifiers: Modifiers { bits: 0 }, state: KeyEventState { bits: 0 } }
    }
}

impl vstd::std_specs::convert::FromSpecImpl<KeyCode> for KeyEvent {
    open spec fn obeys_from_spec() -> bool {
        true
    }

    open spec fn from_spec(code: KeyCode) -> KeyEvent {
        press(code, Modifiers { bits: 0 })
    }
}

#[derive(Debug, Clone, Copy, PartialEq, Eq, Structural)]
pub enum KeyEventKind {
    Press,
    Release,
    Repeat,
}

#[derive(Debug, Clone, Copy, PartialEq, Eq, Structural)]
pub enum KeyCode {
    Char(char),
    Enter,
    Backspace,
    Tab,
    Escape,
    Left,
    Right,
    Up,
    Down,
    Home,
    End,
    BackTab,
    PageUp,
    PageDown,
    Insert,
    Delete,
    KeypadBegin,
    CapsLock,
    ScrollLock,
    NumLock,
    PrintScreen,
    Pause,
    Menu,
    Null,
    /// F1-F35 "function" keys
    Function(u8),
    Modifier(ModifierKeyCode),
    Media(MediaKeyCode),
}

#[derive(Debug, Clone, Copy, PartialEq, Eq, Structural)]
pub enum ModifierKeyCode {
    LeftShift,
    LeftControl,
    LeftAlt,
    LeftSuper,
    LeftHyper,
    LeftMeta,
    RightShift,
    RightControl,
    RightAlt,
    RightSuper,
    RightHyper,
    RightMeta,
    IsoLevel3Shift,
    IsoLevel5Shift,
}

#[derive(Debug, Clone, Copy, PartialEq, Eq, Structural)]
pub enum MediaKeyCode {
    Play,
    Pause,
    PlayPause,
    Reverse,
    Stop,
    FastForward,
    Rewind,
    TrackNext,
    TrackPrevious,
    Record,
    LowerVolume,
    RaiseVolume,
    MuteVolume,
}

#[derive(Debug, Clone, Copy, PartialEq, Eq, Structural)]
pub struct MouseEvent {
    /// The kind of mouse event that was caused.
    pub kind: MouseEventKind,
    /// The one-based column (or pixel column) that the event occurred on.
    pub column: u16,
    /// The one-based row (or pixel row) that the event occurred on.
    pub row: u16,
    /// The key modifiers active when the event occurred.
    pub modifiers: Modifiers,
}

#[derive(Debug, Clone, Copy, PartialEq, Eq, Structural)]
pub enum MouseEventKind {
    Down(MouseButton),
    Up(MouseButton),
    Drag(MouseButton),
    Moved,
    ScrollDown,
    ScrollUp,
    ScrollLeft,
    ScrollRight,
}

#[derive(Debug, Clone, Copy, PartialEq, Eq, Structural)]
pub enum MouseButton {
    Left,
    Right,
    Middle,
}

} // verus!
