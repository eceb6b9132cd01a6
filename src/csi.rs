//! Control sequences introduced by `ESC [` (CSI).
use vstd::prelude::*;

use crate::event::Modifiers;
use crate::style::{Blink, ColorSpec, CursorStyle, Font, Intensity, RgbaColor, Underline, VerticalAlign};
use crate::text::{decimal, push_all, push_decimal, push_signed, signed_decimal, string_of};
use crate::OneBased;

verus! {

#[derive(Debug, Clone, Copy, PartialEq, Eq, Structural)]
pub enum Csi {
    /// "Select Graphics Rendition" (SGR): how cells are rendered.
    Sgr(Sgr),
    Cursor(Cursor),
    Edit(Edit),
    Mode(Mode),
    Mouse(MouseReport),
    Keyboard(Keyboard),
    Device(Device),
    Theme(Theme),
}

#[derive(Debug, Clone, Copy, PartialEq, Eq, Structural)]
pub enum Sgr {
    /// Resets the graphics rendition to default.
    Reset,
    Intensity(Intensity),
    Underline(Underline),
    Blink(Blink),
    Italic(bool),
    Reverse(bool),
    Invisible(bool),
    StrikeThrough(bool),
    Overline(bool),
    Font(Font),
    VerticalAlign(VerticalAlign),
    Foreground(ColorSpec),
    Background(ColorSpec),
    UnderlineColor(ColorSpec),
}

#[derive(Debug, Clone, Copy, PartialEq, Eq, Structural)]
pub enum Cursor {
    /// CBT: moves the cursor n tabs backward.
    BackwardTabulation(u32),
    /// TBC: tabulation clear.
    TabulationClear(TabulationClear),
    /// CHA: moves the cursor to the n-th column of the active line.
    CharacterAbsolute(OneBased),
    /// HPA: moves the cursor to the n-th column of the active line.
    CharacterPositionAbsolute(OneBased),
    /// HPB: moves the cursor n columns left.
    CharacterPositionBackward(u32),
    /// HPR: moves the cursor n columns right.
    CharacterPositionForward(u32),
    /// HVP: moves the cursor to the given line and column.
    CharacterAndLinePosition { line: OneBased, col: OneBased },
    /// VPA: moves the cursor to line n of the current column.
    LinePositionAbsolute(u32),
    /// VPB: moves the cursor n lines up.
    LinePositionBackward(u32),
    /// VPR: moves the cursor n lines down.
    LinePositionForward(u32),
    /// CHT: moves the cursor n tabs forward.
    ForwardTabulation(u32),
    /// CNL: moves the cursor to the first column of the n-th following line.
    NextLine(u32),
    /// CPL: moves the cursor to the first column of the n-th preceding line.
    PrecedingLine(u32),
    /// CPR: the terminal's report of the active position.
    ActivePositionReport { line: OneBased, col: OneBased },
    /// The request to which the terminal answers with `ActivePositionReport`.
    RequestActivePositionReport,
    /// SCP: save cursor position.
    SaveCursor,
    RestoreCursor,
    /// CTC: cursor tabulation control.
    TabulationControl(CursorTabulationControl),
    /// CUB: cursor left.
    Left(u32),
    /// CUD: cursor down.
    Down(u32),
    /// CUF: cursor right.
    Right(u32),
    /// CUU: cursor up.
    Up(u32),
    /// CUP: cursor position.
    Position { line: OneBased, col: OneBased },
    /// CVT: cursor line tabulation.
    LineTabulation(u32),
    /// DECSTBM: set top and bottom margins.
    SetTopAndBottomMargins { top: OneBased, bottom: OneBased },
    /// DECSLRM: set left and right margins.
    SetLeftAndRightMargins { left: OneBased, right: OneBased },
    CursorStyle(CursorStyle),
}

#[derive(Debug, Clone, Copy, PartialEq, Eq, Structural)]
pub enum CursorTabulationControl {
    SetCharacterTabStopAtActivePosition,
    SetLineTabStopAtActiveLine,
    ClearCharacterTabStopAtActivePosition,
    ClearLineTabstopAtActiveLine,
    ClearAllCharacterTabStopsAtActiveLine,
    ClearAllCharacterTabStops,
    ClearAllLineTabStops,
}

impl CursorTabulationControl {
    pub open spec fn spec_code(self) -> u8 {
        match self {
            CursorTabulationControl::SetCharacterTabStopAtActivePosition => 0,
            CursorTabulationControl::SetLineTabStopAtActiveLine => 1,
            CursorTabulationControl::ClearCharacterTabStopAtActivePosition => 2,
            CursorTabulationControl::ClearLineTabstopAtActiveLine => 3,
            CursorTabulationControl::ClearAllCharacterTabStopsAtActiveLine => 4,
            CursorTabulationControl::ClearAllCharacterTabStops => 5,
            CursorTabulationControl::ClearAllLineTabStops => 6,
        }
    }

    #[verifier::when_used_as_spec(spec_code)]
    pub fn code(self) -> (r: u8)
        ensures
            r == self.spec_code(),
    {
        match self {
            CursorTabulationControl::SetCharacterTabStopAtActivePosition => 0,
            CursorTabulationControl::SetLineTabStopAtActiveLine => 1,
            CursorTabulationControl::ClearCharacterTabStopAtActivePosition => 2,
            CursorTabulationControl::ClearLineTabstopAtActiveLine => 3,
            CursorTabulationControl::ClearAllCharacterTabStopsAtActiveLine => 4,
            CursorTabulationControl::ClearAllCharacterTabStops => 5,
            CursorTabulationControl::ClearAllLineTabStops => 6,
        }
    }
}

#[derive(Debug, Clone, Copy, PartialEq, Eq, Structural)]
pub enum TabulationClear {
    ClearCharacterTabStopAtActivePosition,
    ClearLineTabStopAtActiveLine,
    ClearCharacterTabStopsAtActiveLine,
    ClearAllCharacterTabStops,
    ClearAllLineTabStops,
    ClearAllTabStops,
}

impl TabulationClear {
    pub open spec fn spec_code(self) -> u8 {
        match self {
            TabulationClear::ClearCharacterTabStopAtActivePosition => 0,
            TabulationClear::ClearLineTabStopAtActiveLine => 1,
            TabulationClear::ClearCharacterTabStopsAtActiveLine => 2,
            TabulationClear::ClearAllCharacterTabStops => 3,
            TabulationClear::ClearAllLineTabStops => 4,
            TabulationClear::ClearAllTabStops => 5,
        }
    }

    #[verifier::when_used_as_spec(spec_code)]
    pub fn code(self) -> (r: u8)
        ensures
            r == self.spec_code(),
    {
        match self {
            TabulationClear::ClearCharacterTabStopAtActivePosition => 0,
            TabulationClear::ClearLineTabStopAtActiveLine => 1,
            TabulationClear::ClearCharacterTabStopsAtActiveLine => 2,
            TabulationClear::ClearAllCharacterTabStops => 3,
            TabulationClear::ClearAllLineTabStops => 4,
            TabulationClear::ClearAllTabStops => 5,
        }
    }
}

#[derive(Debug, Clone, Copy, PartialEq, Eq, Structural)]
pub enum Edit {
    /// DCH: delete n characters.
    DeleteCharacter(u32),
    /// DL: delete n lines.
    DeleteLine(u32),
    /// ECH: erase n characters.
    EraseCharacter(u32),
    /// EL: erase in line.
    EraseInLine(EraseInLine),
    /// ICH: insert n blank characters.
    InsertCharacter(u32),
    /// IL: insert n blank lines.
    InsertLine(u32),
    /// SD: scroll down n lines.
    ScrollDown(u32),
    /// SU: scroll up n lines.
    ScrollUp(u32),
    /// ED: erase in display.
    EraseInDisplay(EraseInDisplay),
    /// REP: repeat the preceding character n times.
    Repeat(u32),
}

#[derive(Debug, Clone, Copy, PartialEq, Eq, Structural)]
pub enum EraseInLine {
    EraseToEndOfLine,
    EraseToStartOfLine,
    EraseLine,
}

#[derive(Debug, Clone, Copy, PartialEq, Eq, Structural)]
pub enum EraseInDisplay {
    EraseToEndOfDisplay,
    EraseToStartOfDisplay,
    EraseDisplay,
    EraseScrollback,
}

#[derive(Debug, Clone, Copy, PartialEq, Eq, Structural)]
pub enum Mode {
    SetDecPrivateMode(DecPrivateMode),
    ResetDecPrivateMode(DecPrivateMode),
    SaveDecPrivateMode(DecPrivateMode),
    RestoreDecPrivateMode(DecPrivateMode),
    /// DECRQM: ask the terminal for the setting of a mode.
    QueryDecPrivateMode(DecPrivateMode),
    /// DECRPM: the terminal's answer to `QueryDecPrivateMode`.
    ReportDecPrivateMode { mode: DecPrivateMode, setting: DecModeSetting },
    SetMode(TerminalMode),
    ResetMode(TerminalMode),
    QueryMode(TerminalMode),
    XtermKeyMode { resource: XtermKeyModifierResource, value: Option<i64> },
}

#[derive(Debug, Clone, Copy, PartialEq, Eq, Structural)]
pub enum DecPrivateMode {
    Code(DecPrivateModeCode),
    Unspecified(u16),
}

impl DecPrivateMode {
    pub open spec fn spec_number(self) -> u16 {
        match self {
            DecPrivateMode::Code(c) => c.spec_code(),
            DecPrivateMode::Unspecified(n) => n,
        }
    }

    #[verifier::when_used_as_spec(spec_number)]
    pub fn number(self) -> (r: u16)
        ensures
            r == self.spec_number(),
    {
        match self {
            DecPrivateMode::Code(c) => c.code(),
            DecPrivateMode::Unspecified(n) => n,
        }
    }
}

#[derive(Debug, Clone, Copy, PartialEq, Eq, Structural)]
pub enum DecPrivateModeCode {
    ApplicationCursorKeys,
    DecAnsiMode,
    Select132Columns,
    SmoothScroll,
    ReverseVideo,
    OriginMode,
    AutoWrap,
    AutoRepeat,
    StartBlinkingCursor,
    ShowCursor,
    ReverseWraparound,
    LeftRightMarginMode,
    SixelDisplayMode,
    MouseTracking,
    HighlightMouseTracking,
    ButtonEventMouse,
    AnyEventMouse,
    FocusTracking,
    Utf8Mouse,
    SGRMouse,
    RXVTMouse,
    SGRPixelsMouse,
    XTermMetaSendsEscape,
    XTermAltSendsEscape,
    SaveCursor,
    ClearAndEnableAlternateScreen,
    EnableAlternateScreen,
    OptEnableAlternateScreen,
    BracketedPaste,
    GraphemeClustering,
    Theme,
    UsePrivateColorRegistersForEachGraphic,
    SynchronizedOutput,
    MinTTYApplicationEscapeKeyMode,
    SixelScrollsRight,
    Win32InputMode,
}

impl DecPrivateModeCode {
    pub open spec fn spec_code(self) -> u16 {
        match self {
            DecPrivateModeCode::ApplicationCursorKeys => 1,
            DecPrivateModeCode::DecAnsiMode => 2,
            DecPrivateModeCode::Select132Columns => 3,
            DecPrivateModeCode::SmoothScroll => 4,
            DecPrivateModeCode::ReverseVideo => 5,
            DecPrivateModeCode::OriginMode => 6,
            DecPrivateModeCode::AutoWrap => 7,
            DecPrivateModeCode::AutoRepeat => 8,
            DecPrivateModeCode::StartBlinkingCursor => 12,
            DecPrivateModeCode::ShowCursor => 25,
            DecPrivateModeCode::ReverseWraparound => 45,
            DecPrivateModeCode::LeftRightMarginMode => 69,
            DecPrivateModeCode::SixelDisplayMode => 80,
            DecPrivateModeCode::MouseTracking => 1000,
            DecPrivateModeCode::HighlightMouseTracking => 1001,
            DecPrivateModeCode::ButtonEventMouse => 1002,
            DecPrivateModeCode::AnyEventMouse => 1003,
            DecPrivateModeCode::FocusTracking => 1004,
            DecPrivateModeCode::Utf8Mouse => 1005,
            DecPrivateModeCode::SGRMouse => 1006,
            DecPrivateModeCode::RXVTMouse => 1015,
            DecPrivateModeCode::SGRPixelsMouse => 1016,
            DecPrivateModeCode::XTermMetaSendsEscape => 1036,
            DecPrivateModeCode::XTermAltSendsEscape => 1039,
            DecPrivateModeCode::SaveCursor => 1048,
            DecPrivateModeCode::ClearAndEnableAlternateScreen => 1049,
            DecPrivateModeCode::EnableAlternateScreen => 47,
            DecPrivateModeCode::OptEnableAlternateScreen => 1047,
            DecPrivateModeCode::BracketedPaste => 2004,
            DecPrivateModeCode::GraphemeClustering => 2027,
            DecPrivateModeCode::Theme => 2031,
            DecPrivateModeCode::UsePrivateColorRegistersForEachGraphic => 1070,
            DecPrivateModeCode::SynchronizedOutput => 2026,
            DecPrivateModeCode::MinTTYApplicationEscapeKeyMode => 7727,
            DecPrivateModeCode::SixelScrollsRight => 8452,
            DecPrivateModeCode::Win32InputMode => 9001,
        }
    }

    /// The number by which control sequences name this mode.
    #[verifier::when_used_as_spec(spec_code)]
    pub fn code(self) -> (r: u16)
        ensures
            r == self.spec_code(),
    {
        match self {
            DecPrivateModeCode::ApplicationCursorKeys => 1,
            DecPrivateModeCode::DecAnsiMode => 2,
            DecPrivateModeCode::Select132Columns => 3,
            DecPrivateModeCode::SmoothScroll => 4,
            DecPrivateModeCode::ReverseVideo => 5,
            DecPrivateModeCode::OriginMode => 6,
            DecPrivateModeCode::AutoWrap => 7,
            DecPrivateModeCode::AutoRepeat => 8,
            DecPrivateModeCode::StartBlinkingCursor => 12,
            DecPrivateModeCode::ShowCursor => 25,
            DecPrivateModeCode::ReverseWraparound => 45,
            DecPrivateModeCode::LeftRightMarginMode => 69,
            DecPrivateModeCode::SixelDisplayMode => 80,
            DecPrivateModeCode::MouseTracking => 1000,
            DecPrivateModeCode::HighlightMouseTracking => 1001,
            DecPrivateModeCode::ButtonEventMouse => 1002,
            DecPrivateModeCode::AnyEventMouse => 1003,
            DecPrivateModeCode::FocusTracking => 1004,
            DecPrivateModeCode::Utf8Mouse => 1005,
            DecPrivateModeCode::SGRMouse => 1006,
            DecPrivateModeCode::RXVTMouse => 1015,
            DecPrivateModeCode::SGRPixelsMouse => 1016,
            DecPrivateModeCode::XTermMetaSendsEscape => 1036,
            DecPrivateModeCode::XTermAltSendsEscape => 1039,
            DecPrivateModeCode::SaveCursor => 1048,
            DecPrivateModeCode::ClearAndEnableAlternateScreen => 1049,
            DecPrivateModeCode::EnableAlternateScreen => 47,
            DecPrivateModeCode::OptEnableAlternateScreen => 1047,
            DecPrivateModeCode::BracketedPaste => 2004,
            DecPrivateModeCode::GraphemeClustering => 2027,
            DecPrivateModeCode::Theme => 2031,
            DecPrivateModeCode::UsePrivateColorRegistersForEachGraphic => 1070,
            DecPrivateModeCode::SynchronizedOutput => 2026,
            DecPrivateModeCode::MinTTYApplicationEscapeKeyMode => 7727,
            DecPrivateModeCode::SixelScrollsRight => 8452,
            DecPrivateModeCode::Win32InputMode => 9001,
        }
    }
}

#[derive(Debug, Clone, Copy, PartialEq, Eq, Structural)]
pub enum TerminalMode {
    Code(TerminalModeCode),
    Unspecified(u16),
}

impl TerminalMode {
    pub open spec fn spec_number(self) -> u16 {
        match self {
            TerminalMode::Code(c) => c.spec_code(),
            TerminalMode::Unspecified(n) => n,
        }
    }

    #[verifier::when_used_as_spec(spec_number)]
    pub fn number(self) -> (r: u16)
        ensures
            r == self.spec_number(),
    {
        match self {
            TerminalMode::Code(c) => c.code(),
            TerminalMode::Unspecified(n) => n,
        }
    }
}

#[derive(Debug, Clone, Copy, PartialEq, Eq, Structural)]
pub enum TerminalModeCode {
    KeyboardAction,
    Insert,
    BiDirectionalSupportMode,
    SendReceive,
    AutomaticNewline,
    ShowCursor,
}

impl TerminalModeCode {
    pub open spec fn spec_code(self) -> u16 {
        match self {
            TerminalModeCode::KeyboardAction => 2,
            TerminalModeCode::Insert => 4,
            TerminalModeCode::BiDirectionalSupportMode => 8,
            TerminalModeCode::SendReceive => 12,
            TerminalModeCode::AutomaticNewline => 20,
            TerminalModeCode::ShowCursor => 25,
        }
    }

    #[verifier::when_used_as_spec(spec_code)]
    pub fn code(self) -> (r: u16)
        ensures
            r == self.spec_code(),
    {
        match self {
            TerminalModeCode::KeyboardAction => 2,
            TerminalModeCode::Insert => 4,
            TerminalModeCode::BiDirectionalSupportMode => 8,
            TerminalModeCode::SendReceive => 12,
            TerminalModeCode::AutomaticNewline => 20,
            TerminalModeCode::ShowCursor => 25,
        }
    }
}

#[derive(Debug, Clone, Copy, PartialEq, Eq, Structural)]
pub enum XtermKeyModifierResource {
    Keyboard,
    CursorKeys,
    FunctionKeys,
    OtherKeys,
}

impl XtermKeyModifierResource {
    pub open spec fn spec_code(self) -> u8 {
        match self {
            XtermKeyModifierResource::Keyboard => 0,
            XtermKeyModifierResource::CursorKeys => 1,
            XtermKeyModifierResource::FunctionKeys => 2,
            XtermKeyModifierResource::OtherKeys => 4,
        }
    }

    #[verifier::when_used_as_spec(spec_code)]
    pub fn code(self) -> (r: u8)
        ensures
            r == self.spec_code(),
    {
        match self {
            XtermKeyModifierResource::Keyboard => 0,
            XtermKeyModifierResource::CursorKeys => 1,
            XtermKeyModifierResource::FunctionKeys => 2,
            XtermKeyModifierResource::OtherKeys => 4,
        }
    }
}

#[derive(Debug, Clone, Copy, PartialEq, Eq, Structural)]
pub enum DecModeSetting {
    NotRecognized,
    Enabled,
    Reset,
    PermanentlySet,
    PermanentlyReset,
}

impl DecModeSetting {
    pub open spec fn spec_code(self) -> u8 {
        match self {
            DecModeSetting::NotRecognized => 0,
            DecModeSetting::Enabled => 1,
            DecModeSetting::Reset => 2,
            DecModeSetting::PermanentlySet => 3,
            DecModeSetting::PermanentlyReset => 4,
        }
    }

    #[verifier::when_used_as_spec(spec_code)]
    pub fn code(self) -> (r: u8)
        ensures
            r == self.spec_code(),
    {
        match self {
            DecModeSetting::NotRecognized => 0,
            DecModeSetting::Enabled => 1,
            DecModeSetting::Reset => 2,
            DecModeSetting::PermanentlySet => 3,
            DecModeSetting::PermanentlyReset => 4,
        }
    }
}

#[derive(Debug, Clone, Copy, PartialEq, Eq, Structural)]
pub enum MouseReport {
    Sgr1006 { x: u16, y: u16, button: MouseButton, modifiers: Modifiers },
    Sgr1016 { x_pixels: u16, y_pixels: u16, button: MouseButton, modifiers: Modifiers },
}

#[derive(Debug, Clone, Copy, PartialEq, Eq, Structural)]
pub enum MouseButton {
    Button1Press,
    Button2Press,
    Button3Press,
    Button4Press,
    Button5Press,
    Button6Press,
    Button7Press,
    Button1Release,
    Button2Release,
    Button3Release,
    Button4Release,
    Button5Release,
    Button6Release,
    Button7Release,
    Button1Drag,
    Button2Drag,
    Button3Drag,
    NoButton,
}

/// The flags of the Kitty keyboard protocol, held as bits.
#[derive(Debug, Clone, Copy, PartialEq, Eq, Structural)]
pub struct KittyKeyboardFlags {
    pub bits: u8,
}

impl KittyKeyboardFlags {
    pub const NONE: u8 = 0;

    pub const DISAMBIGUATE_ESCAPE_CODES: u8 = 1;

    pub const REPORT_EVENT_TYPES: u8 = 2;

    pub const REPORT_ALTERNATE_KEYS: u8 = 4;

    pub const REPORT_ALL_KEYS_AS_ESCAPE_CODES: u8 = 8;

    pub const REPORT_ASSOCIATED_TEXT: u8 = 16;

    pub fn union(self, other: KittyKeyboardFlags) -> (r: KittyKeyboardFlags)
        ensures
            r.bits == self.bits | other.bits,
    {
        KittyKeyboardFlags { bits: self.bits | other.bits }
    }
}

#[derive(Debug, Clone, Copy, PartialEq, Eq, Structural)]
pub enum Keyboard {
    QueryFlags,
    /// Sent by the terminal in answer to `QueryFlags`.
    ReportFlags(KittyKeyboardFlags),
    PushFlags(KittyKeyboardFlags),
    PopFlags(u8),
    SetFlags { flags: KittyKeyboardFlags, mode: SetKeyboardFlagsMode },
}

#[derive(Debug, Clone, Copy, PartialEq, Eq, Structural)]
pub enum SetKeyboardFlagsMode {
    AssignAll,
    SetSpecified,
    ClearSpecified,
}

impl SetKeyboardFlagsMode {
    pub open spec fn spec_code(self) -> u8 {
        match self {
            SetKeyboardFlagsMode::AssignAll => 1,
            SetKeyboardFlagsMode::SetSpecified => 2,
            SetKeyboardFlagsMode::ClearSpecified => 3,
        }
    }

    #[verifier::when_used_as_spec(spec_code)]
    pub fn code(self) -> (r: u8)
        ensures
            r == self.spec_code(),
    {
        match self {
            SetKeyboardFlagsMode::AssignAll => 1,
            SetKeyboardFlagsMode::SetSpecified => 2,
            SetKeyboardFlagsMode::ClearSpecified => 3,
        }
    }
}

#[derive(Debug, Clone, Copy, PartialEq, Eq, Structural)]
pub enum Device {
    /// The terminal's answer to a device-attributes request.
    DeviceAttributes,
    SoftReset,
    RequestPrimaryDeviceAttributes,
    RequestSecondaryDeviceAttributes,
    RequestTertiaryDeviceAttributes,
    StatusReport,
    RequestTerminalNameAndVersion,
    RequestTerminalParameters(i64),
}

#[derive(Debug, Clone, Copy, PartialEq, Eq, Structural)]
pub enum Theme {
    Query,
    Report(ThemeMode),
}

#[derive(Debug, Clone, Copy, PartialEq, Eq, Structural)]
pub enum ThemeMode {
    Dark,
    Light,
}


impl DecPrivateMode {
    pub open spec fn spec_from_number(n: u16) -> DecPrivateMode {
        match n {
            1 => DecPrivateMode::Code(DecPrivateModeCode::ApplicationCursorKeys),
            2 => DecPrivateMode::Code(DecPrivateModeCode::DecAnsiMode),
            3 => DecPrivateMode::Code(DecPrivateModeCode::Select132Columns),
            4 => DecPrivateMode::Code(DecPrivateModeCode::SmoothScroll),
            5 => DecPrivateMode::Code(DecPrivateModeCode::ReverseVideo),
            6 => DecPrivateMode::Code(DecPrivateModeCode::OriginMode),
            7 => DecPrivateMode::Code(DecPrivateModeCode::AutoWrap),
            8 => DecPrivateMode::Code(DecPrivateModeCode::AutoRepeat),
            12 => DecPrivateMode::Code(DecPrivateModeCode::StartBlinkingCursor),
            25 => DecPrivateMode::Code(DecPrivateModeCode::ShowCursor),
            45 => DecPrivateMode::Code(DecPrivateModeCode::ReverseWraparound),
            69 => DecPrivateMode::Code(DecPrivateModeCode::LeftRightMarginMode),
            80 => DecPrivateMode::Code(DecPrivateModeCode::SixelDisplayMode),
            1000 => DecPrivateMode::Code(DecPrivateModeCode::MouseTracking),
            1001 => DecPrivateMode::Code(DecPrivateModeCode::HighlightMouseTracking),
            1002 => DecPrivateMode::Code(DecPrivateModeCode::ButtonEventMouse),
            1003 => DecPrivateMode::Code(DecPrivateModeCode::AnyEventMouse),
            1004 => DecPrivateMode::Code(DecPrivateModeCode::FocusTracking),
            1005 => DecPrivateMode::Code(DecPrivateModeCode::Utf8Mouse),
            1006 => DecPrivateMode::Code(DecPrivateModeCode::SGRMouse),
            1015 => DecPrivateMode::Code(DecPrivateModeCode::RXVTMouse),
            1016 => DecPrivateMode::Code(DecPrivateModeCode::SGRPixelsMouse),
            1036 => DecPrivateMode::Code(DecPrivateModeCode::XTermMetaSendsEscape),
            1039 => DecPrivateMode::Code(DecPrivateModeCode::XTermAltSendsEscape),
            1048 => DecPrivateMode::Code(DecPrivateModeCode::SaveCursor),
            1049 => DecPrivateMode::Code(DecPrivateModeCode::ClearAndEnableAlternateScreen),
            47 => DecPrivateMode::Code(DecPrivateModeCode::EnableAlternateScreen),
            1047 => DecPrivateMode::Code(DecPrivateModeCode::OptEnableAlternateScreen),
            2004 => DecPrivateMode::Code(DecPrivateModeCode::BracketedPaste),
            2027 => DecPrivateMode::Code(DecPrivateModeCode::GraphemeClustering),
            2031 => DecPrivateMode::Code(DecPrivateModeCode::Theme),
            1070 => DecPrivateMode::Code(DecPrivateModeCode::UsePrivateColorRegistersForEachGraphic),
            2026 => DecPrivateMode::Code(DecPrivateModeCode::SynchronizedOutput),
            7727 => DecPrivateMode::Code(DecPrivateModeCode::MinTTYApplicationEscapeKeyMode),
            8452 => DecPrivateMode::Code(DecPrivateModeCode::SixelScrollsRight),
            9001 => DecPrivateMode::Code(DecPrivateModeCode::Win32InputMode),
            _ => DecPrivateMode::Unspecified(n),
        }
    }

    /// The mode that a number names: a known code where there is one.
    #[verifier::when_used_as_spec(spec_from_number)]
    pub fn from_number(n: u16) -> (r: DecPrivateMode)
        ensures
            r == DecPrivateMode::spec_from_number(n),
    {
        match n {
            1 => DecPrivateMode::Code(DecPrivateModeCode::ApplicationCursorKeys),
            2 => DecPrivateMode::Code(DecPrivateModeCode::DecAnsiMode),
            3 => DecPrivateMode::Code(DecPrivateModeCode::Select132Columns),
            4 => DecPrivateMode::Code(DecPrivateModeCode::SmoothScroll),
            5 => DecPrivateMode::Code(DecPrivateModeCode::ReverseVideo),
            6 => DecPrivateMode::Code(DecPrivateModeCode::OriginMode),
            7 => DecPrivateMode::Code(DecPrivateModeCode::AutoWrap),
            8 => DecPrivateMode::Code(DecPrivateModeCode::AutoRepeat),
            12 => DecPrivateMode::Code(DecPrivateModeCode::StartBlinkingCursor),
            25 => DecPrivateMode::Code(DecPrivateModeCode::ShowCursor),
            45 => DecPrivateMode::Code(DecPrivateModeCode::ReverseWraparound),
            69 => DecPrivateMode::Code(DecPrivateModeCode::LeftRightMarginMode),
            80 => DecPrivateMode::Code(DecPrivateModeCode::SixelDisplayMode),
            1000 => DecPrivateMode::Code(DecPrivateModeCode::MouseTracking),
            1001 => DecPrivateMode::Code(DecPrivateModeCode::HighlightMouseTracking),
            1002 => DecPrivateMode::Code(DecPrivateModeCode::ButtonEventMouse),
            1003 => DecPrivateMode::Code(DecPrivateModeCode::AnyEventMouse),
            1004 => DecPrivateMode::Code(DecPrivateModeCode::FocusTracking),
            1005 => DecPrivateMode::Code(DecPrivateModeCode::Utf8Mouse),
            1006 => DecPrivateMode::Code(DecPrivateModeCode::SGRMouse),
            1015 => DecPrivateMode::Code(DecPrivateModeCode::RXVTMouse),
            1016 => DecPrivateMode::Code(DecPrivateModeCode::SGRPixelsMouse),
            1036 => DecPrivateMode::Code(DecPrivateModeCode::XTermMetaSendsEscape),
            1039 => DecPrivateMode::Code(DecPrivateModeCode::XTermAltSendsEscape),
            1048 => DecPrivateMode::Code(DecPrivateModeCode::SaveCursor),
            1049 => DecPrivateMode::Code(DecPrivateModeCode::ClearAndEnableAlternateScreen),
            47 => DecPrivateMode::Code(DecPrivateModeCode::EnableAlternateScreen),
            1047 => DecPrivateMode::Code(DecPrivateModeCode::OptEnableAlternateScreen),
            2004 => DecPrivateMode::Code(DecPrivateModeCode::BracketedPaste),
            2027 => DecPrivateMode::Code(DecPrivateModeCode::GraphemeClustering),
            2031 => DecPrivateMode::Code(DecPrivateModeCode::Theme),
            1070 => DecPrivateMode::Code(DecPrivateModeCode::UsePrivateColorRegistersForEachGraphic),
            2026 => DecPrivateMode::Code(DecPrivateModeCode::SynchronizedOutput),
            7727 => DecPrivateMode::Code(DecPrivateModeCode::MinTTYApplicationEscapeKeyMode),
            8452 => DecPrivateMode::Code(DecPrivateModeCode::SixelScrollsRight),
            9001 => DecPrivateMode::Code(DecPrivateModeCode::Win32InputMode),
            _ => DecPrivateMode::Unspecified(n),
        }
    }
}

impl DecModeSetting {
    pub open spec fn spec_from_code(n: u32) -> Option<DecModeSetting> {
        if n == 0 {
            Some(DecModeSetting::NotRecognized)
        } else if n == 1 {
            Some(DecModeSetting::Enabled)
        } else if n == 2 {
            Some(DecModeSetting::Reset)
        } else if n == 3 {
            Some(DecModeSetting::PermanentlySet)
        } else if n == 4 {
            Some(DecModeSetting::PermanentlyReset)
        } else {
            None
        }
    }

    /// The setting that a report's number names.
    #[verifier::when_used_as_spec(spec_from_code)]
    pub fn from_code(n: u32) -> (r: Option<DecModeSetting>)
        ensures
            r == DecModeSetting::spec_from_code(n),
    {
        if n == 0 {
            Some(DecModeSetting::NotRecognized)
        } else if n == 1 {
            Some(DecModeSetting::Enabled)
        } else if n == 2 {
            Some(DecModeSetting::Reset)
        } else if n == 3 {
            Some(DecModeSetting::PermanentlySet)
        } else if n == 4 {
            Some(DecModeSetting::PermanentlyReset)
        } else {
            None
        }
    }
}

// ---------------------------------------------------------------------------
// Encoding

/// A palette color: the short codes for the sixteen ANSI colors, else `ext:5:index`.
pub open spec fn indexed_color(base: nat, bright: nat, ext: nat, i: u8) -> Seq<char> {
    if i < 8 {
        decimal((base + i) as nat)
    } else if i < 16 {
        decimal((bright + i - 8) as nat)
    } else {
        decimal(ext) + seq![':', '5', ':'] + decimal(i as nat)
    }
}

/// A true color: `code:2::r:g:b`, or `code:6::r:g:b:a` where it is not opaque.
pub open spec fn true_color(code: nat, c: RgbaColor) -> Seq<char> {
    decimal(code) + if c.alpha == 255 {
        seq![':', '2', ':', ':'] + decimal(c.red as nat) + seq![':'] + decimal(c.green as nat)
            + seq![':'] + decimal(c.blue as nat)
    } else {
        seq![':', '6', ':', ':'] + decimal(c.red as nat) + seq![':'] + decimal(c.green as nat)
            + seq![':'] + decimal(c.blue as nat) + seq![':'] + decimal(c.alpha as nat)
    }
}

fn push_indexed_color(out: &mut Vec<char>, base: u64, bright: u64, ext: u64, i: u8)
    requires
        base < 100,
        bright < 200,
    ensures
        final(out)@ == old(out)@ + indexed_color(base as nat, bright as nat, ext as nat, i),
{
    if i < 8 {
        push_decimal(out, base + i as u64);
    } else if i < 16 {
        push_decimal(out, bright + i as u64 - 8);
    } else {
        push_decimal(out, ext);
        push_all(out, &[':', '5', ':']);
        push_decimal(out, i as u64);
        assert(final(out)@ =~= old(out)@ + indexed_color(base as nat, bright as nat, ext as nat, i));
    }
}

fn push_true_color(out: &mut Vec<char>, code: u64, c: RgbaColor)
    ensures
        final(out)@ == old(out)@ + true_color(code as nat, c),
{
    push_decimal(out, code);
    if c.alpha == 255 {
        push_all(out, &[':', '2', ':', ':']);
    } else {
        push_all(out, &[':', '6', ':', ':']);
    }
    push_decimal(out, c.red as u64);
    out.push(':');
    push_decimal(out, c.green as u64);
    out.push(':');
    push_decimal(out, c.blue as u64);
    if c.alpha != 255 {
        out.push(':');
        push_decimal(out, c.alpha as u64);
    }
    assert(final(out)@ =~= old(out)@ + true_color(code as nat, c));
}

impl Sgr {
    /// The parameter text of this rendition, as it stands between `ESC [` and `m`.
    pub open spec fn spec_encode(self) -> Seq<char> {
        match self {
            Sgr::Reset => seq!['0'],
            Sgr::Intensity(Intensity::Normal) => seq!['2', '2'],
            Sgr::Intensity(Intensity::Bold) => seq!['1'],
            Sgr::Intensity(Intensity::Dim) => seq!['2'],
            Sgr::Underline(Underline::NoUnderline) => seq!['2', '4'],
            Sgr::Underline(Underline::Single) => seq!['4'],
            Sgr::Underline(Underline::Double) => seq!['2', '1'],
            Sgr::Underline(Underline::Curly) => seq!['4', ':', '3'],
            Sgr::Underline(Underline::Dotted) => seq!['4', ':', '4'],
            Sgr::Underline(Underline::Dashed) => seq!['4', ':', '5'],
            Sgr::Blink(Blink::NoBlink) => seq!['2', '5'],
            Sgr::Blink(Blink::Slow) => seq!['5'],
            Sgr::Blink(Blink::Rapid) => seq!['6'],
            Sgr::Italic(true) => seq!['3'],
            Sgr::Italic(false) => seq!['2', '3'],
            Sgr::Reverse(true) => seq!['7'],
            Sgr::Reverse(false) => seq!['2', '7'],
            Sgr::Invisible(true) => seq!['8'],
            Sgr::Invisible(false) => seq!['2', '8'],
            Sgr::StrikeThrough(true) => seq!['9'],
            Sgr::StrikeThrough(false) => seq!['2', '9'],
            Sgr::Overline(true) => seq!['5', '3'],
            Sgr::Overline(false) => seq!['5', '5'],
            Sgr::Font(Font::Default) => seq!['1', '0'],
            Sgr::VerticalAlign(VerticalAlign::BaseLine) => seq!['7', '5'],
            Sgr::VerticalAlign(VerticalAlign::SuperScript) => seq!['7', '3'],
            Sgr::VerticalAlign(VerticalAlign::SubScript) => seq!['7', '4'],
            Sgr::Foreground(ColorSpec::Reset) => seq!['3', '9'],
            Sgr::Background(ColorSpec::Reset) => seq!['4', '9'],
            Sgr::UnderlineColor(ColorSpec::Reset) => seq!['5', '9'],
            Sgr::Font(Font::Alternate(n)) => if 1 <= n <= 9 {
                decimal(10 + n as nat)
            } else {
                Seq::<char>::empty()
            },
            Sgr::Foreground(ColorSpec::PaletteIndex(i)) => indexed_color(30, 90, 38, i),
            Sgr::Background(ColorSpec::PaletteIndex(i)) => indexed_color(40, 100, 48, i),
            Sgr::UnderlineColor(ColorSpec::PaletteIndex(i)) => seq!['5', '8', ':', '5', ':']
                + decimal(i as nat),
            Sgr::Foreground(ColorSpec::TrueColor(c)) => true_color(38, c),
            Sgr::Background(ColorSpec::TrueColor(c)) => true_color(48, c),
            Sgr::UnderlineColor(ColorSpec::TrueColor(c)) => true_color(58, c),
        }
    }

    /// Appends the parameter text of this rendition.
    pub fn encode_into(self, out: &mut Vec<char>)
        ensures
            final(out)@ == old(out)@ + self.spec_encode(),
    {
        match self {
            Sgr::Reset => {
                out.push('0');
            },
            Sgr::Intensity(Intensity::Normal) => {
                push_all(out, &['2', '2']);
            },
            Sgr::Intensity(Intensity::Bold) => {
                out.push('1');
            },
            Sgr::Intensity(Intensity::Dim) => {
                out.push('2');
            },
            Sgr::Underline(Underline::NoUnderline) => {
                push_all(out, &['2', '4']);
            },
            Sgr::Underline(Underline::Single) => {
                out.push('4');
            },
            Sgr::Underline(Underline::Double) => {
                push_all(out, &['2', '1']);
            },
            Sgr::Underline(Underline::Curly) => {
                push_all(out, &['4', ':', '3']);
            },
            Sgr::Underline(Underline::Dotted) => {
                push_all(out, &['4', ':', '4']);
            },
            Sgr::Underline(Underline::Dashed) => {
                push_all(out, &['4', ':', '5']);
            },
            Sgr::Blink(Blink::NoBlink) => {
                push_all(out, &['2', '5']);
            },
            Sgr::Blink(Blink::Slow) => {
                out.push('5');
            },
            Sgr::Blink(Blink::Rapid) => {
                out.push('6');
            },
            Sgr::Italic(true) => {
                out.push('3');
            },
            Sgr::Italic(false) => {
                push_all(out, &['2', '3']);
            },
            Sgr::Reverse(true) => {
                out.push('7');
            },
            Sgr::Reverse(false) => {
                push_all(out, &['2', '7']);
            },
            Sgr::Invisible(true) => {
                out.push('8');
            },
            Sgr::Invisible(false) => {
                push_all(out, &['2', '8']);
            },
            Sgr::StrikeThrough(true) => {
                out.push('9');
            },
            Sgr::StrikeThrough(false) => {
                push_all(out, &['2', '9']);
            },
            Sgr::Overline(true) => {
                push_all(out, &['5', '3']);
            },
            Sgr::Overline(false) => {
                push_all(out, &['5', '5']);
            },
            Sgr::Font(Font::Default) => {
                push_all(out, &['1', '0']);
            },
            Sgr::VerticalAlign(VerticalAlign::BaseLine) => {
                push_all(out, &['7', '5']);
            },
            Sgr::VerticalAlign(VerticalAlign::SuperScript) => {
                push_all(out, &['7', '3']);
            },
            Sgr::VerticalAlign(VerticalAlign::SubScript) => {
                push_all(out, &['7', '4']);
            },
            Sgr::Foreground(ColorSpec::Reset) => {
                push_all(out, &['3', '9']);
            },
            Sgr::Background(ColorSpec::Reset) => {
                push_all(out, &['4', '9']);
            },
            Sgr::UnderlineColor(ColorSpec::Reset) => {
                push_all(out, &['5', '9']);
            },
            Sgr::Font(Font::Alternate(n)) => {
                if 1 <= n && n <= 9 {
                    push_decimal(out, 10 + n as u64);
                }
            },
            Sgr::Foreground(ColorSpec::PaletteIndex(i)) => push_indexed_color(out, 30, 90, 38, i),
            Sgr::Background(ColorSpec::PaletteIndex(i)) => push_indexed_color(out, 40, 100, 48, i),
            Sgr::UnderlineColor(ColorSpec::PaletteIndex(i)) => {
                push_all(out, &['5', '8', ':', '5', ':']);
                push_decimal(out, i as u64);
            },
            Sgr::Foreground(ColorSpec::TrueColor(c)) => push_true_color(out, 38, c),
            Sgr::Background(ColorSpec::TrueColor(c)) => push_true_color(out, 48, c),
            Sgr::UnderlineColor(ColorSpec::TrueColor(c)) => push_true_color(out, 58, c),
        }
        assert(final(out)@ =~= old(out)@ + self.spec_encode());
    }
}

/// A parameter that is left out where it has its default value, then the final characters.
pub open spec fn param_or_default(value: nat, default: nat, control: Seq<char>) -> Seq<char> {
    if value == default {
        control
    } else {
        decimal(value) + control
    }
}

fn push_param_or_default(out: &mut Vec<char>, value: u64, default: u64, control: &[char])
    ensures
        final(out)@ == old(out)@ + param_or_default(value as nat, default as nat, control@),
{
    if value != default {
        push_decimal(out, value);
    }
    push_all(out, control);
    assert(final(out)@ =~= old(out)@ + param_or_default(value as nat, default as nat, control@));
}

/// Two parameters separated by `;`, then the final characters.
pub open spec fn pair(a: nat, b: nat, control: Seq<char>) -> Seq<char> {
    decimal(a) + seq![';'] + decimal(b) + control
}

fn push_pair(out: &mut Vec<char>, a: u64, b: u64, control: &[char])
    ensures
        final(out)@ == old(out)@ + pair(a as nat, b as nat, control@),
{
    push_decimal(out, a);
    out.push(';');
    push_decimal(out, b);
    push_all(out, control);
    assert(final(out)@ =~= old(out)@ + pair(a as nat, b as nat, control@));
}

impl Cursor {
    /// The text of this cursor control after `ESC [`.
    pub open spec fn spec_encode(self) -> Seq<char> {
        match self {
            Cursor::BackwardTabulation(n) => param_or_default(n as nat, 0, seq!['Z']),
            Cursor::TabulationClear(n) => param_or_default(n.spec_code() as nat, 0, seq!['g']),
            Cursor::CharacterAbsolute(n) => param_or_default(n@ as nat, 1, seq!['G']),
            Cursor::CharacterPositionAbsolute(n) => param_or_default(n@ as nat, 1, seq!['`', '`']),
            Cursor::CharacterPositionBackward(n) => param_or_default(n as nat, 0, seq!['j']),
            Cursor::CharacterPositionForward(n) => param_or_default(n as nat, 0, seq!['a']),
            Cursor::CharacterAndLinePosition { line, col } => pair(line@ as nat, col@ as nat, seq!['f']),
            Cursor::LinePositionAbsolute(n) => param_or_default(n as nat, 0, seq!['d']),
            Cursor::LinePositionBackward(n) => param_or_default(n as nat, 0, seq!['k']),
            Cursor::LinePositionForward(n) => param_or_default(n as nat, 0, seq!['e']),
            Cursor::ForwardTabulation(n) => param_or_default(n as nat, 0, seq!['I']),
            Cursor::NextLine(n) => param_or_default(n as nat, 0, seq!['E']),
            Cursor::PrecedingLine(n) => param_or_default(n as nat, 0, seq!['F']),
            Cursor::ActivePositionReport { line, col } => pair(line@ as nat, col@ as nat, seq!['R']),
            Cursor::RequestActivePositionReport => seq!['6', 'n'],
            Cursor::SaveCursor => seq!['s'],
            Cursor::RestoreCursor => seq!['u'],
            Cursor::TabulationControl(n) => param_or_default(n.spec_code() as nat, 0, seq!['W']),
            Cursor::Left(n) => param_or_default(n as nat, 0, seq!['D']),
            Cursor::Down(n) => param_or_default(n as nat, 0, seq!['B']),
            Cursor::Right(n) => param_or_default(n as nat, 0, seq!['C']),
            Cursor::Up(n) => param_or_default(n as nat, 0, seq!['A']),
            Cursor::Position { line, col } => pair(line@ as nat, col@ as nat, seq!['H']),
            Cursor::LineTabulation(n) => param_or_default(n as nat, 0, seq!['Y']),
            Cursor::SetTopAndBottomMargins { top, bottom } => if top@ == 1 && bottom@ == 0xffff {
                seq!['r']
            } else {
                pair(top@ as nat, bottom@ as nat, seq!['r'])
            },
            Cursor::SetLeftAndRightMargins { left, right } => if left@ == 1 && right@ == 0xffff {
                seq!['s']
            } else {
                pair(left@ as nat, right@ as nat, seq!['s'])
            },
            Cursor::CursorStyle(style) => decimal(style.spec_code() as nat) + seq![' ', 'q'],
        }
    }

    /// Appends the text of this cursor control after `ESC [`.
    pub fn encode_into(self, out: &mut Vec<char>)
        ensures
            final(out)@ == old(out)@ + self.spec_encode(),
    {
        match self {
            Cursor::BackwardTabulation(n) => push_param_or_default(out, n as u64, 0, &['Z']),
            Cursor::TabulationClear(n) => push_param_or_default(out, n.code() as u64, 0, &['g']),
            Cursor::CharacterAbsolute(n) => push_param_or_default(out, n.get() as u64, 1, &['G']),
            Cursor::CharacterPositionAbsolute(n) => push_param_or_default(out, n.get() as u64, 1, &['`', '`']),
            Cursor::CharacterPositionBackward(n) => push_param_or_default(out, n as u64, 0, &['j']),
            Cursor::CharacterPositionForward(n) => push_param_or_default(out, n as u64, 0, &['a']),
            Cursor::CharacterAndLinePosition { line, col } => push_pair(out, line.get() as u64, col.get() as u64, &['f']),
            Cursor::LinePositionAbsolute(n) => push_param_or_default(out, n as u64, 0, &['d']),
            Cursor::LinePositionBackward(n) => push_param_or_default(out, n as u64, 0, &['k']),
            Cursor::LinePositionForward(n) => push_param_or_default(out, n as u64, 0, &['e']),
            Cursor::ForwardTabulation(n) => push_param_or_default(out, n as u64, 0, &['I']),
            Cursor::NextLine(n) => push_param_or_default(out, n as u64, 0, &['E']),
            Cursor::PrecedingLine(n) => push_param_or_default(out, n as u64, 0, &['F']),
            Cursor::ActivePositionReport { line, col } => push_pair(out, line.get() as u64, col.get() as u64, &['R']),
            Cursor::RequestActivePositionReport => push_all(out, &['6', 'n']),
            Cursor::SaveCursor => out.push('s'),
            Cursor::RestoreCursor => out.push('u'),
            Cursor::TabulationControl(n) => push_param_or_default(out, n.code() as u64, 0, &['W']),
            Cursor::Left(n) => push_param_or_default(out, n as u64, 0, &['D']),
            Cursor::Down(n) => push_param_or_default(out, n as u64, 0, &['B']),
            Cursor::Right(n) => push_param_or_default(out, n as u64, 0, &['C']),
            Cursor::Up(n) => push_param_or_default(out, n as u64, 0, &['A']),
            Cursor::Position { line, col } => push_pair(out, line.get() as u64, col.get() as u64, &['H']),
            Cursor::LineTabulation(n) => push_param_or_default(out, n as u64, 0, &['Y']),
            Cursor::SetTopAndBottomMargins { top, bottom } => {
                if top.get() == 1 && bottom.get() == 0xffff {
                    out.push('r');
                } else {
                    push_pair(out, top.get() as u64, bottom.get() as u64, &['r']);
                }
            },
            Cursor::SetLeftAndRightMargins { left, right } => {
                if left.get() == 1 && right.get() == 0xffff {
                    out.push('s');
                } else {
                    push_pair(out, left.get() as u64, right.get() as u64, &['s']);
                }
            },
            Cursor::CursorStyle(style) => {
                push_decimal(out, style.code() as u64);
                push_all(out, &[' ', 'q']);
            },
        }
        assert(final(out)@ =~= old(out)@ + self.spec_encode());
    }
}

/// A count that is left out where it is one, then the final character.
pub open spec fn count_param(value: nat, control: char) -> Seq<char> {
    param_or_default(value, 1, seq![control])
}

impl Edit {
    /// The text of this editing control after `ESC [`.
    pub open spec fn spec_encode(self) -> Seq<char> {
        match self {
            Edit::DeleteCharacter(n) => count_param(n as nat, 'P'),
            Edit::DeleteLine(n) => count_param(n as nat, 'M'),
            Edit::EraseCharacter(n) => count_param(n as nat, 'X'),
            Edit::EraseInLine(n) => count_param(n.spec_code() as nat, 'K'),
            Edit::InsertCharacter(n) => count_param(n as nat, '@'),
            Edit::InsertLine(n) => count_param(n as nat, 'L'),
            Edit::ScrollDown(n) => count_param(n as nat, 'T'),
            Edit::ScrollUp(n) => count_param(n as nat, 'S'),
            Edit::EraseInDisplay(n) => count_param(n.spec_code() as nat, 'J'),
            Edit::Repeat(n) => count_param(n as nat, 'b'),
        }
    }

    /// Appends the text of this editing control after `ESC [`.
    pub fn encode_into(self, out: &mut Vec<char>)
        ensures
            final(out)@ == old(out)@ + self.spec_encode(),
    {
        match self {
            Edit::DeleteCharacter(n) => push_param_or_default(out, n as u64, 1, &['P']),
            Edit::DeleteLine(n) => push_param_or_default(out, n as u64, 1, &['M']),
            Edit::EraseCharacter(n) => push_param_or_default(out, n as u64, 1, &['X']),
            Edit::EraseInLine(n) => push_param_or_default(out, n.code() as u64, 1, &['K']),
            Edit::InsertCharacter(n) => push_param_or_default(out, n as u64, 1, &['@']),
            Edit::InsertLine(n) => push_param_or_default(out, n as u64, 1, &['L']),
            Edit::ScrollDown(n) => push_param_or_default(out, n as u64, 1, &['T']),
            Edit::ScrollUp(n) => push_param_or_default(out, n as u64, 1, &['S']),
            Edit::EraseInDisplay(n) => push_param_or_default(out, n.code() as u64, 1, &['J']),
            Edit::Repeat(n) => push_param_or_default(out, n as u64, 1, &['b']),
        }
    }
}

impl EraseInLine {
    pub open spec fn spec_code(self) -> u8 {
        match self {
            EraseInLine::EraseToEndOfLine => 0,
            EraseInLine::EraseToStartOfLine => 1,
            EraseInLine::EraseLine => 2,
        }
    }

    #[verifier::when_used_as_spec(spec_code)]
    pub fn code(self) -> (r: u8)
        ensures
            r == self.spec_code(),
    {
        match self {
            EraseInLine::EraseToEndOfLine => 0,
            EraseInLine::EraseToStartOfLine => 1,
            EraseInLine::EraseLine => 2,
        }
    }
}

impl EraseInDisplay {
    pub open spec fn spec_code(self) -> u8 {
        match self {
            EraseInDisplay::EraseToEndOfDisplay => 0,
            EraseInDisplay::EraseToStartOfDisplay => 1,
            EraseInDisplay::EraseDisplay => 2,
            EraseInDisplay::EraseScrollback => 3,
        }
    }

    #[verifier::when_used_as_spec(spec_code)]
    pub fn code(self) -> (r: u8)
        ensures
            r == self.spec_code(),
    {
        match self {
            EraseInDisplay::EraseToEndOfDisplay => 0,
            EraseInDisplay::EraseToStartOfDisplay => 1,
            EraseInDisplay::EraseDisplay => 2,
            EraseInDisplay::EraseScrollback => 3,
        }
    }
}

/// A private mode number between `?` and the final characters.
pub open spec fn private_mode(mode: DecPrivateMode, control: Seq<char>) -> Seq<char> {
    seq!['?'] + decimal(mode.spec_number() as nat) + control
}

fn push_private_mode(out: &mut Vec<char>, mode: DecPrivateMode, control: &[char])
    ensures
        final(out)@ == old(out)@ + private_mode(mode, control@),
{
    out.push('?');
    push_decimal(out, mode.number() as u64);
    push_all(out, control);
    assert(final(out)@ =~= old(out)@ + private_mode(mode, control@));
}

impl Mode {
    /// The text of this mode control after `ESC [`.
    pub open spec fn spec_encode(self) -> Seq<char> {
        match self {
            Mode::SetDecPrivateMode(m) => private_mode(m, seq!['h']),
            Mode::ResetDecPrivateMode(m) => private_mode(m, seq!['l']),
            Mode::SaveDecPrivateMode(m) => private_mode(m, seq!['s']),
            Mode::RestoreDecPrivateMode(m) => private_mode(m, seq!['r']),
            Mode::QueryDecPrivateMode(m) => private_mode(m, seq!['$', 'p']),
            Mode::ReportDecPrivateMode { mode, setting } => private_mode(
                mode,
                seq![';'] + decimal(setting.spec_code() as nat) + seq!['$', 'y'],
            ),
            Mode::SetMode(m) => decimal(m.spec_number() as nat) + seq!['h'],
            Mode::ResetMode(m) => decimal(m.spec_number() as nat) + seq!['l'],
            Mode::QueryMode(m) => seq!['?'] + decimal(m.spec_number() as nat) + seq!['$', 'p'],
            Mode::XtermKeyMode { resource, value } => seq!['>'] + decimal(resource.spec_code() as nat)
                + match value {
                Some(v) => seq![';'] + signed_decimal(v as int),
                None => seq![';'],
            } + seq!['m'],
        }
    }

    /// Appends the text of this mode control after `ESC [`.
    pub fn encode_into(self, out: &mut Vec<char>)
        ensures
            final(out)@ == old(out)@ + self.spec_encode(),
    {
        match self {
            Mode::SetDecPrivateMode(m) => push_private_mode(out, m, &['h']),
            Mode::ResetDecPrivateMode(m) => push_private_mode(out, m, &['l']),
            Mode::SaveDecPrivateMode(m) => push_private_mode(out, m, &['s']),
            Mode::RestoreDecPrivateMode(m) => push_private_mode(out, m, &['r']),
            Mode::QueryDecPrivateMode(m) => push_private_mode(out, m, &['$', 'p']),
            Mode::ReportDecPrivateMode { mode, setting } => {
                let mut control: Vec<char> = Vec::new();
                control.push(';');
                push_decimal(&mut control, setting.code() as u64);
                push_all(&mut control, &['$', 'y']);
                assert(control@ =~= seq![';'] + decimal(setting.spec_code() as nat) + seq!['$', 'y']);
                push_private_mode(out, mode, control.as_slice());
            },
            Mode::SetMode(m) => {
                push_decimal(out, m.number() as u64);
                out.push('h');
            },
            Mode::ResetMode(m) => {
                push_decimal(out, m.number() as u64);
                out.push('l');
            },
            Mode::QueryMode(m) => {
                out.push('?');
                push_decimal(out, m.number() as u64);
                push_all(out, &['$', 'p']);
            },
            Mode::XtermKeyMode { resource, value } => {
                out.push('>');
                push_decimal(out, resource.code() as u64);
                out.push(';');
                match value {
                    Some(v) => push_signed(out, v as i128),
                    None => {},
                }
                out.push('m');
            },
        }
        assert(final(out)@ =~= old(out)@ + self.spec_encode());
    }
}

impl MouseButton {
    /// The button part of an SGR button code.
    pub open spec fn spec_code(self) -> u8 {
        match self {
            MouseButton::Button1Press | MouseButton::Button1Release => 0,
            MouseButton::Button2Press | MouseButton::Button2Release => 1,
            MouseButton::Button3Press | MouseButton::Button3Release => 2,
            MouseButton::Button4Press | MouseButton::Button4Release => 64,
            MouseButton::Button5Press | MouseButton::Button5Release => 65,
            MouseButton::Button6Press | MouseButton::Button6Release => 66,
            MouseButton::Button7Press | MouseButton::Button7Release => 67,
            MouseButton::Button1Drag => 32,
            MouseButton::Button2Drag => 33,
            MouseButton::Button3Drag => 34,
            MouseButton::NoButton => 35,
        }
    }

    #[verifier::when_used_as_spec(spec_code)]
    pub fn code(self) -> (r: u8)
        ensures
            r == self.spec_code(),
    {
        match self {
            MouseButton::Button1Press | MouseButton::Button1Release => 0,
            MouseButton::Button2Press | MouseButton::Button2Release => 1,
            MouseButton::Button3Press | MouseButton::Button3Release => 2,
            MouseButton::Button4Press | MouseButton::Button4Release => 64,
            MouseButton::Button5Press | MouseButton::Button5Release => 65,
            MouseButton::Button6Press | MouseButton::Button6Release => 66,
            MouseButton::Button7Press | MouseButton::Button7Release => 67,
            MouseButton::Button1Drag => 32,
            MouseButton::Button2Drag => 33,
            MouseButton::Button3Drag => 34,
            MouseButton::NoButton => 35,
        }
    }

    /// The final character of a report: `m` for a release, `M` for a press, a drag or a move.
    pub open spec fn spec_trailer(self) -> char {
        match self {
            MouseButton::Button1Release | MouseButton::Button2Release | MouseButton::Button3Release
            | MouseButton::Button4Release | MouseButton::Button5Release
            | MouseButton::Button6Release | MouseButton::Button7Release => 'm',
            _ => 'M',
        }
    }

    #[verifier::when_used_as_spec(spec_trailer)]
    pub fn trailer(self) -> (r: char)
        ensures
            r == self.spec_trailer(),
    {
        match self {
            MouseButton::Button1Release | MouseButton::Button2Release | MouseButton::Button3Release
            | MouseButton::Button4Release | MouseButton::Button5Release
            | MouseButton::Button6Release | MouseButton::Button7Release => 'm',
            _ => 'M',
        }
    }
}

/// The SGR button code: the button's code plus 4 for Shift, 8 for Alt and 16 for Control.
pub open spec fn mouse_code(button: MouseButton, modifiers: Modifiers) -> nat {
    button.spec_code() as nat + (if modifiers.has(Modifiers::SHIFT) { 4nat } else { 0 }) + (if modifiers.has(
        Modifiers::ALT,
    ) {
        8nat
    } else {
        0
    }) + (if modifiers.has(Modifiers::CONTROL) { 16nat } else { 0 })
}

/// `< code ; x ; y` and the trailer.
pub open spec fn mouse_text(x: u16, y: u16, button: MouseButton, modifiers: Modifiers) -> Seq<char> {
    seq!['<'] + decimal(mouse_code(button, modifiers)) + seq![';'] + decimal(x as nat) + seq![';']
        + decimal(y as nat) + seq![button.spec_trailer()]
}

fn push_mouse(out: &mut Vec<char>, x: u16, y: u16, button: MouseButton, modifiers: Modifiers)
    ensures
        final(out)@ == old(out)@ + mouse_text(x, y, button, modifiers),
{
    let mut b: u64 = button.code() as u64;
    if modifiers.contains(Modifiers::SHIFT) {
        b = b + 4;
    }
    if modifiers.contains(Modifiers::ALT) {
        b = b + 8;
    }
    if modifiers.contains(Modifiers::CONTROL) {
        b = b + 16;
    }
    out.push('<');
    push_decimal(out, b);
    out.push(';');
    push_decimal(out, x as u64);
    out.push(';');
    push_decimal(out, y as u64);
    out.push(button.trailer());
    assert(final(out)@ =~= old(out)@ + mouse_text(x, y, button, modifiers));
}

impl MouseReport {
    /// The text of this mouse report after `ESC [`.
    pub open spec fn spec_encode(self) -> Seq<char> {
        match self {
            MouseReport::Sgr1006 { x, y, button, modifiers } => mouse_text(x, y, button, modifiers),
            MouseReport::Sgr1016 { x_pixels, y_pixels, button, modifiers } => mouse_text(
                x_pixels,
                y_pixels,
                button,
                modifiers,
            ),
        }
    }

    /// Appends the text of this mouse report after `ESC [`.
    pub fn encode_into(self, out: &mut Vec<char>)
        ensures
            final(out)@ == old(out)@ + self.spec_encode(),
    {
        match self {
            MouseReport::Sgr1006 { x, y, button, modifiers } => push_mouse(out, x, y, button, modifiers),
            MouseReport::Sgr1016 { x_pixels, y_pixels, button, modifiers } => push_mouse(
                out,
                x_pixels,
                y_pixels,
                button,
                modifiers,
            ),
        }
    }
}

impl Keyboard {
    /// The text of this keyboard-protocol control after `ESC [`.
    pub open spec fn spec_encode(self) -> Seq<char> {
        match self {
            Keyboard::QueryFlags => seq!['?', 'u'],
            Keyboard::ReportFlags(flags) => seq!['?'] + decimal(flags.bits as nat) + seq!['u'],
            Keyboard::PushFlags(flags) => seq!['>'] + decimal(flags.bits as nat) + seq!['u'],
            Keyboard::PopFlags(n) => seq!['<'] + decimal(n as nat) + seq!['u'],
            Keyboard::SetFlags { flags, mode } => seq!['='] + decimal(flags.bits as nat) + seq![';']
                + decimal(mode.spec_code() as nat) + seq!['u'],
        }
    }

    /// Appends the text of this keyboard-protocol control after `ESC [`.
    pub fn encode_into(self, out: &mut Vec<char>)
        ensures
            final(out)@ == old(out)@ + self.spec_encode(),
    {
        match self {
            Keyboard::QueryFlags => push_all(out, &['?', 'u']),
            Keyboard::ReportFlags(flags) => {
                out.push('?');
                push_decimal(out, flags.bits as u64);
                out.push('u');
            },
            Keyboard::PushFlags(flags) => {
                out.push('>');
                push_decimal(out, flags.bits as u64);
                out.push('u');
            },
            Keyboard::PopFlags(n) => {
                out.push('<');
                push_decimal(out, n as u64);
                out.push('u');
            },
            Keyboard::SetFlags { flags, mode } => {
                out.push('=');
                push_decimal(out, flags.bits as u64);
                out.push(';');
                push_decimal(out, mode.code() as u64);
                out.push('u');
            },
        }
        assert(final(out)@ =~= old(out)@ + self.spec_encode());
    }
}

impl Device {
    /// The text of this device control after `ESC [`.
    pub open spec fn spec_encode(self) -> Seq<char> {
        match self {
            Device::DeviceAttributes => Seq::<char>::empty(),
            Device::SoftReset => seq!['!', 'p'],
            Device::RequestPrimaryDeviceAttributes => seq!['c'],
            Device::RequestSecondaryDeviceAttributes => seq!['>', 'c'],
            Device::RequestTertiaryDeviceAttributes => seq!['=', 'c'],
            Device::StatusReport => seq!['5', 'n'],
            Device::RequestTerminalNameAndVersion => seq!['>', 'q'],
            Device::RequestTerminalParameters(n) => signed_decimal(n + 2) + seq![
                ';',
                '1',
                ';',
                '1',
                ';',
                '1',
                '2',
                '8',
                ';',
                '1',
                '2',
                '8',
                ';',
                '1',
                ';',
                '0',
                'x',
            ],
        }
    }

    /// Appends the text of this device control after `ESC [`. The terminal's answer to a
    /// device-attributes request is only ever read, never written.
    pub fn encode_into(self, out: &mut Vec<char>)
        requires
            !(self is DeviceAttributes),
        ensures
            final(out)@ == old(out)@ + self.spec_encode(),
    {
        match self {
            Device::DeviceAttributes => {},
            Device::SoftReset => push_all(out, &['!', 'p']),
            Device::RequestPrimaryDeviceAttributes => out.push('c'),
            Device::RequestSecondaryDeviceAttributes => push_all(out, &['>', 'c']),
            Device::RequestTertiaryDeviceAttributes => push_all(out, &['=', 'c']),
            Device::StatusReport => push_all(out, &['5', 'n']),
            Device::RequestTerminalNameAndVersion => push_all(out, &['>', 'q']),
            Device::RequestTerminalParameters(n) => {
                push_signed(out, n as i128 + 2);
                push_all(
                    out,
                    &[';', '1', ';', '1', ';', '1', '2', '8', ';', '1', '2', '8', ';', '1', ';', '0', 'x'],
                );
            },
        }
        assert(final(out)@ =~= old(out)@ + self.spec_encode());
    }
}

impl Theme {
    /// The text of this theme control after `ESC [`.
    pub open spec fn spec_encode(self) -> Seq<char> {
        match self {
            Theme::Query => seq!['?', '9', '9', '6', 'n'],
            Theme::Report(ThemeMode::Dark) => seq!['?', '9', '9', '7', ';', '1', 'n'],
            Theme::Report(ThemeMode::Light) => seq!['?', '9', '9', '7', ';', '2', 'n'],
        }
    }

    /// Appends the text of this theme control after `ESC [`.
    pub fn encode_into(self, out: &mut Vec<char>)
        ensures
            final(out)@ == old(out)@ + self.spec_encode(),
    {
        match self {
            Theme::Query => push_all(out, &['?', '9', '9', '6', 'n']),
            Theme::Report(ThemeMode::Dark) => push_all(out, &['?', '9', '9', '7', ';', '1', 'n']),
            Theme::Report(ThemeMode::Light) => push_all(out, &['?', '9', '9', '7', ';', '2', 'n']),
        }
    }
}

/// Every control sequence can be written but a device-attributes answer.
pub open spec fn writable(c: Csi) -> bool {
    !(c matches Csi::Device(Device::DeviceAttributes))
}

impl Csi {
    /// The text of this control sequence after `ESC [`.
    pub open spec fn spec_body(self) -> Seq<char> {
        match self {
            Csi::Sgr(sgr) => sgr.spec_encode() + seq!['m'],
            Csi::Cursor(cursor) => cursor.spec_encode(),
            Csi::Edit(edit) => edit.spec_encode(),
            Csi::Mode(mode) => mode.spec_encode(),
            Csi::Mouse(report) => report.spec_encode(),
            Csi::Keyboard(keyboard) => keyboard.spec_encode(),
            Csi::Device(device) => device.spec_encode(),
            Csi::Theme(theme) => theme.spec_encode(),
        }
    }

    /// The whole control sequence: `ESC [` and its text.
    pub open spec fn spec_encode(self) -> Seq<char> {
        seq!['\x1b', '['] + self.spec_body()
    }

    /// Appends the whole control sequence.
    pub fn encode_into(self, out: &mut Vec<char>)
        requires
            writable(self),
        ensures
            final(out)@ == old(out)@ + self.spec_encode(),
    {
        push_all(out, &['\x1b', '[']);
        match self {
            Csi::Sgr(sgr) => {
                sgr.encode_into(out);
                out.push('m');
            },
            Csi::Cursor(cursor) => cursor.encode_into(out),
            Csi::Edit(edit) => edit.encode_into(out),
            Csi::Mode(mode) => mode.encode_into(out),
            Csi::Mouse(report) => report.encode_into(out),
            Csi::Keyboard(keyboard) => keyboard.encode_into(out),
            Csi::Device(device) => device.encode_into(out),
            Csi::Theme(theme) => theme.encode_into(out),
        }
        assert(final(out)@ =~= old(out)@ + self.spec_encode());
    }

    /// The control sequence as text.
    pub fn encode(self) -> (r: String)
        requires
            writable(self),
        ensures
            r@ == self.spec_encode(),
    {
        let mut out: Vec<char> = Vec::new();
        self.encode_into(&mut out);
        assert(out@ =~= self.spec_encode());
        string_of(&out)
    }
}

/// Switches to the alternate screen, clearing it.
pub fn enter_alternate_screen() -> (r: Csi)
    ensures
        r == Csi::Mode(
            Mode::SetDecPrivateMode(DecPrivateMode::Code(DecPrivateModeCode::ClearAndEnableAlternateScreen)),
        ),
{
    Csi::Mode(Mode::SetDecPrivateMode(DecPrivateMode::Code(DecPrivateModeCode::ClearAndEnableAlternateScreen)))
}

/// Leaves the alternate screen.
pub fn exit_alternate_screen() -> (r: Csi)
    ensures
        r == Csi::Mode(
            Mode::ResetDecPrivateMode(DecPrivateMode::Code(DecPrivateModeCode::ClearAndEnableAlternateScreen)),
        ),
{
    Csi::Mode(Mode::ResetDecPrivateMode(DecPrivateMode::Code(DecPrivateModeCode::ClearAndEnableAlternateScreen)))
}

} // verus!
