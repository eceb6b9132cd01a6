use termina::csi::{
    Csi, Cursor, Device, Keyboard, KittyKeyboardFlags, MouseButton, MouseReport, Theme, ThemeMode,
};
use termina::decode::{
    decode_modifier_key_code, decode_special_key_code, decode_u_encoded_key_code, parse_event,
    Malformed, Parser,
};
use termina::event::{
    Event, KeyCode, KeyEvent, KeyEventKind, KeyEventState, ModifierKeyCode, Modifiers,
    MouseButton as Button, MouseEvent, MouseEventKind,
};
use termina::style::{ColorSpec, RgbColor, RgbaColor, WebColor};
use termina::OneBased;

fn feed(bytes: &[u8], more: bool) -> Vec<Event> {
    let mut parser = Parser::new();
    parser.parse(bytes, more);
    drain(&mut parser)
}

fn drain(parser: &mut Parser) -> Vec<Event> {
    let mut events = Vec::new();
    while let Some(event) = parser.pop() {
        events.push(event);
    }
    events
}

fn key(code: KeyCode, bits: u8) -> Event {
    Event::Key(KeyEvent::new(code, Modifiers { bits }))
}

#[test]
fn lone_escape_waits_while_more_may_follow() {
    let mut parser = Parser::new();
    parser.parse(b"\x1b", true);
    assert!(drain(&mut parser).is_empty());
    parser.parse(b"", false);
    assert_eq!(drain(&mut parser), vec![key(KeyCode::Escape, Modifiers::NONE)]);
}

#[test]
fn lone_escape_resolves_without_more() {
    assert_eq!(feed(b"\x1b", false), vec![key(KeyCode::Escape, Modifiers::NONE)]);
}

#[test]
fn three_byte_character_completes_on_third_byte() {
    let mut parser = Parser::new();
    parser.parse(&[0xe2, 0x82], true);
    assert!(drain(&mut parser).is_empty());
    parser.parse(&[0xac], false);
    assert_eq!(drain(&mut parser), vec![key(KeyCode::Char('€'), Modifiers::NONE)]);
}

#[test]
fn plain_and_uppercase_characters() {
    assert_eq!(
        feed(b"aA", false),
        vec![key(KeyCode::Char('a'), Modifiers::NONE), key(KeyCode::Char('A'), Modifiers::SHIFT)]
    );
}

#[test]
fn control_bytes() {
    assert_eq!(
        feed(b"\x01\x00\x1c\r\t\x7f", false),
        vec![
            key(KeyCode::Char('a'), Modifiers::CONTROL),
            key(KeyCode::Char(' '), Modifiers::CONTROL),
            key(KeyCode::Char('4'), Modifiers::CONTROL),
            key(KeyCode::Enter, Modifiers::NONE),
            key(KeyCode::Tab, Modifiers::NONE),
            key(KeyCode::Backspace, Modifiers::NONE),
        ]
    );
}

#[test]
fn alt_prefix() {
    assert_eq!(feed(b"\x1bx", false), vec![key(KeyCode::Char('x'), Modifiers::ALT)]);
}

#[test]
fn ss3_and_csi_cursor_keys() {
    assert_eq!(
        feed(b"\x1bOP\x1b[A\x1b[[B\x1b[Z", false),
        vec![
            key(KeyCode::Function(1), Modifiers::NONE),
            key(KeyCode::Up, Modifiers::NONE),
            key(KeyCode::Function(2), Modifiers::NONE),
            key(KeyCode::BackTab, Modifiers::SHIFT),
        ]
    );
}

#[test]
fn modified_cursor_key() {
    assert_eq!(feed(b"\x1b[1;5A", false), vec![key(KeyCode::Up, Modifiers::CONTROL)]);
}

#[test]
fn special_keys() {
    assert_eq!(
        feed(b"\x1b[3~\x1b[15;2~", false),
        vec![key(KeyCode::Delete, Modifiers::NONE), key(KeyCode::Function(5), Modifiers::SHIFT)]
    );
}

#[test]
fn codepoint_keys() {
    assert_eq!(feed(b"\x1b[97;5u", false), vec![key(KeyCode::Char('a'), Modifiers::CONTROL)]);
    assert_eq!(feed(b"\x1b[27u", false), vec![key(KeyCode::Escape, Modifiers::NONE)]);
}

#[test]
fn kitty_release_and_shifted_keys() {
    assert_eq!(
        feed(b"\x1b[97;1:3u", false),
        vec![Event::Key(KeyEvent {
            code: KeyCode::Char('a'),
            kind: KeyEventKind::Release,
            modifiers: Modifiers { bits: Modifiers::NONE },
            state: KeyEventState { bits: KeyEventState::NONE },
        })]
    );
    assert_eq!(feed(b"\x1b[97:65;2u", false), vec![key(KeyCode::Char('A'), Modifiers::NONE)]);
}

#[test]
fn kitty_keypad_and_modifier_keys() {
    assert_eq!(
        feed(b"\x1b[57399u", false),
        vec![Event::Key(KeyEvent {
            code: KeyCode::Char('0'),
            kind: KeyEventKind::Press,
            modifiers: Modifiers { bits: Modifiers::NONE },
            state: KeyEventState { bits: KeyEventState::KEYPAD },
        })]
    );
    assert_eq!(
        feed(b"\x1b[57441u", false),
        vec![key(KeyCode::Modifier(ModifierKeyCode::LeftShift), Modifiers::SHIFT)]
    );
}

#[test]
fn caps_lock_state() {
    assert_eq!(
        feed(b"\x1b[97;65u", false),
        vec![Event::Key(KeyEvent {
            code: KeyCode::Char('a'),
            kind: KeyEventKind::Press,
            modifiers: Modifiers { bits: Modifiers::NONE },
            state: KeyEventState { bits: KeyEventState::CAPS_LOCK },
        })]
    );
}

#[test]
fn focus_events() {
    assert_eq!(feed(b"\x1b[I\x1b[O", false), vec![Event::FocusIn, Event::FocusOut]);
}

#[test]
fn cursor_position_report() {
    let line = OneBased::new(24).unwrap();
    let col = OneBased::new(80).unwrap();
    assert_eq!(
        feed(b"\x1b[24;80R", false),
        vec![Event::Csi(Csi::Cursor(Cursor::ActivePositionReport { line, col }))]
    );
    assert_eq!(line.get(), 24);
    assert_eq!(col.get(), 80);
}

#[test]
fn cursor_position_report_round_trip() {
    let report = Csi::Cursor(Cursor::ActivePositionReport {
        line: OneBased::new(7).unwrap(),
        col: OneBased::new(123).unwrap(),
    });
    let text = report.encode();
    assert_eq!(text, "\x1b[7;123R");
    assert_eq!(feed(text.as_bytes(), false), vec![Event::Csi(report)]);
}

#[test]
fn drag_with_shift_and_control() {
    let modifiers = Modifiers { bits: Modifiers::SHIFT | Modifiers::CONTROL };
    let report =
        Csi::Mouse(MouseReport::Sgr1006 { x: 10, y: 20, button: MouseButton::Button2Drag, modifiers });
    assert_eq!(report.encode(), "\x1b[<53;10;20M");
    assert_eq!(
        feed(b"\x1b[<53;10;20M", false),
        vec![Event::Mouse(MouseEvent {
            kind: MouseEventKind::Drag(Button::Middle),
            column: 10,
            row: 20,
            modifiers,
        })]
    );
}

#[test]
fn mouse_press_and_release() {
    assert_eq!(
        feed(b"\x1b[<0;1;2M\x1b[<0;1;2m\x1b[<64;3;4M", false),
        vec![
            Event::Mouse(MouseEvent {
                kind: MouseEventKind::Down(Button::Left),
                column: 1,
                row: 2,
                modifiers: Modifiers { bits: Modifiers::NONE },
            }),
            Event::Mouse(MouseEvent {
                kind: MouseEventKind::Up(Button::Left),
                column: 1,
                row: 2,
                modifiers: Modifiers { bits: Modifiers::NONE },
            }),
            Event::Mouse(MouseEvent {
                kind: MouseEventKind::ScrollUp,
                column: 3,
                row: 4,
                modifiers: Modifiers { bits: Modifiers::NONE },
            }),
        ]
    );
}

#[test]
fn private_reports() {
    assert_eq!(
        feed(b"\x1b[?5u\x1b[?997;2n\x1b[?62;22c", false),
        vec![
            Event::Csi(Csi::Keyboard(Keyboard::ReportFlags(KittyKeyboardFlags { bits: 5 }))),
            Event::Csi(Csi::Theme(Theme::Report(ThemeMode::Light))),
            Event::Csi(Csi::Device(Device::DeviceAttributes)),
        ]
    );
}

#[test]
fn keyboard_flags_round_trip() {
    let report = Csi::Keyboard(Keyboard::ReportFlags(KittyKeyboardFlags { bits: 31 }));
    assert_eq!(feed(report.encode().as_bytes(), false), vec![Event::Csi(report)]);
}

#[test]
fn malformed_sequences_are_skipped() {
    assert_eq!(feed(b"\x1b[Xb", false), vec![key(KeyCode::Char('b'), Modifiers::NONE)]);
    assert_eq!(feed(b"\xffc", false), vec![key(KeyCode::Char('c'), Modifiers::NONE)]);
    assert_eq!(feed(b"\x1b[97;1;\xffu", false), vec![]);
    assert_eq!(feed(b"\x1b[1114112u", false), vec![]);
}

#[test]
fn partial_sequence_stays_pending() {
    let mut parser = Parser::new();
    parser.parse(b"\x1b[1;5", true);
    assert!(drain(&mut parser).is_empty());
    parser.parse(b"B", false);
    assert_eq!(drain(&mut parser), vec![key(KeyCode::Down, Modifiers::CONTROL)]);
}

#[test]
fn single_unit_results() {
    assert_eq!(parse_event(b"\x1b[", true), Ok(None));
    assert_eq!(parse_event(b"\x1b[X", true), Err(Malformed));
    assert_eq!(parse_event(b"\xe2\x82", true), Ok(None));
    assert_eq!(parse_event(b"\xe2\x41", true), Err(Malformed));
}

use termina::csi::{DecModeSetting, DecPrivateMode, DecPrivateModeCode, Mode};

#[test]
fn private_mode_reports() {
    let report = Csi::Mode(Mode::ReportDecPrivateMode {
        mode: DecPrivateMode::Code(DecPrivateModeCode::SynchronizedOutput),
        setting: DecModeSetting::Reset,
    });
    assert_eq!(report.encode(), "\x1b[?2026;2$y");
    assert_eq!(feed(b"\x1b[?2026;2$y", false), vec![Event::Csi(report)]);
    let other = Csi::Mode(Mode::ReportDecPrivateMode {
        mode: DecPrivateMode::Unspecified(4242),
        setting: DecModeSetting::PermanentlySet,
    });
    assert_eq!(feed(other.encode().as_bytes(), false), vec![Event::Csi(other)]);
    assert_eq!(feed(b"\x1b[?25;7$y", false), vec![]);
}

#[test]
fn theme_report_round_trip() {
    let report = Csi::Theme(Theme::Report(ThemeMode::Dark));
    assert_eq!(report.encode(), "\x1b[?997;1n");
    assert_eq!(feed(report.encode().as_bytes(), false), vec![Event::Csi(report)]);
}

#[test]
fn conversions() {
    assert_eq!(KeyEvent::from(KeyCode::Enter), KeyEvent::new(KeyCode::Enter, Modifiers { bits: 0 }));
    let rgb = RgbColor::new(1, 2, 3);
    assert_eq!(RgbaColor::from(rgb), RgbaColor { red: 1, green: 2, blue: 3, alpha: 255 });
    assert_eq!(RgbColor::from(RgbaColor { red: 1, green: 2, blue: 3, alpha: 9 }), rgb);
    assert_eq!(ColorSpec::from(WebColor(77)), ColorSpec::PaletteIndex(77));
    assert_eq!(
        ColorSpec::from(rgb),
        ColorSpec::TrueColor(RgbaColor { red: 1, green: 2, blue: 3, alpha: 255 })
    );
    assert_eq!(OneBased::default().get(), 1);
}

#[test]
fn bracketed_paste_is_one_event() {
    assert_eq!(
        feed(b"\x1b[200~hello \x1b[A world\x1b[201~x", false),
        vec![
            Event::Paste(String::from("hello \x1b[A world")),
            key(KeyCode::Char('x'), Modifiers::NONE),
        ]
    );
}

#[test]
fn bracketed_paste_across_feeds() {
    let mut parser = Parser::new();
    parser.parse(b"\x1b[200~first half, ", false);
    assert!(drain(&mut parser).is_empty());
    parser.parse(b"second half\x1b[201~", false);
    assert_eq!(drain(&mut parser), vec![Event::Paste(String::from("first half, second half"))]);
}

#[test]
fn bracketed_paste_replaces_invalid_bytes() {
    assert_eq!(
        feed(b"\x1b[200~a\xffb\x1b[201~", false),
        vec![Event::Paste(String::from("a\u{fffd}b"))]
    );
    assert_eq!(feed(b"\x1b[200~\x1b[201~", false), vec![Event::Paste(String::new())]);
}

#[test]
fn key_codes_given_parameter_validity() {
    assert_eq!(
        decode_u_encoded_key_code(b"\x1b[97;5u", true),
        Ok(Some(key(KeyCode::Char('a'), Modifiers::CONTROL)))
    );
    assert_eq!(decode_u_encoded_key_code(b"\x1b[97;5u", false), Err(Malformed));
    assert_eq!(
        decode_special_key_code(b"\x1b[5~", true),
        Ok(Some(key(KeyCode::PageUp, Modifiers::NONE)))
    );
    assert_eq!(decode_special_key_code(b"\x1b[5~", false), Err(Malformed));
    assert_eq!(
        decode_modifier_key_code(b"\x1b[1;3D", true),
        Ok(Some(key(KeyCode::Left, Modifiers::ALT)))
    );
    assert_eq!(decode_modifier_key_code(b"\x1b[1;3D", false), Err(Malformed));
}

#[test]
fn buffer_of_whole_characters_gives_the_first() {
    assert_eq!(parse_event(b"ab", false), Ok(Some(key(KeyCode::Char('a'), Modifiers::NONE))));
    assert_eq!(
        parse_event("éa".as_bytes(), true),
        Ok(Some(key(KeyCode::Char('é'), Modifiers::NONE)))
    );
    assert_eq!(parse_event(b"a\xff", false), Err(Malformed));
    assert_eq!(parse_event(b"\xc3\xa9\xff", false), Err(Malformed));
}
