use termina::decode::{InputRecord, Parser};
use termina::event::{Event, KeyCode, KeyEvent, Modifiers};
use termina::osc::{Osc, Selection};
use termina::style::{ColorSpec, StyleExt, Stylized};
use termina::{resolve_dimensions, WindowSize};

#[test]
fn styled_text() {
    let text = "hello".stylized().green().bold();
    assert_eq!(text.render(false), "\x1b[0;32;1mhello\x1b[0m");
    assert_eq!(text.render(true), "\x1b[0;1mhello\x1b[0m");
    let plain = String::from("plain").stylized().red();
    assert_eq!(plain.render(true), "plain");
    assert_eq!(Stylized::new(String::from("x")).render(false), "x");
    let under = "u".stylized().underlined().foreground(ColorSpec::PaletteIndex(200));
    assert_eq!(under.render(false), "\x1b[0;4;38:5:200mu\x1b[0m");
}

#[test]
fn window_titles() {
    assert_eq!(Osc::SetWindowTitle("hi").encode(), "\x1b]2;hi\x1b\\");
    assert_eq!(Osc::SetIconNameSun("ü").encode(), "\x1b]Lü\x1b\\");
}

#[test]
fn selections() {
    let both = Selection { bits: Selection::CLIPBOARD | Selection::CUT3 };
    assert_eq!(Osc::QuerySelection(both).encode(), "\x1b]52;c3;?\x1b\\");
    assert_eq!(Osc::ClearSelection(Selection { bits: Selection::PRIMARY }).encode(), "\x1b]52;p\x1b\\");
    let clip = Selection { bits: Selection::CLIPBOARD };
    assert_eq!(Osc::SetSelection(clip, "hello").encode(), "\x1b]52;c;aGVsbG8=\x1b\\");
    assert_eq!(Osc::SetSelection(clip, "hi!").encode(), "\x1b]52;c;aGkh\x1b\\");
    assert_eq!(Osc::SetSelection(clip, "a").encode(), "\x1b]52;c;YQ==\x1b\\");
    assert_eq!(Osc::SetSelection(clip, "").encode(), "\x1b]52;c;\x1b\\");
}

#[test]
fn console_records() {
    let mut parser = Parser::new();
    parser.decode_input_records(&[
        InputRecord::Key { key_down: true, ascii: b'a' },
        InputRecord::Key { key_down: false, ascii: b'a' },
        InputRecord::WindowBufferSize { x: 79, y: 23 },
        InputRecord::Other,
        InputRecord::Key { key_down: true, ascii: b'b' },
    ]);
    let mut events = Vec::new();
    while let Some(e) = parser.pop() {
        events.push(e);
    }
    let none = Modifiers { bits: Modifiers::NONE };
    assert_eq!(
        events,
        vec![
            Event::WindowResized(WindowSize { cols: 80, rows: 24, pixel_width: None, pixel_height: None }),
            Event::Key(KeyEvent::new(KeyCode::Char('a'), none)),
            Event::Key(KeyEvent::new(KeyCode::Char('b'), none)),
        ]
    );
}

#[test]
fn screen_size_fallbacks() {
    let measured = WindowSize { cols: 80, rows: 24, pixel_width: Some(640), pixel_height: Some(480) };
    assert_eq!(resolve_dimensions(measured, Some("50"), None), Some(measured));
    let zero = WindowSize { cols: 0, rows: 0, pixel_width: None, pixel_height: None };
    assert_eq!(
        resolve_dimensions(zero, Some("50"), Some("+132")),
        Some(WindowSize { cols: 132, rows: 50, pixel_width: None, pixel_height: None })
    );
    assert_eq!(resolve_dimensions(zero, Some("abc"), Some("132")), None);
    assert_eq!(resolve_dimensions(zero, None, None), None);
}
