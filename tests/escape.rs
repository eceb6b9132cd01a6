use termina::csi::{self, Csi, Keyboard, KittyKeyboardFlags, Sgr};
use termina::dcs::{Dcs, DcsRequest};
use termina::style::{AnsiColor, ColorSpec};

#[test]
fn csi_encoding() {
    // Enter the alternate screen using the mode part of CSI.
    assert_eq!("\x1b[?1049h", csi::enter_alternate_screen().encode());
    assert_eq!("\x1b[?1049l", csi::exit_alternate_screen().encode());

    // Push Kitty keyboard flags used by Helix and Kakoune.
    assert_eq!(
        "\x1b[>5u",
        Csi::Keyboard(Keyboard::PushFlags(KittyKeyboardFlags {
            bits: KittyKeyboardFlags::DISAMBIGUATE_ESCAPE_CODES
                | KittyKeyboardFlags::REPORT_ALTERNATE_KEYS
        }))
        .encode()
    );

    // Common SGR: turn the text (i.e. foreground) green
    assert_eq!(
        "\x1b[32m",
        Csi::Sgr(Sgr::Foreground(ColorSpec::from(AnsiColor::Green))).encode(),
    );
    // ... and then reset to turn off the green.
    assert_eq!("\x1b[39m", Csi::Sgr(Sgr::Foreground(ColorSpec::Reset)).encode(),);
}

#[test]
fn dcs_encoding() {
    assert_eq!(
        Dcs::Request(DcsRequest::GraphicRendition).encode(),
        "\x1bP$qm\x1b\\"
    );
    assert_eq!(
        Dcs::Request(DcsRequest::CursorStyle).encode(),
        "\x1bP$q q\x1b\\"
    );
}

use termina::csi::{
    Cursor, Device, Edit, Mode, MouseButton, MouseReport, XtermKeyModifierResource,
};
use termina::dcs::DcsResponse;
use termina::event::Modifiers;
use termina::style::{CursorStyle, Intensity, RgbaColor};
use termina::OneBased;

#[test]
fn cursor_controls() {
    let line = OneBased::new(3).unwrap();
    let col = OneBased::new(4).unwrap();
    assert_eq!(Csi::Cursor(Cursor::Position { line, col }).encode(), "\x1b[3;4H");
    assert_eq!(Csi::Cursor(Cursor::Left(0)).encode(), "\x1b[D");
    assert_eq!(Csi::Cursor(Cursor::Left(5)).encode(), "\x1b[5D");
    assert_eq!(
        Csi::Cursor(Cursor::CharacterAbsolute(OneBased::new(1).unwrap())).encode(),
        "\x1b[G"
    );
    assert_eq!(Csi::Cursor(Cursor::CursorStyle(CursorStyle::SteadyBar)).encode(), "\x1b[6 q");
}

#[test]
fn editing_controls() {
    assert_eq!(Csi::Edit(Edit::DeleteCharacter(1)).encode(), "\x1b[P");
    assert_eq!(Csi::Edit(Edit::DeleteCharacter(12)).encode(), "\x1b[12P");
}

#[test]
fn mode_and_device_controls() {
    assert_eq!(
        Csi::Mode(Mode::XtermKeyMode { resource: XtermKeyModifierResource::OtherKeys, value: Some(-2) })
            .encode(),
        "\x1b[>4;-2m"
    );
    assert_eq!(
        Csi::Mode(Mode::XtermKeyMode { resource: XtermKeyModifierResource::Keyboard, value: None })
            .encode(),
        "\x1b[>0;m"
    );
    assert_eq!(
        Csi::Device(Device::RequestTerminalParameters(0)).encode(),
        "\x1b[2;1;1;128;128;1;0x"
    );
}

#[test]
fn true_color_and_palette() {
    let rgb = RgbaColor { red: 1, green: 2, blue: 3, alpha: 255 };
    assert_eq!(Csi::Sgr(Sgr::Foreground(ColorSpec::TrueColor(rgb))).encode(), "\x1b[38:2::1:2:3m");
    let rgba = RgbaColor { red: 1, green: 2, blue: 3, alpha: 4 };
    assert_eq!(Csi::Sgr(Sgr::Background(ColorSpec::TrueColor(rgba))).encode(), "\x1b[48:6::1:2:3:4m");
    assert_eq!(Csi::Sgr(Sgr::Background(ColorSpec::PaletteIndex(9))).encode(), "\x1b[101m");
    assert_eq!(Csi::Sgr(Sgr::Foreground(ColorSpec::PaletteIndex(200))).encode(), "\x1b[38:5:200m");
}

#[test]
fn mouse_release_report() {
    let report = MouseReport::Sgr1006 {
        x: 1,
        y: 2,
        button: MouseButton::Button1Release,
        modifiers: Modifiers { bits: Modifiers::ALT },
    };
    assert_eq!(Csi::Mouse(report).encode(), "\x1b[<8;1;2m");
}

#[test]
fn dcs_responses() {
    assert_eq!(
        Dcs::Response {
            is_request_valid: true,
            value: DcsResponse::GraphicRendition(vec![Sgr::Reset, Sgr::Intensity(Intensity::Bold)]),
        }
        .encode(),
        "\x1bP1$r0;1\x1b\\"
    );
    assert_eq!(
        Dcs::Response { is_request_valid: false, value: DcsResponse::CursorStyle(CursorStyle::BlinkingBar) }
            .encode(),
        "\x1bP0$r5 q\x1b\\"
    );
}

#[test]
fn one_based_values() {
    assert!(OneBased::new(0).is_none());
    let five = OneBased::new(5).unwrap();
    assert_eq!(five.get(), 5);
    assert_eq!(five.get_zero_based(), 4);
    assert_eq!(OneBased::from_zero_based(0).get(), 1);
    assert_eq!(OneBased::from_zero_based(41).get(), 42);
}

#[test]
fn mouse_press_reports_end_in_capital_m() {
    let none = Modifiers { bits: Modifiers::NONE };
    for (button, text) in [
        (MouseButton::Button6Press, "\x1b[<66;3;4M"),
        (MouseButton::Button7Press, "\x1b[<67;3;4M"),
        (MouseButton::Button6Release, "\x1b[<66;3;4m"),
        (MouseButton::NoButton, "\x1b[<35;3;4M"),
    ] {
        let report = MouseReport::Sgr1006 { x: 3, y: 4, button, modifiers: none };
        assert_eq!(Csi::Mouse(report).encode(), text);
    }
}
