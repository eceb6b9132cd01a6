//! What the encoder writes for a terminal report, the decoder reads back as that report.
use vstd::prelude::*;

use crate::csi::{
    mouse_code, Csi, Cursor, DecModeSetting, DecPrivateMode, DecPrivateModeCode, Keyboard,
    KittyKeyboardFlags, Mode, MouseButton, MouseReport,
};
use crate::decode::{
    ascii, csi_spec, cursor_report_spec, fed_events, paste_open, fed_rest, is_digit, is_final_byte, sgr_mouse_spec, lemma_ascii_concat, lemma_decimal_reads_back,
    lemma_one_unit, lemma_split_fields, mode_report_spec, one_unit, parse_event_spec,
    private_report_spec, Malformed,
};
use crate::event::{Event, Modifiers, MouseButton as Button, MouseEvent, MouseEventKind};
use crate::text::decimal;
use crate::OneBased;

verus! {

broadcast use crate::OneBased::lemma_at;

/// Bytes `ESC [`, then from `start` on digits and `;` up to a final byte: every shorter
/// prefix waits for more.
proof fn lemma_params_wait(bytes: Seq<u8>, start: int)
    requires
        start == 2 || start == 3,
        bytes.len() >= start + 2,
        bytes[0] == 0x1b,
        bytes[1] == 0x5b,
        start == 2 ==> is_digit(bytes[2]),
        start == 3 ==> bytes[2] == 0x3c || bytes[2] == 0x3f,
        forall|j: int| start <= j < bytes.len() - 1 ==> !is_final_byte(#[trigger] bytes[j]),
    ensures
        forall|k: int|
            1 <= k < bytes.len() ==> parse_event_spec(#[trigger] bytes.subrange(0, k), true) == Ok::<
                Option<Event>,
                Malformed,
            >(None),
{
    assert forall|k: int| 1 <= k < bytes.len() implies parse_event_spec(
        #[trigger] bytes.subrange(0, k),
        true,
    ) == Ok::<Option<Event>, Malformed>(None) by {
        let p = bytes.subrange(0, k);
        assert(p[0] == bytes[0]);
        if k >= 2 {
            assert(p[1] == bytes[1]);
        }
        if k >= 3 {
            assert(p[2] == bytes[2]);
            assert(p.last() == bytes[k - 1]);
            if k - 1 >= start {
                assert(!is_final_byte(bytes[k - 1]));
            }
            if k >= 6 {
                assert(p.subrange(0, 6)[5] == bytes[5]);
                assert(!is_final_byte(bytes[5]));
                assert(p.subrange(0, 6) != paste_open());
            }
        }
    }
}

/// The bytes of `ESC [`, a text and a final character.
proof fn lemma_sequence_bytes(text: Seq<char>, last: char)
    ensures
        ascii(seq!['\x1b', '['] + text + seq![last]) == seq![0x1bu8, 0x5bu8] + ascii(text) + seq![
            last as u8,
        ],
{
    lemma_ascii_concat(seq!['\x1b', '['] + text, seq![last]);
    lemma_ascii_concat(seq!['\x1b', '['], text);
    assert(ascii(seq!['\x1b', '[']) =~= seq![0x1bu8, 0x5bu8]);
    assert(ascii(seq![last]) =~= seq![last as u8]);
}

/// `ESC [ line ; column R` decodes to the cursor position report of that line and column.
#[verifier::rlimit(40)]
proof fn lemma_cursor_report_decodes(bytes: Seq<u8>, lb: Seq<u8>, cb: Seq<u8>, line: u16, col: u16)
    requires
        line >= 1,
        col >= 1,
        lb == ascii(decimal(line as nat)),
        cb == ascii(decimal(col as nat)),
        bytes == seq![0x1bu8, 0x5bu8] + lb + seq![0x3bu8] + cb + seq![0x52u8],
    ensures
        parse_event_spec(bytes, false) == Ok::<Option<Event>, Malformed>(
            Some(
                Event::Csi(
                    Csi::Cursor(
                        Cursor::ActivePositionReport {
                            line: OneBased::spec_at(line),
                            col: OneBased::spec_at(col),
                        },
                    ),
                ),
            ),
        ),
{
    lemma_decimal_reads_back(line as nat);
    lemma_decimal_reads_back(col as nat);
    assert(bytes[2] == lb[0]);
    assert(bytes.subrange(2, bytes.len() - 1) =~= lb + seq![0x3bu8] + cb);
    lemma_split_fields(lb, 0x3b, cb);
    lemma_split_fields(cb, 0x3b, Seq::empty());
    assert(bytes.last() == 0x52);
    if bytes.len() >= 6 {
        let b5 = bytes[5];
        assert(b5 == 0x3b || b5 == 0x52 || is_digit(b5)) by {
            if 5 < 2 + lb.len() {
                assert(bytes[5] == lb[3]);
            } else if 5 > 2 + lb.len() && 5 < 3 + lb.len() + cb.len() {
                assert(bytes[5] == cb[5 - 3 - lb.len()]);
            }
        }
        assert(bytes.subrange(0, 6)[5] == b5);
        assert(bytes.subrange(0, 6) != paste_open());
    }
    assert(parse_event_spec(bytes, false) == csi_spec(bytes));
    assert(csi_spec(bytes) == cursor_report_spec(bytes));
}

/// A cursor position report, written out and fed to the decoder with nothing pending,
/// decodes to exactly that report, with the same one-based line and column.
#[verifier::rlimit(40)]
pub proof fn lemma_cursor_report_round_trip(line: u16, col: u16)
    requires
        line >= 1,
        col >= 1,
    ensures
        ({
            let report = Csi::Cursor(
                Cursor::ActivePositionReport {
                    line: OneBased::spec_at(line),
                    col: OneBased::spec_at(col),
                },
            );
            let bytes = ascii(report.spec_encode());
            &&& fed_events(Seq::empty(), bytes, false) == seq![Event::Csi(report)]
            &&& fed_rest(Seq::empty(), bytes, false) == Seq::<u8>::empty()
        }),
{
    let report = Csi::Cursor(
        Cursor::ActivePositionReport { line: OneBased::spec_at(line), col: OneBased::spec_at(col) },
    );
    let l = decimal(line as nat);
    let c = decimal(col as nat);
    let text = l + seq![';'] + c;
    assert(report.spec_encode() =~= seq!['\x1b', '['] + text + seq!['R']);
    lemma_sequence_bytes(text, 'R');
    lemma_ascii_concat(l + seq![';'], c);
    lemma_ascii_concat(l, seq![';']);
    assert(ascii(seq![';']) =~= seq![0x3bu8]);
    lemma_decimal_reads_back(line as nat);
    lemma_decimal_reads_back(col as nat);
    let lb = ascii(l);
    let cb = ascii(c);
    let bytes = ascii(report.spec_encode());
    assert(bytes =~= seq![0x1bu8, 0x5bu8] + lb + seq![0x3bu8] + cb + seq![0x52u8]);
    assert forall|j: int| 2 <= j < bytes.len() - 1 implies !is_final_byte(#[trigger] bytes[j]) by {
        if j < 2 + lb.len() {
            assert(bytes[j] == lb[j - 2]);
        } else if j > 2 + lb.len() {
            assert(bytes[j] == cb[j - 3 - lb.len()]);
        }
    }
    assert(bytes[2] == lb[0]);
    lemma_params_wait(bytes, 2);
    lemma_cursor_report_decodes(bytes, lb, cb, line, col);
    lemma_one_unit(bytes, Event::Csi(report));
}

/// A report of the keyboard protocol's flags, written out and fed to the decoder with
/// nothing pending, decodes to exactly that report.
#[verifier::rlimit(40)]
pub proof fn lemma_keyboard_flags_round_trip(flags: KittyKeyboardFlags)
    ensures
        ({
            let report = Csi::Keyboard(Keyboard::ReportFlags(flags));
            let bytes = ascii(report.spec_encode());
            &&& fed_events(Seq::empty(), bytes, false) == seq![Event::Csi(report)]
            &&& fed_rest(Seq::empty(), bytes, false) == Seq::<u8>::empty()
        }),
{
    let report = Csi::Keyboard(Keyboard::ReportFlags(flags));
    let f = decimal(flags.bits as nat);
    let text = seq!['?'] + f;
    assert(report.spec_encode() =~= seq!['\x1b', '['] + text + seq!['u']);
    lemma_sequence_bytes(text, 'u');
    lemma_ascii_concat(seq!['?'], f);
    assert(ascii(seq!['?']) =~= seq![0x3fu8]);
    lemma_decimal_reads_back(flags.bits as nat);
    let fb = ascii(f);
    let bytes = ascii(report.spec_encode());
    assert(bytes =~= seq![0x1bu8, 0x5bu8, 0x3fu8] + fb + seq![0x75u8]);
    assert forall|j: int| 3 <= j < bytes.len() - 1 implies !is_final_byte(#[trigger] bytes[j]) by {
        assert(bytes[j] == fb[j - 3]);
    }
    lemma_params_wait(bytes, 3);
    assert(bytes.subrange(3, bytes.len() - 1) =~= fb);
    assert(parse_event_spec(bytes, false) == Ok::<Option<Event>, Malformed>(Some(Event::Csi(report))));
    lemma_one_unit(bytes, Event::Csi(report));
}

/// The SGR mouse report `ESC [ < 53 ; x ; y M` decodes to a middle-button drag with Shift and
/// Control, once its bytes are known to be digits and separators.
#[verifier::rlimit(40)]
proof fn lemma_drag_report_decodes(bytes: Seq<u8>, bb: Seq<u8>, xb: Seq<u8>, yb: Seq<u8>, x: u16, y: u16)
    requires
        bb == ascii(decimal(53)),
        xb == ascii(decimal(x as nat)),
        yb == ascii(decimal(y as nat)),
        bytes == seq![0x1bu8, 0x5bu8, 0x3cu8] + bb + seq![0x3bu8] + xb + seq![0x3bu8] + yb + seq![
            0x4du8,
        ],
    ensures
        parse_event_spec(bytes, false) == Ok::<Option<Event>, Malformed>(
            Some(
                Event::Mouse(
                    MouseEvent {
                        kind: MouseEventKind::Drag(Button::Middle),
                        column: x,
                        row: y,
                        modifiers: Modifiers { bits: 10 },
                    },
                ),
            ),
        ),
{
    lemma_decimal_reads_back(53);
    lemma_decimal_reads_back(x as nat);
    lemma_decimal_reads_back(y as nat);
    let body = bytes.subrange(3, bytes.len() - 1);
    assert(body =~= bb + seq![0x3bu8] + (xb + seq![0x3bu8] + yb));
    lemma_split_fields(bb, 0x3b, xb + seq![0x3bu8] + yb);
    lemma_split_fields(xb, 0x3b, yb);
    lemma_split_fields(yb, 0x3b, Seq::empty());
    assert(bytes[2] == 0x3c);
    assert(bytes.last() == 0x4d);
    assert(parse_event_spec(bytes, false) == csi_spec(bytes));
    assert(csi_spec(bytes) == sgr_mouse_spec(bytes));
}

/// A drag with button 2 while Shift and Control are held is written with the SGR code
/// 33 + 4 + 16, and that report, fed to the decoder with nothing pending, decodes to a
/// middle-button drag at the same place with Shift and Control.
#[verifier::rlimit(40)]
pub proof fn lemma_drag_modifiers_round_trip(x: u16, y: u16)
    ensures
        ({
            let modifiers = Modifiers { bits: Modifiers::SHIFT | Modifiers::CONTROL };
            let report = Csi::Mouse(
                MouseReport::Sgr1006 { x, y, button: MouseButton::Button2Drag, modifiers },
            );
            let bytes = ascii(report.spec_encode());
            &&& mouse_code(MouseButton::Button2Drag, modifiers) == 33 + 4 + 16
            &&& fed_events(Seq::empty(), bytes, false) == seq![
                Event::Mouse(
                    MouseEvent {
                        kind: MouseEventKind::Drag(Button::Middle),
                        column: x,
                        row: y,
                        modifiers,
                    },
                ),
            ]
            &&& fed_rest(Seq::empty(), bytes, false) == Seq::<u8>::empty()
        }),
{
    let modifiers = Modifiers { bits: Modifiers::SHIFT | Modifiers::CONTROL };
    let m: u8 = modifiers.bits;
    assert(m == 10 && m & 2 == 2 && m & 4 != 4 && m & 8 == 8) by (bit_vector)
        requires
            m == 2u8 | 8u8,
    ;
    let report = Csi::Mouse(
        MouseReport::Sgr1006 { x, y, button: MouseButton::Button2Drag, modifiers },
    );
    let event = Event::Mouse(
        MouseEvent { kind: MouseEventKind::Drag(Button::Middle), column: x, row: y, modifiers },
    );
    assert(mouse_code(MouseButton::Button2Drag, modifiers) == 53);
    let b = decimal(53);
    let xs = decimal(x as nat);
    let ys = decimal(y as nat);
    let text = seq!['<'] + b + seq![';'] + xs + seq![';'] + ys;
    assert(report.spec_encode() =~= seq!['\x1b', '['] + text + seq!['M']);
    lemma_sequence_bytes(text, 'M');
    lemma_ascii_concat(seq!['<'] + b + seq![';'] + xs + seq![';'], ys);
    lemma_ascii_concat(seq!['<'] + b + seq![';'] + xs, seq![';']);
    lemma_ascii_concat(seq!['<'] + b + seq![';'], xs);
    lemma_ascii_concat(seq!['<'] + b, seq![';']);
    lemma_ascii_concat(seq!['<'], b);
    assert(ascii(seq!['<']) =~= seq![0x3cu8]);
    assert(ascii(seq![';']) =~= seq![0x3bu8]);
    lemma_decimal_reads_back(53);
    lemma_decimal_reads_back(x as nat);
    lemma_decimal_reads_back(y as nat);
    let bb = ascii(b);
    let xb = ascii(xs);
    let yb = ascii(ys);
    let bytes = ascii(report.spec_encode());
    assert(bytes =~= seq![0x1bu8, 0x5bu8, 0x3cu8] + bb + seq![0x3bu8] + xb + seq![0x3bu8] + yb
        + seq![0x4du8]);
    assert forall|j: int| 3 <= j < bytes.len() - 1 implies !is_final_byte(#[trigger] bytes[j]) by {
        if j < 3 + bb.len() {
            assert(bytes[j] == bb[j - 3]);
        } else if 3 + bb.len() < j < 4 + bb.len() + xb.len() {
            assert(bytes[j] == xb[j - 4 - bb.len()]);
        } else if j > 4 + bb.len() + xb.len() {
            assert(bytes[j] == yb[j - 5 - bb.len() - xb.len()]);
        }
    }
    lemma_params_wait(bytes, 3);
    lemma_drag_report_decodes(bytes, bb, xb, yb, x, y);
    lemma_one_unit(bytes, event);
}

/// Every named private mode reads back from its number.
pub proof fn lemma_mode_code_round_trip(code: DecPrivateModeCode)
    ensures
        DecPrivateMode::spec_from_number(code.spec_code()) == DecPrivateMode::Code(code),
{
}

/// `ESC [ ? mode ; setting $ y` decodes to the report of that mode and setting.
#[verifier::rlimit(40)]
proof fn lemma_mode_report_decodes(
    bytes: Seq<u8>,
    mb: Seq<u8>,
    vb: Seq<u8>,
    mode: DecPrivateMode,
    setting: DecModeSetting,
)
    requires
        DecPrivateMode::spec_from_number(mode.spec_number()) == mode,
        mb == ascii(decimal(mode.spec_number() as nat)),
        vb == ascii(decimal(setting.spec_code() as nat)),
        bytes == seq![0x1bu8, 0x5bu8, 0x3fu8] + mb + seq![0x3bu8] + vb + seq![0x24u8, 0x79u8],
    ensures
        parse_event_spec(bytes, false) == Ok::<Option<Event>, Malformed>(
            Some(Event::Csi(Csi::Mode(Mode::ReportDecPrivateMode { mode, setting }))),
        ),
{
    let report = Csi::Mode(Mode::ReportDecPrivateMode { mode, setting });
    lemma_decimal_reads_back(mode.spec_number() as nat);
    lemma_decimal_reads_back(setting.spec_code() as nat);
    assert(bytes.subrange(3, bytes.len() - 2) =~= mb + seq![0x3bu8] + vb);
    lemma_split_fields(mb, 0x3b, vb);
    lemma_split_fields(vb, 0x3b, Seq::empty());
    assert(bytes[bytes.len() - 2] == 0x24);
    assert(bytes.last() == 0x79);
    assert(bytes[2] == 0x3f);
    assert(mode_report_spec(bytes) == Ok::<Option<Event>, Malformed>(Some(Event::Csi(report))));
    assert(private_report_spec(bytes) == mode_report_spec(bytes));
    assert(parse_event_spec(bytes, false) == csi_spec(bytes));
}

/// A report of a private mode's setting, written out and fed to the decoder with nothing
/// pending, decodes to exactly that report, for every mode whose number reads back as the
/// same mode (all named modes, and every other number that names none).
#[verifier::rlimit(40)]
pub proof fn lemma_mode_report_round_trip(mode: DecPrivateMode, setting: DecModeSetting)
    requires
        DecPrivateMode::spec_from_number(mode.spec_number()) == mode,
    ensures
        ({
            let report = Csi::Mode(Mode::ReportDecPrivateMode { mode, setting });
            let bytes = ascii(report.spec_encode());
            &&& fed_events(Seq::empty(), bytes, false) == seq![Event::Csi(report)]
            &&& fed_rest(Seq::empty(), bytes, false) == Seq::<u8>::empty()
        }),
{
    let report = Csi::Mode(Mode::ReportDecPrivateMode { mode, setting });
    let m = decimal(mode.spec_number() as nat);
    let v = decimal(setting.spec_code() as nat);
    let text = seq!['?'] + m + seq![';'] + v + seq!['$'];
    assert(report.spec_encode() =~= seq!['\x1b', '['] + text + seq!['y']);
    lemma_sequence_bytes(text, 'y');
    lemma_ascii_concat(seq!['?'] + m + seq![';'] + v, seq!['$']);
    lemma_ascii_concat(seq!['?'] + m + seq![';'], v);
    lemma_ascii_concat(seq!['?'] + m, seq![';']);
    lemma_ascii_concat(seq!['?'], m);
    assert(ascii(seq!['?']) =~= seq![0x3fu8]);
    assert(ascii(seq![';']) =~= seq![0x3bu8]);
    assert(ascii(seq!['$']) =~= seq![0x24u8]);
    lemma_decimal_reads_back(mode.spec_number() as nat);
    lemma_decimal_reads_back(setting.spec_code() as nat);
    let mb = ascii(m);
    let vb = ascii(v);
    let bytes = ascii(report.spec_encode());
    assert(bytes =~= seq![0x1bu8, 0x5bu8, 0x3fu8] + mb + seq![0x3bu8] + vb + seq![0x24u8, 0x79u8]);
    assert forall|j: int| 3 <= j < bytes.len() - 1 implies !is_final_byte(#[trigger] bytes[j]) by {
        if j < 3 + mb.len() {
            assert(bytes[j] == mb[j - 3]);
        } else if 3 + mb.len() < j < 4 + mb.len() + vb.len() {
            assert(bytes[j] == vb[j - 4 - mb.len()]);
        }
    }
    lemma_params_wait(bytes, 3);
    lemma_mode_report_decodes(bytes, mb, vb, mode, setting);
    lemma_one_unit(bytes, Event::Csi(report));
}

} // verus!
