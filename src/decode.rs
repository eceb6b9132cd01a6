//! Incremental decoding of terminal input bytes into events.
use std::collections::VecDeque;

use vstd::prelude::*;

use crate::csi::{
    Csi, Cursor, DecModeSetting, DecPrivateMode, Device, Keyboard, KittyKeyboardFlags, Mode, Theme,
    ThemeMode,
};
use crate::event::{
    press, Event, KeyCode, KeyEvent, KeyEventKind, KeyEventState, MediaKeyCode, ModifierKeyCode,
    Modifiers, MouseButton, MouseEvent, MouseEventKind,
};
use crate::text::{decimal, digit_char};
use crate::{OneBased, WindowSize};

verus! {

broadcast use crate::OneBased::lemma_at;

// ---------------------------------------------------------------------------
// Decimal numbers

pub open spec fn is_digit(b: u8) -> bool {
    0x30 <= b <= 0x39
}

pub open spec fn all_digits(s: Seq<u8>) -> bool {
    forall|i: int| 0 <= i < s.len() ==> is_digit(#[trigger] s[i])
}

/// The value of a string of decimal digits.
pub open spec fn digits_value(s: Seq<u8>) -> nat
    decreases s.len(),
{
    if s.len() == 0 {
        0
    } else {
        digits_value(s.drop_last()) * 10 + (s.last() - 0x30) as nat
    }
}

/// A decimal number of at most `max`, with an optional leading `+`, as `str::parse` reads one.
pub open spec fn number(s: Seq<u8>, max: u32) -> Option<u32> {
    if unsigned(s).len() > 0 && all_digits(unsigned(s)) && digits_value(unsigned(s)) <= max {
        Some(digits_value(unsigned(s)) as u32)
    } else {
        None
    }
}

/// `s` without a leading `+`.
pub open spec fn unsigned(s: Seq<u8>) -> Seq<u8> {
    if s.len() > 0 && s[0] == 0x2b {
        s.subrange(1, s.len() as int)
    } else {
        s
    }
}

proof fn lemma_digits_prefix_grows(s: Seq<u8>, i: int)
    requires
        0 <= i <= s.len(),
        all_digits(s),
    ensures
        digits_value(s.subrange(0, i)) <= digits_value(s),
    decreases s.len() - i,
{
    if i < s.len() {
        lemma_digits_prefix_grows(s, i + 1);
        assert(s.subrange(0, i + 1).drop_last() =~= s.subrange(0, i));
    } else {
        assert(s.subrange(0, i) =~= s);
    }
}

/// Reads `b[lo..hi]` as a decimal number of at most `max`; see `number`.
pub fn parse_number(b: &[u8], lo: usize, hi: usize, max: u32) -> (r: Option<u32>)
    requires
        lo <= hi <= b@.len(),
    ensures
        r == number(b@.subrange(lo as int, hi as int), max),
{
    let ghost s = b@.subrange(lo as int, hi as int);
    let mut start = lo;
    if lo < hi && b[lo] == 0x2b {
        start = lo + 1;
    }
    let ghost d = b@.subrange(start as int, hi as int);
    assert(d =~= unsigned(s));
    if start == hi {
        return None;
    }
    let mut acc: u64 = 0;
    let mut i = start;
    while i < hi
        invariant
            lo <= start <= i <= hi <= b@.len(),
            s == b@.subrange(lo as int, hi as int),
            d == unsigned(s),
            d == b@.subrange(start as int, hi as int),
            all_digits(b@.subrange(start as int, i as int)),
            acc == digits_value(b@.subrange(start as int, i as int)),
            acc <= max,
        decreases hi - i,
    {
        let c = b[i];
        if c < 0x30 || c > 0x39 {
            assert(!all_digits(d)) by {
                assert(d[i - start] == c);
            }
            return None;
        }
        let ghost prev = b@.subrange(start as int, i as int);
        let ghost next = b@.subrange(start as int, i + 1);
        assert(next.drop_last() =~= prev);
        assert(next.last() == c);
        assert(digits_value(next) == digits_value(prev) * 10 + (c - 0x30) as nat);
        assert(all_digits(next)) by {
            assert forall|k: int| 0 <= k < next.len() implies is_digit(#[trigger] next[k]) by {
                if k < prev.len() {
                    assert(next[k] == prev[k]);
                }
            }
        }
        acc = acc * 10 + (c - 0x30) as u64;
        i = i + 1;
        if acc > max as u64 {
            proof {
                if all_digits(d) {
                    assert(d.subrange(0, i - start) =~= b@.subrange(start as int, i as int));
                    lemma_digits_prefix_grows(d, i - start);
                }
            }
            return None;
        }
    }
    assert(b@.subrange(start as int, i as int) =~= d);
    Some(acc as u32)
}

// ---------------------------------------------------------------------------
// Fields separated by a byte

pub open spec fn lacks(s: Seq<u8>, sep: u8) -> bool {
    forall|i: int| 0 <= i < s.len() ==> #[trigger] s[i] != sep
}

/// Where the first `sep` in `s` stands, if any does.
pub open spec fn first_sep(s: Seq<u8>, sep: u8) -> Option<int>
    decreases s.len(),
{
    if s.len() == 0 {
        None
    } else {
        match first_sep(s.drop_last(), sep) {
            Some(i) => Some(i),
            None => if s.last() == sep {
                Some(s.len() - 1)
            } else {
                None
            },
        }
    }
}

/// The part of `s` before its first `sep`, and the part after it if there is a `sep`.
pub open spec fn split_first(s: Seq<u8>, sep: u8) -> (Seq<u8>, Option<Seq<u8>>) {
    match first_sep(s, sep) {
        None => (s, None),
        Some(i) => (s.subrange(0, i), Some(s.subrange(i + 1, s.len() as int))),
    }
}

/// The first field of `s`.
pub open spec fn head(s: Seq<u8>, sep: u8) -> Seq<u8> {
    split_first(s, sep).0
}

/// What follows the first field of `s`, if anything does.
pub open spec fn tail(s: Seq<u8>, sep: u8) -> Option<Seq<u8>> {
    split_first(s, sep).1
}

proof fn lemma_first_sep_extends(s: Seq<u8>, sep: u8, k: int)
    requires
        0 <= k <= s.len(),
        first_sep(s.subrange(0, k), sep) is Some,
    ensures
        first_sep(s, sep) == first_sep(s.subrange(0, k), sep),
    decreases s.len() - k,
{
    if k < s.len() {
        assert(s.subrange(0, k + 1).drop_last() =~= s.subrange(0, k));
        lemma_first_sep_extends(s, sep, k + 1);
    } else {
        assert(s.subrange(0, k) =~= s);
    }
}

/// Finds the first `sep` in `b[lo..hi]`.
fn find_sep(b: &[u8], lo: usize, hi: usize, sep: u8) -> (r: Option<usize>)
    requires
        lo <= hi <= b@.len(),
    ensures
        match first_sep(b@.subrange(lo as int, hi as int), sep) {
            None => r is None,
            Some(i) => r matches Some(k) && k == lo + i,
        },
        r matches Some(i) ==> lo <= i < hi && b@[i as int] == sep,
{
    let ghost s = b@.subrange(lo as int, hi as int);
    let mut i = lo;
    while i < hi
        invariant
            lo <= i <= hi <= b@.len(),
            s == b@.subrange(lo as int, hi as int),
            first_sep(s.subrange(0, i - lo), sep) is None,
        decreases hi - i,
    {
        assert(s.subrange(0, i + 1 - lo).drop_last() =~= s.subrange(0, i - lo));
        if b[i] == sep {
            proof {
                lemma_first_sep_extends(s, sep, i + 1 - lo);
            }
            return Some(i);
        }
        i = i + 1;
    }
    assert(s.subrange(0, i - lo) =~= s);
    None
}

/// Splits `b[lo..hi]` at its first `sep`: the end of the first field, and where the rest
/// starts if there is a rest.
fn split_range(b: &[u8], lo: usize, hi: usize, sep: u8) -> (r: (usize, Option<usize>))
    requires
        lo <= hi <= b@.len(),
    ensures
        lo <= r.0 <= hi,
        split_first(b@.subrange(lo as int, hi as int), sep) == (
        b@.subrange(lo as int, r.0 as int),
        match r.1 {
            None => None,
            Some(next) => Some(b@.subrange(next as int, hi as int)),
        }),
        r.1 matches Some(next) ==> next == r.0 + 1 && next <= hi,
{
    let ghost s = b@.subrange(lo as int, hi as int);
    match find_sep(b, lo, hi, sep) {
        None => {
            assert(s =~= b@.subrange(lo as int, hi as int));
            (hi, None)
        },
        Some(i) => {
            assert(first_sep(s, sep) == Some(i - lo));
            assert(split_first(s, sep) == (
            s.subrange(0, i - lo),
            Some(s.subrange(i - lo + 1, s.len() as int)),
            ));
            assert(s.subrange(0, i - lo) =~= b@.subrange(lo as int, i as int));
            assert(s.subrange(i - lo + 1, s.len() as int) =~= b@.subrange(i + 1, hi as int));
            (i, Some(i + 1))
        },
    }
}


// ---------------------------------------------------------------------------
// Characters

/// Whether `c` has the Unicode Uppercase property.
pub uninterp spec fn is_upper(c: char) -> bool;

/// Relies on `char::is_uppercase`: whether the character has the Unicode Uppercase property.
#[verifier::external_body]
fn char_is_uppercase(c: char) -> (r: bool)
    ensures
        r == is_upper(c),
{
    c.is_uppercase()
}

/// Whether `b` is valid UTF-8: a sequence of well-formed encodings of scalar values.
pub open spec fn is_utf8(b: Seq<u8>) -> bool {
    vstd::utf8::valid_utf8(b)
}

/// Relies on `std::str::from_utf8`: whether the bytes are valid UTF-8.
#[verifier::external_body]
fn utf8_valid(b: &[u8]) -> (r: bool)
    ensures
        r == is_utf8(b@),
{
    std::str::from_utf8(b).is_ok()
}

/// ASCII is valid UTF-8.
pub proof fn lemma_ascii_is_utf8(b: Seq<u8>)
    requires
        forall|i: int| 0 <= i < b.len() ==> #[trigger] b[i] < 0x80,
    ensures
        is_utf8(b),
    decreases b.len(),
{
    if b.len() > 0 {
        let x = b[0];
        assert(x & 0x7f <= 0x7f) by (bit_vector);
        let rest = b.subrange(1, b.len() as int);
        assert(vstd::utf8::pop_first_scalar(b) == rest);
        assert forall|i: int| 0 <= i < rest.len() implies #[trigger] rest[i] < 0x80 by {
            assert(rest[i] == b[i + 1]);
        }
        lemma_ascii_is_utf8(rest);
    }
}

/// The Unicode scalar values: what a `char` can hold.
pub open spec fn is_scalar(cp: u32) -> bool {
    cp <= 0x10ffff && !(0xd800 <= cp <= 0xdfff)
}

/// The scalar value of `c`.
pub open spec fn value_of(c: char) -> u32 {
    c as u32
}

/// The character whose value is `cp`.
pub open spec fn char_of(cp: u32) -> char {
    choose|c: char| #[trigger] value_of(c) == cp
}

/// Relies on `char::from_u32`: a character exactly for the scalar values, holding that value.
#[verifier::external_body]
fn to_char(cp: u32) -> (r: Option<char>)
    ensures
        r == (if is_scalar(cp) { Some(char_of(cp)) } else { None }),
        r matches Some(c) ==> value_of(c) == cp,
{
    char::from_u32(cp)
}

/// How many bytes a UTF-8 sequence that starts with `lead` has; zero where none starts so.
pub open spec fn utf8_width(lead: u8) -> int {
    if lead <= 0x7f {
        1
    } else if 0xc0 <= lead <= 0xdf {
        2
    } else if 0xe0 <= lead <= 0xef {
        3
    } else if 0xf0 <= lead <= 0xf7 {
        4
    } else {
        0
    }
}

pub open spec fn is_continuation(b: u8) -> bool {
    0x80 <= b <= 0xbf
}

/// The value that a complete UTF-8 sequence of `utf8_width(s[0])` bytes encodes.
pub open spec fn utf8_value(s: Seq<u8>) -> int {
    let w = utf8_width(s[0]);
    if w == 1 {
        s[0] as int
    } else if w == 2 {
        (s[0] - 0xc0) * 64 + (s[1] - 0x80)
    } else if w == 3 {
        (s[0] - 0xe0) * 4096 + (s[1] - 0x80) * 64 + (s[2] - 0x80)
    } else {
        (s[0] - 0xf0) * 262144 + (s[1] - 0x80) * 4096 + (s[2] - 0x80) * 64 + (s[3] - 0x80)
    }
}

/// The least value that a sequence of `w` bytes may encode: anything less is overlong.
pub open spec fn utf8_least(w: int) -> int {
    if w == 1 {
        0
    } else if w == 2 {
        0x80
    } else if w == 3 {
        0x800
    } else {
        0x10000
    }
}

/// Whether the bytes of `s` from the second up to `k` are all continuation bytes.
pub open spec fn continues(s: Seq<u8>, k: int) -> bool {
    forall|i: int| 1 <= i < k ==> is_continuation(#[trigger] s[i])
}

/// Decoding a buffer that starts a character: its first character once the buffer holds all
/// of that character's bytes and is valid UTF-8, nothing while bytes of the first character
/// are still missing, and malformed otherwise.
pub open spec fn utf8_char(s: Seq<u8>) -> Result<Option<char>, Malformed> {
    let w = utf8_width(s[0]);
    if w == 0 {
        Err(Malformed)
    } else if s.len() < w {
        if continues(s, s.len() as int) {
            Ok(None)
        } else {
            Err(Malformed)
        }
    } else if continues(s, w) && utf8_least(w) <= utf8_value(s) && is_scalar(
        utf8_value(s) as u32,
    ) && (s.len() == w || is_utf8(s)) {
        Ok(Some(char_of(utf8_value(s) as u32)))
    } else {
        Err(Malformed)
    }
}

fn parse_utf8_char(b: &[u8]) -> (r: Result<Option<char>, Malformed>)
    requires
        b@.len() > 0,
    ensures
        r == utf8_char(b@),
{
    let lead = b[0];
    let w: usize = if lead <= 0x7f {
        1
    } else if 0xc0 <= lead && lead <= 0xdf {
        2
    } else if 0xe0 <= lead && lead <= 0xef {
        3
    } else if 0xf0 <= lead && lead <= 0xf7 {
        4
    } else {
        return Err(Malformed);
    };
    assert(w == utf8_width(b@[0]));
    let end = if b.len() < w { b.len() } else { w };
    let mut i: usize = 1;
    while i < end
        invariant
            1 <= i <= end,
            end <= b@.len(),
            w == utf8_width(b@[0]),
            end == (if b@.len() < w { b@.len() as int } else { w as int }),
            forall|k: int| 1 <= k < i ==> is_continuation(#[trigger] b@[k]),
        decreases end - i,
    {
        if b[i] < 0x80 || b[i] > 0xbf {
            assert(!is_continuation(b@[i as int]));
            assert(!continues(b@, end as int));
            assert(utf8_width(b@[0]) == w);
            return Err(Malformed);
        }
        i = i + 1;
    }
    if b.len() < w {
        return Ok(None);
    }
    let value: u32 = if w == 1 {
        lead as u32
    } else if w == 2 {
        (lead - 0xc0) as u32 * 64 + (b[1] - 0x80) as u32
    } else if w == 3 {
        (lead - 0xe0) as u32 * 4096 + (b[1] - 0x80) as u32 * 64 + (b[2] - 0x80) as u32
    } else {
        (lead - 0xf0) as u32 * 262144 + (b[1] - 0x80) as u32 * 4096 + (b[2] - 0x80) as u32 * 64
            + (b[3] - 0x80) as u32
    };
    assert(value == utf8_value(b@));
    let least: u32 = if w == 1 {
        0
    } else if w == 2 {
        0x80
    } else if w == 3 {
        0x800
    } else {
        0x10000
    };
    if value < least {
        return Err(Malformed);
    }
    match to_char(value) {
        Some(c) => {
            if b.len() > w && !utf8_valid(b) {
                return Err(Malformed);
            }
            Ok(Some(c))
        },
        None => Err(Malformed),
    }
}

// ---------------------------------------------------------------------------
// Events

/// A byte sequence that starts a known family but cannot complete it.
#[derive(Debug, Clone, Copy, PartialEq, Eq, Structural)]
pub struct Malformed;

/// A key press with no modifiers.
pub open spec fn key(code: KeyCode) -> Event {
    Event::Key(press(code, Modifiers { bits: 0 }))
}

pub open spec fn key_with(code: KeyCode, bits: u8) -> Event {
    Event::Key(press(code, Modifiers { bits }))
}

fn key_event(code: KeyCode, bits: u8) -> (r: Event)
    ensures
        r == key_with(code, bits),
{
    Event::Key(KeyEvent::new(code, Modifiers { bits }))
}

/// The same result with Alt added to a key event.
pub open spec fn with_alt(r: Result<Option<Event>, Malformed>) -> Result<Option<Event>, Malformed> {
    match r {
        Ok(Some(Event::Key(k))) => Ok(
            Some(Event::Key(KeyEvent { modifiers: k.modifiers.with(Modifiers::ALT), ..k })),
        ),
        _ => r,
    }
}

/// The key event for a typed character: uppercase letters report Shift.
pub open spec fn char_key(c: char, upper: bool) -> Event {
    key_with(KeyCode::Char(c), if upper { Modifiers::SHIFT } else { Modifiers::NONE })
}

/// Builds the key event of a typed character, given whether it is uppercase.
pub fn char_key_event(c: char, upper: bool) -> (r: Event)
    ensures
        r == char_key(c, upper),
{
    key_event(KeyCode::Char(c), if upper { Modifiers::SHIFT } else { Modifiers::NONE })
}

/// The control characters that stand for Ctrl with a key.
pub open spec fn control_key(b: u8) -> Event
    recommends
        b <= 0x1a || 0x1c <= b <= 0x1f,
{
    if b == 0 {
        key_with(KeyCode::Char(' '), Modifiers::CONTROL)
    } else if b <= 0x1a {
        key_with(KeyCode::Char((b - 1 + 0x61) as u8 as char), Modifiers::CONTROL)
    } else {
        key_with(KeyCode::Char((b - 0x1c + 0x34) as u8 as char), Modifiers::CONTROL)
    }
}

/// The keys of SS3 sequences: `ESC O` and one byte.
pub open spec fn ss3_key(b: u8) -> Option<KeyCode> {
    if b == 0x44 {
        Some(KeyCode::Left)
    } else if b == 0x43 {
        Some(KeyCode::Right)
    } else if b == 0x41 {
        Some(KeyCode::Up)
    } else if b == 0x42 {
        Some(KeyCode::Down)
    } else if b == 0x48 {
        Some(KeyCode::Home)
    } else if b == 0x46 {
        Some(KeyCode::End)
    } else if 0x50 <= b <= 0x53 {
        Some(KeyCode::Function((1 + b - 0x50) as u8))
    } else {
        None
    }
}

/// What the leading bytes `s` decode to: an event once they form a complete unit, nothing yet
/// while they may still grow into one, or malformed. `more` says whether more bytes may
/// follow, which decides a lone `ESC`.
pub open spec fn parse_event_spec(s: Seq<u8>, more: bool) -> Result<Option<Event>, Malformed>
    decreases s.len(),
{
    if s.len() == 0 {
        Ok(None)
    } else if s[0] == 0x1b {
        if s.len() == 1 {
            if more {
                Ok(None)
            } else {
                Ok(Some(key(KeyCode::Escape)))
            }
        } else if s[1] == 0x4f {
            if s.len() == 2 {
                Ok(None)
            } else {
                match ss3_key(s[2]) {
                    Some(code) => Ok(Some(key(code))),
                    None => Err(Malformed),
                }
            }
        } else if s[1] == 0x5b {
            csi_spec(s)
        } else if s[1] == 0x1b {
            Ok(Some(key(KeyCode::Escape)))
        } else {
            with_alt(parse_event_spec(s.subrange(1, s.len() as int), more))
        }
    } else if s[0] == 0x0d {
        Ok(Some(key(KeyCode::Enter)))
    } else if s[0] == 0x09 {
        Ok(Some(key(KeyCode::Tab)))
    } else if s[0] == 0x7f {
        Ok(Some(key(KeyCode::Backspace)))
    } else if s[0] <= 0x1a || 0x1c <= s[0] <= 0x1f {
        Ok(Some(control_key(s[0])))
    } else {
        match utf8_char(s) {
            Err(e) => Err(e),
            Ok(None) => Ok(None),
            Ok(Some(c)) => Ok(Some(char_key(c, is_upper(c)))),
        }
    }
}

/// Decodes the leading bytes of `b` as one event; see `parse_event_spec`.
pub fn parse_event(b: &[u8], more: bool) -> (r: Result<Option<Event>, Malformed>)
    ensures
        r == parse_event_spec(b@, more),
    decreases b@.len(),
{
    if b.len() == 0 {
        return Ok(None);
    }
    let first = b[0];
    if first == 0x1b {
        if b.len() == 1 {
            if more {
                Ok(None)
            } else {
                Ok(Some(key_event(KeyCode::Escape, 0)))
            }
        } else if b[1] == 0x4f {
            if b.len() == 2 {
                Ok(None)
            } else {
                let c = b[2];
                let code = if c == 0x44 {
                    KeyCode::Left
                } else if c == 0x43 {
                    KeyCode::Right
                } else if c == 0x41 {
                    KeyCode::Up
                } else if c == 0x42 {
                    KeyCode::Down
                } else if c == 0x48 {
                    KeyCode::Home
                } else if c == 0x46 {
                    KeyCode::End
                } else if 0x50 <= c && c <= 0x53 {
                    KeyCode::Function(1 + c - 0x50)
                } else {
                    return Err(Malformed);
                };
                Ok(Some(key_event(code, 0)))
            }
        } else if b[1] == 0x5b {
            parse_csi(b)
        } else if b[1] == 0x1b {
            Ok(Some(key_event(KeyCode::Escape, 0)))
        } else {
            let inner = parse_event(&b[1..b.len()], more);
            match inner {
                Ok(Some(Event::Key(k))) => Ok(
                    Some(Event::Key(KeyEvent { modifiers: k.modifiers.with(Modifiers::ALT), ..k })),
                ),
                other => other,
            }
        }
    } else if first == 0x0d {
        Ok(Some(key_event(KeyCode::Enter, 0)))
    } else if first == 0x09 {
        Ok(Some(key_event(KeyCode::Tab, 0)))
    } else if first == 0x7f {
        Ok(Some(key_event(KeyCode::Backspace, 0)))
    } else if first == 0 {
        Ok(Some(key_event(KeyCode::Char(' '), Modifiers::CONTROL)))
    } else if first <= 0x1a {
        Ok(Some(key_event(KeyCode::Char((first - 1 + 0x61) as char), Modifiers::CONTROL)))
    } else if 0x1c <= first && first <= 0x1f {
        Ok(Some(key_event(KeyCode::Char((first - 0x1c + 0x34) as char), Modifiers::CONTROL)))
    } else {
        match parse_utf8_char(b) {
            Err(e) => Err(e),
            Ok(None) => Ok(None),
            Ok(Some(c)) => {
                let upper = char_is_uppercase(c);
                Ok(Some(char_key_event(c, upper)))
            },
        }
    }
}

// ---------------------------------------------------------------------------
// Control sequences

/// The text of a paste: the bytes as UTF-8, with each invalid sequence replaced.
pub uninterp spec fn lossy_text(b: Seq<u8>) -> String;

/// Relies on `String::from_utf8_lossy`: the bytes as text, each invalid sequence replaced by
/// U+FFFD.
#[verifier::external_body]
fn paste_text(b: &[u8]) -> (r: String)
    ensures
        r == lossy_text(b@),
{
    String::from_utf8_lossy(b).into_owned()
}

/// `ESC [ 200 ~`, which opens a bracketed paste.
pub open spec fn paste_open() -> Seq<u8> {
    seq![0x1bu8, 0x5bu8, 0x32u8, 0x30u8, 0x30u8, 0x7eu8]
}

/// `ESC [ 201 ~`, which closes a bracketed paste.
pub open spec fn paste_close() -> Seq<u8> {
    seq![0x1bu8, 0x5bu8, 0x32u8, 0x30u8, 0x31u8, 0x7eu8]
}

/// A bracketed paste: nothing until the closing sequence arrives, then the text between
/// the two as one event.
pub open spec fn paste_spec(s: Seq<u8>) -> Result<Option<Event>, Malformed> {
    if s.len() >= 12 && s.subrange(s.len() - 6, s.len() as int) == paste_close() {
        Ok(Some(Event::Paste(lossy_text(s.subrange(6, s.len() - 6)))))
    } else {
        Ok(None)
    }
}

pub open spec fn is_final_byte(b: u8) -> bool {
    0x40 <= b <= 0x7e
}

pub open spec fn csi_spec(s: Seq<u8>) -> Result<Option<Event>, Malformed>
    recommends
        s.len() >= 2,
{
    if s.len() == 2 {
        Ok(None)
    } else {
        let c = s[2];
        if c == 0x5b {
            if s.len() == 3 {
                Ok(None)
            } else if 0x41 <= s[3] <= 0x45 {
                Ok(Some(key(KeyCode::Function((1 + s[3] - 0x41) as u8))))
            } else {
                Err(Malformed)
            }
        } else if c == 0x44 {
            Ok(Some(key(KeyCode::Left)))
        } else if c == 0x43 {
            Ok(Some(key(KeyCode::Right)))
        } else if c == 0x41 {
            Ok(Some(key(KeyCode::Up)))
        } else if c == 0x42 {
            Ok(Some(key(KeyCode::Down)))
        } else if c == 0x48 {
            Ok(Some(key(KeyCode::Home)))
        } else if c == 0x46 {
            Ok(Some(key(KeyCode::End)))
        } else if c == 0x5a {
            Ok(Some(key_with(KeyCode::BackTab, Modifiers::SHIFT)))
        } else if c == 0x49 {
            Ok(Some(Event::FocusIn))
        } else if c == 0x4f {
            Ok(Some(Event::FocusOut))
        } else if c == 0x3b {
            modifier_key_spec(s, is_utf8(params(s)))
        } else if c == 0x50 {
            Ok(Some(key(KeyCode::Function(1))))
        } else if c == 0x51 {
            Ok(Some(key(KeyCode::Function(2))))
        } else if c == 0x53 {
            Ok(Some(key(KeyCode::Function(4))))
        } else if c == 0x3c {
            if !is_final_byte(s.last()) {
                Ok(None)
            } else {
                sgr_mouse_spec(s)
            }
        } else if c == 0x3f {
            if !is_final_byte(s.last()) {
                Ok(None)
            } else {
                private_report_spec(s)
            }
        } else if is_digit(c) {
            if s.len() >= 6 && s.subrange(0, 6) == paste_open() {
                paste_spec(s)
            } else if s.len() == 3 || !is_final_byte(s.last()) {
                Ok(None)
            } else if s.last() == 0x7e {
                special_key_spec(s, is_utf8(params(s)))
            } else if s.last() == 0x75 {
                csi_u_spec(s, is_utf8(params(s)))
            } else if s.last() == 0x52 {
                cursor_report_spec(s)
            } else {
                modifier_key_spec(s, is_utf8(params(s)))
            }
        } else {
            Err(Malformed)
        }
    }
}


/// The modifier mask and event kind of a `mask:kind` parameter; the kind defaults to a press.
pub open spec fn mod_and_kind(f: Seq<u8>) -> Option<(u8, u8)> {
    match number(head(f, 0x3a), 255) {
        None => None,
        Some(m) => Some(
            (
                m as u8,
                match tail(f, 0x3a) {
                    None => 1u8,
                    Some(r) => match number(head(r, 0x3a), 255) {
                        Some(k) => k as u8,
                        None => 1u8,
                    },
                },
            ),
        ),
    }
}

/// The `mask:kind` of the second `;` parameter, if it is there and reads.
pub open spec fn second_mods(body: Seq<u8>) -> Option<(u8, u8)> {
    match tail(body, 0x3b) {
        None => None,
        Some(r) => mod_and_kind(head(r, 0x3b)),
    }
}

/// The modifiers of a mask: one more than the bits of Shift (1), Alt (2), Control (4),
/// Super (8), Hyper (16) and Meta (32).
pub open spec fn modifiers_of(mask: u8) -> Modifiers {
    let m = if mask == 0 { 0 } else { mask - 1 };
    Modifiers { bits: ((m % 64) * 2) as u8 }
}

/// The lock state of a mask: Caps Lock (64) and Num Lock (128).
pub open spec fn lock_state_of(mask: u8) -> u8 {
    let m = if mask == 0 { 0 } else { mask - 1 };
    ((m / 64) * 4) as u8
}

pub open spec fn kind_of(k: u8) -> KeyEventKind {
    if k == 2 {
        KeyEventKind::Repeat
    } else if k == 3 {
        KeyEventKind::Release
    } else {
        KeyEventKind::Press
    }
}

/// The keys named by the final letter of a CSI sequence.
pub open spec fn letter_key(b: u8) -> Option<KeyCode> {
    if b == 0x41 {
        Some(KeyCode::Up)
    } else if b == 0x42 {
        Some(KeyCode::Down)
    } else if b == 0x43 {
        Some(KeyCode::Right)
    } else if b == 0x44 {
        Some(KeyCode::Left)
    } else if b == 0x46 {
        Some(KeyCode::End)
    } else if b == 0x48 {
        Some(KeyCode::Home)
    } else if 0x50 <= b <= 0x53 {
        Some(KeyCode::Function((1 + b - 0x50) as u8))
    } else {
        None
    }
}

/// The parameters of a sequence `ESC [ ... F`: what lies between the introducer and the
/// final byte.
pub open spec fn params(s: Seq<u8>) -> Seq<u8> {
    s.subrange(2, s.len() - 1)
}

/// `ESC [ 1 ; mask:kind X`, with `X` a cursor or F1-F4 letter.
pub open spec fn modifier_key_spec(s: Seq<u8>, utf8: bool) -> Result<Option<Event>, Malformed> {
    let body = params(s);
    let mods_kind: Option<(Modifiers, KeyEventKind)> = match second_mods(body) {
        Some((m, k)) => Some((modifiers_of(m), kind_of(k))),
        None => if s.len() > 3 {
            if is_digit(s[s.len() - 2]) {
                Some((modifiers_of((s[s.len() - 2] - 0x30) as u8), KeyEventKind::Press))
            } else {
                None
            }
        } else {
            Some((Modifiers { bits: 0 }, KeyEventKind::Press))
        },
    };
    if !utf8 {
        Err(Malformed)
    } else {
        match mods_kind {
            None => Err(Malformed),
            Some((modifiers, kind)) => match letter_key(s.last()) {
                None => Err(Malformed),
                Some(code) => Ok(
                    Some(
                        Event::Key(
                            KeyEvent { code, modifiers, kind, state: KeyEventState { bits: 0 } },
                        ),
                    ),
                ),
            },
        }
    }
}

/// The keys of `ESC [ n ~`.
pub open spec fn special_key(v: u32) -> Option<KeyCode> {
    if v == 1 || v == 7 {
        Some(KeyCode::Home)
    } else if v == 2 {
        Some(KeyCode::Insert)
    } else if v == 3 {
        Some(KeyCode::Delete)
    } else if v == 4 || v == 8 {
        Some(KeyCode::End)
    } else if v == 5 {
        Some(KeyCode::PageUp)
    } else if v == 6 {
        Some(KeyCode::PageDown)
    } else if 11 <= v <= 15 {
        Some(KeyCode::Function((v - 10) as u8))
    } else if 17 <= v <= 21 {
        Some(KeyCode::Function((v - 11) as u8))
    } else if 23 <= v <= 26 {
        Some(KeyCode::Function((v - 12) as u8))
    } else if 28 <= v <= 29 {
        Some(KeyCode::Function((v - 15) as u8))
    } else if 31 <= v <= 34 {
        Some(KeyCode::Function((v - 17) as u8))
    } else {
        None
    }
}

/// Modifiers, kind and lock state of an optional `mask:kind`; a plain press without one.
pub open spec fn key_attrs(mk: Option<(u8, u8)>) -> (Modifiers, KeyEventKind, u8) {
    match mk {
        Some((m, k)) => (modifiers_of(m), kind_of(k), lock_state_of(m)),
        None => (Modifiers { bits: 0 }, KeyEventKind::Press, 0),
    }
}

/// `ESC [ n ; mask:kind ~`.
pub open spec fn special_key_spec(s: Seq<u8>, utf8: bool) -> Result<Option<Event>, Malformed> {
    let body = params(s);
    if !utf8 {
        Err(Malformed)
    } else {
        match number(head(body, 0x3b), 255) {
            None => Err(Malformed),
            Some(first) => match special_key(first) {
                None => Err(Malformed),
                Some(code) => {
                    let (modifiers, kind, lock) = key_attrs(second_mods(body));
                    Ok(
                        Some(
                            Event::Key(
                                KeyEvent { code, modifiers, kind, state: KeyEventState { bits: lock } },
                            ),
                        ),
                    )
                },
            },
        }
    }
}

/// The key of a character codepoint in `ESC [ ... u`.
pub open spec fn plain_code(c: char, modifiers: Modifiers) -> KeyCode {
    if c == '\x1b' {
        KeyCode::Escape
    } else if c == '\r' {
        KeyCode::Enter
    } else if c == '\t' {
        if modifiers.has(Modifiers::SHIFT) {
            KeyCode::BackTab
        } else {
            KeyCode::Tab
        }
    } else if c == '\x7f' {
        KeyCode::Backspace
    } else {
        KeyCode::Char(c)
    }
}

/// The key and key state of a codepoint in `ESC [ ... u`.
pub open spec fn u_key(cp: u32, modifiers: Modifiers) -> Option<(KeyCode, u8)> {
    match spec_translate_functional_key_code(cp) {
        Some(k) => Some(k),
        None => if is_scalar(cp) {
            Some((plain_code(char_of(cp), modifiers), 0u8))
        } else {
            None
        },
    }
}

/// The modifier that pressing a modifier key itself sets.
pub open spec fn modifier_flag(m: ModifierKeyCode) -> Option<u8> {
    match m {
        ModifierKeyCode::LeftAlt | ModifierKeyCode::RightAlt => Some(Modifiers::ALT),
        ModifierKeyCode::LeftControl | ModifierKeyCode::RightControl => Some(Modifiers::CONTROL),
        ModifierKeyCode::LeftShift | ModifierKeyCode::RightShift => Some(Modifiers::SHIFT),
        ModifierKeyCode::LeftSuper | ModifierKeyCode::RightSuper => Some(Modifiers::SUPER),
        ModifierKeyCode::LeftHyper | ModifierKeyCode::RightHyper => Some(Modifiers::HYPER),
        ModifierKeyCode::LeftMeta | ModifierKeyCode::RightMeta => Some(Modifiers::META),
        _ => None,
    }
}

/// The shifted character that follows the codepoint after a `:`, if one is there.
pub open spec fn shifted_char(f0: Seq<u8>) -> Option<char> {
    match tail(f0, 0x3a) {
        None => None,
        Some(r) => match number(head(r, 0x3a), 0xffff_ffff) {
            Some(cp) => if is_scalar(cp) {
                Some(char_of(cp))
            } else {
                None
            },
            None => None,
        },
    }
}

/// `ESC [ codepoint:shifted ; mask:kind ; text u`, the numeric-codepoint key protocols.
pub open spec fn csi_u_spec(s: Seq<u8>, utf8: bool) -> Result<Option<Event>, Malformed> {
    let body = params(s);
    let f0 = head(body, 0x3b);
    if !utf8 {
        Err(Malformed)
    } else {
        match number(head(f0, 0x3a), 0xffff_ffff) {
            None => Err(Malformed),
            Some(cp) => {
                let (modifiers, kind, lock) = key_attrs(second_mods(body));
                match u_key(cp, modifiers) {
                    None => Err(Malformed),
                    Some((code, key_state)) => {
                        let mods = match code {
                            KeyCode::Modifier(m) => match modifier_flag(m) {
                                Some(flag) => modifiers.with(flag),
                                None => modifiers,
                            },
                            _ => modifiers,
                        };
                        let (code, mods) = match shifted_char(f0) {
                            Some(c) => if mods.has(Modifiers::SHIFT) {
                                (KeyCode::Char(c), mods.without(Modifiers::SHIFT))
                            } else {
                                (code, mods)
                            },
                            None => (code, mods),
                        };
                        Ok(
                            Some(
                                Event::Key(
                                    KeyEvent {
                                        code,
                                        modifiers: mods,
                                        kind,
                                        state: KeyEventState { bits: key_state | lock },
                                    },
                                ),
                            ),
                        )
                    },
                }
            },
        }
    }
}

/// `ESC [ line ; column R`: the terminal reports where the cursor is.
pub open spec fn cursor_report_spec(s: Seq<u8>) -> Result<Option<Event>, Malformed> {
    let body = params(s);
    match (number(head(body, 0x3b), 0xffff), tail(body, 0x3b)) {
        (Some(line), Some(r)) => match number(head(r, 0x3b), 0xffff) {
            Some(col) => if line == 0 || col == 0 {
                Err(Malformed)
            } else {
                Ok(
                    Some(
                        Event::Csi(
                            Csi::Cursor(
                                Cursor::ActivePositionReport {
                                    line: OneBased::spec_at(line as u16),
                                    col: OneBased::spec_at(col as u16),
                                },
                            ),
                        ),
                    ),
                )
            },
            None => Err(Malformed),
        },
        _ => Err(Malformed),
    }
}

/// The kind of mouse action of an SGR button code.
pub open spec fn mouse_kind(cb: u32) -> Option<MouseEventKind> {
    let n = cb % 4 + (cb / 64) * 4;
    let drag = (cb / 32) % 2 == 1;
    if n == 0 && !drag {
        Some(MouseEventKind::Down(MouseButton::Left))
    } else if n == 1 && !drag {
        Some(MouseEventKind::Down(MouseButton::Middle))
    } else if n == 2 && !drag {
        Some(MouseEventKind::Down(MouseButton::Right))
    } else if n == 0 && drag {
        Some(MouseEventKind::Drag(MouseButton::Left))
    } else if n == 1 && drag {
        Some(MouseEventKind::Drag(MouseButton::Middle))
    } else if n == 2 && drag {
        Some(MouseEventKind::Drag(MouseButton::Right))
    } else if n == 3 && !drag {
        Some(MouseEventKind::Up(MouseButton::Left))
    } else if (n == 3 || n == 4 || n == 5) && drag {
        Some(MouseEventKind::Moved)
    } else if n == 4 {
        Some(MouseEventKind::ScrollUp)
    } else if n == 5 {
        Some(MouseEventKind::ScrollDown)
    } else if n == 6 && !drag {
        Some(MouseEventKind::ScrollLeft)
    } else if n == 7 && !drag {
        Some(MouseEventKind::ScrollRight)
    } else {
        None
    }
}

/// The modifiers of an SGR button code: Shift (4), Alt (8) and Control (16).
pub open spec fn mouse_modifiers(cb: u32) -> Modifiers {
    Modifiers { bits: (((cb / 4) % 8) * 2) as u8 }
}

/// A release (`m`) turns a press into the release of the same button.
pub open spec fn released(kind: MouseEventKind, release: bool) -> MouseEventKind {
    match kind {
        MouseEventKind::Down(b) => if release {
            MouseEventKind::Up(b)
        } else {
            kind
        },
        _ => kind,
    }
}

/// The parameters of `ESC [ <marker> ... F`: after the marker, before the final byte.
pub open spec fn marked_params(s: Seq<u8>) -> Seq<u8> {
    s.subrange(3, s.len() - 1)
}

/// `ESC [ < button ; column ; row M` (press) or `... m` (release): an SGR mouse report.
pub open spec fn sgr_mouse_spec(s: Seq<u8>) -> Result<Option<Event>, Malformed> {
    let body = marked_params(s);
    if s.last() != 0x4d && s.last() != 0x6d {
        Err(Malformed)
    } else {
        match (number(head(body, 0x3b), 255), tail(body, 0x3b)) {
            (Some(cb), Some(r1)) => match (number(head(r1, 0x3b), 0xffff), tail(r1, 0x3b)) {
                (Some(x), Some(r2)) => match (number(head(r2, 0x3b), 0xffff), mouse_kind(cb)) {
                    (Some(y), Some(kind)) => Ok(
                        Some(
                            Event::Mouse(
                                MouseEvent {
                                    kind: released(kind, s.last() == 0x6d),
                                    column: x as u16,
                                    row: y as u16,
                                    modifiers: mouse_modifiers(cb),
                                },
                            ),
                        ),
                    ),
                    _ => Err(Malformed),
                },
                _ => Err(Malformed),
            },
            _ => Err(Malformed),
        }
    }
}

/// `ESC [ ? mode ; setting $ y`: the terminal reports the setting of a private mode.
pub open spec fn mode_report_spec(s: Seq<u8>) -> Result<Option<Event>, Malformed> {
    let body = s.subrange(3, s.len() - 2);
    if s.len() < 5 || s[s.len() - 2] != 0x24 {
        Err(Malformed)
    } else {
        match (number(head(body, 0x3b), 0xffff), tail(body, 0x3b)) {
            (Some(mode), Some(r)) => match number(head(r, 0x3b), 255) {
                Some(code) => match DecModeSetting::spec_from_code(code) {
                    Some(setting) => Ok(
                        Some(
                            Event::Csi(
                                Csi::Mode(
                                    Mode::ReportDecPrivateMode {
                                        mode: DecPrivateMode::spec_from_number(mode as u16),
                                        setting,
                                    },
                                ),
                            ),
                        ),
                    ),
                    None => Err(Malformed),
                },
                None => Err(Malformed),
            },
            _ => Err(Malformed),
        }
    }
}

/// `ESC [ ? ... F`: the terminal's reports of keyboard flags (`u`), device attributes (`c`),
/// color theme (`997 ; mode n`) and private mode settings (`$ y`).
pub open spec fn private_report_spec(s: Seq<u8>) -> Result<Option<Event>, Malformed> {
    let body = marked_params(s);
    if s.last() == 0x75 {
        match number(body, 255) {
            Some(f) => Ok(
                Some(Event::Csi(Csi::Keyboard(Keyboard::ReportFlags(KittyKeyboardFlags { bits: f as u8 })))),
            ),
            None => Err(Malformed),
        }
    } else if s.last() == 0x63 {
        Ok(Some(Event::Csi(Csi::Device(Device::DeviceAttributes))))
    } else if s.last() == 0x79 {
        mode_report_spec(s)
    } else if s.last() == 0x6e {
        match (number(head(body, 0x3b), 0xffff), tail(body, 0x3b)) {
            (Some(997), Some(r)) => match number(head(r, 0x3b), 255) {
                Some(1) => Ok(Some(Event::Csi(Csi::Theme(Theme::Report(ThemeMode::Dark))))),
                Some(2) => Ok(Some(Event::Csi(Csi::Theme(Theme::Report(ThemeMode::Light))))),
                _ => Err(Malformed),
            },
            _ => Err(Malformed),
        }
    } else {
        Err(Malformed)
    }
}


// ---------------------------------------------------------------------------
// Control sequences, decoded

fn modifier_and_kind_parsed(b: &[u8], lo: usize, hi: usize) -> (r: Option<(u8, u8)>)
    requires
        lo <= hi <= b@.len(),
    ensures
        r == mod_and_kind(b@.subrange(lo as int, hi as int)),
{
    let (end, next) = split_range(b, lo, hi, 0x3a);
    match parse_number(b, lo, end, 255) {
        None => None,
        Some(m) => {
            let k: u8 = match next {
                None => 1,
                Some(start) => {
                    let (end2, _) = split_range(b, start, hi, 0x3a);
                    match parse_number(b, start, end2, 255) {
                        Some(k) => k as u8,
                        None => 1,
                    }
                },
            };
            Some((m as u8, k))
        },
    }
}

fn parse_second_mods(b: &[u8], lo: usize, hi: usize) -> (r: Option<(u8, u8)>)
    requires
        lo <= hi <= b@.len(),
    ensures
        r == second_mods(b@.subrange(lo as int, hi as int)),
{
    let (_, next) = split_range(b, lo, hi, 0x3b);
    match next {
        None => None,
        Some(start) => {
            let (end, _) = split_range(b, start, hi, 0x3b);
            modifier_and_kind_parsed(b, start, end)
        },
    }
}

/// The modifiers that a `mask` parameter stands for.
pub fn parse_modifiers(mask: u8) -> (r: Modifiers)
    ensures
        r == modifiers_of(mask),
{
    let m = if mask == 0 { 0 } else { mask - 1 };
    Modifiers { bits: (m % 64) * 2 }
}

/// The lock state that a `mask` parameter stands for.
pub fn parse_modifiers_to_state(mask: u8) -> (r: KeyEventState)
    ensures
        r.bits == lock_state_of(mask),
{
    let m = if mask == 0 { 0 } else { mask - 1 };
    KeyEventState { bits: (m / 64) * 4 }
}

/// The kind of key event that a `kind` parameter stands for.
pub fn parse_key_event_kind(k: u8) -> (r: KeyEventKind)
    ensures
        r == kind_of(k),
{
    if k == 2 {
        KeyEventKind::Repeat
    } else if k == 3 {
        KeyEventKind::Release
    } else {
        KeyEventKind::Press
    }
}

fn attrs(mk: Option<(u8, u8)>) -> (r: (Modifiers, KeyEventKind, u8))
    ensures
        r == key_attrs(mk),
{
    match mk {
        Some((m, k)) => (parse_modifiers(m), parse_key_event_kind(k), parse_modifiers_to_state(m).bits),
        None => (Modifiers { bits: 0 }, KeyEventKind::Press, 0),
    }
}

fn params_valid(b: &[u8], lo: usize) -> (r: bool)
    requires
        lo < b@.len(),
    ensures
        r == is_utf8(b@.subrange(lo as int, b@.len() - 1)),
{
    utf8_valid(&b[lo..b.len() - 1])
}

/// Decodes `ESC [ 1 ; mask:kind X`, with `X` a cursor or F1-F4 letter, given whether its
/// parameters are valid UTF-8.
pub fn decode_modifier_key_code(b: &[u8], params_utf8: bool) -> (r: Result<Option<Event>, Malformed>)
    requires
        b@.len() >= 3,
    ensures
        r == modifier_key_spec(b@, params_utf8),
{
    let n = b.len();
    if !params_utf8 {
        return Err(Malformed);
    }
    let (modifiers, kind) = match parse_second_mods(b, 2, n - 1) {
        Some((m, k)) => (parse_modifiers(m), parse_key_event_kind(k)),
        None => if n > 3 {
            let d = b[n - 2];
            if 0x30 <= d && d <= 0x39 {
                (parse_modifiers(d - 0x30), KeyEventKind::Press)
            } else {
                return Err(Malformed);
            }
        } else {
            (Modifiers { bits: 0 }, KeyEventKind::Press)
        },
    };
    let last = b[n - 1];
    let code = if last == 0x41 {
        KeyCode::Up
    } else if last == 0x42 {
        KeyCode::Down
    } else if last == 0x43 {
        KeyCode::Right
    } else if last == 0x44 {
        KeyCode::Left
    } else if last == 0x46 {
        KeyCode::End
    } else if last == 0x48 {
        KeyCode::Home
    } else if 0x50 <= last && last <= 0x53 {
        KeyCode::Function(1 + last - 0x50)
    } else {
        return Err(Malformed);
    };
    Ok(Some(Event::Key(KeyEvent { code, modifiers, kind, state: KeyEventState { bits: 0 } })))
}

/// Decodes `ESC [ 1 ; mask:kind X`, with `X` a cursor or F1-F4 letter.
pub fn parse_csi_modifier_key_code(b: &[u8]) -> (r: Result<Option<Event>, Malformed>)
    requires
        b@.len() >= 3,
    ensures
        r == modifier_key_spec(b@, is_utf8(params(b@))),
{
    let params_utf8 = params_valid(b, 2);
    decode_modifier_key_code(b, params_utf8)
}

fn special_key_code(v: u32) -> (r: Option<KeyCode>)
    ensures
        r == special_key(v),
{
    if v == 1 || v == 7 {
        Some(KeyCode::Home)
    } else if v == 2 {
        Some(KeyCode::Insert)
    } else if v == 3 {
        Some(KeyCode::Delete)
    } else if v == 4 || v == 8 {
        Some(KeyCode::End)
    } else if v == 5 {
        Some(KeyCode::PageUp)
    } else if v == 6 {
        Some(KeyCode::PageDown)
    } else if 11 <= v && v <= 15 {
        Some(KeyCode::Function((v - 10) as u8))
    } else if 17 <= v && v <= 21 {
        Some(KeyCode::Function((v - 11) as u8))
    } else if 23 <= v && v <= 26 {
        Some(KeyCode::Function((v - 12) as u8))
    } else if 28 <= v && v <= 29 {
        Some(KeyCode::Function((v - 15) as u8))
    } else if 31 <= v && v <= 34 {
        Some(KeyCode::Function((v - 17) as u8))
    } else {
        None
    }
}

/// Decodes `ESC [ n ; mask:kind ~`, given whether its parameters are valid UTF-8.
pub fn decode_special_key_code(b: &[u8], params_utf8: bool) -> (r: Result<Option<Event>, Malformed>)
    requires
        b@.len() >= 3,
    ensures
        r == special_key_spec(b@, params_utf8),
{
    let n = b.len();
    if !params_utf8 {
        return Err(Malformed);
    }
    let (end, _) = split_range(b, 2, n - 1, 0x3b);
    let first = match parse_number(b, 2, end, 255) {
        Some(v) => v,
        None => return Err(Malformed),
    };
    let code = match special_key_code(first) {
        Some(code) => code,
        None => return Err(Malformed),
    };
    let (modifiers, kind, lock) = attrs(parse_second_mods(b, 2, n - 1));
    Ok(Some(Event::Key(KeyEvent { code, modifiers, kind, state: KeyEventState { bits: lock } })))
}

/// Decodes `ESC [ n ; mask:kind ~`.
pub fn parse_csi_special_key_code(b: &[u8]) -> (r: Result<Option<Event>, Malformed>)
    requires
        b@.len() >= 3,
    ensures
        r == special_key_spec(b@, is_utf8(params(b@))),
{
    let params_utf8 = params_valid(b, 2);
    decode_special_key_code(b, params_utf8)
}

fn u_key_code(cp: u32, modifiers: Modifiers) -> (r: Option<(KeyCode, u8)>)
    ensures
        r == u_key(cp, modifiers),
{
    match translate_functional_key_code(cp) {
        Some(k) => Some(k),
        None => match to_char(cp) {
            None => None,
            Some(c) => {
                let code = if c == '\x1b' {
                    KeyCode::Escape
                } else if c == '\r' {
                    KeyCode::Enter
                } else if c == '\t' {
                    if modifiers.contains(Modifiers::SHIFT) {
                        KeyCode::BackTab
                    } else {
                        KeyCode::Tab
                    }
                } else if c == '\x7f' {
                    KeyCode::Backspace
                } else {
                    KeyCode::Char(c)
                };
                Some((code, 0))
            },
        },
    }
}

fn modifier_key_flag(m: ModifierKeyCode) -> (r: Option<u8>)
    ensures
        r == modifier_flag(m),
{
    match m {
        ModifierKeyCode::LeftAlt | ModifierKeyCode::RightAlt => Some(Modifiers::ALT),
        ModifierKeyCode::LeftControl | ModifierKeyCode::RightControl => Some(Modifiers::CONTROL),
        ModifierKeyCode::LeftShift | ModifierKeyCode::RightShift => Some(Modifiers::SHIFT),
        ModifierKeyCode::LeftSuper | ModifierKeyCode::RightSuper => Some(Modifiers::SUPER),
        ModifierKeyCode::LeftHyper | ModifierKeyCode::RightHyper => Some(Modifiers::HYPER),
        ModifierKeyCode::LeftMeta | ModifierKeyCode::RightMeta => Some(Modifiers::META),
        _ => None,
    }
}

fn parse_shifted_char(b: &[u8], lo: usize, hi: usize) -> (r: Option<char>)
    requires
        lo <= hi <= b@.len(),
    ensures
        r == shifted_char(b@.subrange(lo as int, hi as int)),
{
    let (_, next) = split_range(b, lo, hi, 0x3a);
    match next {
        None => None,
        Some(start) => {
            let (end, _) = split_range(b, start, hi, 0x3a);
            match parse_number(b, start, end, 0xffff_ffff) {
                Some(cp) => to_char(cp),
                None => None,
            }
        },
    }
}

/// Decodes `ESC [ codepoint:shifted ; mask:kind ; text u`, given whether its parameters are
/// valid UTF-8.
pub fn decode_u_encoded_key_code(b: &[u8], params_utf8: bool) -> (r: Result<Option<Event>, Malformed>)
    requires
        b@.len() >= 3,
    ensures
        r == csi_u_spec(b@, params_utf8),
{
    let n = b.len();
    if !params_utf8 {
        return Err(Malformed);
    }
    let (end0, _) = split_range(b, 2, n - 1, 0x3b);
    let (end_cp, _) = split_range(b, 2, end0, 0x3a);
    let cp = match parse_number(b, 2, end_cp, 0xffff_ffff) {
        Some(cp) => cp,
        None => return Err(Malformed),
    };
    let (modifiers, kind, lock) = attrs(parse_second_mods(b, 2, n - 1));
    let (code, key_state) = match u_key_code(cp, modifiers) {
        Some(k) => k,
        None => return Err(Malformed),
    };
    let mods = match code {
        KeyCode::Modifier(m) => match modifier_key_flag(m) {
            Some(flag) => modifiers.with(flag),
            None => modifiers,
        },
        _ => modifiers,
    };
    let (code, mods) = match parse_shifted_char(b, 2, end0) {
        Some(c) => if mods.contains(Modifiers::SHIFT) {
            (KeyCode::Char(c), mods.without(Modifiers::SHIFT))
        } else {
            (code, mods)
        },
        None => (code, mods),
    };
    Ok(
        Some(
            Event::Key(
                KeyEvent { code, modifiers: mods, kind, state: KeyEventState { bits: key_state | lock } },
            ),
        ),
    )
}

/// Decodes `ESC [ codepoint:shifted ; mask:kind ; text u`.
pub fn parse_csi_u_encoded_key_code(b: &[u8]) -> (r: Result<Option<Event>, Malformed>)
    requires
        b@.len() >= 3,
    ensures
        r == csi_u_spec(b@, is_utf8(params(b@))),
{
    let params_utf8 = params_valid(b, 2);
    decode_u_encoded_key_code(b, params_utf8)
}

/// Decodes `ESC [ line ; column R`.
pub fn parse_csi_cursor_position(b: &[u8]) -> (r: Result<Option<Event>, Malformed>)
    requires
        b@.len() >= 3,
    ensures
        r == cursor_report_spec(b@),
{
    let n = b.len();
    let (end0, next) = split_range(b, 2, n - 1, 0x3b);
    let line = parse_number(b, 2, end0, 0xffff);
    match (line, next) {
        (Some(line), Some(start)) => {
            let (end1, _) = split_range(b, start, n - 1, 0x3b);
            match parse_number(b, start, end1, 0xffff) {
                Some(col) => {
                    match (OneBased::new(line as u16), OneBased::new(col as u16)) {
                        (Some(line), Some(col)) => Ok(
                            Some(Event::Csi(Csi::Cursor(Cursor::ActivePositionReport { line, col }))),
                        ),
                        _ => Err(Malformed),
                    }
                },
                None => Err(Malformed),
            }
        },
        _ => Err(Malformed),
    }
}

fn mouse_event_kind(cb: u32) -> (r: Option<MouseEventKind>)
    ensures
        r == mouse_kind(cb),
{
    let n = cb % 4 + (cb / 64) * 4;
    let drag = (cb / 32) % 2 == 1;
    if n == 0 && !drag {
        Some(MouseEventKind::Down(MouseButton::Left))
    } else if n == 1 && !drag {
        Some(MouseEventKind::Down(MouseButton::Middle))
    } else if n == 2 && !drag {
        Some(MouseEventKind::Down(MouseButton::Right))
    } else if n == 0 && drag {
        Some(MouseEventKind::Drag(MouseButton::Left))
    } else if n == 1 && drag {
        Some(MouseEventKind::Drag(MouseButton::Middle))
    } else if n == 2 && drag {
        Some(MouseEventKind::Drag(MouseButton::Right))
    } else if n == 3 && !drag {
        Some(MouseEventKind::Up(MouseButton::Left))
    } else if (n == 3 || n == 4 || n == 5) && drag {
        Some(MouseEventKind::Moved)
    } else if n == 4 {
        Some(MouseEventKind::ScrollUp)
    } else if n == 5 {
        Some(MouseEventKind::ScrollDown)
    } else if n == 6 && !drag {
        Some(MouseEventKind::ScrollLeft)
    } else if n == 7 && !drag {
        Some(MouseEventKind::ScrollRight)
    } else {
        None
    }
}

/// Decodes `ESC [ < button ; column ; row M` and its release form ending in `m`.
pub fn parse_csi_sgr_mouse(b: &[u8]) -> (r: Result<Option<Event>, Malformed>)
    requires
        b@.len() >= 4,
    ensures
        r == sgr_mouse_spec(b@),
{
    let n = b.len();
    let last = b[n - 1];
    if last != 0x4d && last != 0x6d {
        return Err(Malformed);
    }
    let (e0, n0) = split_range(b, 3, n - 1, 0x3b);
    let s1 = match n0 {
        Some(s1) => s1,
        None => return Err(Malformed),
    };
    let cb = match parse_number(b, 3, e0, 255) {
        Some(cb) => cb,
        None => return Err(Malformed),
    };
    let (e1, n1) = split_range(b, s1, n - 1, 0x3b);
    let s2 = match n1 {
        Some(s2) => s2,
        None => return Err(Malformed),
    };
    let x = match parse_number(b, s1, e1, 0xffff) {
        Some(x) => x,
        None => return Err(Malformed),
    };
    let (e2, _) = split_range(b, s2, n - 1, 0x3b);
    let y = match parse_number(b, s2, e2, 0xffff) {
        Some(y) => y,
        None => return Err(Malformed),
    };
    let kind = match mouse_event_kind(cb) {
        Some(kind) => kind,
        None => return Err(Malformed),
    };
    let kind = match kind {
        MouseEventKind::Down(button) => if last == 0x6d {
            MouseEventKind::Up(button)
        } else {
            kind
        },
        _ => kind,
    };
    Ok(
        Some(
            Event::Mouse(
                MouseEvent {
                    kind,
                    column: x as u16,
                    row: y as u16,
                    modifiers: Modifiers { bits: (((cb / 4) % 8) * 2) as u8 },
                },
            ),
        ),
    )
}

/// Decodes `ESC [ ? mode ; setting $ y`.
pub fn parse_csi_mode_report(b: &[u8]) -> (r: Result<Option<Event>, Malformed>)
    requires
        b@.len() >= 4,
    ensures
        r == mode_report_spec(b@),
{
    let n = b.len();
    if n < 5 || b[n - 2] != 0x24 {
        return Err(Malformed);
    }
    let (e0, n0) = split_range(b, 3, n - 2, 0x3b);
    match (parse_number(b, 3, e0, 0xffff), n0) {
        (Some(mode), Some(s1)) => {
            let (e1, _) = split_range(b, s1, n - 2, 0x3b);
            match parse_number(b, s1, e1, 255) {
                Some(code) => match DecModeSetting::from_code(code) {
                    Some(setting) => Ok(
                        Some(
                            Event::Csi(
                                Csi::Mode(
                                    Mode::ReportDecPrivateMode {
                                        mode: DecPrivateMode::from_number(mode as u16),
                                        setting,
                                    },
                                ),
                            ),
                        ),
                    ),
                    None => Err(Malformed),
                },
                None => Err(Malformed),
            }
        },
        _ => Err(Malformed),
    }
}

/// Decodes the terminal's reports that start `ESC [ ?`.
pub fn parse_csi_private_report(b: &[u8]) -> (r: Result<Option<Event>, Malformed>)
    requires
        b@.len() >= 4,
    ensures
        r == private_report_spec(b@),
{
    let n = b.len();
    let last = b[n - 1];
    if last == 0x75 {
        match parse_number(b, 3, n - 1, 255) {
            Some(f) => Ok(
                Some(Event::Csi(Csi::Keyboard(Keyboard::ReportFlags(KittyKeyboardFlags { bits: f as u8 })))),
            ),
            None => Err(Malformed),
        }
    } else if last == 0x63 {
        Ok(Some(Event::Csi(Csi::Device(Device::DeviceAttributes))))
    } else if last == 0x79 {
        parse_csi_mode_report(b)
    } else if last == 0x6e {
        let (e0, n0) = split_range(b, 3, n - 1, 0x3b);
        match (parse_number(b, 3, e0, 0xffff), n0) {
            (Some(997), Some(s1)) => {
                let (e1, _) = split_range(b, s1, n - 1, 0x3b);
                match parse_number(b, s1, e1, 255) {
                    Some(1) => Ok(Some(Event::Csi(Csi::Theme(Theme::Report(ThemeMode::Dark))))),
                    Some(2) => Ok(Some(Event::Csi(Csi::Theme(Theme::Report(ThemeMode::Light))))),
                    _ => Err(Malformed),
                }
            },
            _ => Err(Malformed),
        }
    } else {
        Err(Malformed)
    }
}

fn starts_paste(b: &[u8]) -> (r: bool)
    requires
        b@.len() >= 6,
    ensures
        r == (b@.subrange(0, 6) == paste_open()),
{
    let r = b[0] == 0x1b && b[1] == 0x5b && b[2] == 0x32 && b[3] == 0x30 && b[4] == 0x30 && b[5]
        == 0x7e;
    assert(r == (b@.subrange(0, 6) =~= paste_open()));
    r
}

/// Decodes a bracketed paste `ESC [ 200 ~ text ESC [ 201 ~`.
pub fn parse_csi_bracketed_paste(b: &[u8]) -> (r: Result<Option<Event>, Malformed>)
    ensures
        r == paste_spec(b@),
{
    let n = b.len();
    if n < 12 {
        return Ok(None);
    }
    let closed = b[n - 6] == 0x1b && b[n - 5] == 0x5b && b[n - 4] == 0x32 && b[n - 3] == 0x30
        && b[n - 2] == 0x31 && b[n - 1] == 0x7e;
    assert(closed == (b@.subrange(n - 6, n as int) =~= paste_close()));
    if closed {
        Ok(Some(Event::Paste(paste_text(&b[6..n - 6]))))
    } else {
        Ok(None)
    }
}

/// Decodes a sequence that starts `ESC [`; see `csi_spec`.
pub fn parse_csi(b: &[u8]) -> (r: Result<Option<Event>, Malformed>)
    requires
        b@.len() >= 2,
        b@[0] == 0x1b,
        b@[1] == 0x5b,
    ensures
        r == csi_spec(b@),
{
    let n = b.len();
    if n == 2 {
        return Ok(None);
    }
    let c = b[2];
    if c == 0x5b {
        if n == 3 {
            Ok(None)
        } else if 0x41 <= b[3] && b[3] <= 0x45 {
            Ok(Some(key_event(KeyCode::Function(1 + b[3] - 0x41), 0)))
        } else {
            Err(Malformed)
        }
    } else if c == 0x44 {
        Ok(Some(key_event(KeyCode::Left, 0)))
    } else if c == 0x43 {
        Ok(Some(key_event(KeyCode::Right, 0)))
    } else if c == 0x41 {
        Ok(Some(key_event(KeyCode::Up, 0)))
    } else if c == 0x42 {
        Ok(Some(key_event(KeyCode::Down, 0)))
    } else if c == 0x48 {
        Ok(Some(key_event(KeyCode::Home, 0)))
    } else if c == 0x46 {
        Ok(Some(key_event(KeyCode::End, 0)))
    } else if c == 0x5a {
        Ok(Some(key_event(KeyCode::BackTab, Modifiers::SHIFT)))
    } else if c == 0x49 {
        Ok(Some(Event::FocusIn))
    } else if c == 0x4f {
        Ok(Some(Event::FocusOut))
    } else if c == 0x3b {
        parse_csi_modifier_key_code(b)
    } else if c == 0x50 {
        Ok(Some(key_event(KeyCode::Function(1), 0)))
    } else if c == 0x51 {
        Ok(Some(key_event(KeyCode::Function(2), 0)))
    } else if c == 0x53 {
        Ok(Some(key_event(KeyCode::Function(4), 0)))
    } else if c == 0x3c || c == 0x3f {
        let last = b[n - 1];
        if !(0x40 <= last && last <= 0x7e) {
            Ok(None)
        } else if c == 0x3c {
            parse_csi_sgr_mouse(b)
        } else {
            parse_csi_private_report(b)
        }
    } else if 0x30 <= c && c <= 0x39 {
        let last = b[n - 1];
        if n >= 6 && starts_paste(b) {
            parse_csi_bracketed_paste(b)
        } else if n == 3 || !(0x40 <= last && last <= 0x7e) {
            Ok(None)
        } else if last == 0x7e {
            parse_csi_special_key_code(b)
        } else if last == 0x75 {
            parse_csi_u_encoded_key_code(b)
        } else if last == 0x52 {
            parse_csi_cursor_position(b)
        } else {
            parse_csi_modifier_key_code(b)
        }
    } else {
        Err(Malformed)
    }
}


// ---------------------------------------------------------------------------
// The incremental decoder

/// Scanning the first `n` prefix ends of `buf`: the events decoded so far, and where the
/// bytes not yet consumed start. Each unit is tried from its start to every later end, and
/// is consumed when it decodes to an event or is malformed.
pub open spec fn scan(buf: Seq<u8>, more: bool, n: nat) -> (Seq<Event>, int)
    decreases n,
{
    if n == 0 {
        (Seq::empty(), 0)
    } else {
        let (events, start) = scan(buf, more, (n - 1) as nat);
        match parse_event_spec(buf.subrange(start, n as int), more || n < buf.len()) {
            Ok(Some(e)) => (events.push(e), n as int),
            Ok(None) => (events, start),
            Err(_) => (events, n as int),
        }
    }
}

/// The events that feeding `bytes` decodes, given the bytes `pending` from before.
pub open spec fn fed_events(pending: Seq<u8>, bytes: Seq<u8>, more: bool) -> Seq<Event> {
    let all = pending + bytes;
    scan(all, more, all.len()).0
}

/// The bytes that stay pending after feeding `bytes`, given the bytes `pending` from before.
pub open spec fn fed_rest(pending: Seq<u8>, bytes: Seq<u8>, more: bool) -> Seq<u8> {
    let all = pending + bytes;
    all.subrange(scan(all, more, all.len()).1, all.len() as int)
}


// ---------------------------------------------------------------------------
// What feeding decodes

/// A buffer that decodes to `e` as one unit: every shorter prefix waits for more bytes.
pub open spec fn one_unit(buf: Seq<u8>, e: Event) -> bool {
    &&& buf.len() > 0
    &&& forall|k: int|
        1 <= k < buf.len() ==> parse_event_spec(#[trigger] buf.subrange(0, k), true) == Ok::<
            Option<Event>,
            Malformed,
        >(None)
    &&& parse_event_spec(buf, false) == Ok::<Option<Event>, Malformed>(Some(e))
}

proof fn lemma_scan_waits(buf: Seq<u8>, n: nat)
    requires
        n < buf.len(),
        forall|k: int|
            1 <= k < buf.len() ==> parse_event_spec(#[trigger] buf.subrange(0, k), true) == Ok::<
                Option<Event>,
                Malformed,
            >(None),
    ensures
        scan(buf, false, n) == (Seq::<Event>::empty(), 0int),
    decreases n,
{
    if n > 0 {
        lemma_scan_waits(buf, (n - 1) as nat);
    }
}

/// Feeding, with nothing pending and no more bytes to follow, a buffer that is one unit
/// yields exactly its event and leaves nothing pending.
pub proof fn lemma_one_unit(buf: Seq<u8>, e: Event)
    requires
        one_unit(buf, e),
    ensures
        fed_events(Seq::empty(), buf, false) == seq![e],
        fed_rest(Seq::empty(), buf, false) == Seq::<u8>::empty(),
{
    assert(Seq::<u8>::empty() + buf =~= buf);
    lemma_scan_waits(buf, (buf.len() - 1) as nat);
    assert(buf.subrange(0, buf.len() as int) =~= buf);
    assert(Seq::<Event>::empty().push(e) =~= seq![e]);
    assert(buf.subrange(buf.len() as int, buf.len() as int) =~= Seq::<u8>::empty());
}

proof fn lemma_lacks_none(s: Seq<u8>, sep: u8)
    requires
        lacks(s, sep),
    ensures
        first_sep(s, sep) is None,
    decreases s.len(),
{
    if s.len() > 0 {
        lemma_lacks_none(s.drop_last(), sep);
    }
}

/// A field that holds no separator, followed by a separator and the rest.
pub proof fn lemma_split_fields(a: Seq<u8>, sep: u8, b: Seq<u8>)
    requires
        lacks(a, sep),
    ensures
        split_first(a + seq![sep] + b, sep) == (a, Some(b)),
        split_first(a, sep) == (a, None::<Seq<u8>>),
{
    let s = a + seq![sep] + b;
    lemma_lacks_none(a, sep);
    assert(s.subrange(0, a.len() + 1int).drop_last() =~= a);
    assert(first_sep(s.subrange(0, a.len() + 1int), sep) == Some(a.len() as int));
    lemma_first_sep_extends(s, sep, a.len() + 1int);
    assert(s.subrange(0, a.len() as int) =~= a);
    assert(s.subrange(a.len() + 1int, s.len() as int) =~= b);
}

proof fn lemma_digits_value_push(s: Seq<u8>, d: u8)
    ensures
        digits_value(s.push(d)) == digits_value(s) * 10 + (d - 0x30) as nat,
{
    assert(s.push(d).drop_last() =~= s);
}

/// The text of a number in bytes.
pub open spec fn ascii(s: Seq<char>) -> Seq<u8> {
    s.map_values(|c: char| c as u8)
}

proof fn lemma_ascii_push(s: Seq<char>, c: char)
    ensures
        ascii(s.push(c)) == ascii(s).push(c as u8),
{
    assert(ascii(s.push(c)) =~= ascii(s).push(c as u8));
}

pub proof fn lemma_ascii_concat(a: Seq<char>, b: Seq<char>)
    ensures
        ascii(a + b) == ascii(a) + ascii(b),
{
    assert(ascii(a + b) =~= ascii(a) + ascii(b));
}

/// The digits of a number read back as that number.
pub proof fn lemma_decimal_reads_back(n: nat)
    ensures
        ascii(decimal(n)).len() > 0,
        all_digits(ascii(decimal(n))),
        digits_value(ascii(decimal(n))) == n,
        lacks(ascii(decimal(n)), 0x3b),
        lacks(ascii(decimal(n)), 0x3a),
        is_digit(ascii(decimal(n))[0]),
        unsigned(ascii(decimal(n))) == ascii(decimal(n)),
    decreases n,
{
    if n < 10 {
        assert(ascii(decimal(n)) =~= seq![(0x30 + n) as u8]);
        assert(ascii(decimal(n)) =~= Seq::<u8>::empty().push((0x30 + n) as u8));
        lemma_digits_value_push(Seq::<u8>::empty(), (0x30 + n) as u8);
    } else {
        lemma_decimal_reads_back(n / 10);
        let prev = ascii(decimal(n / 10));
        let d = digit_char(n % 10);
        assert(decimal(n) == decimal(n / 10).push(d));
        lemma_ascii_push(decimal(n / 10), d);
        lemma_digits_value_push(prev, d as u8);
        assert(d as u8 == (0x30 + n % 10) as u8);
        assert((n / 10) * 10 + n % 10 == n);
        let all = ascii(decimal(n));
        assert forall|i: int| 0 <= i < all.len() implies is_digit(#[trigger] all[i]) && all[i]
            != 0x3b && all[i] != 0x3a by {
            if i < prev.len() {
                assert(all[i] == prev[i]);
            }
        }
        assert(all[0] == prev[0]);
    }
}

/// Two of the three bytes of a three-byte character decode to nothing and stay pending; the
/// third completes exactly the key event of that character.
pub proof fn lemma_utf8_partial(b0: u8, b1: u8, b2: u8, more: bool)
    requires
        0xe0 <= b0 <= 0xef,
        is_continuation(b1),
        is_continuation(b2),
        0x800 <= utf8_value(seq![b0, b1, b2]),
        is_scalar(utf8_value(seq![b0, b1, b2]) as u32),
    ensures
        fed_events(Seq::empty(), seq![b0, b1], more) == Seq::<Event>::empty(),
        fed_rest(Seq::empty(), seq![b0, b1], more) == seq![b0, b1],
        ({
            let c = char_of(utf8_value(seq![b0, b1, b2]) as u32);
            &&& fed_events(seq![b0, b1], seq![b2], more) == seq![char_key(c, is_upper(c))]
            &&& fed_rest(seq![b0, b1], seq![b2], more) == Seq::<u8>::empty()
        }),
{
    let two = seq![b0, b1];
    let three = seq![b0, b1, b2];
    assert(Seq::<u8>::empty() + two =~= two);
    assert(two + seq![b2] =~= three);
    assert(two.subrange(0, 1) =~= seq![b0]);
    assert(three.subrange(0, 1) =~= seq![b0]);
    assert(three.subrange(0, 2) =~= two);
    assert(three.subrange(0, 3) =~= three);
    assert(utf8_char(seq![b0]) == Ok::<Option<char>, Malformed>(None));
    assert(continues(two, 2));
    assert(utf8_char(two) == Ok::<Option<char>, Malformed>(None));
    assert(continues(three, 3));
    assert(two.subrange(0, 2) =~= two);
    assert(two.subrange(0, two.len() as int) =~= two);
    assert(three.subrange(3, 3) =~= Seq::<u8>::empty());
    let e0 = Seq::<Event>::empty();
    assert(parse_event_spec(seq![b0], true) == Ok::<Option<Event>, Malformed>(None));
    assert(parse_event_spec(seq![b0], more) == Ok::<Option<Event>, Malformed>(None));
    assert(parse_event_spec(two, more) == Ok::<Option<Event>, Malformed>(None));
    assert(parse_event_spec(two, true) == Ok::<Option<Event>, Malformed>(None));
    assert(scan(two, more, 0) == (e0, 0int));
    assert(scan(two, more, 1) == (e0, 0int));
    assert(scan(two, more, 2) == (e0, 0int));
    assert(scan(three, more, 0) == (e0, 0int));
    assert(scan(three, more, 1) == (e0, 0int));
    assert(scan(three, more, 2) == (e0, 0int));
    let c = char_of(utf8_value(three) as u32);
    assert(parse_event_spec(three, more) == Ok::<Option<Event>, Malformed>(Some(char_key(c, is_upper(c)))));
    assert(scan(three, more, 3) == (e0.push(char_key(c, is_upper(c))), 3int));
    assert(Seq::<Event>::empty().push(char_key(c, is_upper(c))) =~= seq![char_key(c, is_upper(c))]);
}

/// Decodes terminal input bytes into events as they arrive.
#[derive(Debug)]
pub struct Parser {
    buffer: Vec<u8>,
    /// Events which have been parsed. Pop out with `Parser::pop`.
    events: VecDeque<Event>,
}

impl Parser {
    /// The bytes not yet decoded.
    pub closed spec fn pending(&self) -> Seq<u8> {
        self.buffer@
    }

    /// The decoded events not yet popped, oldest first.
    pub closed spec fn ready(&self) -> Seq<Event> {
        self.events@
    }

    pub fn new() -> (r: Parser)
        ensures
            r.pending() == Seq::<u8>::empty(),
            r.ready() == Seq::<Event>::empty(),
    {
        Parser { buffer: Vec::new(), events: VecDeque::new() }
    }

    /// Removes and returns the oldest decoded event.
    pub fn pop(&mut self) -> (r: Option<Event>)
        ensures
            final(self).pending() == old(self).pending(),
            old(self).ready().len() == 0 ==> r is None && final(self).ready() == old(self).ready(),
            old(self).ready().len() > 0 ==> r == Some(old(self).ready()[0]) && final(self).ready()
                == old(self).ready().drop_first(),
    {
        self.events.pop_front()
    }

    /// Appends `bytes` to the pending bytes and decodes as many events from them as it can.
    /// `maybe_more` says whether more bytes may follow, which decides a lone `ESC`.
    pub fn parse(&mut self, bytes: &[u8], maybe_more: bool)
        ensures
            final(self).ready() == old(self).ready() + fed_events(
                old(self).pending(),
                bytes@,
                maybe_more,
            ),
            final(self).pending() == fed_rest(old(self).pending(), bytes@, maybe_more),
    {
        self.buffer.extend_from_slice(bytes);
        assert(self.buffer@ =~= old(self).buffer@ + bytes@);
        self.process_bytes(maybe_more);
    }

    fn process_bytes(&mut self, maybe_more: bool)
        ensures
            final(self).events@ == old(self).events@ + scan(
                old(self).buffer@,
                maybe_more,
                old(self).buffer@.len(),
            ).0,
            final(self).buffer@ == old(self).buffer@.subrange(
                scan(old(self).buffer@, maybe_more, old(self).buffer@.len()).1,
                old(self).buffer@.len() as int,
            ),
    {
        let ghost buf = self.buffer@;
        let ghost events0 = self.events@;
        let len = self.buffer.len();
        let mut start: usize = 0;
        let mut n: usize = 0;
        while n < len
            invariant
                self.buffer@ == buf,
                len == buf.len(),
                n <= len,
                start <= n,
                scan(buf, maybe_more, n as nat) == (self.events@.subrange(
                    events0.len() as int,
                    self.events@.len() as int,
                ), start as int),
                self.events@.len() >= events0.len(),
                self.events@.subrange(0, events0.len() as int) == events0,
            decreases len - n,
        {
            let end = n + 1;
            let ghost before = self.events@;
            let unit = &self.buffer.as_slice()[start..end];
            let r = parse_event(unit, maybe_more || end < len);
            match r {
                Ok(Some(event)) => {
                    self.events.push_back(event);
                    start = end;
                    assert(self.events@.subrange(events0.len() as int, self.events@.len() as int)
                        =~= before.subrange(events0.len() as int, before.len() as int).push(
                        event,
                    ));
                    assert(self.events@.subrange(0, events0.len() as int) =~= before.subrange(
                        0,
                        events0.len() as int,
                    ));
                },
                Ok(None) => {},
                Err(_) => {
                    start = end;
                },
            }
            n = end;
        }
        assert(self.events@ =~= events0 + self.events@.subrange(
            events0.len() as int,
            self.events@.len() as int,
        ));
        self.advance(start);
    }

    fn advance(&mut self, len: usize)
        requires
            len <= old(self).buffer@.len(),
        ensures
            final(self).buffer@ == old(self).buffer@.subrange(len as int, old(self).buffer@.len() as int),
            final(self).events@ == old(self).events@,
    {
        let rest = self.buffer.split_off(len);
        self.buffer = rest;
    }
}


/// One console input record, as far as decoding reads it.
#[derive(Debug, Clone, Copy, PartialEq, Eq, Structural)]
pub enum InputRecord {
    /// A key transition and the character byte it carries.
    Key { key_down: bool, ascii: u8 },
    /// The screen buffer now has the given zero-based extent.
    WindowBufferSize { x: i16, y: i16 },
    /// Any other record, which carries nothing to decode.
    Other,
}

/// The character bytes of the key presses among `records`. Key releases carry nothing:
/// a key is reported once, when it goes down.
pub open spec fn record_bytes(records: Seq<InputRecord>) -> Seq<u8>
    decreases records.len(),
{
    if records.len() == 0 {
        Seq::empty()
    } else {
        let prev = record_bytes(records.drop_last());
        match records.last() {
            InputRecord::Key { key_down: true, ascii } => prev.push(ascii),
            _ => prev,
        }
    }
}

/// The one-based window size of a zero-based buffer extent.
pub open spec fn resized(x: i16, y: i16) -> Event {
    Event::WindowResized(
        WindowSize { cols: (x + 1) as u16, rows: (y + 1) as u16, pixel_width: None, pixel_height: None },
    )
}

/// The resize events among `records`.
pub open spec fn record_resizes(records: Seq<InputRecord>) -> Seq<Event>
    decreases records.len(),
{
    if records.len() == 0 {
        Seq::empty()
    } else {
        let prev = record_resizes(records.drop_last());
        match records.last() {
            InputRecord::WindowBufferSize { x, y } => prev.push(resized(x, y)),
            _ => prev,
        }
    }
}

impl Parser {
    /// Takes a batch of console input records: resizes become events at once, the bytes of
    /// key presses join the pending bytes, and then everything pending is decoded with no
    /// more bytes to follow.
    pub fn decode_input_records(&mut self, records: &[InputRecord])
        ensures
            final(self).ready() == old(self).ready() + record_resizes(records@) + fed_events(
                old(self).pending(),
                record_bytes(records@),
                false,
            ),
            final(self).pending() == fed_rest(old(self).pending(), record_bytes(records@), false),
    {
        let ghost pending0 = self.buffer@;
        let ghost ready0 = self.events@;
        let mut i: usize = 0;
        while i < records.len()
            invariant
                i <= records@.len(),
                self.buffer@ == pending0 + record_bytes(records@.subrange(0, i as int)),
                self.events@ == ready0 + record_resizes(records@.subrange(0, i as int)),
            decreases records@.len() - i,
        {
            let ghost prefix = records@.subrange(0, i + 1);
            assert(prefix.drop_last() =~= records@.subrange(0, i as int));
            match records[i] {
                InputRecord::Key { key_down, ascii } => {
                    if key_down {
                        self.buffer.push(ascii);
                    }
                },
                InputRecord::WindowBufferSize { x, y } => {
                    let cols = (x as i32 + 1) as u16;
                    let rows = (y as i32 + 1) as u16;
                    self.events.push_back(
                        Event::WindowResized(
                            WindowSize { cols, rows, pixel_width: None, pixel_height: None },
                        ),
                    );
                },
                InputRecord::Other => {},
            }
            i = i + 1;
            assert(self.buffer@ =~= pending0 + record_bytes(records@.subrange(0, i as int)));
            assert(self.events@ =~= ready0 + record_resizes(records@.subrange(0, i as int)));
        }
        assert(records@.subrange(0, i as int) =~= records@);
        self.process_bytes(false);
        assert(self.events@ =~= ready0 + record_resizes(records@) + fed_events(
            pending0,
            record_bytes(records@),
            false,
        ));
    }
}

impl Default for Parser {
    fn default() -> (r: Parser)
        ensures
            r.pending() == Seq::<u8>::empty(),
            r.ready() == Seq::<Event>::empty(),
    {
        Parser::new()
    }
}

/// The keys that the Kitty keyboard protocol sends as numbers in its private-use range,
/// with the state that each implies.
pub open spec fn spec_translate_functional_key_code(codepoint: u32) -> Option<(KeyCode, u8)> {
    match codepoint {
        57399 => Some((KeyCode::Char('0'), KeyEventState::KEYPAD)),
        57400 => Some((KeyCode::Char('1'), KeyEventState::KEYPAD)),
        57401 => Some((KeyCode::Char('2'), KeyEventState::KEYPAD)),
        57402 => Some((KeyCode::Char('3'), KeyEventState::KEYPAD)),
        57403 => Some((KeyCode::Char('4'), KeyEventState::KEYPAD)),
        57404 => Some((KeyCode::Char('5'), KeyEventState::KEYPAD)),
        57405 => Some((KeyCode::Char('6'), KeyEventState::KEYPAD)),
        57406 => Some((KeyCode::Char('7'), KeyEventState::KEYPAD)),
        57407 => Some((KeyCode::Char('8'), KeyEventState::KEYPAD)),
        57408 => Some((KeyCode::Char('9'), KeyEventState::KEYPAD)),
        57409 => Some((KeyCode::Char('.'), KeyEventState::KEYPAD)),
        57410 => Some((KeyCode::Char('/'), KeyEventState::KEYPAD)),
        57411 => Some((KeyCode::Char('*'), KeyEventState::KEYPAD)),
        57412 => Some((KeyCode::Char('-'), KeyEventState::KEYPAD)),
        57413 => Some((KeyCode::Char('+'), KeyEventState::KEYPAD)),
        57414 => Some((KeyCode::Enter, KeyEventState::KEYPAD)),
        57415 => Some((KeyCode::Char('='), KeyEventState::KEYPAD)),
        57416 => Some((KeyCode::Char(','), KeyEventState::KEYPAD)),
        57417 => Some((KeyCode::Left, KeyEventState::KEYPAD)),
        57418 => Some((KeyCode::Right, KeyEventState::KEYPAD)),
        57419 => Some((KeyCode::Up, KeyEventState::KEYPAD)),
        57420 => Some((KeyCode::Down, KeyEventState::KEYPAD)),
        57421 => Some((KeyCode::PageUp, KeyEventState::KEYPAD)),
        57422 => Some((KeyCode::PageDown, KeyEventState::KEYPAD)),
        57423 => Some((KeyCode::Home, KeyEventState::KEYPAD)),
        57424 => Some((KeyCode::End, KeyEventState::KEYPAD)),
        57425 => Some((KeyCode::Insert, KeyEventState::KEYPAD)),
        57426 => Some((KeyCode::Delete, KeyEventState::KEYPAD)),
        57427 => Some((KeyCode::KeypadBegin, KeyEventState::KEYPAD)),
        57358 => Some((KeyCode::CapsLock, KeyEventState::NONE)),
        57359 => Some((KeyCode::ScrollLock, KeyEventState::NONE)),
        57360 => Some((KeyCode::NumLock, KeyEventState::NONE)),
        57361 => Some((KeyCode::PrintScreen, KeyEventState::NONE)),
        57362 => Some((KeyCode::Pause, KeyEventState::NONE)),
        57363 => Some((KeyCode::Menu, KeyEventState::NONE)),
        57376 => Some((KeyCode::Function(13), KeyEventState::NONE)),
        57377 => Some((KeyCode::Function(14), KeyEventState::NONE)),
        57378 => Some((KeyCode::Function(15), KeyEventState::NONE)),
        57379 => Some((KeyCode::Function(16), KeyEventState::NONE)),
        57380 => Some((KeyCode::Function(17), KeyEventState::NONE)),
        57381 => Some((KeyCode::Function(18), KeyEventState::NONE)),
        57382 => Some((KeyCode::Function(19), KeyEventState::NONE)),
        57383 => Some((KeyCode::Function(20), KeyEventState::NONE)),
        57384 => Some((KeyCode::Function(21), KeyEventState::NONE)),
        57385 => Some((KeyCode::Function(22), KeyEventState::NONE)),
        57386 => Some((KeyCode::Function(23), KeyEventState::NONE)),
        57387 => Some((KeyCode::Function(24), KeyEventState::NONE)),
        57388 => Some((KeyCode::Function(25), KeyEventState::NONE)),
        57389 => Some((KeyCode::Function(26), KeyEventState::NONE)),
        57390 => Some((KeyCode::Function(27), KeyEventState::NONE)),
        57391 => Some((KeyCode::Function(28), KeyEventState::NONE)),
        57392 => Some((KeyCode::Function(29), KeyEventState::NONE)),
        57393 => Some((KeyCode::Function(30), KeyEventState::NONE)),
        57394 => Some((KeyCode::Function(31), KeyEventState::NONE)),
        57395 => Some((KeyCode::Function(32), KeyEventState::NONE)),
        57396 => Some((KeyCode::Function(33), KeyEventState::NONE)),
        57397 => Some((KeyCode::Function(34), KeyEventState::NONE)),
        57398 => Some((KeyCode::Function(35), KeyEventState::NONE)),
        57428 => Some((KeyCode::Media(MediaKeyCode::Play), KeyEventState::NONE)),
        57429 => Some((KeyCode::Media(MediaKeyCode::Pause), KeyEventState::NONE)),
        57430 => Some((KeyCode::Media(MediaKeyCode::PlayPause), KeyEventState::NONE)),
        57431 => Some((KeyCode::Media(MediaKeyCode::Reverse), KeyEventState::NONE)),
        57432 => Some((KeyCode::Media(MediaKeyCode::Stop), KeyEventState::NONE)),
        57433 => Some((KeyCode::Media(MediaKeyCode::FastForward), KeyEventState::NONE)),
        57434 => Some((KeyCode::Media(MediaKeyCode::Rewind), KeyEventState::NONE)),
        57435 => Some((KeyCode::Media(MediaKeyCode::TrackNext), KeyEventState::NONE)),
        57436 => Some((KeyCode::Media(MediaKeyCode::TrackPrevious), KeyEventState::NONE)),
        57437 => Some((KeyCode::Media(MediaKeyCode::Record), KeyEventState::NONE)),
        57438 => Some((KeyCode::Media(MediaKeyCode::LowerVolume), KeyEventState::NONE)),
        57439 => Some((KeyCode::Media(MediaKeyCode::RaiseVolume), KeyEventState::NONE)),
        57440 => Some((KeyCode::Media(MediaKeyCode::MuteVolume), KeyEventState::NONE)),
        57441 => Some((KeyCode::Modifier(ModifierKeyCode::LeftShift), KeyEventState::NONE)),
        57442 => Some((KeyCode::Modifier(ModifierKeyCode::LeftControl), KeyEventState::NONE)),
        57443 => Some((KeyCode::Modifier(ModifierKeyCode::LeftAlt), KeyEventState::NONE)),
        57444 => Some((KeyCode::Modifier(ModifierKeyCode::LeftSuper), KeyEventState::NONE)),
        57445 => Some((KeyCode::Modifier(ModifierKeyCode::LeftHyper), KeyEventState::NONE)),
        57446 => Some((KeyCode::Modifier(ModifierKeyCode::LeftMeta), KeyEventState::NONE)),
        57447 => Some((KeyCode::Modifier(ModifierKeyCode::RightShift), KeyEventState::NONE)),
        57448 => Some((KeyCode::Modifier(ModifierKeyCode::RightControl), KeyEventState::NONE)),
        57449 => Some((KeyCode::Modifier(ModifierKeyCode::RightAlt), KeyEventState::NONE)),
        57450 => Some((KeyCode::Modifier(ModifierKeyCode::RightSuper), KeyEventState::NONE)),
        57451 => Some((KeyCode::Modifier(ModifierKeyCode::RightHyper), KeyEventState::NONE)),
        57452 => Some((KeyCode::Modifier(ModifierKeyCode::RightMeta), KeyEventState::NONE)),
        57453 => Some((KeyCode::Modifier(ModifierKeyCode::IsoLevel3Shift), KeyEventState::NONE)),
        57454 => Some((KeyCode::Modifier(ModifierKeyCode::IsoLevel5Shift), KeyEventState::NONE)),
        _ => None,
    }
}

#[verifier::when_used_as_spec(spec_translate_functional_key_code)]
pub fn translate_functional_key_code(codepoint: u32) -> (r: Option<(KeyCode, u8)>)
    ensures
        r == spec_translate_functional_key_code(codepoint),
{
    match codepoint {
        57399 => Some((KeyCode::Char('0'), KeyEventState::KEYPAD)),
        57400 => Some((KeyCode::Char('1'), KeyEventState::KEYPAD)),
        57401 => Some((KeyCode::Char('2'), KeyEventState::KEYPAD)),
        57402 => Some((KeyCode::Char('3'), KeyEventState::KEYPAD)),
        57403 => Some((KeyCode::Char('4'), KeyEventState::KEYPAD)),
        57404 => Some((KeyCode::Char('5'), KeyEventState::KEYPAD)),
        57405 => Some((KeyCode::Char('6'), KeyEventState::KEYPAD)),
        57406 => Some((KeyCode::Char('7'), KeyEventState::KEYPAD)),
        57407 => Some((KeyCode::Char('8'), KeyEventState::KEYPAD)),
        57408 => Some((KeyCode::Char('9'), KeyEventState::KEYPAD)),
        57409 => Some((KeyCode::Char('.'), KeyEventState::KEYPAD)),
        57410 => Some((KeyCode::Char('/'), KeyEventState::KEYPAD)),
        57411 => Some((KeyCode::Char('*'), KeyEventState::KEYPAD)),
        57412 => Some((KeyCode::Char('-'), KeyEventState::KEYPAD)),
        57413 => Some((KeyCode::Char('+'), KeyEventState::KEYPAD)),
        57414 => Some((KeyCode::Enter, KeyEventState::KEYPAD)),
        57415 => Some((KeyCode::Char('='), KeyEventState::KEYPAD)),
        57416 => Some((KeyCode::Char(','), KeyEventState::KEYPAD)),
        57417 => Some((KeyCode::Left, KeyEventState::KEYPAD)),
        57418 => Some((KeyCode::Right, KeyEventState::KEYPAD)),
        57419 => Some((KeyCode::Up, KeyEventState::KEYPAD)),
        57420 => Some((KeyCode::Down, KeyEventState::KEYPAD)),
        57421 => Some((KeyCode::PageUp, KeyEventState::KEYPAD)),
        57422 => Some((KeyCode::PageDown, KeyEventState::KEYPAD)),
        57423 => Some((KeyCode::Home, KeyEventState::KEYPAD)),
        57424 => Some((KeyCode::End, KeyEventState::KEYPAD)),
        57425 => Some((KeyCode::Insert, KeyEventState::KEYPAD)),
        57426 => Some((KeyCode::Delete, KeyEventState::KEYPAD)),
        57427 => Some((KeyCode::KeypadBegin, KeyEventState::KEYPAD)),
        57358 => Some((KeyCode::CapsLock, KeyEventState::NONE)),
        57359 => Some((KeyCode::ScrollLock, KeyEventState::NONE)),
        57360 => Some((KeyCode::NumLock, KeyEventState::NONE)),
        57361 => Some((KeyCode::PrintScreen, KeyEventState::NONE)),
        57362 => Some((KeyCode::Pause, KeyEventState::NONE)),
        57363 => Some((KeyCode::Menu, KeyEventState::NONE)),
        57376 => Some((KeyCode::Function(13), KeyEventState::NONE)),
        57377 => Some((KeyCode::Function(14), KeyEventState::NONE)),
        57378 => Some((KeyCode::Function(15), KeyEventState::NONE)),
        57379 => Some((KeyCode::Function(16), KeyEventState::NONE)),
        57380 => Some((KeyCode::Function(17), KeyEventState::NONE)),
        57381 => Some((KeyCode::Function(18), KeyEventState::NONE)),
        57382 => Some((KeyCode::Function(19), KeyEventState::NONE)),
        57383 => Some((KeyCode::Function(20), KeyEventState::NONE)),
        57384 => Some((KeyCode::Function(21), KeyEventState::NONE)),
        57385 => Some((KeyCode::Function(22), KeyEventState::NONE)),
        57386 => Some((KeyCode::Function(23), KeyEventState::NONE)),
        57387 => Some((KeyCode::Function(24), KeyEventState::NONE)),
        57388 => Some((KeyCode::Function(25), KeyEventState::NONE)),
        57389 => Some((KeyCode::Function(26), KeyEventState::NONE)),
        57390 => Some((KeyCode::Function(27), KeyEventState::NONE)),
        57391 => Some((KeyCode::Function(28), KeyEventState::NONE)),
        57392 => Some((KeyCode::Function(29), KeyEventState::NONE)),
        57393 => Some((KeyCode::Function(30), KeyEventState::NONE)),
        57394 => Some((KeyCode::Function(31), KeyEventState::NONE)),
        57395 => Some((KeyCode::Function(32), KeyEventState::NONE)),
        57396 => Some((KeyCode::Function(33), KeyEventState::NONE)),
        57397 => Some((KeyCode::Function(34), KeyEventState::NONE)),
        57398 => Some((KeyCode::Function(35), KeyEventState::NONE)),
        57428 => Some((KeyCode::Media(MediaKeyCode::Play), KeyEventState::NONE)),
        57429 => Some((KeyCode::Media(MediaKeyCode::Pause), KeyEventState::NONE)),
        57430 => Some((KeyCode::Media(MediaKeyCode::PlayPause), KeyEventState::NONE)),
        57431 => Some((KeyCode::Media(MediaKeyCode::Reverse), KeyEventState::NONE)),
        57432 => Some((KeyCode::Media(MediaKeyCode::Stop), KeyEventState::NONE)),
        57433 => Some((KeyCode::Media(MediaKeyCode::FastForward), KeyEventState::NONE)),
        57434 => Some((KeyCode::Media(MediaKeyCode::Rewind), KeyEventState::NONE)),
        57435 => Some((KeyCode::Media(MediaKeyCode::TrackNext), KeyEventState::NONE)),
        57436 => Some((KeyCode::Media(MediaKeyCode::TrackPrevious), KeyEventState::NONE)),
        57437 => Some((KeyCode::Media(MediaKeyCode::Record), KeyEventState::NONE)),
        57438 => Some((KeyCode::Media(MediaKeyCode::LowerVolume), KeyEventState::NONE)),
        57439 => Some((KeyCode::Media(MediaKeyCode::RaiseVolume), KeyEventState::NONE)),
        57440 => Some((KeyCode::Media(MediaKeyCode::MuteVolume), KeyEventState::NONE)),
        57441 => Some((KeyCode::Modifier(ModifierKeyCode::LeftShift), KeyEventState::NONE)),
        57442 => Some((KeyCode::Modifier(ModifierKeyCode::LeftControl), KeyEventState::NONE)),
        57443 => Some((KeyCode::Modifier(ModifierKeyCode::LeftAlt), KeyEventState::NONE)),
        57444 => Some((KeyCode::Modifier(ModifierKeyCode::LeftSuper), KeyEventState::NONE)),
        57445 => Some((KeyCode::Modifier(ModifierKeyCode::LeftHyper), KeyEventState::NONE)),
        57446 => Some((KeyCode::Modifier(ModifierKeyCode::LeftMeta), KeyEventState::NONE)),
        57447 => Some((KeyCode::Modifier(ModifierKeyCode::RightShift), KeyEventState::NONE)),
        57448 => Some((KeyCode::Modifier(ModifierKeyCode::RightControl), KeyEventState::NONE)),
        57449 => Some((KeyCode::Modifier(ModifierKeyCode::RightAlt), KeyEventState::NONE)),
        57450 => Some((KeyCode::Modifier(ModifierKeyCode::RightSuper), KeyEventState::NONE)),
        57451 => Some((KeyCode::Modifier(ModifierKeyCode::RightHyper), KeyEventState::NONE)),
        57452 => Some((KeyCode::Modifier(ModifierKeyCode::RightMeta), KeyEventState::NONE)),
        57453 => Some((KeyCode::Modifier(ModifierKeyCode::IsoLevel3Shift), KeyEventState::NONE)),
        57454 => Some((KeyCode::Modifier(ModifierKeyCode::IsoLevel5Shift), KeyEventState::NONE)),
        _ => None,
    }
}

} // verus!
