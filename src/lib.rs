//! Terminal input and output: control sequences written from structured commands, input bytes
//! decoded into events, and an event queue that filtered consumers share without losing or
//! reordering events.
pub mod base64;
pub mod csi;
pub mod decode;
pub mod dcs;
pub mod event;
pub mod osc;
pub mod reader;
pub mod round_trip;
pub mod style;
pub mod stream;
pub mod text;
pub mod timeout;

use vstd::prelude::*;
use vstd::string::StringSliceAdditionalSpecFns;

pub use event::Event;

verus! {

/// A one-based coordinate or dimension: never zero.
#[derive(Debug, Clone, Copy, PartialEq, Eq, Structural)]
pub struct OneBased(u16);

impl OneBased {
    #[verifier::type_invariant]
    spec fn positive(self) -> bool {
        self.0 != 0
    }

    /// The value this coordinate stands for.
    pub closed spec fn view(self) -> u16 {
        self.0
    }

    /// The coordinate that stands for `n`, for a nonzero `n`.
    pub closed spec fn spec_at(n: u16) -> OneBased {
        OneBased(n)
    }

    pub broadcast proof fn lemma_at(n: u16)
        ensures
            #[trigger] OneBased::spec_at(n)@ == n,
    {
    }

    pub fn new(n: u16) -> (r: Option<OneBased>)
        ensures
            r == (if n == 0 { None } else { Some(OneBased::spec_at(n)) }),
    {
        if n == 0 {
            None
        } else {
            Some(OneBased(n))
        }
    }

    /// The coordinate one past the zero-based `n`.
    pub fn from_zero_based(n: u16) -> (r: OneBased)
        requires
            n < 0xffff,
        ensures
            r@ == n + 1,
    {
        OneBased(n + 1)
    }

    pub fn get(self) -> (r: u16)
        ensures
            r == self@,
            r >= 1,
    {
        proof {
            use_type_invariant(self);
        }
        self.0
    }

    pub fn get_zero_based(self) -> (r: u16)
        ensures
            r == self@ - 1,
    {
        proof {
            use_type_invariant(self);
        }
        self.0 - 1
    }
}

impl Default for OneBased {
    fn default() -> (r: OneBased)
        ensures
            r@ == 1,
    {
        OneBased(1)
    }
}

/// The dimensions of a terminal screen.
#[derive(Debug, Clone, Copy, PartialEq, Eq, Structural)]
pub struct WindowSize {
    /// The width: the number of columns.
    pub cols: u16,
    /// The height: the number of rows.
    pub rows: u16,
    /// The width in pixels, where the terminal reports it.
    pub pixel_width: Option<u16>,
    /// The height in pixels, where the terminal reports it.
    pub pixel_height: Option<u16>,
}

/// The number that an environment value such as `LINES` holds, if it holds one.
pub open spec fn env_number(value: Option<&str>) -> Option<u16> {
    match value {
        Some(v) => match decode::number(v.spec_bytes(), 0xffff) {
            Some(n) => Some(n as u16),
            None => None,
        },
        None => None,
    }
}

/// The screen size to use: the measured one where it has rows and columns, else with rows and
/// columns taken from `LINES` and `COLUMNS` where those hold numbers; none where rows or
/// columns are still zero.
pub open spec fn resolved(size: WindowSize, lines: Option<u16>, columns: Option<u16>) -> Option<
    WindowSize,
> {
    let s = if size.cols == 0 || size.rows == 0 {
        WindowSize {
            rows: match lines {
                Some(r) => r,
                None => size.rows,
            },
            cols: match columns {
                Some(c) => c,
                None => size.cols,
            },
            ..size
        }
    } else {
        size
    };
    if s.cols == 0 || s.rows == 0 {
        None
    } else {
        Some(s)
    }
}

/// Settles the screen size from a measurement and the values of `LINES` and `COLUMNS`.
pub fn resolve_dimensions(size: WindowSize, lines: Option<&str>, columns: Option<&str>) -> (r:
    Option<WindowSize>)
    ensures
        r == resolved(size, env_number(lines), env_number(columns)),
{
    let mut s = size;
    if size.cols == 0 || size.rows == 0 {
        if let Some(v) = lines {
            let b = v.as_bytes();
            if let Some(n) = decode::parse_number(b, 0, b.len(), 0xffff) {
                assert(b@.subrange(0, b@.len() as int) =~= b@);
                s.rows = n as u16;
            } else {
                assert(b@.subrange(0, b@.len() as int) =~= b@);
            }
        }
        if let Some(v) = columns {
            let b = v.as_bytes();
            if let Some(n) = decode::parse_number(b, 0, b.len(), 0xffff) {
                assert(b@.subrange(0, b@.len() as int) =~= b@);
                s.cols = n as u16;
            } else {
                assert(b@.subrange(0, b@.len() as int) =~= b@);
            }
        }
    }
    if s.cols == 0 || s.rows == 0 {
        None
    } else {
        Some(s)
    }
}

} // verus!
