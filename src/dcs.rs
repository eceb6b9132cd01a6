//! Device control strings introduced by `ESC P` (DCS).
use vstd::prelude::*;

use crate::csi::Sgr;
use crate::style::CursorStyle;
use crate::text::{decimal, push_all, push_decimal, string_of};

verus! {

#[derive(Debug, Clone, PartialEq, Eq)]
pub enum Dcs {
    /// DECRQSS: request a selection or setting.
    Request(DcsRequest),
    /// DECRPSS: the terminal's report of a selection or setting.
    Response { is_request_valid: bool, value: DcsResponse },
}

#[derive(Debug, Clone, Copy, PartialEq, Eq, Structural)]
pub enum DcsRequest {
    ActiveStatusDisplay,
    AttributeChangeExtent,
    CharacterAttribute,
    ConformanceLevel,
    ColumnsPerPage,
    LinesPerPage,
    NumberOfLinesPerScreen,
    StatusLineType,
    LeftAndRightMargins,
    TopAndBottomMargins,
    GraphicRendition,
    SetUpLanguage,
    PrinterType,
    RefreshRate,
    DigitalPrintedDataType,
    ProPrinterCharacterSet,
    CommunicationSpeed,
    CommunicationPort,
    ScrollSpeed,
    CursorStyle,
    KeyClickVolume,
    WarningBellVolume,
    MarginBellVolume,
    LockKeyStyle,
    FlowControlType,
    DisconnectDelayTime,
    TransmitRateLimit,
    PortParameter,
}

#[derive(Debug, Clone, PartialEq, Eq)]
pub enum DcsResponse {
    GraphicRendition(Vec<Sgr>),
    CursorStyle(CursorStyle),
}


/// The renditions' texts, separated by `;`.
pub open spec fn sgr_list(s: Seq<Sgr>) -> Seq<char>
    decreases s.len(),
{
    if s.len() == 0 {
        Seq::<char>::empty()
    } else if s.len() == 1 {
        s[0].spec_encode()
    } else {
        sgr_list(s.drop_last()) + seq![';'] + s.last().spec_encode()
    }
}

impl DcsRequest {
    /// The text that names the requested setting.
    pub open spec fn spec_encode(self) -> Seq<char> {
        match self {
            DcsRequest::ActiveStatusDisplay => seq!['$', '}'],
            DcsRequest::AttributeChangeExtent => seq!['*', 'x'],
            DcsRequest::CharacterAttribute => seq!['"', 'q'],
            DcsRequest::ConformanceLevel => seq!['"', 'p'],
            DcsRequest::ColumnsPerPage => seq!['$', '|'],
            DcsRequest::LinesPerPage => seq!['t'],
            DcsRequest::NumberOfLinesPerScreen => seq!['*', '|'],
            DcsRequest::StatusLineType => seq!['$', '~'],
            DcsRequest::LeftAndRightMargins => seq!['s'],
            DcsRequest::TopAndBottomMargins => seq!['r'],
            DcsRequest::GraphicRendition => seq!['m'],
            DcsRequest::SetUpLanguage => seq!['p'],
            DcsRequest::PrinterType => seq!['$', 's'],
            DcsRequest::RefreshRate => seq!['"', 't'],
            DcsRequest::DigitalPrintedDataType => seq!['(', 'p'],
            DcsRequest::ProPrinterCharacterSet => seq!['*', 'p'],
            DcsRequest::CommunicationSpeed => seq!['*', 'r'],
            DcsRequest::CommunicationPort => seq!['*', 'u'],
            DcsRequest::ScrollSpeed => seq![' ', 'p'],
            DcsRequest::CursorStyle => seq![' ', 'q'],
            DcsRequest::KeyClickVolume => seq![' ', 'r'],
            DcsRequest::WarningBellVolume => seq![' ', 't'],
            DcsRequest::MarginBellVolume => seq![' ', 'u'],
            DcsRequest::LockKeyStyle => seq![' ', 'v'],
            DcsRequest::FlowControlType => seq!['*', 's'],
            DcsRequest::DisconnectDelayTime => seq!['$', 'q'],
            DcsRequest::TransmitRateLimit => seq!['"', 'u'],
            DcsRequest::PortParameter => seq!['+', 'w'],
        }
    }

    /// Appends the text that names the requested setting.
    pub fn encode_into(self, out: &mut Vec<char>)
        ensures
            final(out)@ == old(out)@ + self.spec_encode(),
    {
        match self {
            DcsRequest::ActiveStatusDisplay => {
                push_all(out, &['$', '}']);
            },
            DcsRequest::AttributeChangeExtent => {
                push_all(out, &['*', 'x']);
            },
            DcsRequest::CharacterAttribute => {
                push_all(out, &['"', 'q']);
            },
            DcsRequest::ConformanceLevel => {
                push_all(out, &['"', 'p']);
            },
            DcsRequest::ColumnsPerPage => {
                push_all(out, &['$', '|']);
            },
            DcsRequest::LinesPerPage => {
                out.push('t');
            },
            DcsRequest::NumberOfLinesPerScreen => {
                push_all(out, &['*', '|']);
            },
            DcsRequest::StatusLineType => {
                push_all(out, &['$', '~']);
            },
            DcsRequest::LeftAndRightMargins => {
                out.push('s');
            },
            DcsRequest::TopAndBottomMargins => {
                out.push('r');
            },
            DcsRequest::GraphicRendition => {
                out.push('m');
            },
            DcsRequest::SetUpLanguage => {
                out.push('p');
            },
            DcsRequest::PrinterType => {
                push_all(out, &['$', 's']);
            },
            DcsRequest::RefreshRate => {
                push_all(out, &['"', 't']);
            },
            DcsRequest::DigitalPrintedDataType => {
                push_all(out, &['(', 'p']);
            },
            DcsRequest::ProPrinterCharacterSet => {
                push_all(out, &['*', 'p']);
            },
            DcsRequest::CommunicationSpeed => {
                push_all(out, &['*', 'r']);
            },
            DcsRequest::CommunicationPort => {
                push_all(out, &['*', 'u']);
            },
            DcsRequest::ScrollSpeed => {
                push_all(out, &[' ', 'p']);
            },
            DcsRequest::CursorStyle => {
                push_all(out, &[' ', 'q']);
            },
            DcsRequest::KeyClickVolume => {
                push_all(out, &[' ', 'r']);
            },
            DcsRequest::WarningBellVolume => {
                push_all(out, &[' ', 't']);
            },
            DcsRequest::MarginBellVolume => {
                push_all(out, &[' ', 'u']);
            },
            DcsRequest::LockKeyStyle => {
                push_all(out, &[' ', 'v']);
            },
            DcsRequest::FlowControlType => {
                push_all(out, &['*', 's']);
            },
            DcsRequest::DisconnectDelayTime => {
                push_all(out, &['$', 'q']);
            },
            DcsRequest::TransmitRateLimit => {
                push_all(out, &['"', 'u']);
            },
            DcsRequest::PortParameter => {
                push_all(out, &['+', 'w']);
            },
        }
    }
}

impl DcsResponse {
    /// The text of the reported setting.
    pub open spec fn spec_encode(&self) -> Seq<char> {
        match self {
            DcsResponse::GraphicRendition(sgrs) => sgr_list(sgrs@),
            DcsResponse::CursorStyle(style) => decimal(style.spec_code() as nat) + seq![' ', 'q'],
        }
    }

    /// Appends the text of the reported setting.
    pub fn encode_into(&self, out: &mut Vec<char>)
        ensures
            final(out)@ == old(out)@ + self.spec_encode(),
    {
        match self {
            DcsResponse::GraphicRendition(sgrs) => {
                let ghost start = out@;
                let mut i: usize = 0;
                while i < sgrs.len()
                    invariant
                        i <= sgrs@.len(),
                        out@ == start + sgr_list(sgrs@.subrange(0, i as int)),
                    decreases sgrs@.len() - i,
                {
                    let ghost before = out@;
                    if i > 0 {
                        out.push(';');
                    }
                    sgrs[i].encode_into(out);
                    proof {
                        let next = sgrs@.subrange(0, i + 1);
                        assert(next.drop_last() =~= sgrs@.subrange(0, i as int));
                        assert(next.last() == sgrs@[i as int]);
                        if i == 0 {
                            assert(next.len() == 1);
                            assert(next[0] == sgrs@[0]);
                        }
                    }
                    i = i + 1;
                    assert(out@ =~= start + sgr_list(sgrs@.subrange(0, i as int)));
                }
                assert(sgrs@.subrange(0, i as int) =~= sgrs@);
            },
            DcsResponse::CursorStyle(style) => {
                push_decimal(out, style.code() as u64);
                push_all(out, &[' ', 'q']);
                assert(final(out)@ =~= old(out)@ + self.spec_encode());
            },
        }
    }
}

impl Dcs {
    /// The whole string: `ESC P`, the request or report, and the terminator `ESC \`.
    pub open spec fn spec_encode(&self) -> Seq<char> {
        seq!['\x1b', 'P'] + match self {
            Dcs::Request(request) => seq!['$', 'q'] + request.spec_encode(),
            Dcs::Response { is_request_valid, value } => seq![
                if *is_request_valid {
                    '1'
                } else {
                    '0'
                },
                '$',
                'r',
            ] + value.spec_encode(),
        } + seq!['\x1b', '\\']
    }

    /// The device control string as text.
    pub fn encode(&self) -> (r: String)
        ensures
            r@ == self.spec_encode(),
    {
        let mut out: Vec<char> = Vec::new();
        push_all(&mut out, &['\x1b', 'P']);
        match self {
            Dcs::Request(request) => {
                push_all(&mut out, &['$', 'q']);
                request.encode_into(&mut out);
            },
            Dcs::Response { is_request_valid, value } => {
                out.push(if *is_request_valid { '1' } else { '0' });
                push_all(&mut out, &['$', 'r']);
                value.encode_into(&mut out);
            },
        }
        push_all(&mut out, &['\x1b', '\\']);
        assert(out@ =~= self.spec_encode());
        string_of(&out)
    }
}

} // verus!
