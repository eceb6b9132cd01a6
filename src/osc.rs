//! Operating system commands introduced by `ESC ]` (OSC): window titles and selections.
use vstd::prelude::*;
use vstd::string::{StringExecFns, StringSliceAdditionalSpecFns};

use crate::base64::{base64, push_base64};
use crate::text::{push_all, string_of};

verus! {

/// The selections (clipboards) of OSC 52, held as bits.
#[derive(Debug, Clone, Copy, PartialEq, Eq, Structural)]
pub struct Selection {
    pub bits: u16,
}

/// The character of one selection where its bit is set.
pub open spec fn flag_text(bits: u16, flag: u16, c: char) -> Seq<char> {
    if bits & flag == flag {
        seq![c]
    } else {
        Seq::empty()
    }
}

impl Selection {
    pub const NONE: u16 = 0;

    pub const CLIPBOARD: u16 = 2;

    pub const PRIMARY: u16 = 4;

    pub const SELECT: u16 = 8;

    pub const CUT0: u16 = 16;

    pub const CUT1: u16 = 32;

    pub const CUT2: u16 = 64;

    pub const CUT3: u16 = 128;

    pub const CUT4: u16 = 256;

    pub const CUT5: u16 = 512;

    pub const CUT6: u16 = 1024;

    pub const CUT7: u16 = 2048;

    pub const CUT8: u16 = 4096;

    pub const CUT9: u16 = 8192;

    /// The characters that name the selections, in a fixed order.
    pub open spec fn spec_encode(self) -> Seq<char> {
        flag_text(self.bits, 2, 'c') + flag_text(self.bits, 4, 'p') + flag_text(self.bits, 8, 's') + flag_text(self.bits, 16, '0') + flag_text(self.bits, 32, '1') + flag_text(self.bits, 64, '2') + flag_text(self.bits, 128, '3') + flag_text(self.bits, 256, '4') + flag_text(self.bits, 512, '5') + flag_text(self.bits, 1024, '6') + flag_text(self.bits, 2048, '7') + flag_text(self.bits, 4096, '8') + flag_text(self.bits, 8192, '9')
    }

    /// Appends the characters that name the selections.
    pub fn encode_into(self, out: &mut Vec<char>)
        ensures
            final(out)@ == old(out)@ + self.spec_encode(),
    {
        let mut text: Vec<char> = Vec::new();
        push_flag(&mut text, self.bits, 2, 'c');
        push_flag(&mut text, self.bits, 4, 'p');
        push_flag(&mut text, self.bits, 8, 's');
        push_flag(&mut text, self.bits, 16, '0');
        push_flag(&mut text, self.bits, 32, '1');
        push_flag(&mut text, self.bits, 64, '2');
        push_flag(&mut text, self.bits, 128, '3');
        push_flag(&mut text, self.bits, 256, '4');
        push_flag(&mut text, self.bits, 512, '5');
        push_flag(&mut text, self.bits, 1024, '6');
        push_flag(&mut text, self.bits, 2048, '7');
        push_flag(&mut text, self.bits, 4096, '8');
        push_flag(&mut text, self.bits, 8192, '9');
        assert(text@ =~= self.spec_encode());
        push_all(out, text.as_slice());
    }
}

fn push_flag(out: &mut Vec<char>, bits: u16, flag: u16, c: char)
    ensures
        final(out)@ == old(out)@ + flag_text(bits, flag, c),
{
    if bits & flag == flag {
        out.push(c);
    }
    assert(final(out)@ =~= old(out)@ + flag_text(bits, flag, c));
}

#[derive(Debug, Clone, Copy, PartialEq, Eq)]
pub enum Osc<'a> {
    SetIconNameAndWindowTitle(&'a str),
    SetWindowTitle(&'a str),
    SetWindowTitleSun(&'a str),
    SetIconName(&'a str),
    SetIconNameSun(&'a str),
    ClearSelection(Selection),
    QuerySelection(Selection),
    /// Sets the selections to the text, which travels in base64.
    SetSelection(Selection, &'a str),
}

impl<'a> Osc<'a> {
    /// The text of this command between `ESC ]` and the terminator.
    pub open spec fn spec_body(&self) -> Seq<char> {
        match *self {
            Osc::SetIconNameAndWindowTitle(s) => seq!['0', ';'] + s@,
            Osc::SetWindowTitle(s) => seq!['2', ';'] + s@,
            Osc::SetWindowTitleSun(s) => seq!['l'] + s@,
            Osc::SetIconName(s) => seq!['1', ';'] + s@,
            Osc::SetIconNameSun(s) => seq!['L'] + s@,
            Osc::ClearSelection(sel) => seq!['5', '2', ';'] + sel.spec_encode(),
            Osc::QuerySelection(sel) => seq!['5', '2', ';'] + sel.spec_encode() + seq![';', '?'],
            Osc::SetSelection(sel, s) => seq!['5', '2', ';'] + sel.spec_encode() + seq![';'] + base64(
                s.spec_bytes(),
            ),
        }
    }

    /// The whole command: `ESC ]`, its text and the terminator `ESC \`.
    pub open spec fn spec_encode(&self) -> Seq<char> {
        seq!['\x1b', ']'] + self.spec_body() + seq!['\x1b', '\\']
    }

    /// The command as text.
    pub fn encode(&self) -> (r: String)
        ensures
            r@ == self.spec_encode(),
    {
        let mut head: Vec<char> = Vec::new();
        push_all(&mut head, &['\x1b', ']']);
        let text: Option<&str> = match *self {
            Osc::SetIconNameAndWindowTitle(s) => {
                push_all(&mut head, &['0', ';']);
                Some(s)
            },
            Osc::SetWindowTitle(s) => {
                push_all(&mut head, &['2', ';']);
                Some(s)
            },
            Osc::SetWindowTitleSun(s) => {
                head.push('l');
                Some(s)
            },
            Osc::SetIconName(s) => {
                push_all(&mut head, &['1', ';']);
                Some(s)
            },
            Osc::SetIconNameSun(s) => {
                head.push('L');
                Some(s)
            },
            Osc::ClearSelection(sel) => {
                push_all(&mut head, &['5', '2', ';']);
                sel.encode_into(&mut head);
                None
            },
            Osc::QuerySelection(sel) => {
                push_all(&mut head, &['5', '2', ';']);
                sel.encode_into(&mut head);
                push_all(&mut head, &[';', '?']);
                None
            },
            Osc::SetSelection(sel, s) => {
                push_all(&mut head, &['5', '2', ';']);
                sel.encode_into(&mut head);
                head.push(';');
                push_base64(&mut head, s.as_bytes());
                None
            },
        };
        let terminator = string_of(&vec!['\x1b', '\\']);
        match text {
            Some(s) => {
                let mut out = string_of(&head);
                out.append(s);
                out.append(terminator.as_str());
                assert(out@ =~= self.spec_encode());
                out
            },
            None => {
                let mut out = string_of(&head);
                out.append(terminator.as_str());
                assert(out@ =~= self.spec_encode());
                out
            },
        }
    }
}

} // verus!
