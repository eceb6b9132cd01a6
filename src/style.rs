//! Types for styling terminal cells.
use vstd::prelude::*;
use vstd::string::StringExecFns;

use crate::csi::Sgr;
use crate::text::{push_all, string_of};

verus! {

#[derive(Debug, Clone, Copy, PartialEq, Eq, Structural)]
pub enum Underline {
    NoUnderline,
    Single,
    Double,
    Curly,
    Dotted,
    Dashed,
}

#[derive(Debug, Clone, Copy, PartialEq, Eq, Structural)]
pub enum CursorStyle {
    Default,
    BlinkingBlock,
    SteadyBlock,
    BlinkingUnderline,
    SteadyUnderline,
    BlinkingBar,
    SteadyBar,
}

impl CursorStyle {
    pub open spec fn spec_code(self) -> u8 {
        match self {
            CursorStyle::Default => 0,
            CursorStyle::BlinkingBlock => 1,
            CursorStyle::SteadyBlock => 2,
            CursorStyle::BlinkingUnderline => 3,
            CursorStyle::SteadyUnderline => 4,
            CursorStyle::BlinkingBar => 5,
            CursorStyle::SteadyBar => 6,
        }
    }

    /// The number by which the DECSCUSR sequence names this style.
    #[verifier::when_used_as_spec(spec_code)]
    pub fn code(self) -> (r: u8)
        ensures
            r == self.spec_code(),
    {
        match self {
            CursorStyle::Default => 0,
            CursorStyle::BlinkingBlock => 1,
            CursorStyle::SteadyBlock => 2,
            CursorStyle::BlinkingUnderline => 3,
            CursorStyle::SteadyUnderline => 4,
            CursorStyle::BlinkingBar => 5,
            CursorStyle::SteadyBar => 6,
        }
    }
}

/// A color of the 256-color palette.
#[derive(Debug, Clone, Copy, PartialEq, Eq, Structural)]
pub struct WebColor(pub u8);

#[derive(Debug, Clone, Copy, PartialEq, Eq, Structural)]
pub struct RgbColor {
    pub red: u8,
    pub green: u8,
    pub blue: u8,
}

impl RgbColor {
    pub fn new(red: u8, green: u8, blue: u8) -> (r: RgbColor)
        ensures
            r == (RgbColor { red, green, blue }),
    {
        RgbColor { red, green, blue }
    }
}

#[derive(Debug, Clone, Copy, PartialEq, Eq, Structural)]
pub struct RgbaColor {
    pub red: u8,
    pub green: u8,
    pub blue: u8,
    pub alpha: u8,
}

impl From<RgbaColor> for RgbColor {
    fn from(color: RgbaColor) -> (r: RgbColor) {
        RgbColor { red: color.red, green: color.green, blue: color.blue }
    }
}

impl vstd::std_specs::convert::FromSpecImpl<RgbaColor> for RgbColor {
    open spec fn obeys_from_spec() -> bool {
        true
    }

    open spec fn from_spec(color: RgbaColor) -> RgbColor {
        RgbColor { red: color.red, green: color.green, blue: color.blue }
    }
}

impl From<RgbColor> for RgbaColor {
    fn from(color: RgbColor) -> (r: RgbaColor) {
        RgbaColor { red: color.red, green: color.green, blue: color.blue, alpha: 255 }
    }
}

impl vstd::std_specs::convert::FromSpecImpl<RgbColor> for RgbaColor {
    open spec fn obeys_from_spec() -> bool {
        true
    }

    open spec fn from_spec(color: RgbColor) -> RgbaColor {
        RgbaColor { red: color.red, green: color.green, blue: color.blue, alpha: 255 }
    }
}

#[derive(Debug, Clone, Copy, PartialEq, Eq, Structural)]
pub enum AnsiColor {
    Black,
    Red,
    Green,
    Yellow,
    Blue,
    Magenta,
    Cyan,
    White,
    BrightBlack,
    BrightRed,
    BrightGreen,
    BrightYellow,
    BrightBlue,
    BrightMagenta,
    BrightCyan,
    BrightWhite,
}

#[derive(Debug, Clone, Copy, PartialEq, Eq, Structural)]
pub enum ColorSpec {
    Reset,
    PaletteIndex(u8),
    TrueColor(RgbaColor),
}

impl AnsiColor {
    /// This color's index in the palette.
    pub open spec fn spec_index(self) -> u8 {
        match self {
            AnsiColor::Black => 0,
            AnsiColor::Red => 1,
            AnsiColor::Green => 2,
            AnsiColor::Yellow => 3,
            AnsiColor::Blue => 4,
            AnsiColor::Magenta => 5,
            AnsiColor::Cyan => 6,
            AnsiColor::White => 7,
            AnsiColor::BrightBlack => 8,
            AnsiColor::BrightRed => 9,
            AnsiColor::BrightGreen => 10,
            AnsiColor::BrightYellow => 11,
            AnsiColor::BrightBlue => 12,
            AnsiColor::BrightMagenta => 13,
            AnsiColor::BrightCyan => 14,
            AnsiColor::BrightWhite => 15,
        }
    }

    #[verifier::when_used_as_spec(spec_index)]
    pub fn index(self) -> (r: u8)
        ensures
            r == self.spec_index(),
    {
        match self {
            AnsiColor::Black => 0,
            AnsiColor::Red => 1,
            AnsiColor::Green => 2,
            AnsiColor::Yellow => 3,
            AnsiColor::Blue => 4,
            AnsiColor::Magenta => 5,
            AnsiColor::Cyan => 6,
            AnsiColor::White => 7,
            AnsiColor::BrightBlack => 8,
            AnsiColor::BrightRed => 9,
            AnsiColor::BrightGreen => 10,
            AnsiColor::BrightYellow => 11,
            AnsiColor::BrightBlue => 12,
            AnsiColor::BrightMagenta => 13,
            AnsiColor::BrightCyan => 14,
            AnsiColor::BrightWhite => 15,
        }
    }
}

impl From<AnsiColor> for ColorSpec {
    fn from(color: AnsiColor) -> (r: ColorSpec) {
        ColorSpec::PaletteIndex(color.index())
    }
}

impl From<WebColor> for ColorSpec {
    fn from(color: WebColor) -> (r: ColorSpec) {
        ColorSpec::PaletteIndex(color.0)
    }
}

impl vstd::std_specs::convert::FromSpecImpl<WebColor> for ColorSpec {
    open spec fn obeys_from_spec() -> bool {
        true
    }

    open spec fn from_spec(color: WebColor) -> ColorSpec {
        ColorSpec::PaletteIndex(color.0)
    }
}

impl From<RgbaColor> for ColorSpec {
    fn from(color: RgbaColor) -> (r: ColorSpec) {
        ColorSpec::TrueColor(color)
    }
}

impl vstd::std_specs::convert::FromSpecImpl<RgbaColor> for ColorSpec {
    open spec fn obeys_from_spec() -> bool {
        true
    }

    open spec fn from_spec(color: RgbaColor) -> ColorSpec {
        ColorSpec::TrueColor(color)
    }
}

impl From<RgbColor> for ColorSpec {
    fn from(color: RgbColor) -> (r: ColorSpec) {
        ColorSpec::TrueColor(RgbaColor { red: color.red, green: color.green, blue: color.blue, alpha: 255 })
    }
}

impl vstd::std_specs::convert::FromSpecImpl<RgbColor> for ColorSpec {
    open spec fn obeys_from_spec() -> bool {
        true
    }

    open spec fn from_spec(color: RgbColor) -> ColorSpec {
        ColorSpec::TrueColor(RgbaColor { red: color.red, green: color.green, blue: color.blue, alpha: 255 })
    }
}

impl vstd::std_specs::convert::FromSpecImpl<AnsiColor> for ColorSpec {
    open spec fn obeys_from_spec() -> bool {
        true
    }

    open spec fn from_spec(color: AnsiColor) -> ColorSpec {
        ColorSpec::PaletteIndex(color.spec_index())
    }
}

#[derive(Debug, Clone, Copy, PartialEq, Eq, Structural)]
pub enum Intensity {
    Normal,
    Bold,
    Dim,
}

#[derive(Debug, Clone, Copy, PartialEq, Eq, Structural)]
pub enum Blink {
    NoBlink,
    Slow,
    Rapid,
}

#[derive(Debug, Clone, Copy, PartialEq, Eq, Structural)]
pub enum Font {
    Default,
    Alternate(u8),
}

#[derive(Debug, Clone, Copy, PartialEq, Eq, Structural)]
pub enum VerticalAlign {
    BaseLine,
    SuperScript,
    SubScript,
}


/// Whether a rendition sets a color, which is left out where color output is disabled.
pub open spec fn sets_color(sgr: Sgr) -> bool {
    sgr is Foreground || sgr is Background || sgr is UnderlineColor
}

/// The `;`-led parameters of the renditions that are kept.
pub open spec fn style_params(styles: Seq<Sgr>, no_color: bool) -> Seq<char>
    decreases styles.len(),
{
    if styles.len() == 0 {
        Seq::empty()
    } else {
        let prev = style_params(styles.drop_last(), no_color);
        if no_color && sets_color(styles.last()) {
            prev
        } else {
            prev + seq![';'] + styles.last().spec_encode()
        }
    }
}

/// Text with renditions: `ESC [ 0 ; ... m`, the text and a reset, or the bare text where no
/// rendition is kept.
pub open spec fn rendered(content: Seq<char>, styles: Seq<Sgr>, no_color: bool) -> Seq<char> {
    let params = style_params(styles, no_color);
    if params.len() == 0 {
        content
    } else {
        seq!['\x1b', '[', '0'] + params + seq!['m'] + content + seq!['\x1b', '[', '0', 'm']
    }
}

/// Text and the renditions to show it with.
#[derive(Debug, Clone, PartialEq, Eq)]
pub struct Stylized {
    pub content: String,
    styles: Vec<Sgr>,
}

impl Stylized {
    /// The text.
    pub closed spec fn text(&self) -> Seq<char> {
        self.content@
    }

    /// The renditions, in the order they were added.
    pub closed spec fn style_list(&self) -> Seq<Sgr> {
        self.styles@
    }

    /// The text with no renditions.
    pub fn new(content: String) -> (r: Stylized)
        ensures
            r.text() == content@,
            r.style_list() == Seq::<Sgr>::empty(),
    {
        Stylized { content, styles: Vec::new() }
    }

    /// The renditions, in the order they were added.
    pub fn styles(&self) -> (r: &Vec<Sgr>)
        ensures
            r@ == self.style_list(),
    {
        &self.styles
    }

    /// Adds a rendition.
    pub fn with(self, sgr: Sgr) -> (r: Stylized)
        ensures
            r.text() == self.text(),
            r.style_list() == self.style_list().push(sgr),
    {
        let mut this = self;
        this.styles.push(sgr);
        this
    }

    /// The text as the terminal should get it; `no_color` leaves out the colors.
    pub fn render(&self, no_color: bool) -> (r: String)
        ensures
            r@ == rendered(self.text(), self.style_list(), no_color),
    {
        let mut params: Vec<char> = Vec::new();
        let mut i: usize = 0;
        while i < self.styles.len()
            invariant
                i <= self.styles@.len(),
                params@ == style_params(self.styles@.subrange(0, i as int), no_color),
            decreases self.styles@.len() - i,
        {
            let sgr = self.styles[i];
            let ghost before = params@;
            let colored = match sgr {
                Sgr::Foreground(_) | Sgr::Background(_) | Sgr::UnderlineColor(_) => true,
                _ => false,
            };
            if !(no_color && colored) {
                params.push(';');
                sgr.encode_into(&mut params);
            }
            assert(self.styles@.subrange(0, i + 1).drop_last() =~= self.styles@.subrange(0, i as int));
            i = i + 1;
            assert(params@ =~= style_params(self.styles@.subrange(0, i as int), no_color));
        }
        assert(self.styles@.subrange(0, i as int) =~= self.styles@);
        if params.len() == 0 {
            return self.content.clone();
        }
        let mut head: Vec<char> = Vec::new();
        push_all(&mut head, &['\x1b', '[', '0']);
        push_all(&mut head, params.as_slice());
        head.push('m');
        let mut out = string_of(&head);
        out.append(self.content.as_str());
        let tail = string_of(&vec!['\x1b', '[', '0', 'm']);
        out.append(tail.as_str());
        assert(out@ =~= rendered(self.content@, self.styles@, no_color));
        out
    }
}

/// Turns a value into styled text.
pub trait StyleExt: Sized {
    /// The text that the value stands for.
    spec fn styled_text(&self) -> Seq<char>;

    /// The renditions that the value already has.
    spec fn styled_list(&self) -> Seq<Sgr>;

    fn stylized(self) -> (r: Stylized)
        ensures
            r.text() == self.styled_text(),
            r.style_list() == self.styled_list(),
    ;
}

impl StyleExt for String {
    open spec fn styled_text(&self) -> Seq<char> {
        self@
    }

    open spec fn styled_list(&self) -> Seq<Sgr> {
        Seq::empty()
    }

    fn stylized(self) -> (r: Stylized) {
        Stylized::new(self)
    }
}

impl<'a> StyleExt for &'a str {
    open spec fn styled_text(&self) -> Seq<char> {
        self@
    }

    open spec fn styled_list(&self) -> Seq<Sgr> {
        Seq::empty()
    }

    fn stylized(self) -> (r: Stylized) {
        Stylized::new(self.to_owned())
    }
}

impl StyleExt for Stylized {
    open spec fn styled_text(&self) -> Seq<char> {
        self.text()
    }

    open spec fn styled_list(&self) -> Seq<Sgr> {
        self.style_list()
    }

    fn stylized(self) -> (r: Stylized) {
        self
    }
}

impl Stylized {
    pub fn foreground(self, color: ColorSpec) -> (r: Stylized)
        ensures
            r.text() == self.text(),
            r.style_list() == self.style_list().push(Sgr::Foreground(color)),
    {
        self.with(Sgr::Foreground(color))
    }

    pub fn red(self) -> (r: Stylized)
        ensures
            r.text() == self.text(),
            r.style_list() == self.style_list().push(Sgr::Foreground(ColorSpec::PaletteIndex(1))),
    {
        self.foreground(ColorSpec::PaletteIndex(1))
    }

    pub fn yellow(self) -> (r: Stylized)
        ensures
            r.text() == self.text(),
            r.style_list() == self.style_list().push(Sgr::Foreground(ColorSpec::PaletteIndex(3))),
    {
        self.foreground(ColorSpec::PaletteIndex(3))
    }

    pub fn green(self) -> (r: Stylized)
        ensures
            r.text() == self.text(),
            r.style_list() == self.style_list().push(Sgr::Foreground(ColorSpec::PaletteIndex(2))),
    {
        self.foreground(ColorSpec::PaletteIndex(2))
    }

    pub fn underlined(self) -> (r: Stylized)
        ensures
            r.text() == self.text(),
            r.style_list() == self.style_list().push(Sgr::Underline(Underline::Single)),
    {
        self.with(Sgr::Underline(Underline::Single))
    }

    pub fn bold(self) -> (r: Stylized)
        ensures
            r.text() == self.text(),
            r.style_list() == self.style_list().push(Sgr::Intensity(Intensity::Bold)),
    {
        self.with(Sgr::Intensity(Intensity::Bold))
    }
}

} // verus!
