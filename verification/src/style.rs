//! Coloured text.
use vstd::prelude::*;

verus! {

/// The colours of the terminal that are in use.
#[derive(Clone, Copy, PartialEq, Eq, Debug)]
pub enum Color {
    Black,
    Red,
    Green,
    Yellow,
    Blue,
    Magenta,
    Cyan,
    Gray,
    DarkGray,
    White,
}

/// How a piece of text is set: the colours that are changed, and whether it is bold.
#[derive(Clone, Copy, PartialEq, Eq, Debug)]
pub struct Style {
    pub fg: Option<Color>,
    pub bg: Option<Color>,
    pub bold: bool,
}

/// The style that changes nothing.
#[verifier::allow_in_spec]
pub fn raw() -> Style
    returns
        (Style { fg: None, bg: None, bold: false }),
{
    Style { fg: None, bg: None, bold: false }
}

/// Text in a colour.
#[verifier::allow_in_spec]
pub fn ink(fg: Color) -> Style
    returns
        (Style { fg: Some(fg), bg: None, bold: false }),
{
    Style { fg: Some(fg), bg: None, bold: false }
}

/// Bold text in a colour.
#[verifier::allow_in_spec]
pub fn bold(fg: Color) -> Style
    returns
        (Style { fg: Some(fg), bg: None, bold: true }),
{
    Style { fg: Some(fg), bg: None, bold: true }
}

/// Bold text in a colour, on a ground in another.
#[verifier::allow_in_spec]
pub fn bold_on(fg: Color, bg: Color) -> Style
    returns
        (Style { fg: Some(fg), bg: Some(bg), bold: true }),
{
    Style { fg: Some(fg), bg: Some(bg), bold: true }
}

/// A piece of text in one style.
#[derive(PartialEq, Eq, Debug)]
pub struct Span {
    pub text: String,
    pub style: Style,
}

/// The model of a [`Span`].
#[verifier::ext_equal]
pub struct SpanView {
    pub text: Seq<char>,
    pub style: Style,
}

impl View for Span {
    type V = SpanView;

    open spec fn view(&self) -> SpanView {
        SpanView { text: self.text@, style: self.style }
    }
}

/// The model of a piece of text.
pub open spec fn piece(text: Seq<char>, style: Style) -> SpanView {
    SpanView { text, style }
}

impl Span {
    /// Sets a text in a style.
    pub fn styled(text: String, style: Style) -> (span: Span)
        ensures
            span@ == piece(text@, style),
    {
        Span { text, style }
    }
}

/// A line of pieces, from left to right.
#[derive(PartialEq, Eq, Debug)]
pub struct Line {
    pub spans: Vec<Span>,
}

/// The models of some pieces.
pub open spec fn span_views(spans: Seq<Span>) -> Seq<SpanView> {
    Seq::new(spans.len(), |i: int| spans[i]@)
}

impl View for Line {
    type V = Seq<SpanView>;

    open spec fn view(&self) -> Seq<SpanView> {
        span_views(self.spans@)
    }
}

/// The models of some lines.
pub open spec fn line_views(lines: Seq<Line>) -> Seq<Seq<SpanView>> {
    Seq::new(lines.len(), |i: int| lines[i]@)
}

impl Line {
    /// An empty line.
    pub fn empty() -> (line: Line)
        ensures
            line@ == Seq::<SpanView>::empty(),
    {
        Line { spans: Vec::new() }
    }

    /// Puts a text at the end of the line.
    pub fn push(&mut self, text: String, style: Style)
        ensures
            final(self)@ == old(self)@.push(piece(text@, style)),
    {
        self.spans.push(Span::styled(text, style));
    }
}

} // verus!
