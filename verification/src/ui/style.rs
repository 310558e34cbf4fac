//! Console text styling: the palette of the console and the styled text segments
//! that the prompt shows.
use vstd::prelude::*;

verus! {

/// The console palette.
#[derive(Debug, Clone, Copy, PartialEq, Eq, Structural)]
pub enum Color {
    Teal,
    Green,
    Amber,
    Red,
    Info,
    Yellow,
    Cyan,
    Magenta,
    PromptBg,
    White,
    Black,
    DarkGray,
}

/// Foreground, background and weight of a piece of text.
#[derive(Debug, Clone, Copy, PartialEq, Eq, Structural)]
pub struct Style {
    pub fg: Option<Color>,
    pub bg: Option<Color>,
    pub bold: bool,
}

/// Text in the given foreground colour.
pub open spec fn fg_spec(c: Color) -> Style {
    Style { fg: Some(c), bg: None, bold: false }
}

/// Bold yellow, for headings.
pub open spec fn header_spec() -> Style {
    Style { fg: Some(Color::Yellow), bg: None, bold: true }
}

/// Bold black on teal, for the selected row of a list.
pub open spec fn selected_spec() -> Style {
    Style { fg: Some(Color::Black), bg: Some(Color::Teal), bold: true }
}

pub fn fg(c: Color) -> (s: Style)
    ensures
        s == fg_spec(c),
{
    Style { fg: Some(c), bg: None, bold: false }
}

pub fn header_style() -> (s: Style)
    ensures
        s == header_spec(),
{
    Style { fg: Some(Color::Yellow), bg: None, bold: true }
}

pub fn label_style() -> (s: Style)
    ensures
        s == fg_spec(Color::Cyan),
{
    fg(Color::Cyan)
}

pub fn value_style() -> (s: Style)
    ensures
        s == fg_spec(Color::White),
{
    fg(Color::White)
}

pub fn selected_style() -> (s: Style)
    ensures
        s == selected_spec(),
{
    Style { fg: Some(Color::Black), bg: Some(Color::Teal), bold: true }
}

/// One line of prompt output: styled segments shown left to right.
#[derive(Debug, Clone)]
pub struct PromptLine {
    pub segments: Vec<(String, Style)>,
}

/// A line as text and style pairs.
pub open spec fn line_view(l: PromptLine) -> Seq<(Seq<char>, Style)> {
    l.segments@.map_values(|p: (String, Style)| (p.0@, p.1))
}

/// Lines as text and style pairs.
pub open spec fn lines_view(ls: Seq<PromptLine>) -> Seq<Seq<(Seq<char>, Style)>> {
    ls.map_values(|l: PromptLine| line_view(l))
}

impl PromptLine {
    /// A line of one segment.
    pub fn plain(text: String, style: Style) -> (r: Self)
        ensures
            line_view(r) == seq![(text@, style)],
    {
        let mut segments: Vec<(String, Style)> = Vec::new();
        segments.push((text, style));
        let r = PromptLine { segments };
        assert(line_view(r) =~= seq![(text@, style)]);
        r
    }

    /// A line of one segment from a literal.
    pub fn plain_str(text: &str, style: Style) -> (r: Self)
        ensures
            line_view(r) == seq![(text@, style)],
    {
        PromptLine::plain(text.to_owned(), style)
    }

    /// A line of several segments.
    pub fn from_segments(segments: Vec<(String, Style)>) -> (r: Self)
        ensures
            r.segments@ == segments@,
    {
        PromptLine { segments }
    }
}

/// A segment from a literal.
pub fn seg(text: &str, style: Style) -> (r: (String, Style))
    ensures
        r.0@ == text@,
        r.1 == style,
{
    (text.to_owned(), style)
}

} // verus!
