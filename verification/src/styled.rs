//! Styled text: colors, styles, spans and lines.

use vstd::prelude::*;

verus! {

/// A terminal color.
#[derive(Clone, Copy, Debug, PartialEq, Eq, Structural)]
pub enum TextColor {
    Reset,
    Black,
    Red,
    Green,
    Yellow,
    Blue,
    Magenta,
    Cyan,
    Gray,
    DarkGray,
    LightRed,
    LightGreen,
    LightYellow,
    LightBlue,
    LightMagenta,
    LightCyan,
    White,
    Rgb(u8, u8, u8),
    Indexed(u8),
}

/// The modifier bit for bold text.
pub const BOLD: u16 = 1;

/// The modifier bit for dim text.
pub const DIM: u16 = 2;

/// The modifier bit for underlined text.
pub const UNDERLINED: u16 = 8;

/// The modifier bit for text with its colors swapped.
pub const REVERSED: u16 = 64;

/// A change of style: colors to set, modifier bits to add and to take away.
#[derive(Clone, Copy, Debug, PartialEq, Eq, Structural)]
pub struct TextStyle {
    pub fg: Option<TextColor>,
    pub bg: Option<TextColor>,
    pub add_modifier: u16,
    pub sub_modifier: u16,
}

impl TextStyle {
    /// The style that changes nothing.
    pub open spec fn plain() -> TextStyle {
        TextStyle { fg: None, bg: None, add_modifier: 0, sub_modifier: 0 }
    }

    /// The style that also adds `modifier`.
    pub open spec fn adding(self, modifier: u16) -> TextStyle {
        TextStyle {
            add_modifier: self.add_modifier | modifier,
            sub_modifier: self.sub_modifier & !modifier,
            ..self
        }
    }

    /// The style that also takes `modifier` away.
    pub open spec fn removing(self, modifier: u16) -> TextStyle {
        TextStyle {
            add_modifier: self.add_modifier & !modifier,
            sub_modifier: self.sub_modifier | modifier,
            ..self
        }
    }

    /// The style that also sets the foreground color.
    pub open spec fn colored(self, color: TextColor) -> TextStyle {
        TextStyle { fg: Some(color), ..self }
    }

    /// The style that changes nothing.
    pub fn none() -> (style: TextStyle)
        ensures
            style == TextStyle::plain(),
    {
        TextStyle { fg: None, bg: None, add_modifier: 0, sub_modifier: 0 }
    }

    /// Adds modifier bits.
    pub fn add(self, modifier: u16) -> (style: TextStyle)
        ensures
            style == self.adding(modifier),
    {
        TextStyle {
            fg: self.fg,
            bg: self.bg,
            add_modifier: self.add_modifier | modifier,
            sub_modifier: self.sub_modifier & !modifier,
        }
    }

    /// Takes modifier bits away.
    pub fn remove(self, modifier: u16) -> (style: TextStyle)
        ensures
            style == self.removing(modifier),
    {
        TextStyle {
            fg: self.fg,
            bg: self.bg,
            add_modifier: self.add_modifier & !modifier,
            sub_modifier: self.sub_modifier | modifier,
        }
    }

    /// Sets the foreground color.
    pub fn color(self, color: TextColor) -> (style: TextStyle)
        ensures
            style == self.colored(color),
    {
        TextStyle {
            fg: Some(color),
            bg: self.bg,
            add_modifier: self.add_modifier,
            sub_modifier: self.sub_modifier,
        }
    }
}

/// A run of text in one style.
#[derive(Debug)]
pub struct TextSpan {
    pub content: String,
    pub style: TextStyle,
}

/// What a span shows.
pub struct SpanView {
    pub content: Seq<char>,
    pub style: TextStyle,
}

impl View for TextSpan {
    type V = SpanView;

    open spec fn view(&self) -> SpanView {
        SpanView { content: self.content@, style: self.style }
    }
}

impl TextSpan {
    /// A span of the given text and style.
    pub fn styled(content: &str, style: TextStyle) -> (span: TextSpan)
        ensures
            span@ == (SpanView { content: content@, style }),
    {
        TextSpan { content: content.to_owned(), style }
    }

    /// A span of the given text in no particular style.
    pub fn raw(content: &str) -> (span: TextSpan)
        ensures
            span@ == (SpanView { content: content@, style: TextStyle::plain() }),
    {
        TextSpan { content: content.to_owned(), style: TextStyle::none() }
    }
}

impl Clone for TextSpan {
    fn clone(&self) -> (span: Self)
        ensures
            span@ == self@,
    {
        TextSpan { content: self.content.clone(), style: self.style }
    }
}

/// Where a line stands between the edges of the area that it is drawn into.
#[derive(Clone, Copy, Debug, PartialEq, Eq, Structural)]
pub enum TextAlignment {
    Left,
    Center,
    Right,
}

/// A line of spans, with a style that applies below those of the spans, and an alignment if it has one
/// of its own.
#[derive(Debug)]
pub struct TextLine {
    pub spans: Vec<TextSpan>,
    pub style: TextStyle,
    pub alignment: Option<TextAlignment>,
}

/// What a line shows.
pub struct LineView {
    pub spans: Seq<SpanView>,
    pub style: TextStyle,
    pub alignment: Option<TextAlignment>,
}

/// A line of the given spans, in no particular style.
pub open spec fn plain_line(spans: Seq<SpanView>) -> LineView {
    LineView { spans, style: TextStyle::plain(), alignment: None }
}

/// What a sequence of spans shows.
pub open spec fn span_views(spans: Seq<TextSpan>) -> Seq<SpanView> {
    spans.map_values(|s: TextSpan| s@)
}

/// What a sequence of lines shows.
pub open spec fn line_views(lines: Seq<TextLine>) -> Seq<LineView> {
    lines.map_values(|l: TextLine| l@)
}

impl View for TextLine {
    type V = LineView;

    open spec fn view(&self) -> LineView {
        LineView { spans: span_views(self.spans@), style: self.style, alignment: self.alignment }
    }
}

/// The text of a line: its spans, one after the other.
pub open spec fn line_text(line: LineView) -> Seq<char> {
    crate::strings::concat(line.spans.map_values(|s: SpanView| s.content))
}

impl TextLine {
    /// A line of the given spans.
    pub fn from_spans(spans: Vec<TextSpan>) -> (line: TextLine)
        ensures
            line@ == plain_line(span_views(spans@)),
    {
        TextLine { spans, style: TextStyle::none(), alignment: None }
    }

    /// A line of one span.
    pub fn from_span(span: TextSpan) -> (line: TextLine)
        ensures
            line@ == plain_line(seq![span@]),
    {
        let mut spans: Vec<TextSpan> = Vec::new();
        spans.push(span);
        let line = TextLine { spans, style: TextStyle::none(), alignment: None };
        assert(line@.spans =~= seq![span@]);
        line
    }
}

impl Clone for TextLine {
    fn clone(&self) -> (line: Self)
        ensures
            line@ == self@,
    {
        let mut spans: Vec<TextSpan> = Vec::new();
        let mut i: usize = 0;
        while i < self.spans.len()
            invariant
                i <= self.spans.len(),
                spans.len() == i,
                forall|j: int| 0 <= j < i ==> (#[trigger] spans@[j])@ == self.spans@[j]@,
            decreases self.spans.len() - i,
        {
            spans.push(self.spans[i].clone());
            i += 1;
        }
        assert(span_views(spans@) =~= span_views(self.spans@));
        TextLine { spans, style: self.style, alignment: self.alignment }
    }
}

} // verus!
