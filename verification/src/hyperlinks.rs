//! Lines of text that carry hyperlinks.

use unicode_width::UnicodeWidthStr;
use vstd::prelude::*;

use crate::styled::{LineView, SpanView, TextLine, TextSpan};

verus! {

/// The columns that a string takes on a terminal.
pub uninterp spec fn display_width(s: Seq<char>) -> nat;

/// `UnicodeWidthStr::width`: the columns that a string takes on a terminal, given by its name only.
#[verifier::external_body]
pub(crate) fn width_of(s: &str) -> (width: usize)
    ensures
        width == display_width(s@),
{
    s.width()
}

/// A hyperlink over some columns of a line.
#[derive(Debug)]
pub struct TerminalHyperlink {
    pub start: usize,
    pub end: usize,
    pub destination: String,
}

/// What a hyperlink is.
pub struct HyperlinkView {
    pub start: usize,
    pub end: usize,
    pub destination: Seq<char>,
}

impl View for TerminalHyperlink {
    type V = HyperlinkView;

    open spec fn view(&self) -> HyperlinkView {
        HyperlinkView { start: self.start, end: self.end, destination: self.destination@ }
    }
}

impl Clone for TerminalHyperlink {
    fn clone(&self) -> (link: Self)
        ensures
            link@ == self@,
    {
        TerminalHyperlink {
            start: self.start,
            end: self.end,
            destination: self.destination.clone(),
        }
    }
}

/// What a sequence of hyperlinks is.
pub open spec fn link_views(links: Seq<TerminalHyperlink>) -> Seq<HyperlinkView> {
    links.map_values(|l: TerminalHyperlink| l@)
}

/// A line of text with its hyperlinks.
#[derive(Debug)]
pub struct HyperlinkLine {
    pub line: TextLine,
    pub hyperlinks: Vec<TerminalHyperlink>,
}

/// What a line with hyperlinks shows.
pub struct HyperlinkLineView {
    pub line: LineView,
    pub hyperlinks: Seq<HyperlinkView>,
}

impl View for HyperlinkLine {
    type V = HyperlinkLineView;

    open spec fn view(&self) -> HyperlinkLineView {
        HyperlinkLineView { line: self.line@, hyperlinks: link_views(self.hyperlinks@) }
    }
}

/// What a sequence of lines with hyperlinks shows.
pub open spec fn hyperlink_views(lines: Seq<HyperlinkLine>) -> Seq<HyperlinkLineView> {
    lines.map_values(|l: HyperlinkLine| l@)
}

/// The lines without their hyperlinks.
pub open spec fn visible(lines: Seq<HyperlinkLineView>) -> Seq<LineView> {
    lines.map_values(|l: HyperlinkLineView| l.line)
}

impl Clone for HyperlinkLine {
    fn clone(&self) -> (line: Self)
        ensures
            line@ == self@,
    {
        let mut hyperlinks: Vec<TerminalHyperlink> = Vec::new();
        let mut i: usize = 0;
        while i < self.hyperlinks.len()
            invariant
                i <= self.hyperlinks.len(),
                hyperlinks.len() == i,
                forall|j: int|
                    0 <= j < i ==> (#[trigger] hyperlinks@[j])@ == self.hyperlinks@[j]@,
            decreases self.hyperlinks.len() - i,
        {
            hyperlinks.push(self.hyperlinks[i].clone());
            i += 1;
        }
        assert(link_views(hyperlinks@) =~= link_views(self.hyperlinks@));
        HyperlinkLine { line: self.line.clone(), hyperlinks }
    }
}

/// A copy of some lines.
pub fn clone_lines(lines: &Vec<HyperlinkLine>) -> (copy: Vec<HyperlinkLine>)
    ensures
        hyperlink_views(copy@) == hyperlink_views(lines@),
        copy.len() == lines.len(),
{
    let mut copy: Vec<HyperlinkLine> = Vec::new();
    let mut i: usize = 0;
    while i < lines.len()
        invariant
            i <= lines.len(),
            copy.len() == i,
            forall|j: int| 0 <= j < i ==> (#[trigger] copy@[j])@ == lines@[j]@,
        decreases lines.len() - i,
    {
        copy.push(lines[i].clone());
        i += 1;
    }
    assert(hyperlink_views(copy@) =~= hyperlink_views(lines@));
    copy
}

/// The lines without their hyperlinks.
pub fn visible_lines(lines: &Vec<HyperlinkLine>) -> (plain: Vec<TextLine>)
    ensures
        crate::styled::line_views(plain@) == visible(hyperlink_views(lines@)),
{
    let mut plain: Vec<TextLine> = Vec::new();
    let mut i: usize = 0;
    while i < lines.len()
        invariant
            i <= lines.len(),
            plain.len() == i,
            forall|j: int| 0 <= j < i ==> (#[trigger] plain@[j])@ == lines@[j].line@,
        decreases lines.len() - i,
    {
        plain.push(lines[i].line.clone());
        i += 1;
    }
    assert(crate::styled::line_views(plain@) =~= visible(hyperlink_views(lines@)));
    plain
}

/// The columns that some spans take, as far as a column number can count.
pub open spec fn spans_width(spans: Seq<SpanView>) -> int
    decreases spans.len(),
{
    if spans.len() == 0 {
        0
    } else {
        crate::geometry::lesser(
            spans_width(spans.drop_last()) + display_width(spans.last().content),
            usize::MAX as int,
        )
    }
}

/// The line with one more span, which is a hyperlink if it has a destination.
pub open spec fn with_span(
    line: HyperlinkLineView,
    span: SpanView,
    destination: Option<Seq<char>>,
) -> HyperlinkLineView {
    HyperlinkLineView {
        line: LineView { spans: line.line.spans.push(span), ..line.line },
        hyperlinks: match destination {
            Some(destination) => line.hyperlinks.push(
                HyperlinkView {
                    start: spans_width(line.line.spans) as usize,
                    end: spans_width(line.line.spans.push(span)) as usize,
                    destination,
                },
            ),
            None => line.hyperlinks,
        },
    }
}

impl HyperlinkLine {
    /// A line without hyperlinks.
    pub fn new(line: TextLine) -> (r: HyperlinkLine)
        ensures
            r@ == (HyperlinkLineView { line: line@, hyperlinks: Seq::empty() }),
    {
        let r = HyperlinkLine { line, hyperlinks: Vec::new() };
        assert(r@.hyperlinks =~= Seq::empty());
        r
    }

    /// Adds a span, which is a hyperlink if it has a destination.
    pub fn push_span(&mut self, span: TextSpan, destination: Option<&str>)
        ensures
            final(self)@ == with_span(old(self)@, span@, crate::strings::opt_str(destination)),
    {
        let ghost spans = self.line@.spans;
        let mut start: usize = 0;
        let mut i: usize = 0;
        assert(spans_width(spans.take(0)) == 0);
        while i < self.line.spans.len()
            invariant
                *self == *old(self),
                spans == self.line@.spans,
                i <= self.line.spans.len(),
                start == spans_width(spans.take(i as int)),
            decreases self.line.spans.len() - i,
        {
            start = start.saturating_add(width_of(self.line.spans[i].content.as_str()));
            i += 1;
            assert(spans.take(i as int).drop_last() =~= spans.take(i - 1));
            assert(spans.take(i as int).last() == self.line.spans@[i - 1]@);
        }
        assert(spans.take(i as int) =~= spans);
        if let Some(destination) = destination {
            let end = start.saturating_add(width_of(span.content.as_str()));
            assert(spans.push(span@).drop_last() =~= spans);
            self.hyperlinks.push(
                TerminalHyperlink { start, end, destination: destination.to_owned() },
            );
        }
        self.line.spans.push(span);
        assert(self@.line.spans =~= old(self)@.line.spans.push(span@));
        assert(self@.hyperlinks =~= with_span(
            old(self)@,
            span@,
            crate::strings::opt_str(destination),
        ).hyperlinks);
    }
}

} // verus!
