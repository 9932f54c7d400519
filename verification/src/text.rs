//! Styled text: spans of one style, lines of spans, and their display width.

use vstd::prelude::*;

use crate::style::Style;

verus! {

/// Where a line sits in an area wider than the line.
#[derive(Clone, Copy, Debug, PartialEq, Eq, Hash)]
pub enum Alignment {
    Left,
    Center,
    Right,
}

/// A piece of text drawn in one style.
#[derive(Debug, PartialEq, Eq, Hash)]
pub struct Span {
    pub content: String,
    pub style: Style,
}

/// A line of text: spans drawn one after the other, with an optional alignment.
#[derive(Debug, PartialEq, Eq, Hash)]
pub struct Line {
    pub spans: Vec<Span>,
    pub alignment: Option<Alignment>,
}

/// What a span holds: its text and its style.
pub struct SpanView {
    pub content: Seq<char>,
    pub style: Style,
}

/// What a line holds: its spans and its alignment.
pub struct LineView {
    pub spans: Seq<SpanView>,
    pub alignment: Option<Alignment>,
}

impl View for Span {
    type V = SpanView;

    open spec fn view(&self) -> SpanView {
        SpanView { content: self.content@, style: self.style }
    }
}

impl View for Line {
    type V = LineView;

    open spec fn view(&self) -> LineView {
        LineView { spans: self.spans@.map_values(|s: Span| s@), alignment: self.alignment }
    }
}

/// The number of terminal columns that the text `s` takes, as the Unicode
/// width rules count them.
pub uninterp spec fn str_width(s: Seq<char>) -> nat;

/// Columns taken by `s`: calls `ratatui::text::Span::width` (that is
/// `unicode_width::UnicodeWidthStr::width`) on a span holding `s`. Its contract
/// says the result is `str_width` of the text and nothing more: the Unicode
/// width tables are left unstated.
#[verifier::external_body]
pub(crate) fn text_width(s: &str) -> (w: usize)
    ensures
        w == str_width(s@),
{
    ratatui::text::Span::raw(s).width()
}

/// `a + b`, saturated at `usize::MAX`.
pub open spec fn sat_add_usize(a: int, b: int) -> int {
    if a + b > usize::MAX {
        usize::MAX as int
    } else {
        a + b
    }
}

/// The width of the first `n` spans, saturated at `usize::MAX`.
pub open spec fn spans_width(spans: Seq<SpanView>, n: int) -> int
    decreases n,
{
    if n <= 0 {
        0
    } else {
        sat_add_usize(spans_width(spans, n - 1), str_width(spans[n - 1].content) as int)
    }
}

/// The spans with every style laid over `base`.
pub open spec fn spans_under(spans: Seq<SpanView>, base: Style) -> Seq<SpanView> {
    spans.map_values(|s: SpanView| SpanView { content: s.content, style: base.patch_spec(s.style) })
}

impl LineView {
    /// The width of the line: the sum of its spans' widths (saturated at `usize::MAX`,
    /// which no line held in memory reaches).
    pub open spec fn width(self) -> int {
        spans_width(self.spans, self.spans.len() as int)
    }

    /// The line with every span's style laid over `base`.
    pub open spec fn under(self, base: Style) -> LineView {
        LineView { spans: spans_under(self.spans, base), alignment: self.alignment }
    }
}

impl Clone for Span {
    fn clone(&self) -> (r: Span)
        ensures
            r@ == self@,
    {
        Span { content: self.content.clone(), style: self.style }
    }
}

impl Span {
    /// A span of `content` in the style that changes nothing.
    pub fn raw(content: &str) -> (r: Span)
        ensures
            r.content@ == content@,
            r.style == Style::empty(),
    {
        Span { content: content.to_owned(), style: Style::new() }
    }

    /// Columns taken by the span's text.
    pub fn width(&self) -> (w: usize)
        ensures
            w == str_width(self.content@),
    {
        text_width(self.content.as_str())
    }
}

impl Line {
    /// A line of one unstyled span holding `content`, without alignment.
    pub fn raw(content: &str) -> (r: Line)
        ensures
            r@ == (LineView {
                spans: seq![SpanView { content: content@, style: Style::empty() }],
                alignment: None,
            }),
    {
        let mut spans = Vec::new();
        spans.push(Span::raw(content));
        proof {
            assert(spans@.map_values(|s: Span| s@) =~= seq![
                SpanView { content: content@, style: Style::empty() },
            ]);
        }
        Line { spans, alignment: None }
    }

    /// The same line with alignment `alignment`.
    pub fn alignment(self, alignment: Alignment) -> (r: Line)
        ensures
            r@ == (LineView { spans: self@.spans, alignment: Some(alignment) }),
    {
        Line { spans: self.spans, alignment: Some(alignment) }
    }

    /// Columns taken by the whole line.
    pub fn width(&self) -> (w: usize)
        ensures
            w == self@.width(),
    {
        let mut total: usize = 0;
        let mut i: usize = 0;
        while i < self.spans.len()
            invariant
                i <= self.spans@.len(),
                total == spans_width(self@.spans, i as int),
            decreases self.spans@.len() - i,
        {
            let w = self.spans[i].width();
            total = total.saturating_add(w);
            i = i + 1;
        }
        total
    }

    /// The same line with every span's style laid over `base`.
    pub fn under_style(&self, base: Style) -> (r: Line)
        ensures
            r@ == self@.under(base),
    {
        let mut spans: Vec<Span> = Vec::new();
        let mut i: usize = 0;
        while i < self.spans.len()
            invariant
                i <= self.spans@.len(),
                spans@.map_values(|s: Span| s@) == spans_under(self@.spans, base).take(i as int),
            decreases self.spans@.len() - i,
        {
            let span = &self.spans[i];
            let patched = Span { content: span.content.clone(), style: base.patch(span.style) };
            proof {
                assert(spans_under(self@.spans, base).take(i + 1) =~= spans_under(
                    self@.spans,
                    base,
                ).take(i as int).push(patched@));
            }
            let ghost before = spans@;
            spans.push(patched);
            proof {
                assert(spans@.map_values(|s: Span| s@) =~= before.map_values(|s: Span| s@).push(
                    patched@,
                ));
            }
            i = i + 1;
        }
        proof {
            assert(spans_under(self@.spans, base).take(self.spans@.len() as int) =~= spans_under(
                self@.spans,
                base,
            ));
        }
        Line { spans, alignment: self.alignment }
    }
}

impl Clone for Line {
    fn clone(&self) -> (r: Line)
        ensures
            r@ == self@,
    {
        let mut spans: Vec<Span> = Vec::new();
        let mut i: usize = 0;
        while i < self.spans.len()
            invariant
                i <= self.spans@.len(),
                spans@.map_values(|s: Span| s@) == self@.spans.take(i as int),
            decreases self.spans@.len() - i,
        {
            let copy = self.spans[i].clone();
            let ghost before = spans@;
            spans.push(copy);
            proof {
                assert(spans@.map_values(|s: Span| s@) =~= before.map_values(|s: Span| s@).push(
                    copy@,
                ));
                assert(self@.spans.take(i + 1) =~= self@.spans.take(i as int).push(copy@));
            }
            i = i + 1;
        }
        proof {
            assert(self@.spans.take(self.spans@.len() as int) =~= self@.spans);
        }
        Line { spans, alignment: self.alignment }
    }
}

} // verus!
