//! Styled text: lines made of spans, each span a text in one style.

use vstd::prelude::*;

verus! {

/// The styles that text is shown in.
#[derive(Debug, Clone, Copy, PartialEq, Eq, Structural)]
pub enum TextStyle {
    /// Text without a style of its own.
    Plain,
    /// The delimiter line of a code block, muted.
    Fence,
    /// A line inside a code block.
    CodeBlock,
    /// A heading of the first level.
    Heading1,
    /// A heading of the second level.
    Heading2,
    /// A heading of the third level.
    Heading3,
    /// The bullet or the number of a list item.
    ListMarker,
    /// Running text.
    Text,
    /// Text in bold.
    Strong,
    /// A code span.
    Code,
    /// A code span in bold.
    StrongCode,
    /// The notice that a strategy failed.
    StatusFailed,
    /// The notice that a strategy was edited.
    StatusEdited,
    /// The name of a row in the list of strategies.
    Label,
    /// The badge of a strategy that failed.
    BadgeFailed,
    /// The badge of a strategy that was edited.
    BadgeEdited,
    /// The row that accepts all strategies.
    Accept,
    /// The name of a key in the help.
    KeyName,
    /// A hint, muted.
    Hint,
}

/// A text in one style.
#[derive(Debug, PartialEq, Eq)]
pub struct StyledSpan {
    pub text: String,
    pub style: TextStyle,
}

/// What a [`StyledSpan`] holds, as plain values.
pub struct SpanView {
    pub text: Seq<char>,
    pub style: TextStyle,
}

impl View for StyledSpan {
    type V = SpanView;

    open spec fn view(&self) -> SpanView {
        SpanView { text: self.text@, style: self.style }
    }
}

impl Clone for StyledSpan {
    fn clone(&self) -> (r: Self)
        ensures
            r@ == self@,
    {
        StyledSpan { text: self.text.clone(), style: self.style }
    }
}

/// The views of a sequence of spans.
pub open spec fn span_views(v: Seq<StyledSpan>) -> Seq<SpanView> {
    Seq::new(v.len(), |i: int| v[i]@)
}

/// One line of styled text.
#[derive(Debug, PartialEq, Eq)]
pub struct StyledLine {
    pub spans: Vec<StyledSpan>,
}

impl View for StyledLine {
    type V = Seq<SpanView>;

    open spec fn view(&self) -> Seq<SpanView> {
        span_views(self.spans@)
    }
}

impl Clone for StyledLine {
    fn clone(&self) -> (r: Self)
        ensures
            r@ == self@,
    {
        let mut spans: Vec<StyledSpan> = Vec::new();
        let mut i: usize = 0;
        while i < self.spans.len()
            invariant
                i <= self.spans@.len(),
                spans@.len() == i,
                forall|j: int| 0 <= j < i ==> spans@[j]@ == self.spans@[j]@,
            decreases self.spans@.len() - i,
        {
            spans.push(self.spans[i].clone());
            i += 1;
        }
        assert(span_views(spans@) =~= span_views(self.spans@));
        StyledLine { spans }
    }
}

/// The views of a sequence of lines.
pub open spec fn line_views(v: Seq<StyledLine>) -> Seq<Seq<SpanView>> {
    Seq::new(v.len(), |i: int| v[i]@)
}

/// The line that holds `text` in the style `style` and nothing else.
pub open spec fn single(text: Seq<char>, style: TextStyle) -> Seq<SpanView> {
    seq![SpanView { text, style }]
}

/// Number of characters of a line.
pub open spec fn width(line: Seq<SpanView>) -> nat
    decreases line.len(),
{
    if line.len() == 0 {
        0
    } else {
        width(line.drop_last()) + line.last().text.len()
    }
}

/// Number of characters of all the lines.
pub open spec fn total_width(lines: Seq<Seq<SpanView>>) -> nat
    decreases lines.len(),
{
    if lines.len() == 0 {
        0
    } else {
        total_width(lines.drop_last()) + width(lines.last())
    }
}

/// A character with the style it is shown in.
pub type Cell = (char, TextStyle);

/// The characters of a span, each with the span's style.
pub open spec fn span_cells(span: SpanView) -> Seq<Cell> {
    Seq::new(span.text.len(), |i: int| (span.text[i], span.style))
}

/// The characters of a line in their order, each with its style.
pub open spec fn cells(line: Seq<SpanView>) -> Seq<Cell>
    decreases line.len(),
{
    if line.len() == 0 {
        Seq::empty()
    } else {
        cells(line.drop_last()) + span_cells(line.last())
    }
}

/// The characters of all the lines in their order, each with its style.
pub open spec fn all_cells(lines: Seq<Seq<SpanView>>) -> Seq<Cell>
    decreases lines.len(),
{
    if lines.len() == 0 {
        Seq::empty()
    } else {
        all_cells(lines.drop_last()) + cells(lines.last())
    }
}

impl StyledLine {
    /// The line that holds `text` in the style `style` and nothing else.
    pub fn styled(text: String, style: TextStyle) -> (r: Self)
        ensures
            r@ == single(text@, style),
    {
        let mut spans: Vec<StyledSpan> = Vec::new();
        spans.push(StyledSpan { text, style });
        let r = StyledLine { spans };
        assert(r@ =~= single(text@, style));
        r
    }

    /// The line without any span.
    pub fn empty() -> (r: Self)
        ensures
            r@.len() == 0,
    {
        StyledLine { spans: Vec::new() }
    }
}

} // verus!
