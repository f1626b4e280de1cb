//! Rendering of a strategy's markdown as styled lines.
//!
//! The text is read line by line. A line that starts with three backticks
//! opens or closes a code block. Outside code blocks a line is a heading of
//! level one to three, a list item, or running text; running text and the
//! text of a list item are read for bold markers and code spans.

use crate::lines::{lines, split_lines};
use crate::number::{is_ascii_digit, is_digit};
use crate::search::{matches_at, occurs_at, starts_with};
use crate::strategy::at_marker;
use crate::styled::{line_views, single, span_views, SpanView, StyledLine, StyledSpan, TextStyle};
use crate::text::{chars_of, leading_spaces, rows, string_of, string_of_range, trim, trim_bounds};
use vstd::prelude::*;

verus! {

/// The style of running text inside a code span if `in_code`, in bold if
/// `in_bold`.
pub open spec fn inline_style(in_code: bool, in_bold: bool) -> TextStyle {
    if in_code {
        if in_bold {
            TextStyle::StrongCode
        } else {
            TextStyle::Code
        }
    } else if in_bold {
        TextStyle::Strong
    } else {
        TextStyle::Text
    }
}

/// The span of the text read so far, unless that is empty.
pub open spec fn flushed(current: Seq<char>, style: TextStyle) -> Seq<SpanView> {
    if current.len() > 0 {
        seq![SpanView { text: current, style }]
    } else {
        Seq::empty()
    }
}

/// The spans of the running text `s`, for a reader who is inside a code span
/// if `in_code`, inside a bold span if `in_bold`, and has read `current` since
/// the last change of style. A backtick always opens or closes a code span; a
/// bold marker opens or closes a bold span, but inside a code span it is
/// text. Neither is shown.
pub open spec fn inline_from(s: Seq<char>, in_code: bool, in_bold: bool, current: Seq<char>) -> Seq<
    SpanView,
>
    decreases s.len(),
{
    if s.len() == 0 {
        flushed(current, inline_style(in_code, in_bold))
    } else if at_marker(s) && !in_code {
        flushed(current, inline_style(in_code, in_bold)) + inline_from(
            s.skip(2),
            in_code,
            !in_bold,
            Seq::empty(),
        )
    } else if s[0] == '`' {
        flushed(current, inline_style(in_code, in_bold)) + inline_from(
            s.skip(1),
            !in_code,
            in_bold,
            Seq::empty(),
        )
    } else {
        inline_from(s.skip(1), in_code, in_bold, current.push(s[0]))
    }
}

/// The spans of the running text `s`.
pub open spec fn inline_spans(s: Seq<char>) -> Seq<SpanView> {
    inline_from(s, false, false, Seq::empty())
}

/// Number of digits that `s` starts with.
pub open spec fn digit_run(s: Seq<char>) -> nat
    decreases s.len(),
{
    if s.len() > 0 && is_digit(s[0]) {
        1 + digit_run(s.skip(1))
    } else {
        0
    }
}

/// A run of `n` digits that starts `s` and is followed by another character,
/// or by the end, is all the digits that `s` starts with.
pub proof fn lemma_digit_run_is(s: Seq<char>, n: nat)
    requires
        n <= s.len(),
        forall|i: int| 0 <= i < n ==> is_digit(#[trigger] s[i]),
        n < s.len() ==> !is_digit(s[n as int]),
    ensures
        digit_run(s) == n,
    decreases s.len(),
{
    if n > 0 {
        let t = s.skip(1);
        assert forall|i: int| 0 <= i < n - 1 implies is_digit(#[trigger] t[i]) by {
            assert(t[i] == s[i + 1]);
        }
        lemma_digit_run_is(t, (n - 1) as nat);
    }
}

/// Length of the list marker that the trimmed line `t` starts with, or 0
/// where it starts with none: a hyphen or an asterisk and a space; or a run
/// of digits, a full stop and a space.
pub open spec fn list_marker_len(t: Seq<char>) -> nat {
    if starts_with(t, "- "@) || starts_with(t, "* "@) {
        2
    } else if digit_run(t) > 0 && occurs_at(t, ". "@, digit_run(t) as int) {
        digit_run(t) + 2
    } else {
        0
    }
}

/// Whether `line` opens or closes a code block.
pub open spec fn is_fence(line: Seq<char>) -> bool {
    starts_with(trim(line), "```"@)
}

/// The spans of `line`, a line outside code blocks that is no fence. A
/// heading is one span in the style of its level. A list item is its marker
/// with the white space before it, then the spans of its text. Anything else
/// is running text.
pub open spec fn rendered_line(line: Seq<char>) -> Seq<SpanView> {
    let t = trim(line);
    if starts_with(t, "### "@) {
        single(line, TextStyle::Heading3)
    } else if starts_with(t, "## "@) {
        single(line, TextStyle::Heading2)
    } else if starts_with(t, "# "@) {
        single(line, TextStyle::Heading1)
    } else if list_marker_len(t) > 0 {
        let cut = leading_spaces(line) + list_marker_len(t);
        single(line.take(cut as int), TextStyle::ListMarker) + inline_spans(line.skip(cut as int))
    } else {
        inline_spans(line)
    }
}

/// The styled lines of the lines `ls`, for a reader who is inside a code
/// block if `in_code_block`. A fence is shown as it is, muted; a line inside
/// a code block as it is, in the style of code.
pub open spec fn rendered_from(ls: Seq<Seq<char>>, in_code_block: bool) -> Seq<Seq<SpanView>>
    decreases ls.len(),
{
    if ls.len() == 0 {
        Seq::empty()
    } else if is_fence(ls[0]) {
        seq![single(ls[0], TextStyle::Fence)] + rendered_from(ls.skip(1), !in_code_block)
    } else if in_code_block {
        seq![single(ls[0], TextStyle::CodeBlock)] + rendered_from(ls.skip(1), true)
    } else {
        seq![rendered_line(ls[0])] + rendered_from(ls.skip(1), false)
    }
}

/// The styled lines of the markdown `md`.
pub open spec fn rendered(md: Seq<char>) -> Seq<Seq<SpanView>> {
    rendered_from(lines(md), false)
}

/// The style of running text inside a code span if `in_code`, in bold if
/// `in_bold`.
pub fn style_of(in_code: bool, in_bold: bool) -> (r: TextStyle)
    ensures
        r == inline_style(in_code, in_bold),
{
    if in_code {
        if in_bold {
            TextStyle::StrongCode
        } else {
            TextStyle::Code
        }
    } else if in_bold {
        TextStyle::Strong
    } else {
        TextStyle::Text
    }
}

/// Appends the span of the text read so far, unless that is empty.
fn flush(spans: &mut Vec<StyledSpan>, current: &Vec<char>, style: TextStyle)
    ensures
        span_views(final(spans)@) == span_views(old(spans)@) + flushed(current@, style),
{
    if current.len() > 0 {
        spans.push(StyledSpan { text: string_of(current), style });
    }
    assert(span_views(spans@) =~= span_views(old(spans)@) + flushed(current@, style));
}

/// Appends the spans of the running text `v[from..]`.
fn push_inline(spans: &mut Vec<StyledSpan>, v: &Vec<char>, from: usize)
    requires
        from <= v@.len(),
    ensures
        span_views(final(spans)@) == span_views(old(spans)@) + inline_spans(v@.skip(from as int)),
{
    let n: usize = v.len();
    let ghost s = v@;
    let ghost before = span_views(spans@);
    let ghost whole = inline_spans(s.skip(from as int));
    let mut in_code = false;
    let mut in_bold = false;
    let mut current: Vec<char> = Vec::new();
    let mut i: usize = from;
    while i < n
        invariant
            s == v@,
            n == s.len(),
            from <= i <= n,
            before + whole == span_views(spans@) + inline_from(
                s.skip(i as int),
                in_code,
                in_bold,
                current@,
            ),
        decreases n - i,
    {
        let ghost rest = s.skip(i as int);
        let ghost sofar = span_views(spans@);
        let c = v[i];
        assert(rest[0] == c);
        if c == '*' && i + 1 < n && v[i + 1] == '*' && !in_code {
            assert(rest[1] == v@[i + 1]);
            assert(rest.skip(2) == s.skip(i + 2));
            let ghost tail = inline_from(s.skip(i + 2), in_code, !in_bold, Seq::empty());
            let ghost piece = flushed(current@, inline_style(in_code, in_bold));
            flush(spans, &current, style_of(in_code, in_bold));
            assert((sofar + piece) + tail == sofar + (piece + tail));
            current = Vec::new();
            in_bold = !in_bold;
            i += 2;
        } else {
            assert(!(at_marker(rest) && !in_code)) by {
                if rest.len() >= 2 {
                    assert(rest[1] == v@[i + 1]);
                }
            }
            assert(rest.skip(1) == s.skip(i + 1));
            if c == '`' {
                let ghost tail = inline_from(s.skip(i + 1), !in_code, in_bold, Seq::empty());
                let ghost piece = flushed(current@, inline_style(in_code, in_bold));
                flush(spans, &current, style_of(in_code, in_bold));
                assert((sofar + piece) + tail == sofar + (piece + tail));
                current = Vec::new();
                in_code = !in_code;
            } else {
                current.push(c);
            }
            i += 1;
        }
    }
    flush(spans, &current, style_of(in_code, in_bold));
    assert(s.skip(n as int).len() == 0);
}

/// Reads the running text `line` for bold markers and code spans.
pub fn parse_inline_formatting(line: &str) -> (r: StyledLine)
    ensures
        r@ == inline_spans(line@),
{
    let v = chars_of(line);
    let mut spans: Vec<StyledSpan> = Vec::new();
    assert(v@.skip(0) == v@);
    push_inline(&mut spans, &v, 0);
    assert(span_views(spans@) =~= inline_spans(line@));
    StyledLine { spans }
}

/// Whether `v[lo..hi]` starts with `p`.
fn range_starts_with(v: &Vec<char>, lo: usize, hi: usize, p: &str) -> (b: bool)
    requires
        lo <= hi <= v@.len(),
    ensures
        b == starts_with(v@.subrange(lo as int, hi as int), p@),
{
    let p = chars_of(p);
    if p.len() > hi - lo {
        return false;
    }
    let b = matches_at(v, &p, lo);
    proof {
        let w = v@.subrange(lo as int, hi as int);
        assert(w.subrange(0, p@.len() as int) == v@.subrange(lo as int, lo + p@.len()));
    }
    b
}

/// Length of the list marker that `v[lo..hi]`, a trimmed line, starts with.
fn marker_len(v: &Vec<char>, lo: usize, hi: usize) -> (m: usize)
    requires
        lo <= hi <= v@.len(),
    ensures
        m == list_marker_len(v@.subrange(lo as int, hi as int)),
        lo + m <= hi,
{
    let ghost t = v@.subrange(lo as int, hi as int);
    if range_starts_with(v, lo, hi, "- ") || range_starts_with(v, lo, hi, "* ") {
        assert(lo + 2 <= hi) by {
            reveal_strlit("- ");
            reveal_strlit("* ");
        }
        return 2;
    }
    let mut e: usize = lo;
    while e < hi && is_ascii_digit(v[e])
        invariant
            lo <= e <= hi <= v@.len(),
            forall|i: int| lo <= i < e ==> is_digit(#[trigger] v@[i]),
        decreases hi - e,
    {
        e += 1;
    }
    proof {
        assert forall|i: int| 0 <= i < e - lo implies is_digit(#[trigger] t[i]) by {
            assert(t[i] == v@[lo + i]);
        }
        if e < hi {
            assert(t[e - lo] == v@[e as int]);
        }
        lemma_digit_run_is(t, (e - lo) as nat);
    }
    if e > lo && range_starts_with(v, e, hi, ". ") {
        proof {
            reveal_strlit(". ");
            let p = ". "@;
            assert(t.subrange(e - lo, e - lo + p.len()) == v@.subrange(e as int, hi as int).subrange(
                0,
                p.len() as int,
            ));
        }
        e - lo + 2
    } else {
        proof {
            if e > lo {
                let p = ". "@;
                if occurs_at(t, p, e - lo) {
                    assert(t.subrange(e - lo, e - lo + p.len()) == v@.subrange(
                        e as int,
                        hi as int,
                    ).subrange(0, p.len() as int));
                }
            }
        }
        0
    }
}

/// The styled line of `line`, a line outside code blocks that is no fence.
fn render_line(line: &Vec<char>, lo: usize, hi: usize) -> (r: StyledLine)
    requires
        lo <= hi <= line@.len(),
        line@.subrange(lo as int, hi as int) == trim(line@),
        lo == leading_spaces(line@),
    ensures
        r@ == rendered_line(line@),
{
    if range_starts_with(line, lo, hi, "### ") {
        StyledLine::styled(string_of(line), TextStyle::Heading3)
    } else if range_starts_with(line, lo, hi, "## ") {
        StyledLine::styled(string_of(line), TextStyle::Heading2)
    } else if range_starts_with(line, lo, hi, "# ") {
        StyledLine::styled(string_of(line), TextStyle::Heading1)
    } else {
        let m: usize = marker_len(line, lo, hi);
        let mut spans: Vec<StyledSpan> = Vec::new();
        if m > 0 {
            let cut: usize = lo + m;
            spans.push(
                StyledSpan { text: string_of_range(line, 0, cut), style: TextStyle::ListMarker },
            );
            assert(line@.subrange(0, cut as int) == line@.take(cut as int));
            assert(span_views(spans@) =~= single(line@.take(cut as int), TextStyle::ListMarker));
            push_inline(&mut spans, line, cut);
        } else {
            assert(line@.skip(0) == line@);
            push_inline(&mut spans, line, 0);
            assert(span_views(spans@) =~= inline_spans(line@));
        }
        StyledLine { spans }
    }
}

/// Renders the markdown `md` as styled lines.
pub fn markdown_to_styled_text(md: &str) -> (r: Vec<StyledLine>)
    ensures
        line_views(r@) == rendered(md@),
{
    let v = chars_of(md);
    let ls = split_lines(&v);
    let ghost all = rows(ls@);
    let mut out: Vec<StyledLine> = Vec::new();
    let mut in_code_block = false;
    let mut i: usize = 0;
    assert(all.skip(0) == all);
    assert(line_views(out@) + rendered(md@) == rendered(md@));
    while i < ls.len()
        invariant
            i <= ls@.len(),
            all == rows(ls@),
            rendered(md@) == line_views(out@) + rendered_from(all.skip(i as int), in_code_block),
        decreases ls@.len() - i,
    {
        let ghost rest = all.skip(i as int);
        let ghost sofar = line_views(out@);
        let line = &ls[i];
        assert(rest[0] == line@);
        assert(rest.skip(1) == all.skip(i + 1));
        assert(line@.subrange(0, line@.len() as int) == line@);
        let (lo, hi) = trim_bounds(line, 0, line.len());
        let styled = if range_starts_with(line, lo, hi, "```") {
            in_code_block = !in_code_block;
            StyledLine::styled(string_of(line), TextStyle::Fence)
        } else if in_code_block {
            StyledLine::styled(string_of(line), TextStyle::CodeBlock)
        } else {
            render_line(line, lo, hi)
        };
        let ghost shown = styled@;
        out.push(styled);
        proof {
            assert(line_views(out@) =~= sofar + seq![shown]);
            let tail = rendered_from(all.skip(i + 1), in_code_block);
            assert((sofar + seq![shown]) + tail == sofar + (seq![shown] + tail));
        }
        i += 1;
    }
    assert(all.skip(ls@.len() as int).len() == 0);
    out
}

} // verus!
