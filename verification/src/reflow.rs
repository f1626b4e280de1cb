//! Wrapping of styled lines to a width.
//!
//! A line that is too long is cut into several. No character is lost or
//! added, and each keeps its style. A cut is made after the last space that
//! the room left on the line holds, or, where it holds none, where the room
//! ends.

use crate::styled::{
    all_cells, cells, line_views, span_cells, span_views, total_width, width, SpanView, StyledLine,
    StyledSpan, TextStyle,
};
use crate::text::{chars_of, string_of_range};
use vstd::prelude::*;

verus! {

/// One more than the position of the last space among the first `room`
/// characters of `text`, or 0 where there is none.
pub open spec fn last_space_end(text: Seq<char>, room: nat) -> nat
    decreases room,
{
    if room == 0 {
        0
    } else if room <= text.len() && text[room - 1] == ' ' {
        room
    } else {
        last_space_end(text, (room - 1) as nat)
    }
}

/// How many characters of `text`, which is longer than `room`, stay on a line
/// with room for `room` more: those up to the last space in the room, or,
/// where it holds no space, as many as there is room for.
pub open spec fn break_point(text: Seq<char>, room: nat) -> nat {
    if last_space_end(text, room) == 0 {
        room
    } else {
        last_space_end(text, room)
    }
}

/// The last space in the room lies in the room.
pub proof fn lemma_last_space_end(text: Seq<char>, room: nat)
    ensures
        last_space_end(text, room) <= room,
        last_space_end(text, room) <= text.len(),
        last_space_end(text, room) > 0 ==> text[last_space_end(text, room) - 1] == ' ',
    decreases room,
{
    if room > 0 && !(room <= text.len() && text[room - 1] == ' ') {
        lemma_last_space_end(text, (room - 1) as nat);
    }
}

/// A break point leaves at least one character on the line and at most as
/// many as there is room for.
pub proof fn lemma_break_point(text: Seq<char>, room: nat)
    requires
        room >= 1,
    ensures
        1 <= break_point(text, room) <= room,
{
    lemma_last_space_end(text, room);
}

/// The line under construction as a finished line, unless it is empty.
pub open spec fn finished(cur: Seq<SpanView>) -> Seq<Seq<SpanView>> {
    if cur.len() > 0 {
        seq![cur]
    } else {
        Seq::empty()
    }
}

/// The lines that the spans `spans` give at the width `w`, with `cur` as the
/// line under construction.
pub open spec fn wrap_from(spans: Seq<SpanView>, w: nat, cur: Seq<SpanView>) -> Seq<Seq<SpanView>>
    decreases spans.len(), 0nat, 0nat,
{
    if spans.len() == 0 {
        finished(cur)
    } else {
        wrap_span(spans.skip(1), w, cur, spans[0].text, spans[0].style)
    }
}

/// The lines that `text` in the style `style`, and after it the spans
/// `rest`, give at the width `w`, with `cur` as the line under construction.
/// A full line is finished before anything is added. Text that fits is added
/// whole. Other text is cut at its break point: the first part finishes the
/// line, the second starts the next.
pub open spec fn wrap_span(
    rest: Seq<SpanView>,
    w: nat,
    cur: Seq<SpanView>,
    text: Seq<char>,
    style: TextStyle,
) -> Seq<Seq<SpanView>>
    decreases rest.len(), text.len() + 1, (if width(cur) >= w {
        1nat
    } else {
        0nat
    }),
{
    if text.len() == 0 {
        wrap_from(rest, w, cur)
    } else if w == 0 {
        Seq::empty()
    } else if width(cur) >= w {
        seq![cur] + wrap_span(rest, w, Seq::empty(), text, style)
    } else if text.len() <= w - width(cur) {
        wrap_from(rest, w, cur.push(SpanView { text, style }))
    } else {
        let k = break_point(text, (w - width(cur)) as nat);
        proof {
            lemma_break_point(text, (w - width(cur)) as nat);
        }
        seq![cur.push(SpanView { text: text.take(k as int), style })] + wrap_span(
            rest,
            w,
            Seq::empty(),
            text.skip(k as int),
            style,
        )
    }
}

/// The lines that `line` gives at the width `w`. At the width 0 the line is
/// left as it is. A line without characters gives one line without spans.
pub open spec fn wrapped_line(line: Seq<SpanView>, w: nat) -> Seq<Seq<SpanView>> {
    if w == 0 {
        seq![line]
    } else if wrap_from(line, w, Seq::empty()).len() == 0 {
        seq![Seq::empty()]
    } else {
        wrap_from(line, w, Seq::empty())
    }
}

/// The lines that `lines` give at the width `w`, in their order.
pub open spec fn wrapped_text(lines: Seq<Seq<SpanView>>, w: nat) -> Seq<Seq<SpanView>>
    decreases lines.len(),
{
    if lines.len() == 0 {
        Seq::empty()
    } else {
        wrapped_text(lines.drop_last(), w) + wrapped_line(lines.last(), w)
    }
}

/// The width of a line grows by the length of a span added to it.
pub proof fn lemma_width_push(cur: Seq<SpanView>, span: SpanView)
    ensures
        width(cur.push(span)) == width(cur) + span.text.len(),
{
    assert(cur.push(span).drop_last() == cur);
}

/// How many characters of `text[pos..]` stay on a line with room for `room`
/// more.
fn break_at(text: &Vec<char>, pos: usize, room: usize) -> (k: usize)
    requires
        room >= 1,
        pos + room < text@.len(),
    ensures
        k == break_point(text@.skip(pos as int), room as nat),
        1 <= k <= room,
{
    let ghost t = text@.skip(pos as int);
    proof {
        lemma_break_point(t, room as nat);
    }
    let n: usize = text.len();
    let mut a: usize = room;
    while a > 0
        invariant
            a <= room,
            n == text@.len(),
            pos + room < n,
            t == text@.skip(pos as int),
            last_space_end(t, room as nat) == last_space_end(t, a as nat),
        decreases a,
    {
        assert(t[a - 1] == text@[pos + a - 1]);
        if text[pos + a - 1] == ' ' {
            return a;
        }
        a -= 1;
    }
    room
}

/// Wraps `line` to the width `max_width`.
pub fn wrap_styled_line(line: StyledLine, max_width: usize) -> (r: Vec<StyledLine>)
    ensures
        line_views(r@) == wrapped_line(line@, max_width as nat),
{
    let mut result: Vec<StyledLine> = Vec::new();
    if max_width == 0 {
        let ghost whole = line@;
        result.push(line);
        assert(line_views(result@) =~= seq![whole]);
        return result;
    }
    let ghost w = max_width as nat;
    let ghost spans = line@;
    let ghost whole = wrap_from(spans, w, Seq::empty());
    let mut current: Vec<StyledSpan> = Vec::new();
    let mut used: usize = 0;
    let mut j: usize = 0;
    assert(spans.skip(0) == spans);
    assert(line_views(result@) + whole == whole);
    assert(span_views(current@) =~= Seq::<SpanView>::empty());
    while j < line.spans.len()
        invariant
            max_width >= 1,
            w == max_width as nat,
            spans == line@,
            j <= spans.len(),
            used == width(span_views(current@)),
            used <= max_width,
            whole == line_views(result@) + wrap_from(spans.skip(j as int), w, span_views(current@)),
        decreases spans.len() - j,
    {
        let style = line.spans[j].style;
        let text = chars_of(line.spans[j].text.as_str());
        let n: usize = text.len();
        let ghost rest = spans.skip(j + 1);
        proof {
            let here = spans.skip(j as int);
            assert(here[0] == line.spans@[j as int]@);
            assert(here.skip(1) == rest);
            assert(text@.skip(0) == text@);
        }
        let mut pos: usize = 0;
        while pos < n
            invariant
                max_width >= 1,
                w == max_width as nat,
                n == text@.len(),
                pos <= n,
                used == width(span_views(current@)),
                used <= max_width,
                whole == line_views(result@) + wrap_span(
                    rest,
                    w,
                    span_views(current@),
                    text@.skip(pos as int),
                    style,
                ),
            decreases n - pos, used,
        {
            let ghost done = line_views(result@);
            let ghost cur = span_views(current@);
            let ghost t = text@.skip(pos as int);
            let room: usize = max_width - used;
            if room == 0 {
                let ghost tail = wrap_span(rest, w, Seq::empty(), t, style);
                result.push(StyledLine { spans: current });
                current = Vec::new();
                used = 0;
                proof {
                    assert(line_views(result@) =~= done + seq![cur]);
                    assert((done + seq![cur]) + tail == done + (seq![cur] + tail));
                    assert(span_views(current@) =~= Seq::<SpanView>::empty());
                }
            } else if n - pos <= room {
                let piece = StyledSpan { text: string_of_range(&text, pos, n), style };
                proof {
                    assert(text@.subrange(pos as int, n as int) == t);
                    lemma_width_push(cur, piece@);
                }
                current.push(piece);
                used = used + (n - pos);
                pos = n;
                proof {
                    assert(span_views(current@) =~= cur.push(SpanView { text: t, style }));
                    assert(text@.skip(n as int).len() == 0);
                }
            } else {
                let k: usize = break_at(&text, pos, room);
                let piece = StyledSpan { text: string_of_range(&text, pos, pos + k), style };
                let ghost full = cur.push(piece@);
                let ghost tail = wrap_span(rest, w, Seq::empty(), t.skip(k as int), style);
                proof {
                    assert(text@.subrange(pos as int, pos + k) == t.take(k as int));
                    assert(t.skip(k as int) == text@.skip(pos + k));
                }
                current.push(piece);
                proof {
                    assert(span_views(current@) =~= full);
                }
                result.push(StyledLine { spans: current });
                current = Vec::new();
                used = 0;
                pos = pos + k;
                proof {
                    assert(line_views(result@) =~= done + seq![full]);
                    assert((done + seq![full]) + tail == done + (seq![full] + tail));
                    assert(span_views(current@) =~= Seq::<SpanView>::empty());
                }
            }
        }
        j += 1;
    }
    let ghost done = line_views(result@);
    let ghost cur = span_views(current@);
    assert(spans.skip(spans.len() as int).len() == 0);
    if current.len() > 0 {
        result.push(StyledLine { spans: current });
        assert(line_views(result@) =~= done + seq![cur]);
    } else {
        assert(done + Seq::<Seq<SpanView>>::empty() == done);
    }
    if result.len() == 0 {
        let blank = StyledLine::empty();
        assert(blank@ =~= Seq::<SpanView>::empty());
        result.push(blank);
        assert(line_views(result@) =~= seq![Seq::<SpanView>::empty()]);
    }
    result
}

/// Wraps each of `lines` to the width `max_width`.
pub fn wrap_styled_text(lines: Vec<StyledLine>, max_width: usize) -> (r: Vec<StyledLine>)
    ensures
        line_views(r@) == wrapped_text(line_views(lines@), max_width as nat),
{
    let ghost all = line_views(lines@);
    let ghost w = max_width as nat;
    let mut result: Vec<StyledLine> = Vec::new();
    let mut i: usize = 0;
    assert(all.take(0).len() == 0);
    assert(line_views(result@) =~= wrapped_text(all.take(0), w));
    while i < lines.len()
        invariant
            i <= lines@.len(),
            all == line_views(lines@),
            w == max_width as nat,
            line_views(result@) == wrapped_text(all.take(i as int), w),
        decreases lines@.len() - i,
    {
        proof {
            let next = all.take(i + 1);
            assert(next.drop_last() == all.take(i as int));
            assert(next.last() == lines@[i as int]@);
        }
        let ghost done = line_views(result@);
        let mut pieces = wrap_styled_line(lines[i].clone(), max_width);
        let ghost added = line_views(pieces@);
        result.append(&mut pieces);
        assert(line_views(result@) =~= done + added);
        i += 1;
    }
    assert(all.take(lines@.len() as int) == all);
    result
}

/// Whether no span of `line` is empty.
pub open spec fn no_empty_span(line: Seq<SpanView>) -> bool {
    forall|i: int| 0 <= i < line.len() ==> (#[trigger] line[i]).text.len() > 0
}

/// Whether `line` is as wrapping to the width `w` leaves a line: no wider
/// than `w`, and without an empty span.
pub open spec fn settled(line: Seq<SpanView>, w: nat) -> bool {
    no_empty_span(line) && width(line) <= w
}

/// Whether each of `lines` is settled at the width `w`.
pub open spec fn all_settled(lines: Seq<Seq<SpanView>>, w: nat) -> bool {
    forall|i: int| 0 <= i < lines.len() ==> settled(#[trigger] lines[i], w)
}

/// Whether each of `lines` has a span.
pub open spec fn none_blank(lines: Seq<Seq<SpanView>>) -> bool {
    forall|i: int| 0 <= i < lines.len() ==> (#[trigger] lines[i]).len() > 0
}

/// The width of two lines put together is the sum of their widths.
pub proof fn lemma_width_concat(a: Seq<SpanView>, b: Seq<SpanView>)
    ensures
        width(a + b) == width(a) + width(b),
    decreases b.len(),
{
    if b.len() == 0 {
        assert(a + b == a);
    } else {
        lemma_width_concat(a, b.drop_last());
        assert((a + b).drop_last() == a + b.drop_last());
    }
}

/// The characters of two lines put together are those of the first, then
/// those of the second.
pub proof fn lemma_cells_concat(a: Seq<SpanView>, b: Seq<SpanView>)
    ensures
        cells(a + b) == cells(a) + cells(b),
    decreases b.len(),
{
    if b.len() == 0 {
        assert(a + b == a);
        assert(cells(a) + cells(b) == cells(a));
    } else {
        lemma_cells_concat(a, b.drop_last());
        assert((a + b).drop_last() == a + b.drop_last());
        assert((cells(a) + cells(b.drop_last())) + span_cells(b.last()) == cells(a) + (cells(
            b.drop_last(),
        ) + span_cells(b.last())));
    }
}

/// The characters of one line that holds one span are those of the span.
pub proof fn lemma_cells_single(span: SpanView)
    ensures
        cells(seq![span]) == span_cells(span),
{
    assert(seq![span].drop_last() == Seq::<SpanView>::empty());
    assert(cells(Seq::<SpanView>::empty()) + span_cells(span) == span_cells(span));
}

/// The characters of two texts put together are those of the first, then
/// those of the second.
pub proof fn lemma_all_cells_concat(a: Seq<Seq<SpanView>>, b: Seq<Seq<SpanView>>)
    ensures
        all_cells(a + b) == all_cells(a) + all_cells(b),
    decreases b.len(),
{
    if b.len() == 0 {
        assert(a + b == a);
        assert(all_cells(a) + all_cells(b) == all_cells(a));
    } else {
        lemma_all_cells_concat(a, b.drop_last());
        assert((a + b).drop_last() == a + b.drop_last());
        assert((all_cells(a) + all_cells(b.drop_last())) + cells(b.last()) == all_cells(a) + (
        all_cells(b.drop_last()) + cells(b.last())));
    }
}

/// The characters of a text of one line are those of the line.
pub proof fn lemma_all_cells_single(line: Seq<SpanView>)
    ensures
        all_cells(seq![line]) == cells(line),
{
    assert(seq![line].drop_last() == Seq::<Seq<SpanView>>::empty());
    assert(all_cells(Seq::<Seq<SpanView>>::empty()) + cells(line) == cells(line));
}

/// A line has as many characters as its width says.
pub proof fn lemma_cells_len(line: Seq<SpanView>)
    ensures
        cells(line).len() == width(line),
    decreases line.len(),
{
    if line.len() > 0 {
        lemma_cells_len(line.drop_last());
    }
}

/// A text has as many characters as its total width says.
pub proof fn lemma_all_cells_len(lines: Seq<Seq<SpanView>>)
    ensures
        all_cells(lines).len() == total_width(lines),
    decreases lines.len(),
{
    if lines.len() > 0 {
        lemma_all_cells_len(lines.drop_last());
        lemma_cells_len(lines.last());
    }
}

/// Wrapping spans onto a settled line gives settled lines, none of them
/// blank, that hold the characters of the line and of the spans, in their
/// order and with their styles.
pub proof fn lemma_wrap_from(spans: Seq<SpanView>, w: nat, cur: Seq<SpanView>)
    requires
        w > 0,
        settled(cur, w),
    ensures
        all_settled(wrap_from(spans, w, cur), w),
        none_blank(wrap_from(spans, w, cur)),
        all_cells(wrap_from(spans, w, cur)) == cells(cur) + cells(spans),
    decreases spans.len(), 0nat, 0nat,
{
    if spans.len() == 0 {
        assert(cells(cur) + cells(spans) == cells(cur));
        if cur.len() > 0 {
            lemma_all_cells_single(cur);
        }
    } else {
        let first = spans[0];
        let rest = spans.skip(1);
        lemma_wrap_span(rest, w, cur, first.text, first.style);
        assert(seq![first] + rest == spans);
        lemma_cells_concat(seq![first], rest);
        lemma_cells_single(first);
        assert(first == SpanView { text: first.text, style: first.style });
        assert((cells(cur) + span_cells(first)) + cells(rest) == cells(cur) + (span_cells(first)
            + cells(rest)));
    }
}

/// Wrapping a text and the spans after it onto a settled line gives settled
/// lines, none of them blank, that hold the characters of the line, of the
/// text and of the spans, in their order and with their styles.
pub proof fn lemma_wrap_span(
    rest: Seq<SpanView>,
    w: nat,
    cur: Seq<SpanView>,
    text: Seq<char>,
    style: TextStyle,
)
    requires
        w > 0,
        settled(cur, w),
    ensures
        all_settled(wrap_span(rest, w, cur, text, style), w),
        none_blank(wrap_span(rest, w, cur, text, style)),
        all_cells(wrap_span(rest, w, cur, text, style)) == cells(cur) + span_cells(
            SpanView { text, style },
        ) + cells(rest),
    decreases rest.len(), text.len() + 1, (if width(cur) >= w {
        1nat
    } else {
        0nat
    }),
{
    let whole = SpanView { text, style };
    let out = wrap_span(rest, w, cur, text, style);
    let blank = Seq::<SpanView>::empty();
    if text.len() == 0 {
        lemma_wrap_from(rest, w, cur);
        assert(cells(cur) + span_cells(whole) == cells(cur));
    } else if width(cur) >= w {
        lemma_wrap_span(rest, w, blank, text, style);
        let tail = wrap_span(rest, w, blank, text, style);
        assert(out == seq![cur] + tail);
        assert forall|i: int| 0 <= i < out.len() implies settled(#[trigger] out[i], w) && out[i].len()
            > 0 by {
            if i > 0 {
                assert(out[i] == tail[i - 1]);
            }
        }
        lemma_all_cells_concat(seq![cur], tail);
        lemma_all_cells_single(cur);
        assert(cells(blank) + span_cells(whole) == span_cells(whole));
        assert(cells(cur) + (span_cells(whole) + cells(rest)) == cells(cur) + span_cells(whole)
            + cells(rest));
    } else if text.len() <= w - width(cur) {
        let next = cur.push(whole);
        lemma_width_push(cur, whole);
        assert forall|i: int| 0 <= i < next.len() implies (#[trigger] next[i]).text.len() > 0 by {
            if i < cur.len() {
                assert(next[i] == cur[i]);
            }
        }
        lemma_wrap_from(rest, w, next);
        assert(next.drop_last() == cur);
    } else {
        let room = (w - width(cur)) as nat;
        let k = break_point(text, room);
        lemma_break_point(text, room);
        let head = SpanView { text: text.take(k as int), style };
        let back = SpanView { text: text.skip(k as int), style };
        let full = cur.push(head);
        lemma_width_push(cur, head);
        assert forall|i: int| 0 <= i < full.len() implies (#[trigger] full[i]).text.len() > 0 by {
            if i < cur.len() {
                assert(full[i] == cur[i]);
            }
        }
        lemma_wrap_span(rest, w, blank, text.skip(k as int), style);
        let tail = wrap_span(rest, w, blank, text.skip(k as int), style);
        assert(out == seq![full] + tail);
        assert forall|i: int| 0 <= i < out.len() implies settled(#[trigger] out[i], w) && out[i].len()
            > 0 by {
            if i > 0 {
                assert(out[i] == tail[i - 1]);
            }
        }
        lemma_all_cells_concat(seq![full], tail);
        lemma_all_cells_single(full);
        assert(full.drop_last() == cur);
        assert(span_cells(head) + span_cells(back) =~= span_cells(whole));
        assert(cells(blank) + span_cells(back) == span_cells(back));
        assert((cells(cur) + span_cells(head)) + (span_cells(back) + cells(rest)) == cells(cur) + (
        span_cells(head) + span_cells(back)) + cells(rest));
    }
}

/// Spans without an empty one that fit on the line under construction are
/// added to it whole.
pub proof fn lemma_fitting_spans(spans: Seq<SpanView>, w: nat, cur: Seq<SpanView>)
    requires
        w > 0,
        no_empty_span(spans),
        width(cur) + width(spans) <= w,
    ensures
        wrap_from(spans, w, cur) == finished(cur + spans),
    decreases spans.len(),
{
    if spans.len() == 0 {
        assert(cur + spans == cur);
    } else {
        let first = spans[0];
        let rest = spans.skip(1);
        assert(seq![first] + rest == spans);
        lemma_width_concat(seq![first], rest);
        assert(seq![first].drop_last() == Seq::<SpanView>::empty());
        assert(width(Seq::<SpanView>::empty()) == 0);
        assert(width(seq![first]) == first.text.len());
        let next = cur.push(first);
        lemma_width_push(cur, first);
        assert(first == SpanView { text: first.text, style: first.style });
        assert(wrap_span(rest, w, cur, first.text, first.style) == wrap_from(rest, w, next));
        assert forall|i: int| 0 <= i < rest.len() implies (#[trigger] rest[i]).text.len() > 0 by {
            assert(rest[i] == spans[i + 1]);
        }
        lemma_fitting_spans(rest, w, next);
        assert(next + rest == cur + spans);
    }
}

/// Wrapping leaves a settled line as it is.
pub proof fn lemma_settled_line_is_kept(line: Seq<SpanView>, w: nat)
    requires
        w == 0 || settled(line, w),
    ensures
        wrapped_line(line, w) == seq![line],
{
    if w > 0 {
        let blank = Seq::<SpanView>::empty();
        lemma_fitting_spans(line, w, blank);
        assert(blank + line == line);
        if line.len() == 0 {
            assert(line == blank);
        }
    }
}

/// Wrapping a line gives lines that wrapping leaves as they are.
pub proof fn lemma_wrapped_line_is_settled(line: Seq<SpanView>, w: nat)
    ensures
        forall|i: int|
            0 <= i < wrapped_line(line, w).len() ==> wrapped_line(
                #[trigger] wrapped_line(line, w)[i],
                w,
            ) == seq![wrapped_line(line, w)[i]],
        w > 0 ==> all_settled(wrapped_line(line, w), w),
        all_cells(wrapped_line(line, w)) == cells(line),
{
    let out = wrapped_line(line, w);
    let blank = Seq::<SpanView>::empty();
    if w == 0 {
        lemma_settled_line_is_kept(line, w);
        lemma_all_cells_single(line);
    } else {
        lemma_wrap_from(line, w, blank);
        assert(cells(blank) + cells(line) == cells(line));
        if wrap_from(line, w, blank).len() == 0 {
            lemma_all_cells_single(blank);
        }
        assert forall|i: int| 0 <= i < out.len() implies wrapped_line(#[trigger] out[i], w)
            == seq![out[i]] by {
            lemma_settled_line_is_kept(out[i], w);
        }
    }
}

/// Wrapping two texts put together gives the wrapped first, then the wrapped
/// second.
pub proof fn lemma_wrapped_text_concat(a: Seq<Seq<SpanView>>, b: Seq<Seq<SpanView>>, w: nat)
    ensures
        wrapped_text(a + b, w) == wrapped_text(a, w) + wrapped_text(b, w),
    decreases b.len(),
{
    if b.len() == 0 {
        assert(a + b == a);
        assert(wrapped_text(a, w) + wrapped_text(b, w) == wrapped_text(a, w));
    } else {
        lemma_wrapped_text_concat(a, b.drop_last(), w);
        assert((a + b).drop_last() == a + b.drop_last());
        assert((wrapped_text(a, w) + wrapped_text(b.drop_last(), w)) + wrapped_line(b.last(), w)
            == wrapped_text(a, w) + (wrapped_text(b.drop_last(), w) + wrapped_line(b.last(), w)));
    }
}

/// Wrapping leaves a text as it is if it leaves each of its lines as it is.
pub proof fn lemma_kept_text(lines: Seq<Seq<SpanView>>, w: nat)
    requires
        forall|i: int| 0 <= i < lines.len() ==> wrapped_line(#[trigger] lines[i], w) == seq![lines[i]],
    ensures
        wrapped_text(lines, w) == lines,
    decreases lines.len(),
{
    if lines.len() > 0 {
        let init = lines.drop_last();
        assert forall|i: int| 0 <= i < init.len() implies wrapped_line(#[trigger] init[i], w)
            == seq![init[i]] by {
            assert(init[i] == lines[i]);
        }
        lemma_kept_text(init, w);
        assert(init + seq![lines.last()] == lines);
    }
}

/// Wrapping is idempotent: a text that was wrapped to a width is left as it
/// is when it is wrapped to that width again.
pub proof fn lemma_wrap_is_idempotent(lines: Seq<Seq<SpanView>>, w: nat)
    ensures
        wrapped_text(wrapped_text(lines, w), w) == wrapped_text(lines, w),
    decreases lines.len(),
{
    if lines.len() > 0 {
        let init = wrapped_text(lines.drop_last(), w);
        let last = wrapped_line(lines.last(), w);
        lemma_wrap_is_idempotent(lines.drop_last(), w);
        lemma_wrapped_text_concat(init, last, w);
        lemma_wrapped_line_is_settled(lines.last(), w);
        lemma_kept_text(last, w);
    }
}

/// Wrapping is lossless: the wrapped text holds the characters of the text,
/// in their order and each with its style, and so as many as the text.
pub proof fn lemma_wrap_keeps_characters(lines: Seq<Seq<SpanView>>, w: nat)
    ensures
        all_cells(wrapped_text(lines, w)) == all_cells(lines),
        total_width(wrapped_text(lines, w)) == total_width(lines),
    decreases lines.len(),
{
    if lines.len() > 0 {
        lemma_wrap_keeps_characters(lines.drop_last(), w);
        lemma_wrapped_line_is_settled(lines.last(), w);
        lemma_all_cells_concat(wrapped_text(lines.drop_last(), w), wrapped_line(lines.last(), w));
    }
    lemma_all_cells_len(wrapped_text(lines, w));
    lemma_all_cells_len(lines);
}

/// No line of a text wrapped to a width above 0 is wider than that width,
/// and none holds an empty span.
pub proof fn lemma_wrap_fits(lines: Seq<Seq<SpanView>>, w: nat)
    requires
        w > 0,
    ensures
        all_settled(wrapped_text(lines, w), w),
    decreases lines.len(),
{
    if lines.len() > 0 {
        lemma_wrap_fits(lines.drop_last(), w);
        lemma_wrapped_line_is_settled(lines.last(), w);
        let init = wrapped_text(lines.drop_last(), w);
        let last = wrapped_line(lines.last(), w);
        let out = wrapped_text(lines, w);
        assert forall|i: int| 0 <= i < out.len() implies settled(#[trigger] out[i], w) by {
            if i < init.len() {
                assert(out[i] == init[i]);
            } else {
                assert(out[i] == last[i - init.len()]);
            }
        }
    }
}

} // verus!
