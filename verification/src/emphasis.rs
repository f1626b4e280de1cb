//! What holds of the plain text and of the highlights of every strategy.

use crate::lines::join;
use crate::strategy::{at_marker, emphasized, emphasized_from, phrase, plain_text};
use vstd::prelude::*;

verus! {

/// Whether two asterisks stand side by side somewhere in `r`.
pub open spec fn has_marker(r: Seq<char>) -> bool {
    exists|k: int| 0 <= k && k + 1 < r.len() && #[trigger] r[k] == '*' && r[k + 1] == '*'
}

/// Whether `r` begins with an asterisk.
pub open spec fn starts_with_star(r: Seq<char>) -> bool {
    r.len() > 0 && r[0] == '*'
}

/// The plain text of a strategy holds no backtick.
pub proof fn lemma_plain_text_has_no_backtick(s: Seq<char>)
    ensures
        forall|k: int| 0 <= k < plain_text(s).len() ==> #[trigger] plain_text(s)[k] != '`',
    decreases s.len(),
{
    let whole = plain_text(s);
    if s.len() > 0 {
        let rest = if at_marker(s) {
            plain_text(s.skip(2))
        } else {
            plain_text(s.skip(1))
        };
        if at_marker(s) {
            lemma_plain_text_has_no_backtick(s.skip(2));
        } else {
            lemma_plain_text_has_no_backtick(s.skip(1));
        }
        assert forall|k: int| 0 <= k < whole.len() implies #[trigger] whole[k] != '`' by {
            if at_marker(s) || s[0] == '`' {
                assert(whole == rest);
                assert(rest[k] != '`');
            } else {
                assert(whole == seq![s[0]] + rest);
                if k > 0 {
                    assert(whole[k] == rest[k - 1]);
                }
            }
        }
    }
}

/// Whether two asterisks that are no bold marker come to stand side by side
/// once the markup of `s` is taken out: a single asterisk, then nothing but
/// backticks and bold markers, then a single asterisk again. `after_star`
/// says that the text before `s` ended with such a single asterisk and
/// markup only.
pub open spec fn stars_meet(s: Seq<char>, after_star: bool) -> bool
    decreases s.len(),
{
    if s.len() == 0 {
        false
    } else if at_marker(s) {
        stars_meet(s.skip(2), after_star)
    } else if s[0] == '`' {
        stars_meet(s.skip(1), after_star)
    } else if s[0] == '*' {
        after_star || stars_meet(s.skip(1), true)
    } else {
        stars_meet(s.skip(1), false)
    }
}

/// A text with one character more in front has two asterisks side by side
/// where they are the first two characters, or where the rest has them.
pub proof fn lemma_has_marker_front(c: char, r: Seq<char>)
    ensures
        has_marker(seq![c] + r) <==> (c == '*' && starts_with_star(r)) || has_marker(r),
{
    let t = seq![c] + r;
    if has_marker(t) {
        let k = choose|k: int| 0 <= k && k + 1 < t.len() && #[trigger] t[k] == '*' && t[k + 1] == '*';
        if k > 0 {
            assert(r[k - 1] == t[k]);
            assert(r[k - 1 + 1] == t[k + 1]);
        } else {
            assert(r[0] == t[1]);
        }
    }
    if c == '*' && starts_with_star(r) {
        assert(t[0] == '*');
        assert(t[0int + 1] == r[0]);
    }
    if has_marker(r) {
        let k = choose|k: int| 0 <= k && k + 1 < r.len() && #[trigger] r[k] == '*' && r[k + 1] == '*';
        assert(t[k + 1] == r[k]);
        assert(t[k + 1 + 1] == r[k + 1]);
    }
}

/// Two asterisks stand side by side in the plain text of `s`, or one begins
/// it after another, exactly where the asterisks of `s` meet.
pub proof fn lemma_stars_meet(s: Seq<char>, after_star: bool)
    ensures
        stars_meet(s, after_star) <==> (after_star && starts_with_star(plain_text(s)))
            || has_marker(plain_text(s)),
    decreases s.len(),
{
    if s.len() == 0 {
    } else if at_marker(s) {
        lemma_stars_meet(s.skip(2), after_star);
    } else if s[0] == '`' {
        lemma_stars_meet(s.skip(1), after_star);
    } else {
        let rest = plain_text(s.skip(1));
        lemma_has_marker_front(s[0], rest);
        assert((seq![s[0]] + rest)[0] == s[0]);
        if s[0] == '*' {
            lemma_stars_meet(s.skip(1), true);
        } else {
            lemma_stars_meet(s.skip(1), false);
        }
    }
}

/// The plain text of a strategy holds two asterisks side by side exactly
/// where two single asterisks of the strategy meet once the markup between
/// them is taken out. In every other strategy it holds no bold marker.
pub proof fn lemma_plain_text_marker(s: Seq<char>)
    ensures
        has_marker(plain_text(s)) <==> stars_meet(s, false),
{
    lemma_stars_meet(s, false);
}

/// The asterisks of a text without backticks do not meet, unless the text
/// begins with one after another.
pub proof fn lemma_stars_apart(s: Seq<char>, after_star: bool)
    requires
        forall|i: int| 0 <= i < s.len() ==> #[trigger] s[i] != '`',
        !(after_star && starts_with_star(s)),
    ensures
        !stars_meet(s, after_star),
    decreases s.len(),
{
    if s.len() == 0 {
    } else if at_marker(s) {
        let t = s.skip(2);
        assert forall|i: int| 0 <= i < t.len() implies #[trigger] t[i] != '`' by {
            assert(t[i] == s[i + 2]);
        }
        lemma_stars_apart(t, after_star);
    } else {
        let t = s.skip(1);
        assert forall|i: int| 0 <= i < t.len() implies #[trigger] t[i] != '`' by {
            assert(t[i] == s[i + 1]);
        }
        if t.len() > 0 {
            assert(t[0] == s[1]);
        }
        lemma_stars_apart(t, s[0] == '*');
    }
}

/// The plain text of a strategy without backticks holds no bold marker.
pub proof fn lemma_plain_text_has_no_marker(s: Seq<char>)
    requires
        forall|i: int| 0 <= i < s.len() ==> #[trigger] s[i] != '`',
    ensures
        !has_marker(plain_text(s)),
{
    lemma_stars_apart(s, false);
    lemma_stars_meet(s, false);
}

/// Whether `parts` are the parts of a text between its bold markers: none
/// holds two asterisks side by side, and none but the last ends with one,
/// so that no marker begins before the place where the parts are joined.
pub open spec fn marker_free(parts: Seq<Seq<char>>) -> bool {
    forall|i: int|
        0 <= i < parts.len() ==> !has_marker(#[trigger] parts[i]) && (i + 1 < parts.len()
            && parts[i].len() > 0 ==> parts[i].last() != '*')
}

/// The text that has the parts `parts` with a bold marker between each two.
pub open spec fn marked(parts: Seq<Seq<char>>) -> Seq<char> {
    join(parts, "**"@)
}

/// The phrases of the bold spans among `parts`: of each part that stands
/// after an opening marker and before the closing one, that is of the
/// second, the fourth and so on, as far as a part follows it.
pub open spec fn bold_phrases(parts: Seq<Seq<char>>) -> Seq<Seq<char>>
    decreases parts.len(),
{
    if parts.len() < 3 {
        Seq::empty()
    } else {
        phrase(plain_text(parts[1])) + bold_phrases(parts.skip(2))
    }
}

/// The plain texts of `parts`, one after the other.
pub open spec fn plain_parts(parts: Seq<Seq<char>>) -> Seq<char>
    decreases parts.len(),
{
    if parts.len() == 0 {
        Seq::empty()
    } else {
        plain_text(parts[0]) + plain_parts(parts.skip(1))
    }
}

/// Texts joined by a separator are the first, the separator, and the others
/// joined.
pub proof fn lemma_join_front(parts: Seq<Seq<char>>, sep: Seq<char>)
    requires
        parts.len() >= 2,
    ensures
        join(parts, sep) == parts[0] + sep + join(parts.skip(1), sep),
    decreases parts.len(),
{
    let rest = parts.skip(1);
    if parts.len() == 2 {
        assert(parts.drop_last() =~= seq![parts[0]]);
        assert(rest =~= seq![parts[1]]);
        assert(join(parts.drop_last(), sep) == parts[0]);
        assert(join(rest, sep) == parts[1]);
    } else {
        lemma_join_front(parts.drop_last(), sep);
        assert(parts.drop_last().skip(1) == rest.drop_last());
        assert(parts.drop_last()[0] == parts[0]);
        assert(rest.last() == parts.last());
        let mid = join(rest.drop_last(), sep);
        assert((parts[0] + sep + mid) + sep + parts.last() == parts[0] + sep + (mid + sep
            + parts.last()));
    }
}

/// A stretch without a bold marker, in it or where it meets what follows,
/// is read character by character: its plain text is added to the plain
/// text, and to the phrase if a bold span is open.
pub proof fn lemma_stretch(seg: Seq<char>, tail: Seq<char>, in_bold: bool, current: Seq<char>)
    requires
        !has_marker(seg),
        seg.len() > 0 && seg.last() == '*' ==> !starts_with_star(tail),
    ensures
        plain_text(seg + tail) == plain_text(seg) + plain_text(tail),
        emphasized_from(seg + tail, in_bold, current) == emphasized_from(
            tail,
            in_bold,
            if in_bold {
                current + plain_text(seg)
            } else {
                current
            },
        ),
    decreases seg.len(),
{
    let s = seg + tail;
    if seg.len() == 0 {
        assert(s == tail);
        assert(plain_text(seg) + plain_text(tail) == plain_text(tail));
        assert(current + plain_text(seg) == current);
    } else {
        let rest = seg.skip(1);
        assert(s[0] == seg[0]);
        assert(s.skip(1) == rest + tail);
        assert(!at_marker(s) && !at_marker(seg)) by {
            if seg.len() >= 2 {
                assert(s[1] == seg[1]);
                if seg[0] == '*' && seg[1] == '*' {
                    assert(seg[0int + 1] == '*');
                    assert(has_marker(seg));
                }
            } else {
                assert(seg.last() == seg[0]);
                if tail.len() > 0 {
                    assert(s[1] == tail[0]);
                }
            }
        }
        assert(!has_marker(rest)) by {
            if has_marker(rest) {
                let k = choose|k: int|
                    0 <= k && k + 1 < rest.len() && #[trigger] rest[k] == '*' && rest[k + 1] == '*';
                assert(seg[k + 1] == rest[k]);
                assert(seg[k + 1 + 1] == rest[k + 1]);
            }
        }
        if rest.len() > 0 {
            assert(rest.last() == seg.last());
        }
        let c = seg[0];
        if c == '`' {
            lemma_stretch(rest, tail, in_bold, current);
        } else {
            let grown = if in_bold {
                current.push(c)
            } else {
                current
            };
            lemma_stretch(rest, tail, in_bold, grown);
            assert((seq![c] + plain_text(rest)) + plain_text(tail) == seq![c] + (plain_text(rest)
                + plain_text(tail)));
            assert(current.push(c) + plain_text(rest) == current + (seq![c] + plain_text(rest)));
        }
    }
}

/// The parts after the first, of parts with more than one, are parts too.
pub proof fn lemma_marker_free_rest(parts: Seq<Seq<char>>, k: int)
    requires
        marker_free(parts),
        0 <= k <= parts.len(),
    ensures
        marker_free(parts.skip(k)),
{
    let rest = parts.skip(k);
    assert forall|i: int| 0 <= i < rest.len() implies !has_marker(#[trigger] rest[i]) && (i + 1
        < rest.len() && rest[i].len() > 0 ==> rest[i].last() != '*') by {
        assert(rest[i] == parts[i + k]);
    }
}

/// What follows a part that has a part after it begins with a marker, and
/// the part does not run into it.
proof fn lemma_first_part(parts: Seq<Seq<char>>)
    requires
        parts.len() >= 2,
        marker_free(parts),
    ensures
        marked(parts) == parts[0] + ("**"@ + marked(parts.skip(1))),
        at_marker("**"@ + marked(parts.skip(1))),
        ("**"@ + marked(parts.skip(1))).skip(2) == marked(parts.skip(1)),
        !has_marker(parts[0]),
        parts[0].len() > 0 ==> parts[0].last() != '*',
{
    reveal_strlit("**");
    lemma_join_front(parts, "**"@);
    assert(!has_marker(parts[0]));
    let tail = "**"@ + marked(parts.skip(1));
    assert(tail[0] == '*' && tail[1] == '*');
    assert(tail.skip(2) =~= marked(parts.skip(1)));
    assert(parts[0] + "**"@ + marked(parts.skip(1)) =~= parts[0] + tail);
}

/// The plain text of parts with markers between them is the plain texts of
/// the parts, one after the other.
pub proof fn lemma_plain_text_of_marked(parts: Seq<Seq<char>>)
    requires
        parts.len() >= 1,
        marker_free(parts),
    ensures
        plain_text(marked(parts)) == plain_parts(parts),
    decreases parts.len(),
{
    let none = Seq::<char>::empty();
    let first = parts[0];
    let rest = parts.skip(1);
    assert(!has_marker(first));
    if parts.len() == 1 {
        assert(marked(parts) == first);
        assert(plain_parts(rest) == none);
        assert(plain_text(first) + none == plain_text(first));
    } else {
        lemma_first_part(parts);
        let tail = "**"@ + marked(rest);
        lemma_stretch(first, tail, false, none);
        lemma_marker_free_rest(parts, 1);
        lemma_plain_text_of_marked(rest);
    }
}

/// The highlights of parts with markers between them are the phrases of the
/// bold spans among the parts, in the order of the parts: every span that
/// has its closing marker gives its phrase, and nothing else gives one.
pub proof fn lemma_highlights_of_marked(parts: Seq<Seq<char>>)
    requires
        parts.len() >= 1,
        marker_free(parts),
    ensures
        emphasized(marked(parts)) == bold_phrases(parts),
    decreases parts.len(),
{
    let none = Seq::<char>::empty();
    let first = parts[0];
    assert(!has_marker(first));
    if parts.len() == 1 {
        assert(marked(parts) == first);
        assert(first + none == first);
        lemma_stretch(first, none, false, none);
    } else {
        let rest = parts.skip(1);
        let second = parts[1];
        assert(rest[0] == second);
        lemma_first_part(parts);
        lemma_stretch(first, "**"@ + marked(rest), false, none);
        lemma_marker_free_rest(parts, 1);
        assert(!has_marker(second));
        assert(none + plain_text(second) == plain_text(second));
        if parts.len() == 2 {
            assert(marked(rest) == second);
            assert(second + none == second);
            lemma_stretch(second, none, true, none);
        } else {
            let others = parts.skip(2);
            assert(rest.skip(1) == others);
            lemma_first_part(rest);
            lemma_stretch(second, "**"@ + marked(others), true, none);
            lemma_marker_free_rest(parts, 2);
            lemma_highlights_of_marked(others);
        }
    }
}

/// The parts of `s` between its bold markers, for a reader who has read
/// `current` of the part that `s` begins in.
pub open spec fn parts_from(s: Seq<char>, current: Seq<char>) -> Seq<Seq<char>>
    decreases s.len(),
{
    if s.len() == 0 {
        seq![current]
    } else if at_marker(s) {
        seq![current] + parts_from(s.skip(2), Seq::empty())
    } else {
        parts_from(s.skip(1), current.push(s[0]))
    }
}

/// The parts of `s` between its bold markers.
pub open spec fn parts_of(s: Seq<char>) -> Seq<Seq<char>> {
    parts_from(s, Seq::empty())
}

/// What was read of a part and what is still to be read are parts with
/// markers between them.
pub proof fn lemma_parts_from(s: Seq<char>, current: Seq<char>)
    requires
        !has_marker(current),
        current.len() > 0 && current.last() == '*' ==> !starts_with_star(s),
    ensures
        parts_from(s, current).len() >= 1,
        marker_free(parts_from(s, current)),
        marked(parts_from(s, current)) == current + s,
    decreases s.len(),
{
    reveal_strlit("**");
    let parts = parts_from(s, current);
    let none = Seq::<char>::empty();
    if s.len() == 0 {
        assert(current + s == current);
    } else if at_marker(s) {
        let rest = parts_from(s.skip(2), none);
        lemma_parts_from(s.skip(2), none);
        assert(parts == seq![current] + rest);
        assert(parts.skip(1) == rest);
        assert(parts[0] == current);
        assert forall|i: int| 0 <= i < parts.len() implies !has_marker(#[trigger] parts[i]) && (i
            + 1 < parts.len() && parts[i].len() > 0 ==> parts[i].last() != '*') by {
            if i > 0 {
                assert(parts[i] == rest[i - 1]);
            }
        }
        lemma_join_front(parts, "**"@);
        assert(none + s.skip(2) == s.skip(2));
        assert(current + "**"@ + s.skip(2) =~= current + s);
    } else {
        let grown = current.push(s[0]);
        assert(!has_marker(grown)) by {
            if has_marker(grown) {
                let k = choose|k: int|
                    0 <= k && k + 1 < grown.len() && #[trigger] grown[k] == '*' && grown[k + 1]
                        == '*';
                if k + 1 < current.len() {
                    assert(current[k] == '*' && current[k + 1] == '*');
                } else {
                    assert(current.last() == grown[k]);
                }
            }
        }
        if s.len() >= 2 {
            assert(s.skip(1)[0] == s[1]);
        }
        lemma_parts_from(s.skip(1), grown);
        assert(grown + s.skip(1) =~= current + s);
    }
}

/// Every text is its parts with bold markers between them, so that its
/// highlights are the phrases of the bold spans among its parts, and its
/// plain text is the plain texts of its parts.
pub proof fn lemma_highlights_of_every_text(s: Seq<char>)
    ensures
        marker_free(parts_of(s)),
        marked(parts_of(s)) == s,
        emphasized(s) == bold_phrases(parts_of(s)),
        plain_text(s) == plain_parts(parts_of(s)),
{
    let none = Seq::<char>::empty();
    lemma_parts_from(s, none);
    assert(none + s == s);
    lemma_highlights_of_marked(parts_of(s));
    lemma_plain_text_of_marked(parts_of(s));
}

} // verus!
