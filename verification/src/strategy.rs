//! The strategy model: what an agent's reply says of its plan, the text with
//! the markup taken out, and the phrases it put in bold.

use crate::lines::{join, join_range, lemma_line_end_is, lines, split_lines};
pub use crate::prompt::{build_implementation_prompt, build_strategy_prompt};
use crate::search::{find, find_first, occurs_at};
use crate::text::{
    chars_of, copy_range, leading_spaces, push_str, rows, string_of, strings_of, texts, trim,
    trim_bounds, trim_start, trimmed,
};
use vstd::prelude::*;

verus! {

/// A strategy as an agent stated it.
#[derive(Debug, PartialEq)]
pub struct Strategy {
    /// The text as it was returned or edited, with its markup.
    pub markdown: String,
    /// `markdown` without the bold markers and the backticks.
    pub raw: String,
    /// The phrases that `markdown` sets in bold, in their order.
    pub highlights: Vec<String>,
}

/// What a [`Strategy`] holds, as plain texts.
pub struct StrategyView {
    pub markdown: Seq<char>,
    pub raw: Seq<char>,
    pub highlights: Seq<Seq<char>>,
}

impl View for Strategy {
    type V = StrategyView;

    open spec fn view(&self) -> StrategyView {
        StrategyView {
            markdown: self.markdown@,
            raw: self.raw@,
            highlights: texts(self.highlights@),
        }
    }
}

/// Whether a bold marker, two asterisks, stands at the start of `s`.
pub open spec fn at_marker(s: Seq<char>) -> bool {
    s.len() >= 2 && s[0] == '*' && s[1] == '*'
}

/// `s` without its markup: read from left to right, each bold marker and each
/// backtick is left out, and every other character is kept.
pub open spec fn plain_text(s: Seq<char>) -> Seq<char>
    decreases s.len(),
{
    if s.len() == 0 {
        Seq::empty()
    } else if at_marker(s) {
        plain_text(s.skip(2))
    } else if s[0] == '`' {
        plain_text(s.skip(1))
    } else {
        seq![s[0]] + plain_text(s.skip(1))
    }
}

/// One phrase as a list: nothing where the phrase, trimmed, is empty.
pub open spec fn phrase(current: Seq<char>) -> Seq<Seq<char>> {
    if trim(current).len() > 0 {
        seq![trim(current)]
    } else {
        Seq::empty()
    }
}

/// The bold phrases of `s`, for a reader who is inside a bold span if
/// `in_bold`, and has read `current` of that span so far. A marker opens a
/// span or closes the open one; a closed span gives its text, trimmed, unless
/// that is empty. Backticks are no part of a phrase. A span that is never
/// closed gives nothing.
pub open spec fn emphasized_from(s: Seq<char>, in_bold: bool, current: Seq<char>) -> Seq<Seq<char>>
    decreases s.len(),
{
    if s.len() == 0 {
        Seq::empty()
    } else if at_marker(s) {
        if in_bold {
            phrase(current) + emphasized_from(s.skip(2), false, Seq::empty())
        } else {
            emphasized_from(s.skip(2), true, Seq::empty())
        }
    } else if s[0] == '`' {
        emphasized_from(s.skip(1), in_bold, current)
    } else if in_bold {
        emphasized_from(s.skip(1), true, current.push(s[0]))
    } else {
        emphasized_from(s.skip(1), false, current)
    }
}

/// The bold phrases of `s`, in their order.
pub open spec fn emphasized(s: Seq<char>) -> Seq<Seq<char>> {
    emphasized_from(s, false, Seq::empty())
}

/// The strategy that the text `markdown` stands for.
pub open spec fn parsed(markdown: Seq<char>) -> StrategyView {
    StrategyView {
        markdown,
        raw: plain_text(markdown),
        highlights: emphasized(markdown),
    }
}

/// The text of the sentinel for a strategy that could not be had.
pub open spec fn failure_text(message: Seq<char>) -> Seq<char> {
    "[FAILED] "@ + message
}

impl Strategy {
    /// Whether `raw` and `highlights` are what `markdown` gives, or this is
    /// the sentinel of a failure, which has no highlights and whose `raw` is
    /// its `markdown`.
    pub open spec fn well_formed(&self) -> bool {
        ||| self@ == parsed(self@.markdown)
        ||| (self@.raw == self@.markdown && self@.highlights.len() == 0)
    }

    /// Reads a strategy from its text.
    pub fn parse(text: &str) -> (r: Self)
        ensures
            r@ == parsed(text@),
            r.well_formed(),
    {
        let markdown = text.to_owned();
        let (raw, highlights) = Self::extract_formatting(text);
        let r = Strategy { markdown, raw, highlights };
        assert(r@.highlights == emphasized(text@));
        r
    }

    /// The plain text and the bold phrases of `text`.
    pub fn extract_formatting(text: &str) -> (r: (String, Vec<String>))
        ensures
            r.0@ == plain_text(text@),
            texts(r.1@) == emphasized(text@),
    {
        let v = chars_of(text);
        let n: usize = v.len();
        let ghost s = v@;
        let mut raw: Vec<char> = Vec::new();
        let mut found: Vec<Vec<char>> = Vec::new();
        let mut in_bold = false;
        let mut current: Vec<char> = Vec::new();
        let mut i: usize = 0;
        assert(s.skip(0) == s);
        assert(rows(found@) + emphasized(s) == emphasized(s));
        while i < n
            invariant
                s == v@,
                n == s.len(),
                i <= n,
                plain_text(s) == raw@ + plain_text(s.skip(i as int)),
                emphasized(s) == rows(found@) + emphasized_from(s.skip(i as int), in_bold, current@),
                !in_bold ==> current@.len() == 0,
            decreases n - i,
        {
            let ghost rest = s.skip(i as int);
            let ghost before = rows(found@);
            let c = v[i];
            assert(rest[0] == c);
            if c == '*' && i + 1 < n && v[i + 1] == '*' {
                assert(rest[1] == v@[i + 1]);
                assert(rest.skip(2) == s.skip(i + 2));
                if in_bold {
                    let ghost tail = emphasized_from(s.skip(i + 2), false, Seq::empty());
                    let ghost closed = phrase(current@);
                    let p = trimmed(&current);
                    if p.len() > 0 {
                        found.push(p);
                    }
                    assert(rows(found@) == before + closed);
                    assert((before + closed) + tail == before + (closed + tail));
                    current = Vec::new();
                } else {
                    assert(current@ == Seq::<char>::empty());
                }
                in_bold = !in_bold;
                i += 2;
            } else {
                assert(!at_marker(rest)) by {
                    if rest.len() >= 2 {
                        assert(rest[1] == v@[i + 1]);
                    }
                }
                assert(rest.skip(1) == s.skip(i + 1));
                if c != '`' {
                    let ghost kept = raw@;
                    raw.push(c);
                    assert(raw@ == kept + seq![c]);
                    if in_bold {
                        current.push(c);
                    }
                }
                i += 1;
            }
        }
        let highlights = strings_of(&found);
        (string_of(&raw), highlights)
    }

    /// The sentinel for a strategy that could not be had: its text is
    /// `[FAILED] ` and the message, and it has no highlights.
    pub fn failed(error_msg: &str) -> (r: Self)
        ensures
            r@.markdown == failure_text(error_msg@),
            r@.raw == failure_text(error_msg@),
            r@.highlights.len() == 0,
            r.well_formed(),
    {
        let mut text: Vec<char> = Vec::new();
        push_str(&mut text, "[FAILED] ");
        push_str(&mut text, error_msg);
        assert(text@ == failure_text(error_msg@));
        Strategy { markdown: string_of(&text), raw: string_of(&text), highlights: Vec::new() }
    }

    /// The strategy as it is shown: its `markdown`.
    pub fn to_string(&self) -> (r: String)
        ensures
            r@ == self@.markdown,
    {
        self.markdown.clone()
    }
}

impl Clone for Strategy {
    fn clone(&self) -> (r: Self)
        ensures
            r@ == self@,
    {
        let mut highlights: Vec<String> = Vec::new();
        let mut i: usize = 0;
        while i < self.highlights.len()
            invariant
                i <= self.highlights@.len(),
                highlights@.len() == i,
                forall|j: int| 0 <= j < i ==> highlights@[j]@ == self.highlights@[j]@,
            decreases self.highlights@.len() - i,
        {
            highlights.push(self.highlights[i].clone());
            i += 1;
        }
        assert(texts(highlights@) =~= texts(self.highlights@));
        Strategy { markdown: self.markdown.clone(), raw: self.raw.clone(), highlights }
    }
}

/// The marker that a reply puts before its strategy.
pub const STRATEGY_MARKER: &'static str = "STRATEGY:";

/// How many characters of a reply without the marker are taken for the
/// strategy.
pub const FALLBACK_LENGTH: usize = 500;

/// How many lines after the marker's line are taken where that line holds
/// nothing.
pub const CONTINUATION_LINES: usize = 4;

/// The lines of `ls` that follow the first, at most `CONTINUATION_LINES` of
/// them.
pub open spec fn continuation(ls: Seq<Seq<char>>) -> Seq<Seq<char>> {
    if ls.len() <= 1 {
        Seq::empty()
    } else if ls.len() <= 1 + CONTINUATION_LINES {
        ls.subrange(1, ls.len() as int)
    } else {
        ls.subrange(1, 1 + CONTINUATION_LINES as int)
    }
}

/// What follows the marker counts as the strategy: the rest of the marker's
/// line, trimmed; or, where that is empty, the lines after it, at most
/// `CONTINUATION_LINES`, joined by single spaces and trimmed.
pub open spec fn after_marker(after: Seq<char>) -> Seq<char> {
    let ls = lines(after);
    if ls.len() > 0 && trim(ls[0]).len() > 0 {
        trim(ls[0])
    } else {
        trim(join(continuation(ls), " "@))
    }
}

/// The first `FALLBACK_LENGTH` characters of `response`, trimmed.
pub open spec fn fallback_text(response: Seq<char>) -> Seq<char> {
    if response.len() <= FALLBACK_LENGTH {
        trim(response)
    } else {
        trim(response.take(FALLBACK_LENGTH as int))
    }
}

/// The text of the strategy in the reply `response`: what follows the first
/// marker, or, in a reply without a marker, its beginning.
pub open spec fn strategy_text(response: Seq<char>) -> Seq<char> {
    match find(response, STRATEGY_MARKER@) {
        Some(i) => after_marker(response.skip(i + STRATEGY_MARKER@.len())),
        None => fallback_text(response),
    }
}

/// Whether the reply `response` holds the marker.
pub open spec fn follows_format(response: Seq<char>) -> bool {
    find(response, STRATEGY_MARKER@) is Some
}

/// The text of the strategy in a reply, as characters.
fn extract_strategy_text(v: &Vec<char>) -> (r: Vec<char>)
    ensures
        r@ == strategy_text(v@),
{
    let marker = chars_of(STRATEGY_MARKER);
    match find_first(v, &marker) {
        Some(i) => {
            let n: usize = v.len();
            assert(i + marker@.len() <= n);
            let after = copy_range(v, i + marker.len(), n);
            assert(after@ == v@.skip(i + STRATEGY_MARKER@.len()));
            let ls = split_lines(&after);
            if ls.len() > 0 {
                let first = trimmed(&ls[0]);
                assert(rows(ls@)[0] == ls@[0]@);
                if first.len() > 0 {
                    return first;
                }
            }
            let to: usize = if ls.len() <= 1 {
                1
            } else if ls.len() <= 1 + CONTINUATION_LINES {
                ls.len()
            } else {
                1 + CONTINUATION_LINES
            };
            let space = chars_of(" ");
            let joined = if ls.len() <= 1 {
                Vec::new()
            } else {
                join_range(&ls, 1, to, &space)
            };
            assert(joined@ == join(continuation(lines(after@)), " "@)) by {
                if ls.len() <= 1 {
                    assert(continuation(rows(ls@)).len() == 0);
                }
            }
            trimmed(&joined)
        },
        None => {
            let to: usize = if v.len() <= FALLBACK_LENGTH {
                v.len()
            } else {
                FALLBACK_LENGTH
            };
            let (lo, hi) = trim_bounds(v, 0, to);
            assert(v@.subrange(0, to as int) == v@.take(to as int));
            assert(v@.take(v@.len() as int) == v@);
            copy_range(v, lo, hi)
        },
    }
}

/// Reads the strategy out of an agent's reply. It never fails: a reply
/// without the marker gives its own beginning as the strategy.
pub fn parse_strategy(response: &str) -> (r: Strategy)
    ensures
        r@ == parsed(strategy_text(response@)),
        r.well_formed(),
{
    let v = chars_of(response);
    let text = extract_strategy_text(&v);
    let owned = string_of(&text);
    Strategy::parse(owned.as_str())
}

/// Whether an agent's reply holds the marker that the reply format asks for.
pub fn reply_follows_format(response: &str) -> (b: bool)
    ensures
        b == follows_format(response@),
{
    let v = chars_of(response);
    let marker = chars_of(STRATEGY_MARKER);
    find_first(&v, &marker).is_some()
}

/// A reply that is the marker, a space and one line of text gives that
/// text, trimmed, as its strategy.
pub proof fn lemma_single_line_reply(x: Seq<char>)
    requires
        forall|i: int| 0 <= i < x.len() ==> #[trigger] x[i] != '\n',
    ensures
        strategy_text("STRATEGY: "@ + x) == trim(x),
        parsed(strategy_text("STRATEGY: "@ + x)).markdown == trim(x),
{
    reveal_strlit("STRATEGY: ");
    reveal_strlit("STRATEGY:");
    reveal_strlit(" ");
    let marker = STRATEGY_MARKER@;
    let response = "STRATEGY: "@ + x;
    assert(response.subrange(0, 9) =~= marker);
    assert(occurs_at(response, marker, 0));
    let after = response.skip(9);
    assert(after =~= seq![' '] + x);
    assert forall|i: int| 0 <= i < after.len() implies #[trigger] after[i] != '\n' by {
        if i > 0 {
            assert(after[i] == x[i - 1]);
        }
    }
    lemma_line_end_is(after, after.len());
    let ls = lines(after);
    assert(ls =~= seq![after]);
    assert(after.skip(1) =~= x);
    assert(trim_start(after) == trim_start(x)) by {
        crate::text::lemma_leading_spaces(x);
        assert(leading_spaces(after) == 1 + leading_spaces(x));
        assert(after.skip(1 + leading_spaces(x) as int) =~= x.skip(leading_spaces(x) as int));
    }
    if trim(after).len() == 0 {
        assert(continuation(ls).len() == 0);
        assert(trim(Seq::<char>::empty()) =~= Seq::<char>::empty());
        assert(trim(x) =~= Seq::<char>::empty());
    }
}

} // verus!
