//! The scratch file that a strategy is edited in.

use crate::lines::{join, join_range, lines, split_lines};
use crate::review::EditorOutcome;
use crate::text::{
    chars_of, is_space, is_whitespace, leading_spaces, lemma_leading_spaces_is, push_str, rows,
    string_of, trim, trimmed,
};
use vstd::prelude::*;

verus! {

/// What the scratch file says before the strategy.
pub const SCRATCH_HEADER: &'static str =
    "# Edit the strategy below. Lines starting with # are ignored.\n# Save and exit to apply changes, or exit without saving to cancel.\n\n";

/// What the scratch file for `strategy` holds: two lines of comment, an
/// empty line, and the strategy on lines of its own.
pub open spec fn scratch_text(strategy: Seq<char>) -> Seq<char> {
    SCRATCH_HEADER@ + strategy + "\n"@
}

/// Whether `line` is a comment: its first character after white space is a
/// hash sign.
pub open spec fn is_comment(line: Seq<char>) -> bool {
    leading_spaces(line) < line.len() && line[leading_spaces(line) as int] == '#'
}

/// The lines of `ls` that are no comments, in their order.
pub open spec fn without_comments(ls: Seq<Seq<char>>) -> Seq<Seq<char>>
    decreases ls.len(),
{
    if ls.len() == 0 {
        Seq::empty()
    } else if is_comment(ls.last()) {
        without_comments(ls.drop_last())
    } else {
        without_comments(ls.drop_last()).push(ls.last())
    }
}

/// The strategy that the scratch file `content` holds: its lines without
/// the comments, joined by line feeds and trimmed.
pub open spec fn edited_text(content: Seq<char>) -> Seq<char> {
    trim(join(without_comments(lines(content)), "\n"@))
}

/// What the editor gave: nothing new where it did not end well, where the
/// file was not written, or where it holds no strategy; else the strategy
/// that the file holds.
pub open spec fn editor_result(exit_ok: bool, modified: bool, content: Seq<char>) -> Option<Seq<char>> {
    if exit_ok && modified && edited_text(content).len() > 0 {
        Some(edited_text(content))
    } else {
        None
    }
}

/// What the scratch file for `strategy` holds.
pub fn scratch_file_text(strategy: &str) -> (r: String)
    ensures
        r@ == scratch_text(strategy@),
{
    let mut out: Vec<char> = Vec::new();
    push_str(&mut out, SCRATCH_HEADER);
    push_str(&mut out, strategy);
    push_str(&mut out, "\n");
    string_of(&out)
}

/// Whether `line` is a comment.
fn line_is_comment(line: &Vec<char>) -> (b: bool)
    ensures
        b == is_comment(line@),
{
    let n: usize = line.len();
    let mut i: usize = 0;
    while i < n && is_whitespace(line[i])
        invariant
            n == line@.len(),
            i <= n,
            forall|j: int| 0 <= j < i ==> is_space(#[trigger] line@[j]),
        decreases n - i,
    {
        i += 1;
    }
    proof {
        lemma_leading_spaces_is(line@, i as nat);
    }
    i < n && line[i] == '#'
}

/// The strategy that the scratch file `content` holds, if it holds one.
pub fn edited_strategy(content: &str) -> (r: Option<String>)
    ensures
        match r {
            Some(text) => text@ == edited_text(content@) && text@.len() > 0,
            None => edited_text(content@).len() == 0,
        },
{
    let v = chars_of(content);
    let ls = split_lines(&v);
    let ghost all = rows(ls@);
    let mut kept: Vec<Vec<char>> = Vec::new();
    let mut i: usize = 0;
    assert(all.take(0).len() == 0);
    assert(rows(kept@) =~= without_comments(all.take(0)));
    while i < ls.len()
        invariant
            i <= ls@.len(),
            all == rows(ls@),
            rows(kept@) == without_comments(all.take(i as int)),
        decreases ls@.len() - i,
    {
        let ghost before = rows(kept@);
        proof {
            let next = all.take(i + 1);
            assert(next.drop_last() == all.take(i as int));
            assert(next.last() == ls@[i as int]@);
        }
        if !line_is_comment(&ls[i]) {
            kept.push(ls[i].clone());
            assert(rows(kept@) =~= before.push(ls@[i as int]@));
        }
        i += 1;
    }
    assert(all.take(ls@.len() as int) == all);
    assert(rows(kept@).subrange(0, kept@.len() as int) == rows(kept@));
    let feed = chars_of("\n");
    let text = trimmed(&join_range(&kept, 0, kept.len(), &feed));
    if text.len() == 0 {
        None
    } else {
        Some(string_of(&text))
    }
}

/// What the editor gave, from whether it ended well, whether the scratch
/// file was written, and what the file holds.
pub fn editor_outcome(exit_ok: bool, modified: bool, content: &str) -> (r: EditorOutcome)
    ensures
        r is Saved || r is Unchanged,
        r matches EditorOutcome::Saved(text) ==> editor_result(exit_ok, modified, content@) == Some(
            text@,
        ),
        r is Unchanged ==> editor_result(exit_ok, modified, content@) is None,
{
    if !exit_ok || !modified {
        return EditorOutcome::Unchanged;
    }
    match edited_strategy(content) {
        Some(text) => EditorOutcome::Saved(text),
        None => EditorOutcome::Unchanged,
    }
}

} // verus!
