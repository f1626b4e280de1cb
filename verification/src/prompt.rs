//! The prompts that are sent to the agents.

use crate::number::{decimal, push_decimal};
use crate::text::{push_str, string_of, texts};
use vstd::prelude::*;

verus! {

/// What opens the prompt that asks for a strategy.
pub const STRATEGY_INTRO: &'static str =
    "For the following task, describe ONLY your implementation plan in 2-4 sentences. Do not implement anything yet.\n\nTask: ";

/// What tells the agent how to mark up its reply.
pub const STRATEGY_FORMATTING: &'static str =
    "Formatting: Using Markdown, put bold markers on the main features of your approach, and wrap any code snippets in backticks.\n\n";

/// The reply format that closes every prompt for a strategy.
pub const STRATEGY_REPLY_FORMAT: &'static str =
    "Reply with exactly this format:\nSTRATEGY: <your approach in 2-4 sentences>\n";

/// What opens the list of the strategies that a new one must differ from.
pub const EXCLUSION_HEADER: &'static str =
    "You MUST suggest a novel approach UTTERLY DIFFERENT from your competitors while still satisfying the task. The **bolded** text in each approach represents the key qualities you must avoid. Your competitors are using these approaches:";

/// What opens the prompt that asks for an implementation.
pub const IMPLEMENTATION_INTRO: &'static str =
    "Implement the following task using the specified strategy.\n\nTask: ";

/// What stands before the strategy that an implementation is bound to.
pub const IMPLEMENTATION_STRATEGY_HEADER: &'static str =
    "\n\nYOUR STRATEGY (you must follow this):\n";

/// What opens the list of the approaches that an implementation may not use.
pub const FORBIDDEN_HEADER: &'static str = "FORBIDDEN APPROACHES (do not use these):";

/// What closes the prompt that asks for an implementation.
pub const IMPLEMENTATION_CLOSING: &'static str = "\n\nProceed with implementation.";

/// What opens the prompt that binds an agent to an edited strategy.
pub const ASSIGNED_INTRO: &'static str =
    "For the following task, you will use a specific implementation strategy that has been provided.\n\nTask: ";

/// What stands before the edited strategy.
pub const ASSIGNED_STRATEGY_HEADER: &'static str =
    "\n\nYOUR ASSIGNED STRATEGY (you must follow this exactly):\n";

/// What opens the list of the other agents' approaches, given for awareness.
pub const AWARENESS_HEADER: &'static str =
    "Note: Other agents are using these approaches (for your awareness, not as constraints):";

/// What closes the prompt that binds an agent to an edited strategy.
pub const ASSIGNED_CLOSING: &'static str =
    "\n\nConfirm you understand by replying with:\nSTRATEGY: <restate the strategy in your own words>";

/// What opens the instructions of a conversation about one strategy.
pub const CHAT_INTRO: &'static str =
    "You are helping discuss a coding strategy for a task.\n\n## Task\n";

/// What stands before the index of the strategy under discussion.
pub const CHAT_STRATEGY_HEADER: &'static str = "\n\n## Current Strategy (C";

/// What opens the list of the approaches that the conversation may not
/// propose.
pub const CHAT_FORBIDDEN_HEADER: &'static str = "\n## FORBIDDEN APPROACHES (do not suggest these)";

/// What tells the agent how to open the conversation.
pub const CHAT_OPENING: &'static str =
    "\n\n---\n\nSTART your first message with exactly:\n\nDiscussing strategy: ";

/// What tells the agent how to answer and where to write a revision.
pub const CHAT_RULES: &'static str =
    "\n\nWhat would you like to know?\n\nTip: Say **\"revise\"** and I will update the strategy. Then you may leave the conversation to return to `contra`.\n\nThen wait for the user's question. Answer their questions helpfully.\nDo not suggest alternative strategies - focus on the current one.\n\nIf the user asks you to revise or update the strategy, write the complete revised\nstrategy (in markdown with **bold** key qualities) to this file:\n";

/// What closes the instructions of a conversation about one strategy.
pub const CHAT_CLOSING: &'static str =
    "\n\nWhen writing to the file, include ONLY the strategy text, nothing else.\nAfter writing the revised strategy, tell the user: \"Strategy revised. Type `/exit` to return to contra.\"";

/// The entries of `items`, each after `lead` and numbered from `first` on:
/// the number, a full stop, a space, the entry.
pub open spec fn numbered(items: Seq<Seq<char>>, first: nat, lead: Seq<char>) -> Seq<char>
    decreases items.len(),
{
    if items.len() == 0 {
        Seq::empty()
    } else {
        numbered(items.drop_last(), first, lead) + lead + decimal(
            (first + items.len() - 1) as nat,
        ) + ". "@ + items.last()
    }
}

/// The block that keeps a new strategy away from the `existing` ones: nothing
/// where there are none, else the header, the strategies numbered from 1, each
/// on a line of its own, and an empty line.
pub open spec fn exclusion_block(existing: Seq<Seq<char>>) -> Seq<char> {
    if existing.len() == 0 {
        Seq::empty()
    } else {
        EXCLUSION_HEADER@ + numbered(existing, 1, "\n"@) + "\n\n"@
    }
}

/// The prompt that asks for a strategy for `task`, different from each of
/// `existing`: the task, the exclusion block, and the reply format, which
/// comes last.
pub open spec fn strategy_prompt(task: Seq<char>, existing: Seq<Seq<char>>) -> Seq<char> {
    STRATEGY_INTRO@ + task + "\n\n"@ + exclusion_block(existing) + STRATEGY_FORMATTING@
        + STRATEGY_REPLY_FORMAT@
}

/// The list of the approaches that an implementation may not use: nothing
/// where there are none, else the header and the approaches numbered from 1.
pub open spec fn forbidden_block(excluded: Seq<Seq<char>>) -> Seq<char> {
    if excluded.len() == 0 {
        Seq::empty()
    } else {
        FORBIDDEN_HEADER@ + numbered(excluded, 1, "\n"@)
    }
}

/// The prompt that asks for an implementation of `task` by `strategy`, with
/// the `excluded` approaches forbidden.
pub open spec fn implementation_prompt(
    task: Seq<char>,
    strategy: Seq<char>,
    excluded: Seq<Seq<char>>,
) -> Seq<char> {
    IMPLEMENTATION_INTRO@ + task + IMPLEMENTATION_STRATEGY_HEADER@ + strategy + "\n\n"@
        + forbidden_block(excluded) + IMPLEMENTATION_CLOSING@
}

/// The list of the other agents' approaches, given for awareness: nothing
/// where there are none, else the header and the approaches numbered from 0,
/// each indented by two spaces.
pub open spec fn awareness_block(others: Seq<Seq<char>>) -> Seq<char> {
    if others.len() == 0 {
        Seq::empty()
    } else {
        AWARENESS_HEADER@ + numbered(others, 0, "\n  "@)
    }
}

/// The prompt that binds an agent to the strategy `edited` for `task`, and
/// asks it to confirm.
pub open spec fn assigned_strategy_prompt(
    task: Seq<char>,
    edited: Seq<char>,
    others: Seq<Seq<char>>,
) -> Seq<char> {
    ASSIGNED_INTRO@ + task + ASSIGNED_STRATEGY_HEADER@ + edited + "\n\n"@ + awareness_block(others)
        + ASSIGNED_CLOSING@
}

/// The list of the approaches that a conversation may not propose: nothing
/// where there are none, else the header and the approaches numbered from 1.
pub open spec fn chat_forbidden_block(excluded: Seq<Seq<char>>) -> Seq<char> {
    if excluded.len() == 0 {
        Seq::empty()
    } else {
        CHAT_FORBIDDEN_HEADER@ + numbered(excluded, 1, "\n"@)
    }
}

/// The instructions of a conversation about the strategy `markdown`, which
/// has the index `index`: the task, the strategy, the approaches of the
/// others as context, how to open, and the file `scratch_path` to write a
/// revision to.
pub open spec fn chat_prompt(
    task: Seq<char>,
    index: nat,
    markdown: Seq<char>,
    excluded: Seq<Seq<char>>,
    scratch_path: Seq<char>,
) -> Seq<char> {
    CHAT_INTRO@ + task + CHAT_STRATEGY_HEADER@ + decimal(index) + ")\n"@ + markdown + "\n"@
        + chat_forbidden_block(excluded) + CHAT_OPENING@ + markdown + CHAT_RULES@ + scratch_path
        + CHAT_CLOSING@
}

/// Appends the entries of `items`, each after `lead` and numbered from
/// `first` on.
fn push_numbered(dst: &mut Vec<char>, items: &[String], first: u64, lead: &str)
    requires
        first + items@.len() <= u64::MAX + 1,
    ensures
        final(dst)@ == old(dst)@ + numbered(texts(items@), first as nat, lead@),
{
    let ghost all = texts(items@);
    let mut i: usize = 0;
    assert(all.take(0).len() == 0);
    assert(dst@ == old(dst)@ + numbered(all.take(0), first as nat, lead@));
    while i < items.len()
        invariant
            i <= items@.len(),
            first + items@.len() <= u64::MAX + 1,
            all == texts(items@),
            dst@ == old(dst)@ + numbered(all.take(i as int), first as nat, lead@),
        decreases items@.len() - i,
    {
        let ghost sofar = dst@;
        let ghost done = numbered(all.take(i as int), first as nat, lead@);
        push_str(dst, lead);
        push_decimal(dst, first + i as u64);
        push_str(dst, ". ");
        push_str(dst, items[i].as_str());
        proof {
            let next = all.take(i + 1);
            assert(next.drop_last() == all.take(i as int));
            assert(next.last() == items@[i as int]@);
            let entry = lead@ + decimal((first + i) as nat) + ". "@ + items@[i as int]@;
            assert(dst@ == sofar + entry);
            assert(numbered(next, first as nat, lead@) == done + entry);
            assert(dst@ == old(dst)@ + numbered(next, first as nat, lead@));
        }
        i += 1;
    }
    assert(all.take(items@.len() as int) == all);
}

/// The prompt that asks an agent for a strategy for `task` that differs from
/// every strategy in `existing_strategies`.
pub fn build_strategy_prompt(task: &str, existing_strategies: &[String]) -> (r: String)
    ensures
        r@ == strategy_prompt(task@, texts(existing_strategies@)),
{
    let mut out: Vec<char> = Vec::new();
    push_str(&mut out, STRATEGY_INTRO);
    push_str(&mut out, task);
    push_str(&mut out, "\n\n");
    if existing_strategies.len() > 0 {
        push_str(&mut out, EXCLUSION_HEADER);
        push_numbered(&mut out, existing_strategies, 1, "\n");
        push_str(&mut out, "\n\n");
    }
    push_str(&mut out, STRATEGY_FORMATTING);
    push_str(&mut out, STRATEGY_REPLY_FORMAT);
    assert(out@ == strategy_prompt(task@, texts(existing_strategies@)));
    string_of(&out)
}

/// The prompt that asks an agent to implement `task` by `strategy` and to
/// stay away from every approach in `excluded_strategies`.
pub fn build_implementation_prompt(task: &str, strategy: &str, excluded_strategies: &[String]) -> (r:
    String)
    ensures
        r@ == implementation_prompt(task@, strategy@, texts(excluded_strategies@)),
{
    let mut out: Vec<char> = Vec::new();
    push_str(&mut out, IMPLEMENTATION_INTRO);
    push_str(&mut out, task);
    push_str(&mut out, IMPLEMENTATION_STRATEGY_HEADER);
    push_str(&mut out, strategy);
    push_str(&mut out, "\n\n");
    if excluded_strategies.len() > 0 {
        push_str(&mut out, FORBIDDEN_HEADER);
        push_numbered(&mut out, excluded_strategies, 1, "\n");
    }
    push_str(&mut out, IMPLEMENTATION_CLOSING);
    assert(out@ == implementation_prompt(task@, strategy@, texts(excluded_strategies@)));
    string_of(&out)
}

/// The prompt that binds an agent to the strategy `edited` for `task`, with
/// the approaches of the `others` for its awareness.
pub fn build_assigned_strategy_prompt(task: &str, edited: &str, others: &[String]) -> (r: String)
    ensures
        r@ == assigned_strategy_prompt(task@, edited@, texts(others@)),
{
    let mut out: Vec<char> = Vec::new();
    push_str(&mut out, ASSIGNED_INTRO);
    push_str(&mut out, task);
    push_str(&mut out, ASSIGNED_STRATEGY_HEADER);
    push_str(&mut out, edited);
    push_str(&mut out, "\n\n");
    if others.len() > 0 {
        push_str(&mut out, AWARENESS_HEADER);
        push_numbered(&mut out, others, 0, "\n  ");
    }
    push_str(&mut out, ASSIGNED_CLOSING);
    assert(out@ == assigned_strategy_prompt(task@, edited@, texts(others@)));
    string_of(&out)
}

/// The instructions of a conversation about the strategy `markdown` with the
/// index `index`, to be held with the `excluded` approaches as context, and
/// with `scratch_path` as the file that takes a revision.
pub fn build_chat_prompt(
    task: &str,
    index: usize,
    markdown: &str,
    excluded: &[String],
    scratch_path: &str,
) -> (r: String)
    ensures
        r@ == chat_prompt(task@, index as nat, markdown@, texts(excluded@), scratch_path@),
{
    let mut out: Vec<char> = Vec::new();
    push_str(&mut out, CHAT_INTRO);
    push_str(&mut out, task);
    push_str(&mut out, CHAT_STRATEGY_HEADER);
    push_decimal(&mut out, index as u64);
    push_str(&mut out, ")\n");
    push_str(&mut out, markdown);
    push_str(&mut out, "\n");
    if excluded.len() > 0 {
        push_str(&mut out, CHAT_FORBIDDEN_HEADER);
        push_numbered(&mut out, excluded, 1, "\n");
    }
    push_str(&mut out, CHAT_OPENING);
    push_str(&mut out, markdown);
    push_str(&mut out, CHAT_RULES);
    push_str(&mut out, scratch_path);
    push_str(&mut out, CHAT_CLOSING);
    assert(out@ == chat_prompt(task@, index as nat, markdown@, texts(excluded@), scratch_path@));
    string_of(&out)
}

} // verus!
