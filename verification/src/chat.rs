//! The conversation about one strategy: where a revision is to be written,
//! and what came of the conversation.

use crate::number::{decimal, push_decimal};
use crate::review::{ChatResult, ChatView};
use crate::text::{chars_of, push_str, string_of, trim, trimmed};
use vstd::prelude::*;

verus! {

/// How the program that holds the conversation ended.
#[derive(Debug, PartialEq)]
pub enum ProcessExit {
    /// It ran and ended, well if `success`, with the status `code` if it
    /// gave one.
    Exited { success: bool, code: Option<i32> },
    /// It could not be started; the text says why.
    NotStarted(String),
}

/// What was found where a revision was to be written.
#[derive(Debug, PartialEq)]
pub enum ScratchFile {
    /// No file.
    Missing,
    /// A file with this text.
    Content(String),
    /// A file that could not be read; the text says why.
    Unreadable(String),
}

/// `i` in decimal notation, with a minus sign where it is negative.
pub open spec fn signed_decimal(i: int) -> Seq<char> {
    if i < 0 {
        "-"@ + decimal((-i) as nat)
    } else {
        decimal(i as nat)
    }
}

/// The name of the file that takes the revision of a conversation held by
/// the process `pid` and begun at the time `nanos`.
pub open spec fn scratch_name(pid: nat, nanos: nat) -> Seq<char> {
    "contra-strategy-"@ + decimal(pid) + "-"@ + decimal(nanos) + ".md"@
}

/// The status that a program counts as having ended with: the one it gave,
/// or -1.
pub open spec fn status_or_unknown(code: Option<i32>) -> int {
    match code {
        Some(c) => c as int,
        None => -1,
    }
}

/// What came of a conversation. A program that did not start or did not
/// end well is an error. Else a file with a text that is not only white
/// space is a revision, trimmed; a file that cannot be read is an error;
/// anything else leaves the strategy as it is.
pub open spec fn chat_outcome(exit: ProcessExit, scratch: ScratchFile) -> ChatView {
    match exit {
        ProcessExit::NotStarted(why) => ChatView::Error("Failed to spawn agent: "@ + why@),
        ProcessExit::Exited { success, code } => if !success {
            ChatView::Error("Agent exited with status: "@ + signed_decimal(status_or_unknown(code)))
        } else {
            match scratch {
                ScratchFile::Missing => ChatView::NoChanges,
                ScratchFile::Content(text) => if trim(text@).len() > 0 {
                    ChatView::RevisedStrategy(trim(text@))
                } else {
                    ChatView::NoChanges
                },
                ScratchFile::Unreadable(why) => ChatView::Error(
                    "Failed to read revised strategy: "@ + why@,
                ),
            }
        },
    }
}

/// The name of the file that takes the revision of a conversation.
pub fn scratch_file_name(pid: u32, nanos: u64) -> (r: String)
    ensures
        r@ == scratch_name(pid as nat, nanos as nat),
{
    let mut out: Vec<char> = Vec::new();
    push_str(&mut out, "contra-strategy-");
    push_decimal(&mut out, pid as u64);
    push_str(&mut out, "-");
    push_decimal(&mut out, nanos);
    push_str(&mut out, ".md");
    string_of(&out)
}

/// Appends `i` in decimal notation.
fn push_signed(dst: &mut Vec<char>, i: i32)
    ensures
        final(dst)@ == old(dst)@ + signed_decimal(i as int),
{
    if i < 0 {
        let ghost sofar = dst@;
        push_str(dst, "-");
        let wide: i64 = i as i64;
        push_decimal(dst, (-wide) as u64);
        assert(dst@ == sofar + ("-"@ + decimal((-i) as nat)));
    } else {
        push_decimal(dst, i as u64);
    }
}

/// What came of a conversation, from how its program ended and what was
/// found where a revision was to be written.
pub fn chat_result(exit: &ProcessExit, scratch: &ScratchFile) -> (r: ChatResult)
    ensures
        r@ == chat_outcome(*exit, *scratch),
{
    let mut out: Vec<char> = Vec::new();
    match exit {
        ProcessExit::NotStarted(why) => {
            push_str(&mut out, "Failed to spawn agent: ");
            push_str(&mut out, why.as_str());
            ChatResult::Error(string_of(&out))
        },
        ProcessExit::Exited { success, code } => {
            if !*success {
                let status: i32 = match code {
                    Some(c) => *c,
                    None => -1,
                };
                push_str(&mut out, "Agent exited with status: ");
                push_signed(&mut out, status);
                ChatResult::Error(string_of(&out))
            } else {
                match scratch {
                    ScratchFile::Missing => ChatResult::NoChanges,
                    ScratchFile::Content(text) => {
                        let t = trimmed(&chars_of(text.as_str()));
                        if t.len() > 0 {
                            ChatResult::RevisedStrategy(string_of(&t))
                        } else {
                            ChatResult::NoChanges
                        }
                    },
                    ScratchFile::Unreadable(why) => {
                        push_str(&mut out, "Failed to read revised strategy: ");
                        push_str(&mut out, why.as_str());
                        ChatResult::Error(string_of(&out))
                    },
                }
            }
        },
    }
}

} // verus!
