//! One agent session as the run sees it: how it is set up, what its messages
//! say, and the transcript that grows while its stream is read.

use crate::number::{decimal, digit, digit_char, push_decimal};
use crate::text::{clone_opt, opt_str_text, opt_text, push_all, push_str, string_of};
use vstd::prelude::*;

verus! {

/// Why a session could not be had.
#[derive(Debug, PartialEq)]
pub enum SessionError {
    /// The agent's interface failed; the text says how.
    SdkError(String),
}

/// What a [`SessionError`] says.
pub open spec fn session_error_text(e: SessionError) -> Seq<char> {
    match e {
        SessionError::SdkError(why) => "Agent SDK error: "@ + why@,
    }
}

impl SessionError {
    /// The error as a message.
    pub fn to_string(&self) -> (r: String)
        ensures
            r@ == session_error_text(*self),
    {
        let mut out: Vec<char> = Vec::new();
        match self {
            SessionError::SdkError(why) => {
                push_str(&mut out, "Agent SDK error: ");
                push_str(&mut out, why.as_str());
            },
        }
        string_of(&out)
    }
}

/// What a session gave.
#[derive(Debug, PartialEq)]
pub struct SessionResult {
    /// The full text of the session.
    pub transcript: String,
    /// Whether the session ran to its end.
    pub success: bool,
}

impl Clone for SessionResult {
    fn clone(&self) -> (r: Self)
        ensures
            r.transcript@ == self.transcript@,
            r.success == self.success,
    {
        SessionResult { transcript: self.transcript.clone(), success: self.success }
    }
}

/// How a session is set up, for the interface that runs it.
#[derive(Debug, PartialEq)]
pub struct SessionOptions {
    /// Whether the agent acts without asking for permission.
    pub bypass_permissions: bool,
    /// The directory the agent works in; its own where there is none.
    pub cwd: Option<String>,
    /// The model the agent uses; its default where there is none.
    pub model: Option<String>,
}

/// A session that is yet to run.
pub struct ClaudeSession {
    cwd: Option<String>,
    model: Option<String>,
}

/// A copy of an optional string slice.
fn owned_opt(o: Option<&str>) -> (r: Option<String>)
    ensures
        opt_text(r) == opt_str_text(o),
{
    match o {
        Some(s) => Some(s.to_owned()),
        None => None,
    }
}

/// An optional string as a slice.
fn borrowed_opt(o: &Option<String>) -> (r: Option<&str>)
    ensures
        opt_str_text(r) == opt_text(*o),
{
    match o {
        Some(s) => Some(s.as_str()),
        None => None,
    }
}

impl ClaudeSession {
    /// The directory the session works in, if one was given.
    pub closed spec fn cwd_text(&self) -> Option<Seq<char>> {
        opt_text(self.cwd)
    }

    /// The model the session uses, if one was given.
    pub closed spec fn model_text(&self) -> Option<Seq<char>> {
        opt_text(self.model)
    }

    /// A session in the agent's own directory, with the model `model`.
    pub fn with_model(model: Option<&str>) -> (r: Self)
        ensures
            r.cwd_text() is None,
            r.model_text() == opt_str_text(model),
    {
        ClaudeSession { cwd: None, model: owned_opt(model) }
    }

    /// A session in the directory `cwd`, with the model `model`.
    pub fn with_cwd_and_model(cwd: &str, model: Option<&str>) -> (r: Self)
        ensures
            r.cwd_text() == Some(cwd@),
            r.model_text() == opt_str_text(model),
    {
        ClaudeSession { cwd: Some(cwd.to_owned()), model: owned_opt(model) }
    }

    /// The directory the session works in, if one was given.
    pub fn cwd(&self) -> (r: Option<&str>)
        ensures
            opt_str_text(r) == self.cwd_text(),
    {
        borrowed_opt(&self.cwd)
    }

    /// The model the session uses, if one was given.
    pub fn model(&self) -> (r: Option<&str>)
        ensures
            opt_str_text(r) == self.model_text(),
    {
        borrowed_opt(&self.model)
    }

    /// How the session is set up: the agent acts without asking, in the
    /// session's directory and with its model.
    pub fn build_options(&self) -> (r: SessionOptions)
        ensures
            r.bypass_permissions,
            opt_text(r.cwd) == self.cwd_text(),
            opt_text(r.model) == self.model_text(),
    {
        SessionOptions {
            bypass_permissions: true,
            cwd: clone_opt(&self.cwd),
            model: clone_opt(&self.model),
        }
    }
}

impl Default for ClaudeSession {
    fn default() -> (r: Self)
        ensures
            r.cwd_text() is None,
            r.model_text() is None,
    {
        ClaudeSession { cwd: None, model: None }
    }
}

/// One part of what an agent said.
#[derive(Debug, PartialEq)]
pub enum ContentBlock {
    /// Text.
    Text(String),
    /// The use of a tool, by the tool's name.
    ToolUse(String),
    /// Anything else.
    Other,
}

/// One message of a session.
#[derive(Debug, PartialEq)]
pub enum Message {
    /// What the agent said.
    Assistant(Vec<ContentBlock>),
    /// A notice of the system, by its subtype.
    System(String),
    /// The end of the session, with its cost in ten-thousandths of a dollar
    /// where it is known.
    Result(Option<u64>),
    /// Anything else.
    Other,
}

/// What a block adds to the text of a message: its text; for a tool, a line
/// with its name; else nothing.
pub open spec fn block_text(b: ContentBlock) -> Seq<char> {
    match b {
        ContentBlock::Text(t) => t@,
        ContentBlock::ToolUse(name) => "[Tool: "@ + name@ + "]\n"@,
        ContentBlock::Other => Seq::empty(),
    }
}

/// What the blocks add, in their order.
pub open spec fn blocks_text(bs: Seq<ContentBlock>) -> Seq<char>
    decreases bs.len(),
{
    if bs.len() == 0 {
        Seq::empty()
    } else {
        blocks_text(bs.drop_last()) + block_text(bs.last())
    }
}

/// A cost of `e4` ten-thousandths of a dollar in dollars, with four decimals.
pub open spec fn cost_text(e4: nat) -> Seq<char> {
    decimal(e4 / 10000) + seq![
        '.',
        digit((e4 / 1000 % 10) as int),
        digit((e4 / 100 % 10) as int),
        digit((e4 / 10 % 10) as int),
        digit((e4 % 10) as int),
    ]
}

/// The cost that a result message counts: the one it gives, or none.
pub open spec fn cost_or_zero(cost: Option<u64>) -> nat {
    match cost {
        Some(c) => c as nat,
        None => 0,
    }
}

/// The text that a message gives to a transcript, if it gives any. What the
/// agent said gives its blocks' text unless that is empty; a notice and the
/// end of the session give a line in brackets; anything else gives nothing.
pub open spec fn message_text(m: Message) -> Option<Seq<char>> {
    match m {
        Message::Assistant(blocks) => if blocks_text(blocks@).len() == 0 {
            None
        } else {
            Some(blocks_text(blocks@))
        },
        Message::System(subtype) => Some("[System: "@ + subtype@ + "]"@),
        Message::Result(cost) => Some(
            "[Session complete - cost: $"@ + cost_text(cost_or_zero(cost)) + "]"@,
        ),
        Message::Other => None,
    }
}

/// What a message adds to a transcript: its text and a line feed, or nothing.
pub open spec fn message_line(m: Message) -> Seq<char> {
    match message_text(m) {
        Some(t) => t + "\n"@,
        None => Seq::empty(),
    }
}

/// What the messages add to a transcript, in their order.
pub open spec fn response_text(ms: Seq<Message>) -> Seq<char>
    decreases ms.len(),
{
    if ms.len() == 0 {
        Seq::empty()
    } else {
        response_text(ms.drop_last()) + message_line(ms.last())
    }
}

/// Appends a cost in dollars, with four decimals.
fn push_cost(dst: &mut Vec<char>, e4: u64)
    ensures
        final(dst)@ == old(dst)@ + cost_text(e4 as nat),
{
    push_decimal(dst, e4 / 10000);
    let ghost whole = dst@;
    dst.push('.');
    dst.push(digit_char((e4 / 1000 % 10) as u8));
    dst.push(digit_char((e4 / 100 % 10) as u8));
    dst.push(digit_char((e4 / 10 % 10) as u8));
    dst.push(digit_char((e4 % 10) as u8));
    assert(dst@ == whole + seq![
        '.',
        digit((e4 / 1000 % 10) as int),
        digit((e4 / 100 % 10) as int),
        digit((e4 / 10 % 10) as int),
        digit((e4 % 10) as int),
    ]);
}

/// The characters that a message gives to a transcript, if it gives any.
fn message_chars(message: &Message) -> (r: Option<Vec<char>>)
    ensures
        match r {
            Some(v) => message_text(*message) == Some(v@),
            None => message_text(*message) is None,
        },
{
    let mut out: Vec<char> = Vec::new();
    match message {
        Message::Assistant(blocks) => {
            let mut i: usize = 0;
            assert(blocks@.take(0).len() == 0);
            while i < blocks.len()
                invariant
                    i <= blocks@.len(),
                    out@ == blocks_text(blocks@.take(i as int)),
                decreases blocks@.len() - i,
            {
                proof {
                    let next = blocks@.take(i + 1);
                    assert(next.drop_last() == blocks@.take(i as int));
                    assert(next.last() == blocks@[i as int]);
                }
                match &blocks[i] {
                    ContentBlock::Text(t) => {
                        push_str(&mut out, t.as_str());
                    },
                    ContentBlock::ToolUse(name) => {
                        let ghost sofar = out@;
                        push_str(&mut out, "[Tool: ");
                        push_str(&mut out, name.as_str());
                        push_str(&mut out, "]\n");
                        assert(out@ == sofar + ("[Tool: "@ + name@ + "]\n"@));
                    },
                    ContentBlock::Other => {
                        assert(out@ + Seq::<char>::empty() == out@);
                    },
                }
                i += 1;
            }
            assert(blocks@.take(blocks@.len() as int) == blocks@);
            if out.len() == 0 {
                None
            } else {
                Some(out)
            }
        },
        Message::System(subtype) => {
            push_str(&mut out, "[System: ");
            push_str(&mut out, subtype.as_str());
            push_str(&mut out, "]");
            Some(out)
        },
        Message::Result(cost) => {
            let e4: u64 = match cost {
                Some(c) => *c,
                None => 0,
            };
            push_str(&mut out, "[Session complete - cost: $");
            push_cost(&mut out, e4);
            push_str(&mut out, "]");
            Some(out)
        },
        Message::Other => None,
    }
}

/// The text that a message gives to a transcript, if it gives any.
pub fn extract_text_from_message(message: &Message) -> (r: Option<String>)
    ensures
        opt_text(r) == message_text(*message),
{
    match message_chars(message) {
        Some(v) => Some(string_of(&v)),
        None => None,
    }
}

/// The text of a reply that came as `messages`: the text of each message
/// that has one, each followed by a line feed.
pub fn collect_response_text(messages: &[Message]) -> (r: String)
    ensures
        r@ == response_text(messages@),
{
    let mut out: Vec<char> = Vec::new();
    let mut i: usize = 0;
    assert(messages@.take(0).len() == 0);
    while i < messages.len()
        invariant
            i <= messages@.len(),
            out@ == response_text(messages@.take(i as int)),
        decreases messages@.len() - i,
    {
        proof {
            let next = messages@.take(i + 1);
            assert(next.drop_last() == messages@.take(i as int));
            assert(next.last() == messages@[i as int]);
        }
        let ghost sofar = out@;
        match message_chars(&messages[i]) {
            Some(v) => {
                push_all(&mut out, &v);
                push_str(&mut out, "\n");
                assert(out@ == sofar + (v@ + "\n"@));
            },
            None => {
                assert(out@ + Seq::<char>::empty() == out@);
            },
        }
        i += 1;
    }
    assert(messages@.take(messages@.len() as int) == messages@);
    string_of(&out)
}

/// What opens the transcript of a session.
pub const PROMPT_HEADER: &'static str = "=== PROMPT ===\n";

/// What stands between the prompt and the messages of a session.
pub const SESSION_HEADER: &'static str = "\n\n=== SESSION ===\n";

/// What stands before the error that broke a session off.
pub const STREAM_ERROR_HEADER: &'static str = "\n=== ERROR ===\nStream error: ";

/// What a [`SessionLog`] holds, as plain values.
pub struct LogView {
    pub transcript: Seq<char>,
    pub open: bool,
    pub success: bool,
}

/// The log of a session that was sent `prompt` and has received nothing
/// yet.
pub open spec fn begun(prompt: Seq<char>) -> LogView {
    LogView { transcript: PROMPT_HEADER@ + prompt + SESSION_HEADER@, open: true, success: true }
}

/// The log after the message `m`: its line is added, and the message that
/// ends the session closes the log. A closed log takes nothing.
pub open spec fn received(log: LogView, m: Message) -> LogView {
    if !log.open {
        log
    } else {
        LogView {
            transcript: log.transcript + message_line(m),
            open: !(m is Result),
            success: log.success,
        }
    }
}

/// The log after its stream broke with `error`: the error is added, the log
/// is closed, and the session has failed. A closed log takes nothing.
pub open spec fn broken(log: LogView, error: Seq<char>) -> LogView {
    if !log.open {
        log
    } else {
        LogView {
            transcript: log.transcript + STREAM_ERROR_HEADER@ + error + "\n"@,
            open: false,
            success: false,
        }
    }
}

/// The log after its stream ended.
pub open spec fn ended(log: LogView) -> LogView {
    LogView { open: false, ..log }
}

/// The transcript of a session while its stream is read.
pub struct SessionLog {
    transcript: Vec<char>,
    open: bool,
    success: bool,
}

impl View for SessionLog {
    type V = LogView;

    closed spec fn view(&self) -> LogView {
        LogView { transcript: self.transcript@, open: self.open, success: self.success }
    }
}

impl SessionLog {
    /// The log of a session that was sent `prompt`.
    pub fn begin(prompt: &str) -> (r: Self)
        ensures
            r@ == begun(prompt@),
    {
        let mut transcript: Vec<char> = Vec::new();
        push_str(&mut transcript, PROMPT_HEADER);
        push_str(&mut transcript, prompt);
        push_str(&mut transcript, SESSION_HEADER);
        SessionLog { transcript, open: true, success: true }
    }

    /// Takes a message of the stream, and says whether more are awaited.
    pub fn on_message(&mut self, message: &Message) -> (more: bool)
        ensures
            final(self)@ == received(old(self)@, *message),
            more == final(self)@.open,
    {
        if self.open {
            let ghost sofar = self.transcript@;
            match message_chars(message) {
                Some(v) => {
                    push_all(&mut self.transcript, &v);
                    push_str(&mut self.transcript, "\n");
                    assert(self.transcript@ == sofar + (v@ + "\n"@));
                },
                None => {
                    assert(sofar + Seq::<char>::empty() == sofar);
                },
            }
            match message {
                Message::Result(_) => {
                    self.open = false;
                },
                _ => {},
            }
        }
        self.open
    }

    /// Takes the error that broke the stream off.
    pub fn on_stream_error(&mut self, error: &str)
        ensures
            final(self)@ == broken(old(self)@, error@),
    {
        if self.open {
            push_str(&mut self.transcript, STREAM_ERROR_HEADER);
            push_str(&mut self.transcript, error);
            push_str(&mut self.transcript, "\n");
            self.open = false;
            self.success = false;
        }
    }

    /// Takes the end of the stream.
    pub fn on_end(&mut self)
        ensures
            final(self)@ == ended(old(self)@),
    {
        self.open = false;
    }

    /// Whether more messages are awaited.
    pub fn is_open(&self) -> (r: bool)
        ensures
            r == self@.open,
    {
        self.open
    }

    /// What the session gave: its transcript, and whether it ran to its end.
    pub fn finish(self) -> (r: SessionResult)
        ensures
            r.transcript@ == self@.transcript,
            r.success == self@.success,
    {
        SessionResult { transcript: string_of(&self.transcript), success: self.success }
    }
}

} // verus!
