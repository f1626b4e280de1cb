//! The review of the collected strategies: what each key does.
//!
//! The review holds the records, the selected row, a status message and
//! whether the help is shown. The row after the last record accepts all. A
//! key changes the state and may ask the caller for outside work: to open an
//! editor, to copy a text, to ask an agent, or to hold a conversation. The
//! caller reports back what came of it.

use crate::number::{decimal, push_decimal};
use crate::prompt::{
    assigned_strategy_prompt, build_assigned_strategy_prompt, build_strategy_prompt,
    strategy_prompt,
};
use crate::record::{
    accepted, confirmed_record, elicited_record, exclusion_set, exclusions, failed_record,
    record_views, reply_view, revised_record, RecordView, StrategyRecord, CONFIRMATION_FAILED,
    GENERATION_FAILED,
};
use crate::text::{opt_str_text, opt_text, push_str, string_of, texts};
use vstd::prelude::*;

verus! {

/// The keys that the review tells apart.
#[derive(Debug, Clone, Copy, PartialEq, Eq, Structural)]
pub enum KeyCode {
    Char(char),
    Esc,
    Up,
    Down,
    Enter,
    Delete,
    Other,
}

/// A key that was pressed, and whether the control key was held with it.
#[derive(Debug, Clone, Copy, PartialEq, Eq, Structural)]
pub struct KeyPress {
    pub code: KeyCode,
    pub ctrl: bool,
}

/// What a key asks the review to do.
#[derive(Debug, Clone, Copy, PartialEq, Eq, Structural)]
pub enum Command {
    /// End the review and the whole run.
    Quit,
    /// Show the help.
    ShowHelp,
    /// Take the help away.
    HideHelp,
    /// Select the row above, or the last row from the first.
    Up,
    /// Select the row below, or the first row from the last.
    Down,
    /// Edit the selected strategy, or accept all on the last row.
    Enter,
    /// Remove the selected strategy.
    Delete,
    /// Copy the selected strategy.
    Copy,
    /// Ask for one more strategy.
    Add,
    /// Talk about the selected strategy.
    Chat,
    /// Nothing.
    Ignore,
}

/// What `key` asks for while the help is shown, if `help_visible`, or is
/// not. Control and `c` always quits. While the help is shown every other
/// key only takes it away.
pub open spec fn command_of(key: KeyPress, help_visible: bool) -> Command {
    if key.ctrl && key.code == KeyCode::Char('c') {
        Command::Quit
    } else if help_visible {
        Command::HideHelp
    } else {
        match key.code {
            KeyCode::Char(c) => if c == '?' {
                Command::ShowHelp
            } else if c == 'q' {
                Command::Quit
            } else if c == 'k' {
                Command::Up
            } else if c == 'j' {
                Command::Down
            } else if c == 'd' {
                Command::Delete
            } else if c == 'c' {
                Command::Copy
            } else if c == 'o' {
                Command::Add
            } else if c == 't' {
                Command::Chat
            } else {
                Command::Ignore
            },
            KeyCode::Esc => Command::Quit,
            KeyCode::Up => Command::Up,
            KeyCode::Down => Command::Down,
            KeyCode::Enter => Command::Enter,
            KeyCode::Delete => Command::Delete,
            KeyCode::Other => Command::Ignore,
        }
    }
}

/// What `key` asks for.
pub fn command_for(key: KeyPress, help_visible: bool) -> (r: Command)
    ensures
        r == command_of(key, help_visible),
{
    let ctrl_c = match key.code {
        KeyCode::Char(c) => key.ctrl && c == 'c',
        _ => false,
    };
    if ctrl_c {
        Command::Quit
    } else if help_visible {
        Command::HideHelp
    } else {
        match key.code {
            KeyCode::Char(c) => if c == '?' {
                Command::ShowHelp
            } else if c == 'q' {
                Command::Quit
            } else if c == 'k' {
                Command::Up
            } else if c == 'j' {
                Command::Down
            } else if c == 'd' {
                Command::Delete
            } else if c == 'c' {
                Command::Copy
            } else if c == 'o' {
                Command::Add
            } else if c == 't' {
                Command::Chat
            } else {
                Command::Ignore
            },
            KeyCode::Esc => Command::Quit,
            KeyCode::Up => Command::Up,
            KeyCode::Down => Command::Down,
            KeyCode::Enter => Command::Enter,
            KeyCode::Delete => Command::Delete,
            KeyCode::Other => Command::Ignore,
        }
    }
}

/// What the review asks its caller to do after a key.
#[derive(Debug, PartialEq)]
pub enum ReviewAction {
    /// Nothing but to show the state again.
    Continue,
    /// The review is over and so is the run.
    Quit,
    /// The review is over; the records are accepted.
    Accept,
    /// Open `markdown`, the strategy at `index`, in an editor.
    Edit { index: usize, markdown: String },
    /// Copy `text`, the strategy at `index`, to the clipboard.
    Copy { index: usize, text: String },
    /// Ask an agent with `prompt` for the strategy that will stand at
    /// `index`.
    Add { index: usize, prompt: String },
    /// Hold a conversation about the strategy at `index`, with the
    /// strategies of the others, `excluded`, as context.
    Chat { index: usize, excluded: Vec<String> },
}

/// What a [`ReviewAction`] holds, as plain values.
pub enum ActionView {
    Continue,
    Quit,
    Accept,
    Edit { index: nat, markdown: Seq<char> },
    Copy { index: nat, text: Seq<char> },
    Add { index: nat, prompt: Seq<char> },
    Chat { index: nat, excluded: Seq<Seq<char>> },
}

impl View for ReviewAction {
    type V = ActionView;

    open spec fn view(&self) -> ActionView {
        match self {
            ReviewAction::Continue => ActionView::Continue,
            ReviewAction::Quit => ActionView::Quit,
            ReviewAction::Accept => ActionView::Accept,
            ReviewAction::Edit { index, markdown } => ActionView::Edit {
                index: *index as nat,
                markdown: markdown@,
            },
            ReviewAction::Copy { index, text } => ActionView::Copy {
                index: *index as nat,
                text: text@,
            },
            ReviewAction::Add { index, prompt } => ActionView::Add {
                index: *index as nat,
                prompt: prompt@,
            },
            ReviewAction::Chat { index, excluded } => ActionView::Chat {
                index: *index as nat,
                excluded: texts(excluded@),
            },
        }
    }
}

/// What a [`Review`] holds, as plain values.
pub struct ReviewView {
    pub task: Seq<char>,
    pub records: Seq<RecordView>,
    pub selected: nat,
    pub status_message: Option<Seq<char>>,
    pub help_popup_visible: bool,
    pub clipboard_available: bool,
}

/// A status message about the record `index`: `head`, the index, `tail`.
pub open spec fn notice(head: Seq<char>, index: nat, tail: Seq<char>) -> Seq<char> {
    head + decimal(index) + tail
}

/// The review `s` with the status message `message`.
pub open spec fn with_status(s: ReviewView, message: Seq<char>) -> ReviewView {
    ReviewView { status_message: Some(message), ..s }
}

/// The review as it begins: the row that accepts all is selected.
pub open spec fn opened(task: Seq<char>, records: Seq<RecordView>, clipboard_available: bool) -> ReviewView {
    ReviewView {
        task,
        records,
        selected: records.len(),
        status_message: None,
        help_popup_visible: false,
        clipboard_available,
    }
}

/// The review `s`, without a status message, after the command `cmd`, and
/// what the caller is to do.
pub open spec fn applied(s: ReviewView, cmd: Command) -> (ReviewView, ActionView) {
    let n = s.records.len();
    let on_record = s.selected < n;
    match cmd {
        Command::Quit => (s, ActionView::Quit),
        Command::ShowHelp => (ReviewView { help_popup_visible: true, ..s }, ActionView::Continue),
        Command::HideHelp => (ReviewView { help_popup_visible: false, ..s }, ActionView::Continue),
        Command::Up => (
            ReviewView {
                selected: if s.selected == 0 {
                    n
                } else {
                    (s.selected - 1) as nat
                },
                ..s
            },
            ActionView::Continue,
        ),
        Command::Down => (
            ReviewView {
                selected: if s.selected >= n {
                    0
                } else {
                    s.selected + 1
                },
                ..s
            },
            ActionView::Continue,
        ),
        Command::Enter => if on_record {
            (
                s,
                ActionView::Edit {
                    index: s.selected,
                    markdown: s.records[s.selected as int].strategy.markdown,
                },
            )
        } else {
            (s, ActionView::Accept)
        },
        Command::Delete => if on_record && n > 1 {
            (
                ReviewView {
                    records: s.records.remove(s.selected as int),
                    selected: if s.selected >= n - 1 {
                        (n - 1) as nat
                    } else {
                        s.selected
                    },
                    status_message: Some(notice("Removed C"@, s.selected, Seq::empty())),
                    ..s
                },
                ActionView::Continue,
            )
        } else if on_record {
            (with_status(s, "Cannot remove last strategy"@), ActionView::Continue)
        } else {
            (with_status(s, "Select a strategy to delete"@), ActionView::Continue)
        },
        Command::Copy => if !on_record {
            (with_status(s, "Select a strategy to copy"@), ActionView::Continue)
        } else if !s.clipboard_available {
            (with_status(s, "Clipboard unavailable"@), ActionView::Continue)
        } else {
            (
                s,
                ActionView::Copy {
                    index: s.selected,
                    text: s.records[s.selected as int].strategy.markdown,
                },
            )
        },
        Command::Add => (
            s,
            ActionView::Add { index: n, prompt: strategy_prompt(s.task, accepted(s.records)) },
        ),
        Command::Chat => if on_record {
            (
                s,
                ActionView::Chat {
                    index: s.selected,
                    excluded: exclusions(s.records, s.selected as int),
                },
            )
        } else {
            (with_status(s, "Select a strategy to discuss"@), ActionView::Continue)
        },
        Command::Ignore => (s, ActionView::Continue),
    }
}

/// The review `s` after the key `key`, and what the caller is to do. Every
/// key first takes the status message away.
pub open spec fn key_step(s: ReviewView, key: KeyPress) -> (ReviewView, ActionView) {
    applied(
        ReviewView { status_message: None, ..s },
        command_of(key, s.help_popup_visible),
    )
}

/// What an editor gave.
#[derive(Debug, PartialEq)]
pub enum EditorOutcome {
    /// The operator saved this text, which is not empty.
    Saved(String),
    /// The operator left without saving, or saved nothing.
    Unchanged,
    /// The editor could not be used; the text says why.
    Failed(String),
}

/// The review `s` after the editor gave `text` for the record at `index`,
/// and, where the text differs from the record's strategy, the prompt that
/// asks an agent to confirm it. The same text again changes nothing.
pub open spec fn saved(s: ReviewView, index: nat, text: Seq<char>) -> (ReviewView, Option<Seq<char>>) {
    if index >= s.records.len() {
        (s, None)
    } else if text == s.records[index as int].strategy.markdown {
        (with_status(s, "Strategy unchanged"@), None)
    } else {
        (s, Some(assigned_strategy_prompt(s.task, text, exclusions(s.records, index as int))))
    }
}

/// The review `s` after an agent was asked to confirm the strategy `edited`
/// for the record at `index` and gave `reply`: the record is replaced, by
/// the edited strategy or by the record of the failure.
pub open spec fn confirmed(
    s: ReviewView,
    index: nat,
    edited: Seq<char>,
    reply: Result<Seq<char>, Seq<char>>,
) -> ReviewView {
    if index >= s.records.len() {
        s
    } else {
        ReviewView {
            records: s.records.update(
                index as int,
                match reply {
                    Ok(text) => confirmed_record(edited, text),
                    Err(why) => failed_record(CONFIRMATION_FAILED@, why),
                },
            ),
            status_message: Some(notice("C"@, index, " strategy updated"@)),
            ..s
        }
    }
}

/// The review `s` after the strategy at `index` was to be copied, with or
/// without success.
pub open spec fn copied(s: ReviewView, index: nat, outcome: Result<(), Seq<char>>) -> ReviewView {
    match outcome {
        Ok(_) => with_status(s, notice("C"@, index, " copied to clipboard"@)),
        Err(why) => with_status(s, "Clipboard error: "@ + why),
    }
}

/// The review `s` after an agent was asked for one more strategy and gave
/// `reply`: its record is added at the end, failed or not.
pub open spec fn added(s: ReviewView, reply: Result<Seq<char>, Seq<char>>) -> ReviewView {
    let n = s.records.len();
    match reply {
        Ok(text) => ReviewView {
            records: s.records.push(elicited_record(text)),
            status_message: Some(notice("Added C"@, n, Seq::empty())),
            ..s
        },
        Err(why) => ReviewView {
            records: s.records.push(failed_record(GENERATION_FAILED@, why)),
            status_message: Some(notice("C"@, n, " failed: "@ + GENERATION_FAILED@ + why)),
            ..s
        },
    }
}

/// What a conversation about a strategy gave.
#[derive(Debug, PartialEq)]
pub enum ChatResult {
    /// The strategy stays as it is.
    NoChanges,
    /// The strategy was revised to this text.
    RevisedStrategy(String),
    /// The conversation failed; the text says how.
    Error(String),
}

/// What a [`ChatResult`] holds, as plain values.
pub enum ChatView {
    NoChanges,
    RevisedStrategy(Seq<char>),
    Error(Seq<char>),
}

impl View for ChatResult {
    type V = ChatView;

    open spec fn view(&self) -> ChatView {
        match self {
            ChatResult::NoChanges => ChatView::NoChanges,
            ChatResult::RevisedStrategy(text) => ChatView::RevisedStrategy(text@),
            ChatResult::Error(why) => ChatView::Error(why@),
        }
    }
}

/// The review `s` after the conversation about the record at `index` gave
/// `result`: a revision replaces the record, anything else leaves it.
pub open spec fn discussed(s: ReviewView, index: nat, result: ChatView) -> ReviewView {
    match result {
        ChatView::NoChanges => with_status(s, "Chat ended without changes"@),
        ChatView::RevisedStrategy(text) => if index >= s.records.len() {
            s
        } else {
            ReviewView {
                records: s.records.update(index as int, revised_record(text)),
                status_message: Some(notice("C"@, index, " strategy revised"@)),
                ..s
            }
        },
        ChatView::Error(why) => with_status(s, "Chat error: "@ + why),
    }
}

/// Removing the only record is refused: the records stay as they are, and
/// the status says that the last strategy cannot be removed.
pub proof fn lemma_last_record_stays(s: ReviewView, key: KeyPress)
    requires
        s.records.len() == 1,
        s.selected == 0,
        command_of(key, s.help_popup_visible) == Command::Delete,
    ensures
        key_step(s, key).0.records == s.records,
        key_step(s, key).0.selected == s.selected,
        key_step(s, key).0.status_message == Some("Cannot remove last strategy"@),
        key_step(s, key).1 == ActionView::Continue,
{
}

/// No key leaves a review that has a record without one, and none moves the
/// selection past the row that accepts all.
pub proof fn lemma_key_keeps_a_record(s: ReviewView, key: KeyPress)
    requires
        s.selected <= s.records.len(),
    ensures
        s.records.len() > 0 ==> key_step(s, key).0.records.len() > 0,
        key_step(s, key).0.selected <= key_step(s, key).0.records.len(),
{
}

/// The review of the strategies of one run.
pub struct Review {
    task: String,
    records: Vec<StrategyRecord>,
    selected: usize,
    status_message: Option<String>,
    help_popup_visible: bool,
    clipboard_available: bool,
}

impl View for Review {
    type V = ReviewView;

    closed spec fn view(&self) -> ReviewView {
        ReviewView {
            task: self.task@,
            records: record_views(self.records@),
            selected: self.selected as nat,
            status_message: opt_text(self.status_message),
            help_popup_visible: self.help_popup_visible,
            clipboard_available: self.clipboard_available,
        }
    }
}

/// The text `head`, the number `index`, and the text `tail`.
fn notice_text(head: &str, index: usize, tail: &str) -> (r: String)
    ensures
        r@ == notice(head@, index as nat, tail@),
{
    let mut out: Vec<char> = Vec::new();
    push_str(&mut out, head);
    push_decimal(&mut out, index as u64);
    push_str(&mut out, tail);
    string_of(&out)
}

/// The text `head` followed by `tail`.
fn joined(head: &str, tail: &str) -> (r: String)
    ensures
        r@ == head@ + tail@,
{
    let mut out: Vec<char> = Vec::new();
    push_str(&mut out, head);
    push_str(&mut out, tail);
    string_of(&out)
}

impl Review {
    /// Whether the selection is a row: a record, or the row after the last.
    pub open spec fn well_formed(&self) -> bool {
        self@.selected <= self@.records.len()
    }

    /// The review of `records` for the task `task`, with the row that
    /// accepts all selected.
    pub fn new(task: &str, records: Vec<StrategyRecord>, clipboard_available: bool) -> (r: Self)
        ensures
            r@ == opened(task@, record_views(records@), clipboard_available),
            r.well_formed(),
    {
        let selected: usize = records.len();
        Review {
            task: task.to_owned(),
            records,
            selected,
            status_message: None,
            help_popup_visible: false,
            clipboard_available,
        }
    }

    /// The records as they stand.
    pub fn records(&self) -> (r: &Vec<StrategyRecord>)
        ensures
            record_views(r@) == self@.records,
    {
        &self.records
    }

    /// The records as they stand, for the run to go on with.
    pub fn into_records(self) -> (r: Vec<StrategyRecord>)
        ensures
            record_views(r@) == self@.records,
    {
        self.records
    }

    /// The selected row; the number of records for the row that accepts all.
    pub fn selected_index(&self) -> (r: usize)
        ensures
            r == self@.selected,
    {
        self.selected
    }

    /// The status message, if there is one.
    pub fn status_message(&self) -> (r: Option<&str>)
        ensures
            opt_str_text(r) == self@.status_message,
    {
        match &self.status_message {
            Some(s) => Some(s.as_str()),
            None => None,
        }
    }

    /// Whether the help is shown.
    pub fn help_popup_visible(&self) -> (r: bool)
        ensures
            r == self@.help_popup_visible,
    {
        self.help_popup_visible
    }

    /// Takes a key, and says what the caller is to do.
    pub fn handle_key(&mut self, key: KeyPress) -> (action: ReviewAction)
        requires
            old(self).well_formed(),
        ensures
            (final(self)@, action@) == key_step(old(self)@, key),
            final(self).well_formed(),
    {
        let cmd = command_for(key, self.help_popup_visible);
        self.status_message = None;
        let n: usize = self.records.len();
        let ghost before = record_views(self.records@);
        match cmd {
            Command::Quit => ReviewAction::Quit,
            Command::ShowHelp => {
                self.help_popup_visible = true;
                ReviewAction::Continue
            },
            Command::HideHelp => {
                self.help_popup_visible = false;
                ReviewAction::Continue
            },
            Command::Up => {
                self.selected = if self.selected == 0 {
                    n
                } else {
                    self.selected - 1
                };
                ReviewAction::Continue
            },
            Command::Down => {
                self.selected = if self.selected >= n {
                    0
                } else {
                    self.selected + 1
                };
                ReviewAction::Continue
            },
            Command::Enter => {
                if self.selected < n {
                    ReviewAction::Edit {
                        index: self.selected,
                        markdown: self.records[self.selected].strategy.markdown.clone(),
                    }
                } else {
                    ReviewAction::Accept
                }
            },
            Command::Delete => {
                if self.selected < n && n > 1 {
                    let gone: usize = self.selected;
                    self.records.remove(gone);
                    assert(record_views(self.records@) =~= before.remove(gone as int));
                    self.status_message = Some(notice_text("Removed C", gone, ""));
                    assert(notice("Removed C"@, gone as nat, ""@) == notice(
                        "Removed C"@,
                        gone as nat,
                        Seq::empty(),
                    )) by {
                        reveal_strlit("");
                        assert(""@ =~= Seq::<char>::empty());
                    }
                    if gone >= n - 1 {
                        self.selected = n - 1;
                    }
                } else if self.selected < n {
                    self.status_message = Some("Cannot remove last strategy".to_owned());
                } else {
                    self.status_message = Some("Select a strategy to delete".to_owned());
                }
                ReviewAction::Continue
            },
            Command::Copy => {
                if self.selected >= n {
                    self.status_message = Some("Select a strategy to copy".to_owned());
                    ReviewAction::Continue
                } else if !self.clipboard_available {
                    self.status_message = Some("Clipboard unavailable".to_owned());
                    ReviewAction::Continue
                } else {
                    ReviewAction::Copy {
                        index: self.selected,
                        text: self.records[self.selected].strategy.markdown.clone(),
                    }
                }
            },
            Command::Add => {
                let existing = exclusion_set(&self.records, None);
                let prompt = build_strategy_prompt(self.task.as_str(), existing.as_slice());
                ReviewAction::Add { index: n, prompt }
            },
            Command::Chat => {
                if self.selected < n {
                    let excluded = exclusion_set(&self.records, Some(self.selected));
                    ReviewAction::Chat { index: self.selected, excluded }
                } else {
                    self.status_message = Some("Select a strategy to discuss".to_owned());
                    ReviewAction::Continue
                }
            },
            Command::Ignore => ReviewAction::Continue,
        }
    }

    /// Takes what the editor gave for the record at `index`. Where the
    /// strategy was changed, the result is the prompt that asks an agent to
    /// confirm the new one.
    pub fn on_edited(&mut self, index: usize, outcome: EditorOutcome) -> (prompt: Option<String>)
        requires
            old(self).well_formed(),
        ensures
            final(self).well_formed(),
            match outcome {
                EditorOutcome::Saved(text) => (final(self)@, opt_text(prompt)) == saved(
                    old(self)@,
                    index as nat,
                    text@,
                ),
                EditorOutcome::Unchanged => final(self)@ == with_status(
                    old(self)@,
                    "Strategy unchanged"@,
                ) && prompt is None,
                EditorOutcome::Failed(why) => final(self)@ == with_status(
                    old(self)@,
                    "Editor error: "@ + why@,
                ) && prompt is None,
            },
    {
        match outcome {
            EditorOutcome::Saved(text) => {
                if index >= self.records.len() {
                    None
                } else if text == self.records[index].strategy.markdown {
                    self.status_message = Some("Strategy unchanged".to_owned());
                    None
                } else {
                    let others = exclusion_set(&self.records, Some(index));
                    Some(
                        build_assigned_strategy_prompt(
                            self.task.as_str(),
                            text.as_str(),
                            others.as_slice(),
                        ),
                    )
                }
            },
            EditorOutcome::Unchanged => {
                self.status_message = Some("Strategy unchanged".to_owned());
                None
            },
            EditorOutcome::Failed(why) => {
                self.status_message = Some(joined("Editor error: ", why.as_str()));
                None
            },
        }
    }

    /// Takes the reply of the agent that was asked to confirm `edited` for
    /// the record at `index`.
    pub fn on_confirmed(&mut self, index: usize, edited: &str, reply: Result<String, String>)
        requires
            old(self).well_formed(),
        ensures
            final(self)@ == confirmed(
                old(self)@,
                index as nat,
                edited@,
                reply_view(reply),
            ),
            final(self).well_formed(),
    {
        if index < self.records.len() {
            let ghost before = record_views(self.records@);
            let record = match reply {
                Ok(text) => StrategyRecord::confirmed(edited, text),
                Err(why) => StrategyRecord::failure(CONFIRMATION_FAILED, why.as_str()),
            };
            let ghost put = record@;
            self.records.set(index, record);
            assert(record_views(self.records@) =~= before.update(index as int, put));
            self.status_message = Some(notice_text("C", index, " strategy updated"));
        }
    }

    /// Takes what came of copying the strategy at `index`.
    pub fn on_copied(&mut self, index: usize, outcome: Result<(), String>)
        requires
            old(self).well_formed(),
        ensures
            final(self)@ == copied(
                old(self)@,
                index as nat,
                match outcome {
                    Ok(_) => Ok(()),
                    Err(why) => Err(why@),
                },
            ),
            final(self).well_formed(),
    {
        match outcome {
            Ok(_) => {
                self.status_message = Some(notice_text("C", index, " copied to clipboard"));
            },
            Err(why) => {
                self.status_message = Some(joined("Clipboard error: ", why.as_str()));
            },
        }
    }

    /// Takes the reply of the agent that was asked for one more strategy.
    pub fn on_added(&mut self, reply: Result<String, String>)
        requires
            old(self).well_formed(),
        ensures
            final(self)@ == added(old(self)@, reply_view(reply)),
            final(self).well_formed(),
    {
        let n: usize = self.records.len();
        let ghost before = record_views(self.records@);
        match reply {
            Ok(text) => {
                let record = StrategyRecord::elicited(text);
                let ghost put = record@;
                self.records.push(record);
                assert(record_views(self.records@) =~= before.push(put));
                self.status_message = Some(notice_text("Added C", n, ""));
                assert(notice("Added C"@, n as nat, ""@) == notice(
                    "Added C"@,
                    n as nat,
                    Seq::empty(),
                )) by {
                    reveal_strlit("");
                    assert(""@ =~= Seq::<char>::empty());
                }
            },
            Err(why) => {
                let record = StrategyRecord::failure(GENERATION_FAILED, why.as_str());
                let ghost put = record@;
                self.records.push(record);
                assert(record_views(self.records@) =~= before.push(put));
                let mut tail: Vec<char> = Vec::new();
                push_str(&mut tail, " failed: ");
                push_str(&mut tail, GENERATION_FAILED);
                push_str(&mut tail, why.as_str());
                let tail = string_of(&tail);
                self.status_message = Some(notice_text("C", n, tail.as_str()));
            },
        }
    }

    /// Takes what the conversation about the record at `index` gave.
    pub fn on_chat(&mut self, index: usize, result: ChatResult)
        requires
            old(self).well_formed(),
        ensures
            final(self)@ == discussed(old(self)@, index as nat, result@),
            final(self).well_formed(),
    {
        match result {
            ChatResult::NoChanges => {
                self.status_message = Some("Chat ended without changes".to_owned());
            },
            ChatResult::RevisedStrategy(text) => {
                if index < self.records.len() {
                    let ghost before = record_views(self.records@);
                    let record = StrategyRecord::revised(text.as_str());
                    let ghost put = record@;
                    self.records.set(index, record);
                    assert(record_views(self.records@) =~= before.update(index as int, put));
                    self.status_message = Some(notice_text("C", index, " strategy revised"));
                }
            },
            ChatResult::Error(why) => {
                self.status_message = Some(joined("Chat error: ", why.as_str()));
            },
        }
    }
}

} // verus!
