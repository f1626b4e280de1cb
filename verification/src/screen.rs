//! What the review shows: the list of the strategies, the preview of the
//! selected one, the help, and where they stand. All of it follows from the
//! state of the review and the size of the terminal.

use crate::lines::{join, join_range};
use crate::markdown::{markdown_to_styled_text, rendered};
use crate::number::{decimal, push_decimal};
use crate::record::{record_views, RecordView, StrategyRecord};
use crate::reflow::{wrap_styled_text, wrapped_text};
use crate::review::{Review, ReviewView};
use crate::styled::{line_views, single, SpanView, StyledLine, StyledSpan, TextStyle};
use crate::text::{chars_of, copy_range, push_str, rows, string_of, texts};
use vstd::prelude::*;

verus! {

/// The width of the terminal from which on the preview is shown.
pub const MIN_PREVIEW_WIDTH: u16 = 100;

/// How many columns of the list's panel the frame and the row's name take.
pub const LIST_MARGIN: u16 = 15;

/// How many columns of the preview's panel its frame takes.
pub const PREVIEW_MARGIN: u16 = 2;

/// The width of the help.
pub const HELP_WIDTH: u16 = 35;

/// How long the review waits for a key before it shows its state again, in
/// milliseconds.
pub const POLL_INTERVAL_MS: u64 = 100;

/// The row that accepts all strategies.
pub const ACCEPT_ROW: &'static str = ">>> Accept all and proceed <<<";

/// The line under the list that tells of the help.
pub const HELP_HINT: &'static str = "?: Help & keymaps";

/// What the preview says while no strategy is selected.
pub const NO_SELECTION: &'static str = "Select a strategy to preview, or press Enter to accept all.";

/// What stands between the highlights of a strategy in its row.
pub const HIGHLIGHT_SEPARATOR: &'static str = " \u{b7} ";

/// `a` less `b`, or 0 where `b` is the greater.
pub open spec fn less(a: int, b: int) -> nat {
    if a >= b {
        (a - b) as nat
    } else {
        0
    }
}

/// Whether a terminal `area_width` columns wide has room for the preview.
pub fn shows_preview(area_width: u16) -> (r: bool)
    ensures
        r == (area_width >= MIN_PREVIEW_WIDTH),
{
    area_width >= MIN_PREVIEW_WIDTH
}

/// How many characters of a strategy a row shows in a panel `panel_width`
/// columns wide.
pub fn list_width(panel_width: u16) -> (r: usize)
    ensures
        r == less(panel_width as int, LIST_MARGIN as int),
{
    if panel_width >= LIST_MARGIN {
        (panel_width - LIST_MARGIN) as usize
    } else {
        0
    }
}

/// The width that the preview is wrapped to in a panel `panel_width` columns
/// wide.
pub fn wrap_width(panel_width: u16) -> (r: usize)
    ensures
        r == less(panel_width as int, PREVIEW_MARGIN as int),
{
    if panel_width >= PREVIEW_MARGIN {
        (panel_width - PREVIEW_MARGIN) as usize
    } else {
        0
    }
}

/// A rectangle of the terminal.
#[derive(Debug, Clone, Copy, PartialEq, Eq, Structural)]
pub struct Area {
    pub x: u16,
    pub y: u16,
    pub width: u16,
    pub height: u16,
}

/// The smaller of `a` and `b`.
pub open spec fn smaller(a: int, b: int) -> int {
    if a <= b {
        a
    } else {
        b
    }
}

/// Where the help of `lines` lines stands in a terminal of the given size:
/// in the middle, framed, and no larger than the terminal.
pub open spec fn help_area(area_width: u16, area_height: u16, lines: u16) -> Area {
    let height = smaller(lines + 2, u16::MAX as int);
    Area {
        x: (less(area_width as int, HELP_WIDTH as int) / 2) as u16,
        y: (less(area_height as int, height) / 2) as u16,
        width: smaller(HELP_WIDTH as int, area_width as int) as u16,
        height: smaller(height, area_height as int) as u16,
    }
}

/// Where the help of `lines` lines stands in a terminal of the given size.
pub fn popup_area(area_width: u16, area_height: u16, lines: u16) -> (r: Area)
    ensures
        r == help_area(area_width, area_height, lines),
        r.x + r.width <= area_width,
        r.y + r.height <= area_height,
{
    let height: u16 = if lines <= u16::MAX - 2 {
        lines + 2
    } else {
        u16::MAX
    };
    let free_x: u16 = if area_width >= HELP_WIDTH {
        area_width - HELP_WIDTH
    } else {
        0
    };
    let free_y: u16 = if area_height >= height {
        area_height - height
    } else {
        0
    };
    Area {
        x: free_x / 2,
        y: free_y / 2,
        width: if HELP_WIDTH <= area_width {
            HELP_WIDTH
        } else {
            area_width
        },
        height: if height <= area_height {
            height
        } else {
            area_height
        },
    }
}

/// What a row says of a strategy: its highlights, or, where it has none,
/// its plain text, cut to `width` characters with an ellipsis at the end
/// where it is longer.
pub open spec fn row_text(record: RecordView, width: nat) -> Seq<char> {
    if record.strategy.highlights.len() > 0 {
        join(record.strategy.highlights, HIGHLIGHT_SEPARATOR@)
    } else if record.strategy.raw.len() > width {
        record.strategy.raw.take(less(width as int, 1) as int) + "\u{2026}"@
    } else {
        record.strategy.raw
    }
}

/// The badge of a record: that it failed, or else that it was edited, each
/// with a space after it; nothing for any other record.
pub open spec fn badge(record: RecordView) -> Seq<SpanView> {
    if record.failed {
        seq![
            SpanView { text: "[FAIL]"@, style: TextStyle::BadgeFailed },
            SpanView { text: " "@, style: TextStyle::Plain },
        ]
    } else if record.manually_edited {
        seq![
            SpanView { text: "[EDIT]"@, style: TextStyle::BadgeEdited },
            SpanView { text: " "@, style: TextStyle::Plain },
        ]
    } else {
        Seq::empty()
    }
}

/// The row of the record at `index`: its name, its badge, and what it says
/// of the strategy.
pub open spec fn row(index: nat, record: RecordView, width: nat) -> Seq<SpanView> {
    seq![SpanView { text: "C"@ + decimal(index) + " "@, style: TextStyle::Label }] + badge(record)
        + seq![SpanView { text: row_text(record, width), style: TextStyle::Plain }]
}

/// The rows of the list: one for each record, and the row that accepts all.
pub open spec fn list(records: Seq<RecordView>, width: nat) -> Seq<Seq<SpanView>> {
    Seq::new(
        records.len() + 1,
        |i: int|
            if i < records.len() {
                row(i as nat, records[i], width)
            } else {
                single(ACCEPT_ROW@, TextStyle::Accept)
            },
    )
}

/// The preview before it is wrapped: the selected strategy rendered, after
/// a status line and an empty line where it failed or was edited; or a
/// notice where no strategy is selected.
pub open spec fn preview(s: ReviewView) -> Seq<Seq<SpanView>> {
    if s.selected < s.records.len() {
        let record = s.records[s.selected as int];
        let body = rendered(record.strategy.markdown);
        if record.failed {
            seq![single("Status: FAILED"@, TextStyle::StatusFailed), Seq::empty()] + body
        } else if record.manually_edited {
            seq![single("Status: EDITED"@, TextStyle::StatusEdited), Seq::empty()] + body
        } else {
            body
        }
    } else {
        seq![single(NO_SELECTION@, TextStyle::Plain)]
    }
}

/// The title of the preview: with the name of the selected strategy, if one
/// is selected.
pub open spec fn preview_heading(s: ReviewView) -> Seq<char> {
    if s.selected < s.records.len() {
        " C"@ + decimal(s.selected) + " Preview "@
    } else {
        " Preview "@
    }
}

/// One line of the help: the name of a key and what the key does.
pub open spec fn help_entry(key: Seq<char>, what: Seq<char>) -> Seq<SpanView> {
    seq![
        SpanView { text: key, style: TextStyle::KeyName },
        SpanView { text: what, style: TextStyle::Plain },
    ]
}

/// The help.
pub open spec fn help() -> Seq<Seq<SpanView>> {
    seq![
        help_entry("\u{2191}/k"@, "  Move up"@),
        help_entry("\u{2193}/j"@, "  Move down"@),
        help_entry("Enter"@, "  Edit strategy / Accept all"@),
        help_entry("c"@, "  Copy to clipboard"@),
        help_entry("d"@, "  Delete strategy"@),
        help_entry("o"@, "  Add new strategy"@),
        help_entry("t"@, "  Talk/chat about strategy"@),
        help_entry("q/Esc"@, "  Quit"@),
        Seq::empty(),
        single("Press any key to close"@, TextStyle::Hint),
    ]
}

/// What a row says of a strategy.
fn row_preview(record: &StrategyRecord, width: usize) -> (r: String)
    ensures
        r@ == row_text(record@, width as nat),
{
    if record.strategy.highlights.len() > 0 {
        let mut parts: Vec<Vec<char>> = Vec::new();
        let mut i: usize = 0;
        while i < record.strategy.highlights.len()
            invariant
                i <= record.strategy.highlights@.len(),
                parts@.len() == i,
                forall|j: int| 0 <= j < i ==> parts@[j]@ == record.strategy.highlights@[j]@,
            decreases record.strategy.highlights@.len() - i,
        {
            parts.push(chars_of(record.strategy.highlights[i].as_str()));
            i += 1;
        }
        assert(rows(parts@) =~= texts(record.strategy.highlights@));
        assert(rows(parts@).subrange(0, parts@.len() as int) == rows(parts@));
        let sep = chars_of(HIGHLIGHT_SEPARATOR);
        let out = join_range(&parts, 0, parts.len(), &sep);
        string_of(&out)
    } else {
        let raw = chars_of(record.strategy.raw.as_str());
        if raw.len() > width {
            let keep: usize = if width >= 1 {
                width - 1
            } else {
                0
            };
            let mut out = copy_range(&raw, 0, keep);
            assert(raw@.subrange(0, keep as int) == raw@.take(keep as int));
            push_str(&mut out, "\u{2026}");
            string_of(&out)
        } else {
            string_of(&raw)
        }
    }
}

/// The row of the record at `index`.
pub fn row_line(index: usize, record: &StrategyRecord, width: usize) -> (r: StyledLine)
    ensures
        r@ == row(index as nat, record@, width as nat),
{
    let mut name: Vec<char> = Vec::new();
    push_str(&mut name, "C");
    push_decimal(&mut name, index as u64);
    push_str(&mut name, " ");
    let mut spans: Vec<StyledSpan> = Vec::new();
    spans.push(StyledSpan { text: string_of(&name), style: TextStyle::Label });
    if record.failed {
        spans.push(StyledSpan { text: "[FAIL]".to_owned(), style: TextStyle::BadgeFailed });
        spans.push(StyledSpan { text: " ".to_owned(), style: TextStyle::Plain });
    } else if record.manually_edited {
        spans.push(StyledSpan { text: "[EDIT]".to_owned(), style: TextStyle::BadgeEdited });
        spans.push(StyledSpan { text: " ".to_owned(), style: TextStyle::Plain });
    }
    spans.push(StyledSpan { text: row_preview(record, width), style: TextStyle::Plain });
    let r = StyledLine { spans };
    assert(r@ =~= row(index as nat, record@, width as nat));
    r
}

/// The help.
pub fn help_lines() -> (r: Vec<StyledLine>)
    ensures
        line_views(r@) == help(),
{
    let mut out: Vec<StyledLine> = Vec::new();
    out.push(help_line("\u{2191}/k", "  Move up"));
    out.push(help_line("\u{2193}/j", "  Move down"));
    out.push(help_line("Enter", "  Edit strategy / Accept all"));
    out.push(help_line("c", "  Copy to clipboard"));
    out.push(help_line("d", "  Delete strategy"));
    out.push(help_line("o", "  Add new strategy"));
    out.push(help_line("t", "  Talk/chat about strategy"));
    out.push(help_line("q/Esc", "  Quit"));
    let blank = StyledLine::empty();
    assert(blank@ =~= Seq::<SpanView>::empty());
    out.push(blank);
    out.push(StyledLine::styled("Press any key to close".to_owned(), TextStyle::Hint));
    assert(line_views(out@) =~= help());
    out
}

/// One line of the help.
fn help_line(key: &str, what: &str) -> (r: StyledLine)
    ensures
        r@ == help_entry(key@, what@),
{
    let mut spans: Vec<StyledSpan> = Vec::new();
    spans.push(StyledSpan { text: key.to_owned(), style: TextStyle::KeyName });
    spans.push(StyledSpan { text: what.to_owned(), style: TextStyle::Plain });
    let r = StyledLine { spans };
    assert(r@ =~= help_entry(key@, what@));
    r
}

impl Review {
    /// The rows of the list, for a list that shows `width` characters of a
    /// strategy.
    pub fn list_rows(&self, width: usize) -> (r: Vec<StyledLine>)
        ensures
            line_views(r@) == list(self@.records, width as nat),
    {
        let records = self.records();
        let mut out: Vec<StyledLine> = Vec::new();
        let mut i: usize = 0;
        while i < records.len()
            invariant
                i <= records@.len(),
                out@.len() == i,
                forall|j: int|
                    0 <= j < i ==> out@[j]@ == row(j as nat, records@[j]@, width as nat),
            decreases records@.len() - i,
        {
            out.push(row_line(i, &records[i], width));
            i += 1;
        }
        out.push(StyledLine::styled(ACCEPT_ROW.to_owned(), TextStyle::Accept));
        assert(line_views(out@) =~= list(record_views(records@), width as nat));
        out
    }

    /// The title of the preview.
    pub fn preview_title(&self) -> (r: String)
        ensures
            r@ == preview_heading(self@),
    {
        let selected: usize = self.selected_index();
        let mut out: Vec<char> = Vec::new();
        if selected < self.records().len() {
            push_str(&mut out, " C");
            push_decimal(&mut out, selected as u64);
            push_str(&mut out, " Preview ");
        } else {
            push_str(&mut out, " Preview ");
        }
        string_of(&out)
    }

    /// The preview, wrapped to `width`.
    pub fn preview_lines(&self, width: usize) -> (r: Vec<StyledLine>)
        ensures
            line_views(r@) == wrapped_text(preview(self@), width as nat),
    {
        let selected: usize = self.selected_index();
        let records = self.records();
        let mut out: Vec<StyledLine> = Vec::new();
        if selected < records.len() {
            let record = &records[selected];
            if record.failed {
                out.push(StyledLine::styled("Status: FAILED".to_owned(), TextStyle::StatusFailed));
                let blank = StyledLine::empty();
                assert(blank@ =~= Seq::<SpanView>::empty());
                out.push(blank);
            } else if record.manually_edited {
                out.push(StyledLine::styled("Status: EDITED".to_owned(), TextStyle::StatusEdited));
                let blank = StyledLine::empty();
                assert(blank@ =~= Seq::<SpanView>::empty());
                out.push(blank);
            }
            let ghost head = line_views(out@);
            let mut body = markdown_to_styled_text(record.strategy.markdown.as_str());
            let ghost tail = line_views(body@);
            out.append(&mut body);
            assert(line_views(out@) =~= head + tail);
            assert(head + tail =~= preview(self@));
        } else {
            out.push(StyledLine::styled(NO_SELECTION.to_owned(), TextStyle::Plain));
            assert(line_views(out@) =~= preview(self@));
        }
        wrap_styled_text(out, width)
    }
}

} // verus!
