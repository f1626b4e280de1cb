use actually::markdown::markdown_to_styled_text;
use actually::reflow::{wrap_styled_line, wrap_styled_text};
use actually::styled::{StyledLine, StyledSpan, TextStyle};

fn span(text: &str, style: TextStyle) -> StyledSpan {
    StyledSpan { text: text.to_string(), style }
}

fn line(spans: Vec<StyledSpan>) -> StyledLine {
    StyledLine { spans }
}

fn plain(text: &str) -> StyledLine {
    line(vec![span(text, TextStyle::Text)])
}

fn cells(lines: &[StyledLine]) -> Vec<(char, TextStyle)> {
    let mut out = Vec::new();
    for l in lines {
        for s in &l.spans {
            for c in s.text.chars() {
                out.push((c, s.style));
            }
        }
    }
    out
}

fn width(l: &StyledLine) -> usize {
    l.spans.iter().map(|s| s.text.chars().count()).sum()
}

#[test]
fn zero_width_leaves_the_line() {
    let l = line(vec![span("a long line of text", TextStyle::Text), span("", TextStyle::Code)]);
    assert_eq!(wrap_styled_line(l.clone(), 0), vec![l]);
}

#[test]
fn a_line_that_fits_is_kept() {
    assert_eq!(wrap_styled_line(plain("hello"), 5), vec![plain("hello")]);
    assert_eq!(wrap_styled_line(plain("hello"), 80), vec![plain("hello")]);
}

#[test]
fn breaks_after_the_last_space_in_the_room() {
    assert_eq!(
        wrap_styled_line(plain("hello wide world"), 8),
        vec![plain("hello "), plain("wide "), plain("world")]
    );
    assert_eq!(
        wrap_styled_line(plain("aa bb cc"), 5),
        vec![plain("aa "), plain("bb cc")]
    );
}

#[test]
fn hard_break_where_the_room_holds_no_space() {
    assert_eq!(
        wrap_styled_line(plain("abcdefghij"), 4),
        vec![plain("abcd"), plain("efgh"), plain("ij")]
    );
    assert_eq!(
        wrap_styled_line(plain("abc"), 1),
        vec![plain("a"), plain("b"), plain("c")]
    );
}

#[test]
fn spans_keep_their_styles_across_breaks() {
    let l = line(vec![span("- ", TextStyle::ListMarker), span("bold words here", TextStyle::Strong)]);
    assert_eq!(
        wrap_styled_line(l, 8),
        vec![
            line(vec![span("- ", TextStyle::ListMarker), span("bold ", TextStyle::Strong)]),
            line(vec![span("words ", TextStyle::Strong)]),
            line(vec![span("here", TextStyle::Strong)]),
        ]
    );
}

#[test]
fn a_full_line_is_finished_before_the_next_span() {
    let l = line(vec![span("abcd", TextStyle::Text), span("ef", TextStyle::Code)]);
    assert_eq!(
        wrap_styled_line(l, 4),
        vec![line(vec![span("abcd", TextStyle::Text)]), line(vec![span("ef", TextStyle::Code)])]
    );
}

#[test]
fn the_search_for_a_space_stays_in_the_span() {
    let l = line(vec![span("ab ", TextStyle::Text), span("cdefgh", TextStyle::Code)]);
    assert_eq!(
        wrap_styled_line(l, 5),
        vec![
            line(vec![span("ab ", TextStyle::Text), span("cd", TextStyle::Code)]),
            line(vec![span("efgh", TextStyle::Code)]),
        ]
    );
}

#[test]
fn empty_spans_are_dropped_and_an_empty_line_stays_one_line() {
    assert_eq!(wrap_styled_line(line(vec![]), 10), vec![line(vec![])]);
    assert_eq!(wrap_styled_line(line(vec![span("", TextStyle::CodeBlock)]), 10), vec![line(vec![])]);
    assert_eq!(
        wrap_styled_line(line(vec![span("", TextStyle::Code), span("x", TextStyle::Text)]), 10),
        vec![plain("x")]
    );
}

#[test]
fn counts_characters_not_bytes() {
    assert_eq!(
        wrap_styled_line(plain("ééé ééé"), 4),
        vec![plain("ééé "), plain("ééé")]
    );
}

#[test]
fn text_wraps_line_by_line() {
    let text = vec![plain("one two"), line(vec![]), plain("three")];
    assert_eq!(
        wrap_styled_text(text, 4),
        vec![plain("one "), plain("two"), line(vec![]), plain("thre"), plain("e")]
    );
    assert_eq!(wrap_styled_text(vec![], 4), Vec::<StyledLine>::new());
}

#[test]
fn wrapping_twice_is_wrapping_once() {
    let md = "# A heading that is rather long\n- item with **bold words** and `code spans` inside\n\nplain running text that goes on and on\n```\nlet x = 1;\n```\n1. numbered";
    for w in [0usize, 1, 2, 3, 5, 8, 13, 40, 200] {
        let once = wrap_styled_text(markdown_to_styled_text(md), w);
        let twice = wrap_styled_text(once.clone(), w);
        assert_eq!(twice, once, "width {}", w);
    }
}

#[test]
fn wrapping_loses_nothing_and_fits() {
    let md = "Use **a very fast** `HashMap` with   spaces\n\n- and a list item that is long enough to wrap\nétoile filante";
    let before = markdown_to_styled_text(md);
    for w in [1usize, 2, 4, 7, 10, 25, 1000] {
        let after = wrap_styled_text(before.clone(), w);
        assert_eq!(cells(&after), cells(&before), "width {}", w);
        for l in &after {
            assert!(width(l) <= w, "width {}", w);
            assert!(l.spans.iter().all(|s| !s.text.is_empty()));
        }
    }
    let wide = wrap_styled_text(before.clone(), 1000);
    assert_eq!(wide.len(), before.len());
}
