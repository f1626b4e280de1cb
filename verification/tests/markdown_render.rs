use actually::markdown::{markdown_to_styled_text, parse_inline_formatting, style_of};
use actually::styled::{StyledLine, StyledSpan, TextStyle};

fn span(text: &str, style: TextStyle) -> StyledSpan {
    StyledSpan { text: text.to_string(), style }
}

fn line(spans: Vec<StyledSpan>) -> StyledLine {
    StyledLine { spans }
}

#[test]
fn inline_styles() {
    assert_eq!(style_of(false, false), TextStyle::Text);
    assert_eq!(style_of(false, true), TextStyle::Strong);
    assert_eq!(style_of(true, false), TextStyle::Code);
    assert_eq!(style_of(true, true), TextStyle::StrongCode);
}

#[test]
fn inline_bold_and_code() {
    assert_eq!(
        parse_inline_formatting("Use **fast** `map`s"),
        line(vec![
            span("Use ", TextStyle::Text),
            span("fast", TextStyle::Strong),
            span(" ", TextStyle::Text),
            span("map", TextStyle::Code),
            span("s", TextStyle::Text),
        ])
    );
}

#[test]
fn inline_code_inside_bold() {
    assert_eq!(
        parse_inline_formatting("**a `b` c**"),
        line(vec![
            span("a ", TextStyle::Strong),
            span("b", TextStyle::StrongCode),
            span(" c", TextStyle::Strong),
        ])
    );
}

#[test]
fn inline_markers_inside_code_are_text() {
    assert_eq!(
        parse_inline_formatting("`a ** b` **c"),
        line(vec![span("a ** b", TextStyle::Code), span(" ", TextStyle::Text), span("c", TextStyle::Strong)])
    );
}

#[test]
fn inline_of_nothing_has_no_span() {
    assert_eq!(parse_inline_formatting(""), line(vec![]));
    assert_eq!(parse_inline_formatting("****"), line(vec![]));
    assert_eq!(parse_inline_formatting("``"), line(vec![]));
}

#[test]
fn inline_keeps_lone_stars_and_open_spans() {
    assert_eq!(
        parse_inline_formatting("a * b **open"),
        line(vec![span("a * b ", TextStyle::Text), span("open", TextStyle::Strong)])
    );
    assert_eq!(
        parse_inline_formatting("x `open"),
        line(vec![span("x ", TextStyle::Text), span("open", TextStyle::Code)])
    );
}

#[test]
fn headings_of_three_levels() {
    assert_eq!(
        markdown_to_styled_text("# One\n## Two\n  ### Three\n#### Four\n#None"),
        vec![
            line(vec![span("# One", TextStyle::Heading1)]),
            line(vec![span("## Two", TextStyle::Heading2)]),
            line(vec![span("  ### Three", TextStyle::Heading3)]),
            line(vec![span("#### Four", TextStyle::Text)]),
            line(vec![span("#None", TextStyle::Text)]),
        ]
    );
}

#[test]
fn code_blocks_toggle_on_fences() {
    assert_eq!(
        markdown_to_styled_text("before\n```rust\nlet **x** = 1;\n# not a heading\n\n  ```\nafter **b**"),
        vec![
            line(vec![span("before", TextStyle::Text)]),
            line(vec![span("```rust", TextStyle::Fence)]),
            line(vec![span("let **x** = 1;", TextStyle::CodeBlock)]),
            line(vec![span("# not a heading", TextStyle::CodeBlock)]),
            line(vec![span("", TextStyle::CodeBlock)]),
            line(vec![span("  ```", TextStyle::Fence)]),
            line(vec![span("after ", TextStyle::Text), span("b", TextStyle::Strong)]),
        ]
    );
}

#[test]
fn bullets_and_their_text() {
    assert_eq!(
        markdown_to_styled_text("- plain\n  * with **bold**\n- \n-none\n*"),
        vec![
            line(vec![span("- ", TextStyle::ListMarker), span("plain", TextStyle::Text)]),
            line(vec![
                span("  * ", TextStyle::ListMarker),
                span("with ", TextStyle::Text),
                span("bold", TextStyle::Strong),
            ]),
            line(vec![span("- ", TextStyle::Text)]),
            line(vec![span("-none", TextStyle::Text)]),
            line(vec![span("*", TextStyle::Text)]),
        ]
    );
}

#[test]
fn numbered_items_need_digits_a_full_stop_and_a_space() {
    assert_eq!(
        markdown_to_styled_text("1. first\n 12. `twelfth`\n3 apples. And more\n4.x\n5."),
        vec![
            line(vec![span("1. ", TextStyle::ListMarker), span("first", TextStyle::Text)]),
            line(vec![span(" 12. ", TextStyle::ListMarker), span("twelfth", TextStyle::Code)]),
            line(vec![span("3 apples. And more", TextStyle::Text)]),
            line(vec![span("4.x", TextStyle::Text)]),
            line(vec![span("5.", TextStyle::Text)]),
        ]
    );
}

#[test]
fn list_marker_keeps_trailing_white_space_in_the_text() {
    assert_eq!(
        markdown_to_styled_text("1. foo  "),
        vec![line(vec![span("1. ", TextStyle::ListMarker), span("foo  ", TextStyle::Text)])]
    );
}

#[test]
fn empty_lines_and_empty_text() {
    assert_eq!(markdown_to_styled_text(""), Vec::<StyledLine>::new());
    assert_eq!(
        markdown_to_styled_text("a\n\nb\n"),
        vec![
            line(vec![span("a", TextStyle::Text)]),
            line(vec![]),
            line(vec![span("b", TextStyle::Text)]),
        ]
    );
}

#[test]
fn default_text_keeps_its_leading_white_space() {
    assert_eq!(
        markdown_to_styled_text("   indented **x**"),
        vec![line(vec![span("   indented ", TextStyle::Text), span("x", TextStyle::Strong)])]
    );
}

#[test]
fn clone_of_a_line_is_equal() {
    let l = parse_inline_formatting("a **b** `c`");
    assert_eq!(l.clone(), l);
    assert_eq!(StyledLine::empty(), line(vec![]));
    assert_eq!(
        StyledLine::styled("x".to_string(), TextStyle::Hint),
        line(vec![span("x", TextStyle::Hint)])
    );
}
