use actually::prompt::{build_implementation_prompt, build_strategy_prompt};
use actually::strategy::{parse_strategy, reply_follows_format, Strategy};

#[test]
fn test_build_strategy_prompt_no_exclusions() {
    let prompt = build_strategy_prompt("Build a REST API", &[]);
    assert!(prompt.contains("Build a REST API"));
    assert!(!prompt.contains("MUST NOT"));
}

#[test]
fn test_build_strategy_prompt_with_exclusions() {
    let existing = vec![
        "Use Express with SQLite".to_string(),
        "Use Fastify with PostgreSQL".to_string(),
    ];
    let prompt = build_strategy_prompt("Build a REST API", &existing);
    assert!(prompt.contains("UTTERLY DIFFERENT"));
    assert!(prompt.contains("bolded"));
    assert!(prompt.contains("Express with SQLite"));
    assert!(prompt.contains("Fastify with PostgreSQL"));
}

#[test]
fn test_parse_strategy() {
    let response = "STRATEGY: I will use **Actix-web** with async **SQLx** for database access.";
    let strategy = parse_strategy(response);
    assert_eq!(
        strategy.markdown,
        "I will use **Actix-web** with async **SQLx** for database access."
    );
    assert_eq!(
        strategy.raw,
        "I will use Actix-web with async SQLx for database access."
    );
    assert_eq!(strategy.highlights, vec!["Actix-web", "SQLx"]);
}

#[test]
fn test_parse_strategy_fallback() {
    let response = "Some response without the prefix";
    let strategy = parse_strategy(response);
    assert_eq!(strategy.markdown, "Some response without the prefix");
}

#[test]
fn test_strategy_display() {
    let strategy = Strategy::parse("Use **bold** text");
    assert_eq!(strategy.to_string(), "Use **bold** text");
}

#[test]
fn strategy_prompt_exact_text_without_exclusions() {
    let prompt = build_strategy_prompt("Build a cache", &[]);
    assert_eq!(
        prompt,
        "For the following task, describe ONLY your implementation plan in 2-4 sentences. Do not implement anything yet.\n\nTask: Build a cache\n\nFormatting: Using Markdown, put bold markers on the main features of your approach, and wrap any code snippets in backticks.\n\nReply with exactly this format:\nSTRATEGY: <your approach in 2-4 sentences>\n"
    );
}

#[test]
fn strategy_prompt_numbers_exclusions_and_ends_with_reply_format() {
    let existing = vec!["Use **Redis**".to_string(), "Use a file".to_string()];
    let prompt = build_strategy_prompt("Build a cache", &existing);
    assert!(prompt.contains("competitors are using these approaches:\n1. Use **Redis**\n2. Use a file\n\nFormatting:"));
    assert!(prompt.ends_with("Reply with exactly this format:\nSTRATEGY: <your approach in 2-4 sentences>\n"));
}

#[test]
fn strategy_prompt_numbers_past_nine() {
    let existing: Vec<String> = (0..12).map(|i| format!("s{}", i)).collect();
    let prompt = build_strategy_prompt("t", &existing);
    assert!(prompt.contains("\n9. s8\n10. s9\n11. s10\n12. s11\n\n"));
}

#[test]
fn implementation_prompt_exact_text() {
    let none = build_implementation_prompt("Build a cache", "Use an LRU map.", &[]);
    assert_eq!(
        none,
        "Implement the following task using the specified strategy.\n\nTask: Build a cache\n\nYOUR STRATEGY (you must follow this):\nUse an LRU map.\n\n\n\nProceed with implementation."
    );
    let some = build_implementation_prompt(
        "Build a cache",
        "Use an LRU map.",
        &["Use a disk cache.".to_string(), "Use Redis.".to_string()],
    );
    assert_eq!(
        some,
        "Implement the following task using the specified strategy.\n\nTask: Build a cache\n\nYOUR STRATEGY (you must follow this):\nUse an LRU map.\n\nFORBIDDEN APPROACHES (do not use these):\n1. Use a disk cache.\n2. Use Redis.\n\nProceed with implementation."
    );
}

#[test]
fn parse_strips_markers_and_backticks() {
    let s = Strategy::parse("Use `HashMap` with **fast `lookup`** and ** ** and **open");
    assert_eq!(s.markdown, "Use `HashMap` with **fast `lookup`** and ** ** and **open");
    assert_eq!(s.raw, "Use HashMap with fast lookup and   and open");
    assert_eq!(s.highlights, vec!["fast lookup"]);
}

#[test]
fn parse_trims_phrases_and_keeps_lone_stars() {
    let s = Strategy::parse("a * b **  x y  ** ***z**");
    assert_eq!(s.raw, "a * b   x y   *z");
    assert_eq!(s.highlights, vec!["x y", "*z"]);
    let joined = Strategy::parse("*`*");
    assert_eq!(joined.raw, "**");
    assert!(joined.highlights.is_empty());
}

#[test]
fn parse_of_empty_text() {
    let s = Strategy::parse("");
    assert_eq!(s.markdown, "");
    assert_eq!(s.raw, "");
    assert!(s.highlights.is_empty());
}

#[test]
fn failed_strategy_is_a_sentinel() {
    let s = Strategy::failed("timeout **now**");
    assert_eq!(s.markdown, "[FAILED] timeout **now**");
    assert_eq!(s.raw, "[FAILED] timeout **now**");
    assert!(s.highlights.is_empty());
}

#[test]
fn clone_keeps_every_field() {
    let s = Strategy::parse("Use **a** and **b**");
    let c = s.clone();
    assert_eq!(c, s);
    assert_eq!(c.highlights, vec!["a", "b"]);
}

#[test]
fn parse_strategy_takes_rest_of_marker_line() {
    let s = parse_strategy("Sure.\nSTRATEGY:   Use **queues**.  \nMore text\n");
    assert_eq!(s.markdown, "Use **queues**.");
    assert_eq!(s.highlights, vec!["queues"]);
}

#[test]
fn parse_strategy_takes_up_to_four_following_lines() {
    let s = parse_strategy("STRATEGY:\nline one\r\nline two\nline three\nline four\nline five\n");
    assert_eq!(s.markdown, "line one line two line three line four");
    let short = parse_strategy("x STRATEGY:  \n  only  ");
    assert_eq!(short.markdown, "only");
    let none = parse_strategy("STRATEGY:");
    assert_eq!(none.markdown, "");
}

#[test]
fn parse_strategy_uses_first_marker() {
    let s = parse_strategy("STRATEGY: one STRATEGY: two");
    assert_eq!(s.markdown, "one STRATEGY: two");
}

#[test]
fn parse_strategy_round_trip_single_line() {
    for x in ["Use an LRU map.", "  padded \t", "with `code` and **bold**", "\r", ""] {
        let response = format!("STRATEGY: {}", x);
        assert_eq!(parse_strategy(&response).markdown, x.trim());
    }
}

#[test]
fn parse_strategy_fallback_takes_500_characters() {
    let long: String = "é".repeat(400) + &" ".repeat(100) + "abcdef";
    let s = parse_strategy(&long);
    assert_eq!(s.markdown.chars().count(), 400);
    let exact: String = "x".repeat(700);
    assert_eq!(parse_strategy(&exact).markdown, "x".repeat(500));
    assert!(!reply_follows_format(&exact));
    assert!(reply_follows_format("a STRATEGY: b"));
}

#[test]
fn highlights_are_the_closed_bold_spans_in_order() {
    let parts = ["Use ", " fast `maps` ", " and ", "", " or ", "queues", " but ", "never closed"];
    let text = parts.join("**");
    let s = Strategy::parse(&text);
    assert_eq!(s.highlights, vec!["fast maps", "queues"]);
    assert_eq!(s.raw, "Use  fast maps  and  or queues but never closed");
    let closed = Strategy::parse("**a****b**");
    assert_eq!(closed.highlights, vec!["a", "b"]);
    assert_eq!(closed.raw, "ab");
}

#[test]
fn plain_text_holds_no_backtick() {
    for text in ["`", "``` a ```", "a`b`c", "**`x`**", "*`*", "no marks"] {
        assert!(!Strategy::parse(text).raw.contains('`'), "{:?}", text);
    }
}

#[test]
fn plain_text_holds_a_marker_only_where_single_stars_meet() {
    for text in ["**a** b", "a * b", "***", "****", "* **x** *", "2 ** 3", "a*b **c** d*"] {
        assert!(!Strategy::parse(text).raw.contains("**"), "{:?}", text);
    }
    for text in ["*`*", "a *``* b", "*`***", "x*`**`***y"] {
        assert!(Strategy::parse(text).raw.contains("**"), "{:?}", text);
    }
}
