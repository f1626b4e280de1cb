use actually::lines::{join_range, split_lines};
use actually::number::{is_ascii_digit, push_decimal};
use actually::path::join_path;
use actually::search::{find_first, matches_at};
use actually::text::{chars_of, is_whitespace, string_of, trim_bounds, trimmed, truncate};

fn chars(s: &str) -> Vec<char> {
    s.chars().collect()
}

fn text(v: &Vec<char>) -> String {
    v.iter().collect()
}

fn lines_of(s: &str) -> Vec<String> {
    split_lines(&chars(s)).iter().map(text).collect()
}

#[test]
fn characters_round_trip() {
    for s in ["", "a", "héllo wörld", "日本語\n\u{1F600}"] {
        let v = chars_of(s);
        assert_eq!(v, chars(s));
        assert_eq!(string_of(&v), s);
    }
}

#[test]
fn white_space_is_what_the_standard_library_says() {
    let mut code: u32 = 0;
    while code <= 0x10FFFF {
        if let Some(c) = char::from_u32(code) {
            assert_eq!(is_whitespace(c), c.is_whitespace(), "U+{:04X}", code);
        }
        code += 1;
    }
}

#[test]
fn trimming_is_what_the_standard_library_does() {
    for s in [
        "",
        " ",
        "  a  ",
        "\t\n x y \r\n",
        "\u{a0}\u{2003}word\u{3000}",
        "no-space",
        " \u{200b} ",
        "a\u{85}",
    ] {
        assert_eq!(text(&trimmed(&chars(s))), s.trim(), "{:?}", s);
    }
}

#[test]
fn trim_bounds_stay_inside_the_range() {
    let v = chars("ab  cd  ef");
    assert_eq!(trim_bounds(&v, 2, 8), (4, 6));
    assert_eq!(trim_bounds(&v, 2, 4), (4, 4));
    assert_eq!(trim_bounds(&v, 0, 10), (0, 10));
}

#[test]
fn lines_are_what_the_standard_library_gives() {
    for s in [
        "",
        "one",
        "one\n",
        "one\ntwo",
        "one\r\ntwo\r\n",
        "\n",
        "\n\n",
        "a\rb\nc\r",
        "\r\n\r\n",
        "x\n\ny\n",
        "tail\r",
    ] {
        let want: Vec<String> = s.lines().map(|l| l.to_string()).collect();
        assert_eq!(lines_of(s), want, "{:?}", s);
    }
}

#[test]
fn lines_edge_cases() {
    assert!(lines_of("").is_empty());
    assert_eq!(lines_of("a\r\n"), vec!["a"]);
    assert_eq!(lines_of("a\r"), vec!["a\r"]);
    assert_eq!(lines_of("\n"), vec![""]);
}

#[test]
fn joining_puts_the_separator_between() {
    let parts = vec![chars("a"), chars("bc"), chars(""), chars("d")];
    let sep = chars(", ");
    assert_eq!(text(&join_range(&parts, 0, 4, &sep)), "a, bc, , d");
    assert_eq!(text(&join_range(&parts, 1, 2, &sep)), "bc");
    assert_eq!(text(&join_range(&parts, 2, 2, &sep)), "");
    assert_eq!(text(&join_range(&parts, 1, 4, &sep)), "bc, , d");
}

#[test]
fn find_gives_the_first_occurrence() {
    for (hay, needle) in [
        ("hello world", "o"),
        ("hello world", "world"),
        ("hello", "xyz"),
        ("", ""),
        ("abc", ""),
        ("", "a"),
        ("aaab", "aab"),
        ("ab", "abc"),
        ("é STRATEGY: x", "STRATEGY:"),
    ] {
        let got = find_first(&chars(hay), &chars(needle));
        let want = hay.find(needle).map(|b| hay[..b].chars().count());
        assert_eq!(got, want, "{:?} in {:?}", needle, hay);
    }
}

#[test]
fn matches_at_checks_one_position() {
    let hay = chars("abcabc");
    assert!(matches_at(&hay, &chars("abc"), 3));
    assert!(!matches_at(&hay, &chars("abc"), 1));
    assert!(!matches_at(&hay, &chars("abc"), 4));
    assert!(!matches_at(&hay, &chars("abc"), 99));
    assert!(matches_at(&hay, &chars(""), 6));
    assert!(!matches_at(&hay, &chars(""), 7));
}

#[test]
fn decimal_notation() {
    for n in [0u64, 1, 9, 10, 11, 99, 100, 12345, 1_000_000, u64::MAX] {
        let mut out = chars("n=");
        push_decimal(&mut out, n);
        assert_eq!(text(&out), format!("n={}", n));
    }
}

#[test]
fn digits_are_ascii_digits() {
    for c in ['0', '5', '9'] {
        assert!(is_ascii_digit(c));
    }
    for c in ['/', ':', 'a', '٣', ' '] {
        assert!(!is_ascii_digit(c));
    }
}

#[test]
fn truncate_cuts_long_texts() {
    assert_eq!(truncate("short", 50), "short");
    assert_eq!(truncate("exactly ten", 11), "exactly ten");
    assert_eq!(truncate("0123456789abcdef", 10), "0123456...");
    assert_eq!(truncate("abcdef", 3), "...");
    assert_eq!(truncate("abcdef", 2), "...");
    assert_eq!(truncate("abcdef", 0), "...");
    assert_eq!(truncate("", 0), "");
    assert_eq!(truncate("ééééééé", 5), "éé...");
}

#[test]
fn paths_are_joined_with_a_slash() {
    assert_eq!(join_path("out", "c0"), "out/c0");
    assert_eq!(join_path("out/", "c0"), "out/c0");
    assert_eq!(join_path("", "c0"), "c0");
    assert_eq!(join_path(".", "claudissent-7"), "./claudissent-7");
    assert_eq!(join_path("/", "x"), "/x");
}
