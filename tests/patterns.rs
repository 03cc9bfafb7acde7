use vanity_search::patterns::{parse_patterns, patterns_from, remove_pattern, render_patterns};
use vanity_search::text::{is_whitespace, same_text, trim_text};

fn strings(items: &[&str]) -> Vec<String> {
    items.iter().map(|s| s.to_string()).collect()
}

#[test]
fn trim_drops_surrounding_whitespace() {
    assert_eq!(trim_text("  ab \t"), "ab");
    assert_eq!(trim_text("\u{3000}x y\u{a0}"), "x y");
    assert_eq!(trim_text(" \r\n "), "");
    assert_eq!(trim_text(""), "");
}

#[test]
fn whitespace_agrees_with_std() {
    for u in 0u32..0x3100 {
        if let Some(c) = char::from_u32(u) {
            assert_eq!(is_whitespace(c), c.is_whitespace(), "{:x}", u);
        }
    }
}

#[test]
fn same_text_compares_characters() {
    assert!(same_text("ab", "ab"));
    assert!(!same_text("ab", "abc"));
    assert!(!same_text("ab", "ac"));
    assert!(same_text("", ""));
}

#[test]
fn parse_skips_blank_lines_and_trims() {
    let text = "ab\n\n  cd  \r\n\t\nef";
    assert_eq!(parse_patterns(text), strings(&["ab", "cd", "ef"]));
}

#[test]
fn parse_empty_text_gives_no_patterns() {
    assert!(parse_patterns("").is_empty());
    assert!(parse_patterns("\n \n").is_empty());
}

#[test]
fn parse_agrees_with_std_lines() {
    let text = " x1 \r\nyy\n\n z\u{2003}\n";
    let expected: Vec<String> = text
        .lines()
        .map(|s| s.trim().to_string())
        .filter(|s| !s.is_empty())
        .collect();
    assert_eq!(parse_patterns(text), expected);
}

#[test]
fn render_writes_one_pattern_per_line() {
    assert_eq!(render_patterns(&strings(&["ab", "cd"])), "ab\ncd\n");
    assert_eq!(render_patterns(&Vec::new()), "");
}

#[test]
fn render_then_parse_round_trips() {
    let set = strings(&["qq", "a", "qq", "zz9"]);
    assert_eq!(parse_patterns(&render_patterns(&set)), set);
}

#[test]
fn remove_takes_out_every_occurrence() {
    let set = strings(&["ab", "cd", "ab", "ef"]);
    let out = remove_pattern(&set, "ab");
    assert_eq!(out, strings(&["cd", "ef"]));
    assert!(!out.iter().any(|p| p == "ab"));
}

#[test]
fn remove_absent_pattern_keeps_list() {
    let set = strings(&["ab", "cd"]);
    assert_eq!(remove_pattern(&set, "xy"), set);
    assert!(remove_pattern(&Vec::new(), "xy").is_empty());
}

#[test]
fn literal_pattern_wins_over_file() {
    let file = "ab\ncd\n";
    assert_eq!(patterns_from(&Some(" x ".to_string()), file), strings(&[" x "]));
    assert_eq!(patterns_from(&None, file), strings(&["ab", "cd"]));
    assert!(patterns_from(&None, "").is_empty());
}
