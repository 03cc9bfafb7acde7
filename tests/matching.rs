use vanity_search::matcher::{find_hit, matches_any, matches_pattern, text_ends_with, text_starts_with};

fn strings(items: &[&str]) -> Vec<String> {
    items.iter().map(|s| s.to_string()).collect()
}

const MAIN: &str = "bc1pxyqqqqqqqqqqqqqqqqqqqqqqqqqqqqqqqqqqqqqqqqqqqqqqqqqqqqqqde";
const PAY: &str = "bc1qpayqqqqqqqqqqqqqqqqqqqqqqqqqqqqqqqqq9k";

#[test]
fn prefix_mode_matches_after_shared_prefix() {
    assert!(matches_pattern("bc1pXYZabc", "XY", false));
    assert!(!matches_pattern("bc1pZXYabc", "XY", false));
    assert!(!matches_pattern("bc1qXYabc", "XY", false));
    assert!(!matches_pattern("XYbc1p", "XY", false));
}

#[test]
fn suffix_mode_matches_trailing_characters() {
    assert!(matches_pattern("bc1pzzzzde", "de", true));
    assert!(matches_pattern("anything-at-all-de", "de", true));
    assert!(!matches_pattern("bc1pdezzzz", "de", true));
}

#[test]
fn prefix_and_suffix_helpers() {
    assert!(text_starts_with("abc", "ab"));
    assert!(text_starts_with("abc", ""));
    assert!(!text_starts_with("ab", "abc"));
    assert!(text_ends_with("abc", "bc"));
    assert!(!text_ends_with("abc", "ab"));
    assert!(!text_ends_with("c", "bc"));
}

#[test]
fn any_pattern_of_list() {
    assert!(matches_any(PAY, &strings(&["zz", "9k"]), true));
    assert!(!matches_any(PAY, &strings(&["zz", "8k"]), true));
    assert!(!matches_any(PAY, &Vec::new(), true));
}

#[test]
fn no_payment_patterns_primary_match_is_hit() {
    let primary = strings(&["zz", "xy"]);
    assert_eq!(find_hit(MAIN, PAY, &primary, &Vec::new(), false), Some(1));
    assert_eq!(find_hit(MAIN, PAY, &primary, &Vec::new(), true), None);
}

#[test]
fn payment_gate_blocks_hit() {
    let primary = strings(&["xy", "de"]);
    assert_eq!(find_hit(MAIN, PAY, &primary, &strings(&["zz"]), true), None);
    assert_eq!(find_hit(MAIN, PAY, &primary, &strings(&["zz", "9k"]), true), Some(1));
}

#[test]
fn payment_gate_in_prefix_mode_uses_shared_prefix() {
    let primary = strings(&["xy"]);
    assert_eq!(find_hit(MAIN, PAY, &primary, &strings(&["pay"]), false), None);
    assert_eq!(find_hit(MAIN, "bc1ppay", &primary, &strings(&["pay"]), false), Some(0));
}

#[test]
fn first_matching_primary_pattern_wins() {
    let primary = strings(&["x", "xy", "de"]);
    assert_eq!(find_hit(MAIN, PAY, &primary, &Vec::new(), false), Some(0));
}
