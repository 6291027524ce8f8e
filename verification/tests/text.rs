use status_blocks::text::{ends_with, render_decimal, starts_with, str_equal};

#[test]
fn render_decimal_matches_the_usual_form() {
    assert_eq!(render_decimal(0), "0");
    assert_eq!(render_decimal(7), "7");
    assert_eq!(render_decimal(10), "10");
    assert_eq!(render_decimal(40), "40");
    assert_eq!(render_decimal(-1), "-1");
    assert_eq!(render_decimal(-100), "-100");
    assert_eq!(render_decimal(1234567890), "1234567890");
    assert_eq!(render_decimal(i64::MAX), "9223372036854775807");
    assert_eq!(render_decimal(i64::MIN), "-9223372036854775808");
}

#[test]
fn render_decimal_agrees_with_std() {
    let mut n: i64 = -3000;
    while n <= 3000 {
        assert_eq!(render_decimal(n), n.to_string());
        n += 7;
    }
}

#[test]
fn starts_with_tests_the_prefix() {
    assert!(starts_with("temp1_input", "temp"));
    assert!(starts_with("temp", "temp"));
    assert!(starts_with("anything", ""));
    assert!(!starts_with("tem", "temp"));
    assert!(!starts_with("fan1_input", "temp"));
    assert!(!starts_with("", "temp"));
}

#[test]
fn ends_with_tests_the_suffix() {
    assert!(ends_with("temp1_input", "input"));
    assert!(ends_with("input", "input"));
    assert!(ends_with("anything", ""));
    assert!(!ends_with("temp1_max", "input"));
    assert!(!ends_with("nput", "input"));
    assert!(!ends_with("", "input"));
}

#[test]
fn str_equal_compares_characters() {
    assert!(str_equal("", ""));
    assert!(str_equal("20° max", "20° max"));
    assert!(!str_equal("a", "b"));
    assert!(!str_equal("a", "ab"));
    assert!(!str_equal("ab", "a"));
}
