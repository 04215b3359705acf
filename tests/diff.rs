use rdiff::diff::{decimal_text, diff_text_styled, line_number};
use rdiff::diff_text;

#[test]
fn identical_texts_show_each_line_once() {
    let t = "a\nb\nc\n";
    let out = diff_text_styled(t, t, false);
    assert!(!out.contains('+'));
    assert!(!out.contains('-'));
    assert_eq!(out, "1   1    | a\n2   2    | b\n3   3    | c\n");
    assert_eq!(diff_text_styled("x", "x", false), "1   1    | x\n");
    assert_eq!(diff_text_styled("", "", false), "");
    assert!(diff_text(t, t).unwrap().contains('b'));
}

#[test]
fn one_changed_line() {
    let out = diff_text_styled("a\nb\nc\n", "a\nx\nc\n", false);
    assert_eq!(out, "1   1    | a\n2        |-b\n    2    |+x\n3   3    | c\n");
    assert_eq!(out.matches("|-").count(), 1);
    assert_eq!(out.matches("|+").count(), 1);
    assert_eq!(out.matches("| ").count(), 2);
}

#[test]
fn distant_changes_make_two_hunks() {
    let old: String = (1..=12).map(|i| format!("l{}\n", i)).collect();
    let new = old.replace("l1\n", "m1\n").replace("l12\n", "m12\n");
    let out = diff_text_styled(&old, &new, false);
    let rule = format!("{}\n", "-".repeat(80));
    assert_eq!(out.matches(&rule).count(), 1);
    assert!(out.starts_with("1        |-l1\n    1    |+m1\n"));
    assert!(out.ends_with("12       |-l12\n    12   |+m12\n"));
}

#[test]
fn missing_final_newline_is_added() {
    let out = diff_text_styled("a", "b", false);
    assert_eq!(out, "1        |-a\n    1    |+b\n");
}

#[test]
fn colored_output_keeps_the_text() {
    let out = diff_text_styled("a\n", "b\n", true);
    assert!(out.contains('\u{1b}'));
    assert!(out.contains('a'));
    assert!(out.contains('b'));
}

#[test]
fn numbers_are_written_in_decimal() {
    assert_eq!(decimal_text(0), "0");
    assert_eq!(decimal_text(4096), "4096");
    assert_eq!(line_number(Some(9)), "10  ");
    assert_eq!(line_number(Some(12344)), "12345");
    assert_eq!(line_number(None), "    ");
}
