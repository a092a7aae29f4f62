use ansi_term::Colour;
use linediff::edit::Action;
use linediff::number::pad_number;
use linediff::render::{render_action, render_actions};
use linediff::script::lev;

fn lines(items: &[&str]) -> Vec<String> {
    items.iter().map(|s| s.to_string()).collect()
}

#[test]
fn a_number_is_set_to_the_right() {
    assert_eq!(pad_number(7, 3), "  7");
    assert_eq!(pad_number(42, 3), " 42");
    assert_eq!(pad_number(123, 3), "123");
    assert_eq!(pad_number(0, 1), "0");
    assert_eq!(pad_number(0, 4), "   0");
    assert_eq!(pad_number(10, 2), "10");
    assert_eq!(pad_number(100, 5), "  100");
}

#[test]
fn a_number_wider_than_the_field_stays_whole() {
    assert_eq!(pad_number(12345, 3), "12345");
    assert_eq!(pad_number(9, 0), "9");
    assert_eq!(pad_number(usize::MAX, 2), usize::MAX.to_string());
}

#[test]
fn a_padded_number_is_what_the_format_macro_gives() {
    for n in [0usize, 1, 9, 10, 11, 99, 100, 101, 999, 1000, 65535, 1_000_000, usize::MAX] {
        for width in 0usize..8 {
            assert_eq!(pad_number(n, width), format!("{n:>width$}"));
        }
    }
}

#[test]
fn an_added_line_is_green() {
    let line = render_action(&Action::Add(2, "new".to_string()), 1);
    assert_eq!(line, "2 \u{1b}[32m+\u{1b}[0m| \u{1b}[32mnew\u{1b}[0m");
}

#[test]
fn a_removed_line_is_red() {
    let line = render_action(&Action::Remove(12, "old".to_string()), 2);
    assert_eq!(line, "12 \u{1b}[31m-\u{1b}[0m| \u{1b}[31mold\u{1b}[0m");
}

#[test]
fn a_substituted_line_shows_both_texts() {
    let line = render_action(&Action::Substitute(3, "old".to_string(), "new".to_string()), 2);
    assert_eq!(
        line,
        " 3 \u{1b}[33m~\u{1b}[0m| \u{1b}[31mold\u{1b}[0m \u{21c6}  \u{1b}[32mnew\u{1b}[0m"
    );
}

#[test]
fn a_kept_line_has_no_colour() {
    let line = render_action(&Action::Ignore(4, "same".to_string()), 3);
    assert_eq!(line, "  4  | same");
}

#[test]
fn an_empty_text_is_still_painted() {
    let line = render_action(&Action::Add(1, String::new()), 1);
    assert_eq!(line, "1 \u{1b}[32m+\u{1b}[0m| \u{1b}[32m\u{1b}[0m");
}

#[test]
fn the_lines_are_what_painting_and_formatting_give() {
    let width: usize = 2;
    let (red, green, yellow) = (Colour::Red, Colour::Green, Colour::Yellow);
    let line = render_action(&Action::Add(5, "p q".to_string()), width);
    assert_eq!(line, format!("{:>width$} {}| {}", 5, green.paint("+"), green.paint("p q")));
    let line = render_action(&Action::Remove(6, "r".to_string()), width);
    assert_eq!(line, format!("{:>width$} {}| {}", 6, red.paint("-"), red.paint("r")));
    let line = render_action(&Action::Substitute(7, "s".to_string(), "t".to_string()), width);
    assert_eq!(
        line,
        format!(
            "{:>width$} {}| {} \u{21c6}  {}",
            7,
            yellow.paint("~"),
            red.paint("s"),
            green.paint("t")
        )
    );
    let line = render_action(&Action::Ignore(8, "u".to_string()), width);
    assert_eq!(line, format!("{:>width$}  | {}", 8, "u"));
}

#[test]
fn a_script_is_shown_line_by_line() {
    let script = lev(&lines(&["a", "b", "c"]), &lines(&["a", "x", "c"]));
    assert_eq!(
        render_actions(&script, 1),
        vec![
            "1  | a".to_string(),
            "2 \u{1b}[33m~\u{1b}[0m| \u{1b}[31mb\u{1b}[0m \u{21c6}  \u{1b}[32mx\u{1b}[0m".to_string(),
            "3  | c".to_string(),
        ]
    );
}

#[test]
fn an_empty_script_shows_no_lines() {
    assert!(render_actions(&[], 1).is_empty());
}
