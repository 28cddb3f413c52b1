use otail::backing_file::trim_line_end;
use otail::colour_spec::{Colour, ColouringRule, ColouringSpec};
use otail::common::{clamped_add, clamped_sub, count_digits, replace_for_view, LineContent};
use otail::ffile::FilterLine;
use otail::filter_spec::{FilterError, FilterSpec, FilterType};

#[test]
fn clamped_sub_stops_at_zero() {
    assert_eq!(clamped_sub(10, 3), 7);
    assert_eq!(clamped_sub(3, 10), 0);
    assert_eq!(clamped_sub(5, 5), 0);
}

#[test]
fn clamped_add_clamps_both_ways() {
    assert_eq!(clamped_add(5, 3, 0, 10), 8);
    assert_eq!(clamped_add(5, 30, 0, 10), 10);
    assert_eq!(clamped_add(5, -30, 2, 10), 2);
    assert_eq!(clamped_add(7, 1, 1, 9), 8);
    assert_eq!(clamped_add(usize::MAX, 1, 0, usize::MAX), usize::MAX);
}

#[test]
fn count_digits_of_powers_of_ten() {
    assert_eq!(count_digits(0), 1);
    assert_eq!(count_digits(9), 1);
    assert_eq!(count_digits(10), 2);
    assert_eq!(count_digits(999), 3);
    assert_eq!(count_digits(1000), 4);
    assert_eq!(count_digits(usize::MAX), 20);
}

#[test]
fn replace_for_view_turns_tabs_into_spaces() {
    assert_eq!(replace_for_view(&"a\tb\t\tc".to_string()), "a b  c");
    assert_eq!("x\ty".to_string().render(), "x y");
}

#[test]
fn line_lengths_are_in_bytes() {
    assert_eq!(LineContent::len(&"héllo".to_string()), 6);
    let fl = FilterLine { line_no: 3, line: "a\tb".to_string() };
    assert_eq!(LineContent::len(&fl), 3);
    assert_eq!(fl.render(), "a b");
}

#[test]
fn test_trim_line_end_with_unix_newline() {
    let (line, partial) = trim_line_end("test line\n");
    assert_eq!(line, "test line");
    assert!(!partial);
}

#[test]
fn test_trim_line_end_with_windows_newline() {
    let (line, partial) = trim_line_end("test line\r\n");
    assert_eq!(line, "test line");
    assert!(!partial);
}

#[test]
fn test_trim_line_end_no_newline() {
    let (line, partial) = trim_line_end("test line");
    assert_eq!(line, "test line");
    assert!(partial);
}

#[test]
fn trim_keeps_a_lone_carriage_return() {
    let (line, partial) = trim_line_end("a\r");
    assert_eq!(line, "a\r");
    assert!(partial);
    let (line, partial) = trim_line_end("\n");
    assert_eq!(line, "");
    assert!(!partial);
}

#[test]
fn filter_kinds_match() {
    let s = FilterSpec::new(FilterType::SimpleCaseSensitive, "Err").unwrap();
    assert!(s.matches("an Error here"));
    assert!(!s.matches("an error here"));
    let i = FilterSpec::new(FilterType::SimpleCaseInsensitive, "ERR").unwrap();
    assert!(i.matches("an error here"));
    assert!(!i.matches("all fine"));
    let r = FilterSpec::new(FilterType::Regex, r"^\d+ ok$").unwrap();
    assert!(r.matches("42 ok"));
    assert!(!r.matches("x42 ok"));
    let empty = FilterSpec::new(FilterType::SimpleCaseSensitive, "").unwrap();
    assert!(empty.matches(""));
}

#[test]
fn invalid_regex_is_refused() {
    match FilterSpec::new(FilterType::Regex, "foo(bar") {
        Err(FilterError::InvalidRegex { reason }) => assert!(!reason.is_empty()),
        Ok(_) => panic!("pattern should not compile"),
    }
    assert!(FilterSpec::new(FilterType::SimpleCaseSensitive, "foo(bar").is_ok());
}

#[test]
fn filter_render_and_equality() {
    let a = FilterSpec::new(FilterType::Regex, "a+").unwrap();
    assert_eq!(a.render(), "\"a+\" (Regex)");
    let b = FilterSpec::new(FilterType::SimpleCaseInsensitive, "x").unwrap();
    assert_eq!(b.render(), "\"x\" (Insensitive)");
    let c = FilterSpec::new(FilterType::SimpleCaseSensitive, "x").unwrap();
    assert_eq!(c.render(), "\"x\" (Sensitive)");
    assert!(a == FilterSpec::new(FilterType::Regex, "a+").unwrap());
    assert!(b != c);
    assert_eq!(a.filter_pattern(), "a+");
    assert_eq!(a.filter_type(), FilterType::Regex);
}

fn rule(pattern: &str, fg: Option<Colour>) -> ColouringRule {
    ColouringRule {
        enabled: true,
        filter_spec: FilterSpec::new(FilterType::SimpleCaseInsensitive, pattern).unwrap(),
        fg_colour: fg,
        bg_colour: None,
    }
}

fn patterns(spec: &ColouringSpec) -> Vec<String> {
    spec.rules().iter().map(|r| r.filter_spec.filter_pattern().clone()).collect()
}

#[test]
fn colouring_first_match_wins() {
    let spec = ColouringSpec::new().set_rules(vec![rule("warn", Some(Colour::Yellow)), rule("w", Some(Colour::Blue))]);
    assert_eq!(spec.maybe_colour("a WARNing"), Some((Some(Colour::Yellow), None)));
    assert_eq!(spec.maybe_colour("wow"), Some((Some(Colour::Blue), None)));
    assert_eq!(spec.maybe_colour("nothing"), None);
    let d = ColouringSpec::default();
    assert_eq!(d.maybe_colour("an ERROR"), Some((Some(Colour::Red), None)));
}

#[test]
fn colouring_rules_are_edited_in_place() {
    let mut spec = ColouringSpec::new();
    spec.add_rule(rule("a", None), None);
    spec.add_rule(rule("b", None), Some(0));
    spec.add_rule(rule("c", None), Some(9));
    assert_eq!(patterns(&spec), vec!["b", "a", "c"]);
    assert!(spec.move_rule_up(2));
    assert_eq!(patterns(&spec), vec!["b", "c", "a"]);
    assert!(!spec.move_rule_up(0));
    assert!(spec.move_rule_down(0));
    assert_eq!(patterns(&spec), vec!["c", "b", "a"]);
    assert!(!spec.move_rule_down(2));
    assert!(spec.update_rule(1, rule("z", None)));
    assert!(!spec.update_rule(3, rule("z", None)));
    assert_eq!(patterns(&spec), vec!["c", "z", "a"]);
    assert!(spec.remove_rule(0).is_some());
    assert!(spec.remove_rule(5).is_none());
    assert_eq!(patterns(&spec), vec!["z", "a"]);
    let d = ColouringRule::default();
    assert!(d.enabled);
    assert_eq!(d.filter_spec.filter_pattern(), "");
}
