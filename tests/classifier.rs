use pprof_blame::classify::{classify, Classification, Mode, Outcome, PatternSet};
use pprof_blame::pattern::Pattern;

fn pat(s: &str) -> Pattern {
    Pattern::new(s).unwrap()
}

fn set(blame: &str, parent: Option<&str>, exclude: Option<&str>) -> PatternSet {
    PatternSet { blame: pat(blame), parent: parent.map(pat), exclude: exclude.map(pat) }
}

#[test]
fn blame_without_parent_or_exclude() {
    let stack = ["A", "B", "C"];
    let c = classify(&stack, &set("B", None, None), Mode::Windowed);
    assert_eq!(c, Classification { parent: None, outcome: Outcome::Blamed(1) });
}

#[test]
fn parent_bounds_the_search_window() {
    let stack = ["A", "B", "C"];
    let c = classify(&stack, &set("A", Some("C"), None), Mode::Windowed);
    assert_eq!(c, Classification { parent: Some(2), outcome: Outcome::Blamed(0) });
}

#[test]
fn blame_at_or_above_parent_is_unmatched() {
    let stack = ["A", "B", "C"];
    let c = classify(&stack, &set("C", Some("B"), None), Mode::Windowed);
    assert_eq!(c, Classification { parent: Some(1), outcome: Outcome::Unmatched });
    let c = classify(&stack, &set("B", Some("B"), None), Mode::Windowed);
    assert_eq!(c, Classification { parent: Some(1), outcome: Outcome::Unmatched });
}

#[test]
fn exclude_below_blame_excludes() {
    let stack = ["A", "B", "C"];
    let c = classify(&stack, &set("B", None, Some("A")), Mode::Windowed);
    assert_eq!(c, Classification { parent: None, outcome: Outcome::Excluded(1) });
}

#[test]
fn exclude_above_blame_is_irrelevant() {
    let stack = ["A", "B", "X", "B"];
    let c = classify(&stack, &set("B", None, Some("X")), Mode::Windowed);
    assert_eq!(c, Classification { parent: None, outcome: Outcome::Blamed(1) });
}

#[test]
fn exclude_at_blame_frame_is_irrelevant() {
    let stack = ["A", "B", "C"];
    let c = classify(&stack, &set("B", None, Some("B")), Mode::Windowed);
    assert_eq!(c.outcome, Outcome::Blamed(1));
}

#[test]
fn missing_parent_gives_parent_not_found() {
    let stack = ["A", "B", "C"];
    let c = classify(&stack, &set("A", Some("Z"), None), Mode::Windowed);
    assert_eq!(c, Classification { parent: None, outcome: Outcome::ParentNotFound });
}

#[test]
fn no_parent_pattern_searches_whole_stack() {
    let stack = ["A", "B", "C"];
    let c = classify(&stack, &set("C", None, None), Mode::Windowed);
    assert_eq!(c, Classification { parent: None, outcome: Outcome::Blamed(2) });
}

#[test]
fn innermost_match_wins() {
    let stack = ["foo_inner", "foo_outer", "main"];
    let c = classify(&stack, &set("^foo", None, None), Mode::Windowed);
    assert_eq!(c.outcome, Outcome::Blamed(0));
}

#[test]
fn no_blame_match_is_unmatched() {
    let stack = ["A", "B"];
    let c = classify(&stack, &set("Q", None, Some("A")), Mode::Windowed);
    assert_eq!(c.outcome, Outcome::Unmatched);
}

#[test]
fn strict_toggle_cancel_is_final() {
    // Root first: B sets the state, X cancels it, and the scan stops.
    let stack = ["B", "X", "B"];
    let c = classify(&stack, &set("B", None, Some("X")), Mode::ToggleStrict);
    assert_eq!(c, Classification { parent: None, outcome: Outcome::Unmatched });
}

#[test]
fn permissive_toggle_blames_again() {
    let stack = ["B", "X", "B"];
    let c = classify(&stack, &set("B", None, Some("X")), Mode::TogglePermissive);
    assert_eq!(c, Classification { parent: None, outcome: Outcome::Blamed(0) });
}

#[test]
fn toggle_exclude_before_blame_does_nothing() {
    // Root first: X comes before any blame frame and is ignored.
    let stack = ["B", "X"];
    let c = classify(&stack, &set("B", None, Some("X")), Mode::ToggleStrict);
    assert_eq!(c.outcome, Outcome::Blamed(0));
}

#[test]
fn toggle_ignores_parent_pattern() {
    let stack = ["A", "B"];
    let c = classify(&stack, &set("A", Some("Z"), None), Mode::ToggleStrict);
    assert_eq!(c, Classification { parent: None, outcome: Outcome::Blamed(0) });
}

#[test]
fn toggle_reports_last_blame_frame_set() {
    let stack = ["B1", "B2"];
    let c = classify(&stack, &set("B", None, None), Mode::TogglePermissive);
    assert_eq!(c.outcome, Outcome::Blamed(0));
}

#[test]
fn pattern_matching_uses_regex() {
    let p = pat("^run_[a-z]+$");
    assert!(p.is_match("run_tasks"));
    assert!(!p.is_match("xrun_tasks"));
    assert!(!p.is_match("run_1"));
    assert_eq!(p.as_str(), "^run_[a-z]+$");
}

#[test]
fn invalid_pattern_is_rejected() {
    let e = Pattern::new("foo(bar").err().unwrap();
    assert_eq!(e.pattern, "foo(bar");
    assert!(!e.reason.is_empty());
}
