use pprof_blame::aggregate::{analyze_profile, AnalysisResults, FrameStat};
use pprof_blame::classify::{Mode, PatternSet};
use pprof_blame::pattern::Pattern;
use pprof_blame::profile::{Function, Line, Location, Profile, Sample};
use pprof_blame::registry::{extract_stack, function_map, location_map, StringTable};

fn pat(s: &str) -> Pattern {
    Pattern::new(s).unwrap()
}

fn set(blame: &str, parent: Option<&str>, exclude: Option<&str>) -> PatternSet {
    PatternSet { blame: pat(blame), parent: parent.map(pat), exclude: exclude.map(pat) }
}

/// Functions 1..=n named by `names`, one location per function with the same id.
fn profile(names: &[&str], samples: Vec<(Vec<u64>, i64)>) -> Profile {
    let mut string_table = vec![String::new()];
    let mut function = Vec::new();
    let mut location = Vec::new();
    for (i, n) in names.iter().enumerate() {
        string_table.push(n.to_string());
        let id = (i + 1) as u64;
        function.push(Function { id, name: (i + 1) as i64, ..Default::default() });
        location.push(Location {
            id,
            line: vec![Line { function_id: id, line: 0 }],
            ..Default::default()
        });
    }
    let sample = samples
        .into_iter()
        .map(|(ids, v)| Sample { location_id: ids, value: vec![v], ..Default::default() })
        .collect();
    Profile { string_table, function, location, sample, ..Default::default() }
}

fn stat(name: &str, samples: usize, value: i128) -> (String, usize, i128) {
    (name.to_string(), samples, value)
}

fn stats(t: &[FrameStat]) -> Vec<(String, usize, i128)> {
    t.iter().map(|e| (e.name.clone(), e.samples, e.value)).collect()
}

#[test]
fn string_table_tolerates_bad_indices() {
    let table = vec!["".to_string(), "main".to_string()];
    let st = StringTable::new(&table);
    assert_eq!(st.get(1), "main");
    assert_eq!(st.get(0), "");
    assert_eq!(st.get(2), "<invalid_index>");
    assert_eq!(st.get(-1), "<invalid_index>");
}

#[test]
fn extract_stack_flattens_lines_and_drops_unknown_ids() {
    let mut p = profile(&["A", "B", "C"], vec![]);
    // Location 1 has an inlined frame: B inlined into A, innermost first.
    p.location[0].line = vec![
        Line { function_id: 2, line: 0 },
        Line { function_id: 1, line: 0 },
        Line { function_id: 99, line: 0 },
    ];
    let sample = Sample { location_id: vec![1, 42, 3], ..Default::default() };
    let st = StringTable::new(&p.string_table);
    let fm = function_map(&p, &st);
    let lm = location_map(&p);
    assert_eq!(extract_stack(&sample, &lm, &fm), vec!["B", "A", "C"]);
}

#[test]
fn later_function_with_same_id_wins() {
    let mut p = profile(&["A", "B"], vec![]);
    p.function.push(Function { id: 1, name: 2, ..Default::default() });
    p.function.push(Function { id: 7, name: 40, ..Default::default() });
    let st = StringTable::new(&p.string_table);
    let fm = function_map(&p, &st);
    assert_eq!(fm.get(&1).copied(), Some("B"));
    assert_eq!(fm.get(&7).copied(), Some("<invalid_index>"));
}

#[test]
fn empty_stack_is_not_counted() {
    let p = profile(&["A", "B"], vec![(vec![], 5), (vec![77], 6), (vec![1, 2], 10)]);
    let r = analyze_profile(&p, &set("A", None, None), Mode::Windowed);
    assert_eq!((r.total_samples, r.total_value), (1, 10));
    assert_eq!((r.blamed_samples, r.blamed_value), (1, 10));
}

#[test]
fn windowed_analysis_counts_each_bucket() {
    // Stacks are leaf first: 1=A, 2=B, 3=C, 4=X.
    let p = profile(
        &["A", "B", "C", "X"],
        vec![
            (vec![1, 2, 3], 100),
            (vec![4, 1, 3], 20),
            (vec![1, 2], 3),
            (vec![2, 3], 4000),
            (vec![1, 3], 50000),
        ],
    );
    let r = analyze_profile(&p, &set("A", Some("C"), Some("X")), Mode::Windowed);
    assert_eq!((r.total_samples, r.total_value), (5, 54123));
    assert_eq!((r.parent_samples, r.parent_value), (4, 54120));
    assert_eq!((r.blamed_samples, r.blamed_value), (2, 50100));
    assert_eq!((r.excluded_samples, r.excluded_value), (1, 20));
    assert_eq!((r.unmatched_samples, r.unmatched_value), (1, 4000));
    assert_eq!((r.parent_missing_samples, r.parent_missing_value), (1, 3));
    assert_eq!(stats(&r.blamed_frames), vec![stat("A", 2, 50100)]);
    assert_eq!(stats(&r.excluded_frames), vec![stat("A", 1, 20)]);
    assert_eq!(stats(&r.parent_frames), vec![stat("C", 4, 54120)]);
    assert_eq!(r.denominator(), (4, 54120));
}

#[test]
fn counters_partition_total() {
    let p = profile(
        &["A", "B", "C", "X"],
        vec![(vec![1, 2, 3], 1), (vec![4, 1, 3], 2), (vec![1, 2], 4), (vec![2, 3], 8), (vec![], 16)],
    );
    for mode in [Mode::Windowed, Mode::ToggleStrict, Mode::TogglePermissive] {
        let r = analyze_profile(&p, &set("A", Some("C"), Some("X")), mode);
        assert_eq!(
            r.total_samples,
            r.blamed_samples + r.excluded_samples + r.unmatched_samples + r.parent_missing_samples
        );
        assert_eq!(
            r.total_value,
            r.blamed_value + r.excluded_value + r.unmatched_value + r.parent_missing_value
        );
        assert_eq!(r.total_samples, 4);
    }
}

#[test]
fn frames_tally_in_first_seen_order() {
    let p = profile(
        &["A1", "A2", "main"],
        vec![(vec![2, 3], 1), (vec![1, 3], 2), (vec![2, 3], 4)],
    );
    let r = analyze_profile(&p, &set("^A", None, None), Mode::Windowed);
    assert_eq!(stats(&r.blamed_frames), vec![stat("A2", 2, 5), stat("A1", 1, 2)]);
}

#[test]
fn analysis_is_repeatable() {
    let p = profile(
        &["A", "B", "C"],
        vec![(vec![1, 2, 3], 7), (vec![2, 3], 9), (vec![3], 11)],
    );
    let pats = set("B", Some("C"), Some("A"));
    let r1 = analyze_profile(&p, &pats, Mode::Windowed);
    let r2 = analyze_profile(&p, &pats, Mode::Windowed);
    assert_eq!(format!("{:?}", r1), format!("{:?}", r2));
}

#[test]
fn unmatched_parent_falls_back_to_total() {
    let p = profile(&["A", "B"], vec![(vec![1, 2], 30), (vec![2], 12)]);
    let r = analyze_profile(&p, &set("A", Some("Z"), None), Mode::Windowed);
    assert_eq!(r.parent_samples, 0);
    assert_eq!(r.denominator(), (2, 42));
}

#[test]
fn strict_toggle_analysis() {
    // Leaf first [B, X, B]: root B sets, X cancels, scan stops.
    let p = profile(&["B", "X"], vec![(vec![1, 2, 1], 5), (vec![1, 2], 7)]);
    let pats = set("B", None, Some("X"));
    let strict = analyze_profile(&p, &pats, Mode::ToggleStrict);
    assert_eq!((strict.blamed_samples, strict.blamed_value), (1, 7));
    assert_eq!((strict.unmatched_samples, strict.unmatched_value), (1, 5));
    let permissive = analyze_profile(&p, &pats, Mode::TogglePermissive);
    assert_eq!((permissive.blamed_samples, permissive.blamed_value), (2, 12));
    assert_eq!(permissive.excluded_samples, 0);
}

#[test]
fn sample_without_values_counts_zero() {
    let mut p = profile(&["A"], vec![(vec![1], 9)]);
    p.sample[0].value.clear();
    let r = analyze_profile(&p, &set("A", None, None), Mode::Windowed);
    assert_eq!((r.total_samples, r.total_value), (1, 0));
    assert_eq!(r.denominator(), (1, 0));
}

#[test]
fn new_results_are_empty() {
    let r = AnalysisResults::new();
    assert_eq!(r.total_samples, 0);
    assert!(r.blamed_frames.is_empty() && r.parent_frames.is_empty());
}

#[test]
fn large_values_do_not_overflow() {
    let p = profile(&["A"], vec![(vec![1], i64::MAX), (vec![1], i64::MAX)]);
    let r = analyze_profile(&p, &set("A", None, None), Mode::Windowed);
    assert_eq!(r.blamed_value, 2 * (i64::MAX as i128));
}
