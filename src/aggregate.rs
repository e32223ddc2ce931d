//! Accumulation of classified samples into counters and per-frame tallies.

use vstd::prelude::*;
use crate::classify::{
    classification, classify, indices_below, lemma_classification_in_range, names_of,
    Classification, Mode, Outcome, PatternSet, PatternsView,
};
use crate::profile::{sample_value, Profile};
use crate::registry::{
    extract_stack, function_map, function_names, location_map, locations_by_id, stack_names,
    StringTable,
};

verus! {

/// Largest magnitude of one sample value.
pub open spec fn value_bound() -> int {
    0x8000_0000_0000_0000
}

/// Per-frame tally: name, sample count and summed value of each entry.
pub type TallyView = Seq<(Seq<char>, nat, int)>;

/// Samples and summed value attributed to one frame name.
#[derive(Clone, Debug)]
pub struct FrameStat {
    pub name: String,
    pub samples: usize,
    pub value: i128,
}

pub open spec fn stat_view(e: FrameStat) -> (Seq<char>, nat, int) {
    (e.name@, e.samples as nat, e.value as int)
}

pub open spec fn tally_view(t: Seq<FrameStat>) -> TallyView {
    t.map_values(|e: FrameStat| stat_view(e))
}

/// Index of the entry of `t` named `name`.
pub open spec fn tally_index(t: TallyView, name: Seq<char>) -> Option<nat>
    decreases t.len(),
{
    if t.len() == 0 {
        None
    } else {
        match tally_index(t.drop_last(), name) {
            Some(i) => Some(i),
            None => if t.last().0 == name {
                Some((t.len() - 1) as nat)
            } else {
                None
            },
        }
    }
}

/// `t` after one more sample of value `v` for `name`: its entry is updated
/// in place, or a new entry is appended.
pub open spec fn tally_add(t: TallyView, name: Seq<char>, v: int) -> TallyView {
    match tally_index(t, name) {
        Some(i) => t.update(i as int, (name, t[i as int].1 + 1, t[i as int].2 + v)),
        None => t.push((name, 1, v)),
    }
}

/// Names are unique, every entry holds between one and `max` samples, and
/// each sum is within what that many samples can add up to.
pub open spec fn tally_wf(t: TallyView, max: nat) -> bool {
    &&& forall|i: int, j: int| 0 <= i < j < t.len() ==> t[i].0 != t[j].0
    &&& forall|i: int|
        0 <= i < t.len() ==> 1 <= #[trigger] t[i].1 <= max && -value_bound() * t[i].1 <= t[i].2
            <= value_bound() * t[i].1
}

proof fn lemma_tally_index(t: TallyView, name: Seq<char>)
    ensures
        match tally_index(t, name) {
            Some(i) => i < t.len() && t[i as int].0 == name,
            None => forall|j: int| 0 <= j < t.len() ==> (#[trigger] t[j]).0 != name,
        },
    decreases t.len(),
{
    if t.len() > 0 {
        lemma_tally_index(t.drop_last(), name);
        assert(forall|j: int| 0 <= j < t.len() - 1 ==> t.drop_last()[j] == t[j]);
    }
}

proof fn lemma_tally_index_prefix(t: TallyView, name: Seq<char>, k: int)
    requires
        0 <= k <= t.len(),
        tally_index(t.take(k), name) is Some,
    ensures
        tally_index(t, name) == tally_index(t.take(k), name),
    decreases t.len(),
{
    if t.len() > k {
        assert(t.drop_last().take(k) =~= t.take(k));
        lemma_tally_index_prefix(t.drop_last(), name, k);
    } else {
        assert(t.take(k) =~= t);
    }
}

/// One more value added to a sum of `n` values stays within the bound for
/// `n + 1` values, which fits an `i128`.
proof fn lemma_sum_fits(n: nat, sum: int, v: int)
    requires
        n < usize::MAX,
        -value_bound() * n <= sum <= value_bound() * n,
        -value_bound() <= v < value_bound(),
    ensures
        -value_bound() * (n + 1) <= sum + v <= value_bound() * (n + 1),
        i128::MIN <= sum + v <= i128::MAX,
        i128::MIN <= value_bound() * (n + 1) <= i128::MAX,
{
    let b = value_bound();
    assert(usize::MAX <= u64::MAX);
    assert(b * (n + 1) == b * n + b) by (nonlinear_arith);
    assert(b * (n + 1) <= b * u64::MAX) by (nonlinear_arith)
        requires
            n + 1 <= u64::MAX,
            b > 0,
    ;
    assert(-b * n == -(b * n)) by (nonlinear_arith);
    assert(-b * (n + 1) == -(b * (n + 1))) by (nonlinear_arith);
}

/// Adds one sample of value `value` to the entry for `name`.
fn tally_record(t: &mut Vec<FrameStat>, name: &str, value: i64, Ghost(max): Ghost<nat>)
    requires
        tally_wf(tally_view(old(t)@), max),
        max < usize::MAX,
    ensures
        tally_view(final(t)@) == tally_add(tally_view(old(t)@), name@, value as int),
        tally_wf(tally_view(final(t)@), max + 1),
{
    let ghost tv = tally_view(t@);
    let key = name.to_owned();
    let mut i: usize = 0;
    while i < t.len()
        invariant
            i <= t@.len(),
            tv == tally_view(t@),
            tv == tally_view(old(t)@),
            key@ == name@,
            tally_wf(tv, max),
            max < usize::MAX,
            tally_index(tv.take(i as int), name@) is None,
        decreases t@.len() - i,
    {
        assert(tv.take(i + 1).drop_last() =~= tv.take(i as int));
        if t[i].name == key {
            proof {
                assert(tv.take(i + 1).last() == tv[i as int]);
                assert(tv.take(tv.len() as int).take(i + 1) =~= tv.take(i + 1));
                lemma_tally_index_prefix(tv, name@, i + 1);
                assert(tv[i as int].1 <= max);
                lemma_sum_fits(tv[i as int].1, tv[i as int].2, value as int);
            }
            let samples = t[i].samples + 1;
            let sum = t[i].value + value as i128;
            t[i].samples = samples;
            t[i].value = sum;
            proof {
                let nv = tally_add(tv, name@, value as int);
                assert(nv[i as int] == (name@, tv[i as int].1 + 1, tv[i as int].2 + value));
                assert(tally_view(t@) =~= nv);
                assert forall|a: int| 0 <= a < nv.len() implies 1 <= #[trigger] nv[a].1 <= max
                    + 1 && -value_bound() * nv[a].1 <= nv[a].2 <= value_bound() * nv[a].1 by {
                    if a != i {
                        assert(nv[a] == tv[a]);
                    }
                }
            }
            return;
        }
        i = i + 1;
    }
    proof {
        assert(tv.take(tv.len() as int) =~= tv);
        lemma_tally_index(tv, name@);
    }
    t.push(FrameStat { name: key, samples: 1, value: value as i128 });
    proof {
        let nv = tally_add(tv, name@, value as int);
        assert(tally_view(t@) =~= nv);
        assert forall|a: int| 0 <= a < nv.len() implies 1 <= #[trigger] nv[a].1 <= max + 1
            && -value_bound() * nv[a].1 <= nv[a].2 <= value_bound() * nv[a].1 by {
            if a < tv.len() {
                assert(nv[a] == tv[a]);
            }
        }
    }
}

/// Counters and per-frame tallies, as mathematical values. Each counter is
/// a sample count and a summed value.
pub struct ResultsView {
    pub total: (nat, int),
    pub blamed: (nat, int),
    pub excluded: (nat, int),
    pub parent: (nat, int),
    pub unmatched: (nat, int),
    pub parent_missing: (nat, int),
    pub blamed_frames: TallyView,
    pub parent_frames: TallyView,
    pub excluded_frames: TallyView,
}

/// The aggregate state of an analysis.
#[derive(Clone, Debug)]
pub struct AnalysisResults {
    pub total_samples: usize,
    pub total_value: i128,
    pub blamed_samples: usize,
    pub blamed_value: i128,
    pub excluded_samples: usize,
    pub excluded_value: i128,
    pub parent_samples: usize,
    pub parent_value: i128,
    pub unmatched_samples: usize,
    pub unmatched_value: i128,
    pub parent_missing_samples: usize,
    pub parent_missing_value: i128,
    pub blamed_frames: Vec<FrameStat>,
    pub parent_frames: Vec<FrameStat>,
    pub excluded_frames: Vec<FrameStat>,
}

impl View for AnalysisResults {
    type V = ResultsView;

    open spec fn view(&self) -> ResultsView {
        ResultsView {
            total: (self.total_samples as nat, self.total_value as int),
            blamed: (self.blamed_samples as nat, self.blamed_value as int),
            excluded: (self.excluded_samples as nat, self.excluded_value as int),
            parent: (self.parent_samples as nat, self.parent_value as int),
            unmatched: (self.unmatched_samples as nat, self.unmatched_value as int),
            parent_missing: (self.parent_missing_samples as nat, self.parent_missing_value as int),
            blamed_frames: tally_view(self.blamed_frames@),
            parent_frames: tally_view(self.parent_frames@),
            excluded_frames: tally_view(self.excluded_frames@),
        }
    }
}

/// The state before any sample.
pub open spec fn empty_results() -> ResultsView {
    ResultsView {
        total: (0, 0),
        blamed: (0, 0),
        excluded: (0, 0),
        parent: (0, 0),
        unmatched: (0, 0),
        parent_missing: (0, 0),
        blamed_frames: seq![],
        parent_frames: seq![],
        excluded_frames: seq![],
    }
}

pub open spec fn bump(c: (nat, int), v: int) -> (nat, int) {
    (c.0 + 1, c.1 + v)
}

/// `r` after recording one non-empty stack `s` of value `v`, classified as
/// `c`: the total grows, a parent match is counted and tallied under its
/// frame's name, and exactly one of the blamed, excluded, unmatched and
/// parent-missing counters grows, blamed and excluded frames being tallied.
pub open spec fn recorded(r: ResultsView, s: Seq<Seq<char>>, c: Classification, v: int) -> ResultsView {
    let r1 = ResultsView { total: bump(r.total, v), ..r };
    let r2 = match c.parent {
        Some(p) => ResultsView {
            parent: bump(r1.parent, v),
            parent_frames: tally_add(r1.parent_frames, s[p as int], v),
            ..r1
        },
        None => r1,
    };
    match c.outcome {
        Outcome::Unmatched => ResultsView { unmatched: bump(r2.unmatched, v), ..r2 },
        Outcome::ParentNotFound => ResultsView { parent_missing: bump(r2.parent_missing, v), ..r2 },
        Outcome::Blamed(b) => ResultsView {
            blamed: bump(r2.blamed, v),
            blamed_frames: tally_add(r2.blamed_frames, s[b as int], v),
            ..r2
        },
        Outcome::Excluded(b) => ResultsView {
            excluded: bump(r2.excluded, v),
            excluded_frames: tally_add(r2.excluded_frames, s[b as int], v),
            ..r2
        },
    }
}

/// A counter holds at most `max` samples whose sum is within their bound.
pub open spec fn counter_wf(c: (nat, int), max: nat) -> bool {
    c.0 <= max && -value_bound() * c.0 <= c.1 <= value_bound() * c.0
}

/// The blamed, excluded, unmatched and parent-missing counters partition the
/// total; every counter and tally is bounded by the total sample count.
pub open spec fn results_wf(r: ResultsView) -> bool {
    &&& r.total.0 == r.blamed.0 + r.excluded.0 + r.unmatched.0 + r.parent_missing.0
    &&& r.total.1 == r.blamed.1 + r.excluded.1 + r.unmatched.1 + r.parent_missing.1
    &&& counter_wf(r.total, r.total.0)
    &&& counter_wf(r.blamed, r.total.0)
    &&& counter_wf(r.excluded, r.total.0)
    &&& counter_wf(r.parent, r.total.0)
    &&& counter_wf(r.unmatched, r.total.0)
    &&& counter_wf(r.parent_missing, r.total.0)
    &&& tally_wf(r.blamed_frames, r.total.0)
    &&& tally_wf(r.parent_frames, r.total.0)
    &&& tally_wf(r.excluded_frames, r.total.0)
}

proof fn lemma_tally_wf_grow(t: TallyView, max: nat)
    requires
        tally_wf(t, max),
    ensures
        tally_wf(t, max + 1),
{
}

/// Adds one sample of value `v` to a counter.
fn bump_counter(samples: &mut usize, sum: &mut i128, v: i64, Ghost(max): Ghost<nat>)
    requires
        counter_wf((*old(samples) as nat, *old(sum) as int), max),
        max < usize::MAX,
    ensures
        (*final(samples) as nat, *final(sum) as int) == bump(
            (*old(samples) as nat, *old(sum) as int),
            v as int,
        ),
        counter_wf((*final(samples) as nat, *final(sum) as int), max + 1),
{
    proof {
        lemma_sum_fits(*samples as nat, *sum as int, v as int);
    }
    *samples = *samples + 1;
    *sum = *sum + v as i128;
}

impl AnalysisResults {
    /// Empty counters and tallies.
    pub fn new() -> (r: Self)
        ensures
            r@ == empty_results(),
            results_wf(r@),
    {
        let r = AnalysisResults {
            total_samples: 0,
            total_value: 0,
            blamed_samples: 0,
            blamed_value: 0,
            excluded_samples: 0,
            excluded_value: 0,
            parent_samples: 0,
            parent_value: 0,
            unmatched_samples: 0,
            unmatched_value: 0,
            parent_missing_samples: 0,
            parent_missing_value: 0,
            blamed_frames: Vec::new(),
            parent_frames: Vec::new(),
            excluded_frames: Vec::new(),
        };
        assert(r@.blamed_frames =~= seq![]);
        assert(r@.parent_frames =~= seq![]);
        assert(r@.excluded_frames =~= seq![]);
        r
    }

    /// Records one non-empty stack of value `value`, classified as `c`.
    pub fn record(&mut self, stack: &[&str], c: Classification, value: i64)
        requires
            results_wf(old(self)@),
            old(self).total_samples < usize::MAX,
            indices_below(c, stack@.len()),
        ensures
            final(self)@ == recorded(old(self)@, names_of(stack@), c, value as int),
            results_wf(final(self)@),
    {
        let ghost max = self.total_samples as nat;
        let ghost s = names_of(stack@);
        bump_counter(&mut self.total_samples, &mut self.total_value, value, Ghost(max));
        match c.parent {
            Some(p) => {
                bump_counter(&mut self.parent_samples, &mut self.parent_value, value, Ghost(max));
                tally_record(&mut self.parent_frames, stack[p], value, Ghost(max));
            },
            None => {
                proof {
                    lemma_tally_wf_grow(self@.parent_frames, max);
                }
            },
        }
        match c.outcome {
            Outcome::Unmatched => {
                bump_counter(
                    &mut self.unmatched_samples,
                    &mut self.unmatched_value,
                    value,
                    Ghost(max),
                );
                proof {
                    lemma_tally_wf_grow(self@.blamed_frames, max);
                    lemma_tally_wf_grow(self@.excluded_frames, max);
                }
            },
            Outcome::ParentNotFound => {
                bump_counter(
                    &mut self.parent_missing_samples,
                    &mut self.parent_missing_value,
                    value,
                    Ghost(max),
                );
                proof {
                    lemma_tally_wf_grow(self@.blamed_frames, max);
                    lemma_tally_wf_grow(self@.excluded_frames, max);
                }
            },
            Outcome::Blamed(b) => {
                bump_counter(&mut self.blamed_samples, &mut self.blamed_value, value, Ghost(max));
                tally_record(&mut self.blamed_frames, stack[b], value, Ghost(max));
                proof {
                    lemma_tally_wf_grow(self@.excluded_frames, max);
                }
            },
            Outcome::Excluded(b) => {
                bump_counter(
                    &mut self.excluded_samples,
                    &mut self.excluded_value,
                    value,
                    Ghost(max),
                );
                tally_record(&mut self.excluded_frames, stack[b], value, Ghost(max));
                proof {
                    lemma_tally_wf_grow(self@.blamed_frames, max);
                }
            },
        }
        assert(self@ =~= recorded(old(self)@, s, c, value as int));
    }
}

/// The resolved leaf-first stack of sample `i` of `profile`.
pub open spec fn profile_stack(profile: Profile, i: int) -> Seq<Seq<char>> {
    stack_names(
        locations_by_id(profile.location@),
        function_names(profile.string_table@.map_values(|s: String| s@), profile.function@),
        profile.sample@[i].location_id@,
    )
}

/// The state after the first `n` samples: samples whose stack resolves to
/// nothing are skipped, the others recorded in order.
pub open spec fn analysis_upto(profile: Profile, pats: PatternsView, mode: Mode, n: nat) -> ResultsView
    decreases n,
{
    if n == 0 {
        empty_results()
    } else {
        let r = analysis_upto(profile, pats, mode, (n - 1) as nat);
        let s = profile_stack(profile, n - 1);
        if s.len() == 0 {
            r
        } else {
            recorded(
                r,
                s,
                classification(pats, s, mode),
                sample_value(profile.sample@[n - 1]) as int,
            )
        }
    }
}

/// The result of analysing every sample of `profile`.
pub open spec fn analysis(profile: Profile, pats: PatternsView, mode: Mode) -> ResultsView {
    analysis_upto(profile, pats, mode, profile.sample@.len())
}

/// Classifies every sample of `profile` and aggregates the outcomes.
pub fn analyze_profile(profile: &Profile, pats: &PatternSet, mode: Mode) -> (r: AnalysisResults)
    ensures
        r@ == analysis(*profile, pats@, mode),
        results_wf(r@),
        r@.total.0 == r@.blamed.0 + r@.excluded.0 + r@.unmatched.0 + r@.parent_missing.0,
        r@.total.1 == r@.blamed.1 + r@.excluded.1 + r@.unmatched.1 + r@.parent_missing.1,
{
    let strings = StringTable::new(profile.string_table.as_slice());
    let functions = function_map(profile, &strings);
    let locations = location_map(profile);
    let mut results = AnalysisResults::new();
    let samples = &profile.sample;
    let mut i: usize = 0;
    while i < samples.len()
        invariant
            i <= samples@.len(),
            samples@ == profile.sample@,
            results@ == analysis_upto(*profile, pats@, mode, i as nat),
            results_wf(results@),
            results.total_samples <= i,
            crate::registry::location_map_view(locations@) == locations_by_id(profile.location@),
            crate::registry::name_map_view(functions@) == function_names(
                profile.string_table@.map_values(|s: String| s@),
                profile.function@,
            ),
        decreases samples@.len() - i,
    {
        let sample = &samples[i];
        let stack = extract_stack(sample, &locations, &functions);
        assert(names_of(stack@) == profile_stack(*profile, i as int));
        if stack.len() > 0 {
            let c = classify(stack.as_slice(), pats, mode);
            proof {
                lemma_classification_in_range(pats@, names_of(stack@), mode);
            }
            results.record(stack.as_slice(), c, sample.primary_value());
        }
        i = i + 1;
    }
    results
}

impl AnalysisResults {
    /// The counter that percentages are taken over: the parent counter when
    /// some sample matched the parent pattern, else the total.
    pub fn denominator(&self) -> (r: (usize, i128))
        ensures
            self.parent_samples > 0 ==> r == (self.parent_samples, self.parent_value),
            self.parent_samples == 0 ==> r == (self.total_samples, self.total_value),
    {
        if self.parent_samples > 0 {
            (self.parent_samples, self.parent_value)
        } else {
            (self.total_samples, self.total_value)
        }
    }
}

/// Recording a sample adds it to the total and to exactly one of the
/// blamed, excluded, unmatched and parent-missing counters, so those four
/// keep partitioning the total.
pub proof fn lemma_record_counts_one_outcome(
    r: ResultsView,
    s: Seq<Seq<char>>,
    c: Classification,
    v: int,
)
    ensures
        ({
            let n = recorded(r, s, c, v);
            &&& n.total == bump(r.total, v)
            &&& (n.blamed.0 - r.blamed.0) + (n.excluded.0 - r.excluded.0) + (n.unmatched.0
                - r.unmatched.0) + (n.parent_missing.0 - r.parent_missing.0) == 1
            &&& (n.blamed.1 - r.blamed.1) + (n.excluded.1 - r.excluded.1) + (n.unmatched.1
                - r.unmatched.1) + (n.parent_missing.1 - r.parent_missing.1) == v
            &&& (r.total.0 == r.blamed.0 + r.excluded.0 + r.unmatched.0 + r.parent_missing.0
                ==> n.total.0 == n.blamed.0 + n.excluded.0 + n.unmatched.0 + n.parent_missing.0)
        }),
{
}

/// Analysing the same profile with the same patterns and mode twice gives
/// identical counters and tallies.
pub proof fn lemma_analysis_deterministic(
    profile: Profile,
    pats: PatternsView,
    mode: Mode,
    first: AnalysisResults,
    second: AnalysisResults,
)
    requires
        first@ == analysis(profile, pats, mode),
        second@ == analysis(profile, pats, mode),
    ensures
        first@ == second@,
        first.total_samples == second.total_samples && first.total_value == second.total_value,
        first.blamed_samples == second.blamed_samples && first.blamed_value == second.blamed_value,
        first.excluded_samples == second.excluded_samples && first.excluded_value
            == second.excluded_value,
        first.parent_samples == second.parent_samples && first.parent_value == second.parent_value,
        tally_view(first.blamed_frames@) == tally_view(second.blamed_frames@),
        tally_view(first.parent_frames@) == tally_view(second.parent_frames@),
        tally_view(first.excluded_frames@) == tally_view(second.excluded_frames@),
{
}

} // verus!
