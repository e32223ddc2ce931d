//! Classification of one resolved, leaf-first call stack.

use vstd::prelude::*;
use crate::pattern::{name_matches, Pattern};

verus! {

/// The blame pattern, with an optional parent and an optional exclude pattern.
pub struct PatternSet {
    pub blame: Pattern,
    pub parent: Option<Pattern>,
    pub exclude: Option<Pattern>,
}

/// Pattern texts of a `PatternSet`.
pub struct PatternsView {
    pub blame: Seq<char>,
    pub parent: Option<Seq<char>>,
    pub exclude: Option<Seq<char>>,
}

pub open spec fn opt_pattern_view(p: Option<Pattern>) -> Option<Seq<char>> {
    match p {
        Some(q) => Some(q@),
        None => None,
    }
}

impl View for PatternSet {
    type V = PatternsView;

    open spec fn view(&self) -> PatternsView {
        PatternsView {
            blame: self.blame@,
            parent: opt_pattern_view(self.parent),
            exclude: opt_pattern_view(self.exclude),
        }
    }
}

/// Which classification algorithm to run.
#[derive(Clone, Copy, Debug, PartialEq, Eq, Structural)]
pub enum Mode {
    /// Blame is searched below the first parent match; excludes count only
    /// between the leaf and the blamed frame.
    Windowed,
    /// Root-to-leaf toggling; the first cancelling exclude ends the scan.
    ToggleStrict,
    /// Root-to-leaf toggling; a later blame frame may set the state again.
    TogglePermissive,
}

/// The verdict for one sample; frames are given by their stack index.
#[derive(Clone, Copy, Debug, PartialEq, Eq, Structural)]
pub enum Outcome {
    Unmatched,
    ParentNotFound,
    Blamed(usize),
    Excluded(usize),
}

/// The verdict together with the stack index of the parent match, if any.
#[derive(Clone, Copy, Debug, PartialEq, Eq, Structural)]
pub struct Classification {
    pub parent: Option<usize>,
    pub outcome: Outcome,
}

/// Names of a stack of borrowed names.
pub open spec fn names_of(s: Seq<&str>) -> Seq<Seq<char>> {
    s.map_values(|n: &str| n@)
}

/// Index of the first (leaf-most) name in `s` that `p` matches.
pub open spec fn first_match(p: Seq<char>, s: Seq<Seq<char>>) -> Option<nat>
    decreases s.len(),
{
    if s.len() == 0 {
        None
    } else {
        match first_match(p, s.drop_last()) {
            Some(i) => Some(i),
            None => if name_matches(p, s.last()) {
                Some((s.len() - 1) as nat)
            } else {
                None
            },
        }
    }
}

/// The result of `first_match`, stated by its defining properties.
pub proof fn lemma_first_match(p: Seq<char>, s: Seq<Seq<char>>)
    ensures
        match first_match(p, s) {
            Some(i) => i < s.len() && name_matches(p, s[i as int]) && forall|j: int|
                0 <= j < i ==> !name_matches(p, #[trigger] s[j]),
            None => forall|j: int| 0 <= j < s.len() ==> !name_matches(p, #[trigger] s[j]),
        },
    decreases s.len(),
{
    if s.len() > 0 {
        lemma_first_match(p, s.drop_last());
        assert(forall|j: int| 0 <= j < s.len() - 1 ==> s.drop_last()[j] == s[j]);
    }
}

/// A match found in a prefix is the first match of the whole sequence.
pub proof fn lemma_first_match_prefix(p: Seq<char>, s: Seq<Seq<char>>, k: int)
    requires
        0 <= k <= s.len(),
        first_match(p, s.take(k)) is Some,
    ensures
        first_match(p, s) == first_match(p, s.take(k)),
    decreases s.len(),
{
    if s.len() > k {
        assert(s.drop_last().take(k) =~= s.take(k));
        lemma_first_match_prefix(p, s.drop_last(), k);
    } else {
        assert(s.take(k) =~= s);
    }
}

pub open spec fn opt_nat(o: Option<usize>) -> Option<nat> {
    match o {
        Some(i) => Some(i as nat),
        None => None,
    }
}

/// The frames that the blame search looks at: those strictly leaf-ward of
/// the parent match, or the whole stack without a parent pattern.
pub open spec fn search_window(pats: PatternsView, s: Seq<Seq<char>>) -> Seq<Seq<char>> {
    match pats.parent {
        Some(pp) => match first_match(pp, s) {
            Some(p) => s.take(p as int),
            None => s,
        },
        None => s,
    }
}

/// Windowed-ancestor classification of the leaf-first stack `s`.
pub open spec fn windowed(pats: PatternsView, s: Seq<Seq<char>>) -> Classification {
    let parent = match pats.parent {
        Some(pp) => first_match(pp, s),
        None => None,
    };
    let parent_idx = match parent {
        Some(p) => Some(p as usize),
        None => None,
    };
    if pats.parent is Some && parent is None {
        Classification { parent: None, outcome: Outcome::ParentNotFound }
    } else {
        let w = search_window(pats, s);
        let outcome = match first_match(pats.blame, w) {
            None => Outcome::Unmatched,
            Some(b) => match pats.exclude {
                Some(e) => if first_match(e, w.take(b as int)) is Some {
                    Outcome::Excluded(b as usize)
                } else {
                    Outcome::Blamed(b as usize)
                },
                None => Outcome::Blamed(b as usize),
            },
        };
        Classification { parent: parent_idx, outcome }
    }
}

/// State of the toggle scan after visiting `k` frames from the root end:
/// the stack index of the frame that set the blamed state, if set, and
/// whether a strict scan has stopped.
pub open spec fn toggle_scan(pats: PatternsView, s: Seq<Seq<char>>, strict: bool, k: nat) -> (
    Option<nat>,
    bool,
)
    decreases k,
{
    if k == 0 {
        (None, false)
    } else {
        let prev = toggle_scan(pats, s, strict, (k - 1) as nat);
        let i = s.len() - k;
        if prev.1 {
            prev
        } else if prev.0 is Some && pats.exclude is Some && name_matches(
            pats.exclude->Some_0,
            s[i],
        ) {
            (None, strict)
        } else if name_matches(pats.blame, s[i]) {
            (Some(i as nat), false)
        } else {
            prev
        }
    }
}

/// Toggle classification of the leaf-first stack `s`, scanned root first.
pub open spec fn toggled(pats: PatternsView, s: Seq<Seq<char>>, strict: bool) -> Classification {
    let outcome = match toggle_scan(pats, s, strict, s.len()).0 {
        Some(i) => Outcome::Blamed(i as usize),
        None => Outcome::Unmatched,
    };
    Classification { parent: None, outcome }
}

/// Classification of `s` in the given mode.
pub open spec fn classification(pats: PatternsView, s: Seq<Seq<char>>, mode: Mode) -> Classification {
    match mode {
        Mode::Windowed => windowed(pats, s),
        Mode::ToggleStrict => toggled(pats, s, true),
        Mode::TogglePermissive => toggled(pats, s, false),
    }
}

/// Index of the first name among `stack[0..end]` that `p` matches.
fn find_first(p: &Pattern, stack: &[&str], end: usize) -> (r: Option<usize>)
    requires
        end <= stack@.len(),
    ensures
        opt_nat(r) == first_match(p@, names_of(stack@).take(end as int)),
{
    let ghost s = names_of(stack@);
    let mut i: usize = 0;
    while i < end
        invariant
            i <= end <= stack@.len(),
            s == names_of(stack@),
            first_match(p@, s.take(i as int)) is None,
        decreases end - i,
    {
        assert(s.take(i + 1).drop_last() =~= s.take(i as int));
        if p.is_match(stack[i]) {
            proof {
                assert(s.take(i + 1).last() == s[i as int]);
                assert(s.take(end as int).take(i + 1) =~= s.take(i + 1));
                lemma_first_match_prefix(p@, s.take(end as int), i + 1);
            }
            return Some(i);
        }
        i = i + 1;
    }
    None
}

/// Windowed-ancestor classification of a leaf-first stack.
pub fn classify_windowed(stack: &[&str], pats: &PatternSet) -> (r: Classification)
    ensures
        r == windowed(pats@, names_of(stack@)),
{
    let ghost s = names_of(stack@);
    proof {
        assert(s.take(s.len() as int) =~= s);
    }
    let mut end = stack.len();
    let mut parent: Option<usize> = None;
    match &pats.parent {
        Some(pp) => {
            match find_first(pp, stack, stack.len()) {
                Some(p) => {
                    parent = Some(p);
                    end = p;
                },
                None => {
                    return Classification { parent: None, outcome: Outcome::ParentNotFound };
                },
            }
        },
        None => {},
    }
    proof {
        if pats@.parent is Some {
            lemma_first_match(pats@.parent->Some_0, s);
        }
        assert(s.take(end as int) =~= search_window(pats@, s));
    }
    let outcome = match find_first(&pats.blame, stack, end) {
        None => Outcome::Unmatched,
        Some(b) => {
            proof {
                lemma_first_match(pats@.blame, s.take(end as int));
                assert(s.take(b as int) =~= search_window(pats@, s).take(b as int));
            }
            let excluded = match &pats.exclude {
                Some(e) => find_first(e, stack, b).is_some(),
                None => false,
            };
            if excluded {
                Outcome::Excluded(b)
            } else {
                Outcome::Blamed(b)
            }
        },
    };
    Classification { parent, outcome }
}

/// Toggle classification of a leaf-first stack, scanned from the root end.
/// With `strict`, the first exclude that cancels a blamed state ends the scan.
pub fn classify_toggle(stack: &[&str], pats: &PatternSet, strict: bool) -> (r: Classification)
    ensures
        r == toggled(pats@, names_of(stack@), strict),
{
    let ghost s = names_of(stack@);
    let n = stack.len();
    let mut blamed: Option<usize> = None;
    let mut k: usize = 0;
    while k < n
        invariant
            k <= n == stack@.len(),
            s == names_of(stack@),
            toggle_scan(pats@, s, strict, k as nat) == (opt_nat(blamed), false),
            blamed matches Some(b) ==> b < n,
        decreases n - k,
    {
        let i = n - 1 - k;
        let name = stack[i];
        let cancels = match &pats.exclude {
            Some(e) => blamed.is_some() && e.is_match(name),
            None => false,
        };
        if cancels {
            blamed = None;
            if strict {
                proof {
                    lemma_stopped_stays(pats@, s, (k + 1) as nat, n as nat);
                }
                return Classification { parent: None, outcome: Outcome::Unmatched };
            }
        } else if pats.blame.is_match(name) {
            blamed = Some(i);
        }
        k = k + 1;
    }
    let outcome = match blamed {
        Some(b) => Outcome::Blamed(b),
        None => Outcome::Unmatched,
    };
    Classification { parent: None, outcome }
}

/// A stopped toggle scan keeps its state to the end.
proof fn lemma_stopped_stays(pats: PatternsView, s: Seq<Seq<char>>, k: nat, k2: nat)
    requires
        k <= k2,
        toggle_scan(pats, s, true, k).1,
    ensures
        toggle_scan(pats, s, true, k2) == toggle_scan(pats, s, true, k),
    decreases k2 - k,
{
    if k2 > k {
        lemma_stopped_stays(pats, s, k, (k2 - 1) as nat);
    }
}

/// Without a parent pattern the blame search window is the whole stack, and
/// no parent match is reported.
pub proof fn lemma_no_parent_window_is_stack(pats: PatternsView, s: Seq<Seq<char>>)
    requires
        pats.parent is None,
    ensures
        search_window(pats, s) == s,
        windowed(pats, s).parent is None,
        windowed(pats, s).outcome != Outcome::ParentNotFound,
{
}

/// In windowed mode only exclude matches strictly between the leaf and the
/// blamed frame count: the sample is excluded exactly when one of those
/// frames matches, whatever lies at or beyond the blamed frame.
pub proof fn lemma_exclude_only_below_blame(pats: PatternsView, s: Seq<Seq<char>>)
    requires
        pats.exclude is Some,
        s.len() <= usize::MAX,
    ensures
        match windowed(pats, s).outcome {
            Outcome::Excluded(b) => exists|j: int|
                0 <= j < b && name_matches(pats.exclude->Some_0, #[trigger] s[j]),
            Outcome::Blamed(b) => forall|j: int|
                0 <= j < b ==> !name_matches(pats.exclude->Some_0, #[trigger] s[j]),
            _ => true,
        },
{
    let e = pats.exclude->Some_0;
    let w = search_window(pats, s);
    if let Some(pp) = pats.parent {
        lemma_first_match(pp, s);
    }
    assert(w.len() <= s.len());
    assert(forall|j: int| 0 <= j < w.len() ==> w[j] == s[j]);
    lemma_first_match(pats.blame, w);
    if let Some(b) = first_match(pats.blame, w) {
        let below = w.take(b as int);
        lemma_first_match(e, below);
        assert(forall|j: int| 0 <= j < b ==> below[j] == s[j]);
        if let Some(j) = first_match(e, below) {
            assert(name_matches(e, s[j as int]));
        }
    }
}

/// In the strict toggle mode, once an exclude cancels a blamed state no
/// later frame sets it again: the sample ends unmatched.
pub proof fn lemma_strict_cancel_is_final(pats: PatternsView, s: Seq<Seq<char>>, k: nat, k2: nat)
    requires
        1 <= k <= k2 <= s.len(),
        pats.exclude is Some,
        !toggle_scan(pats, s, true, (k - 1) as nat).1,
        toggle_scan(pats, s, true, (k - 1) as nat).0 is Some,
        name_matches(pats.exclude->Some_0, s[s.len() - k]),
    ensures
        toggle_scan(pats, s, true, k2).0 is None,
        toggled(pats, s, true).outcome == Outcome::Unmatched,
{
    lemma_stopped_stays(pats, s, k, k2);
    lemma_stopped_stays(pats, s, k, s.len());
}

/// Every stack index that `c` names is below `n`.
pub open spec fn indices_below(c: Classification, n: nat) -> bool {
    &&& c.parent matches Some(p) ==> p < n
    &&& c.outcome matches Outcome::Blamed(b) ==> b < n
    &&& c.outcome matches Outcome::Excluded(b) ==> b < n
}

proof fn lemma_toggle_in_range(pats: PatternsView, s: Seq<Seq<char>>, strict: bool, k: nat)
    requires
        k <= s.len(),
    ensures
        toggle_scan(pats, s, strict, k).0 matches Some(i) ==> i < s.len(),
    decreases k,
{
    if k > 0 {
        lemma_toggle_in_range(pats, s, strict, (k - 1) as nat);
    }
}

/// The indices of a classification point into the classified stack.
pub proof fn lemma_classification_in_range(pats: PatternsView, s: Seq<Seq<char>>, mode: Mode)
    requires
        s.len() <= usize::MAX,
    ensures
        indices_below(classification(pats, s, mode), s.len()),
{
    match mode {
        Mode::Windowed => {
            if let Some(pp) = pats.parent {
                lemma_first_match(pp, s);
            }
            let w = search_window(pats, s);
            assert(w.len() <= s.len());
            lemma_first_match(pats.blame, w);
        },
        Mode::ToggleStrict => lemma_toggle_in_range(pats, s, true, s.len()),
        Mode::TogglePermissive => lemma_toggle_in_range(pats, s, false, s.len()),
    }
}

/// Classifies a leaf-first stack in the given mode.
pub fn classify(stack: &[&str], pats: &PatternSet, mode: Mode) -> (r: Classification)
    ensures
        r == classification(pats@, names_of(stack@), mode),
{
    match mode {
        Mode::Windowed => classify_windowed(stack, pats),
        Mode::ToggleStrict => classify_toggle(stack, pats, true),
        Mode::TogglePermissive => classify_toggle(stack, pats, false),
    }
}

} // verus!
