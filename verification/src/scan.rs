//! The matching half of a process scan: from the resolved executable names of
//! the candidate processes to the detected applications.

use crate::watch::{
    apps_view, lemma_matched_tier, match_process, matched_tier, matches_any, names_view,
    watch_view, RunningApp, TieredApp,
};
use vstd::prelude::*;

verus! {

/// What one candidate process contributes to a scan: nothing if it could not
/// be inspected or matches no watch entry, else its name with the tier of the
/// first entry that it matches.
pub open spec fn detect(watch: Seq<(Seq<char>, u32)>, candidate: Option<Seq<char>>) -> Option<
    (Seq<char>, u32),
> {
    match candidate {
        Some(name) => match matched_tier(watch, name) {
            Some(tier) => Some((name, tier)),
            None => None,
        },
        None => None,
    }
}

/// `detect` with the watch list fixed.
pub open spec fn detector(watch: Seq<(Seq<char>, u32)>) -> spec_fn(Option<Seq<char>>) -> Option<
    (Seq<char>, u32),
> {
    |candidate: Option<Seq<char>>| detect(watch, candidate)
}

/// The result of a scan: the detections of the candidates, one for each
/// matching process, in the order of the candidates.
pub open spec fn scan_spec(watch: Seq<(Seq<char>, u32)>, candidates: Seq<Option<Seq<char>>>) -> Seq<
    (Seq<char>, u32),
> {
    candidates.filter_map(detector(watch))
}

/// Matches every candidate against the watch list. A candidate that could not
/// be resolved is passed over.
pub fn scan(watch: &[TieredApp], resolved: &[Option<String>]) -> (found: Vec<RunningApp>)
    ensures
        apps_view(found@) == scan_spec(watch_view(watch@), names_view(resolved@)),
{
    let ghost w = watch_view(watch@);
    let ghost p = names_view(resolved@);
    let mut found: Vec<RunningApp> = Vec::new();
    let mut i: usize = 0;
    assert(apps_view(found@) =~= p.take(0).filter_map(detector(w)));
    while i < resolved.len()
        invariant
            i <= resolved.len(),
            w == watch_view(watch@),
            p == names_view(resolved@),
            apps_view(found@) == p.take(i as int).filter_map(detector(w)),
        decreases resolved.len() - i,
    {
        proof {
            p.lemma_filter_map_take_succ(detector(w), i as int);
        }
        let ghost before = apps_view(found@);
        if let Some(name) = &resolved[i] {
            if let Some(tier) = match_process(watch, name.as_str()) {
                found.push(RunningApp { name: name.clone(), tier });
                assert(apps_view(found@) =~= before + seq![(name@, tier)]);
            }
        }
        i += 1;
    }
    assert(p.take(i as int) =~= p);
    found
}

/// Every detection of a candidate is in the scan.
proof fn lemma_scan_keeps(
    watch: Seq<(Seq<char>, u32)>,
    candidates: Seq<Option<Seq<char>>>,
    i: int,
)
    requires
        0 <= i < candidates.len(),
        detect(watch, candidates[i]) is Some,
    ensures
        scan_spec(watch, candidates).contains(detect(watch, candidates[i])->0),
    decreases candidates.len(),
{
    let f = detector(watch);
    let rest = candidates.drop_last();
    let head = rest.filter_map(f);
    if i == candidates.len() - 1 {
        let e = f(candidates.last())->0;
        assert((head + seq![e])[head.len() as int] == e);
    } else {
        lemma_scan_keeps(watch, rest, i);
        let e = detect(watch, rest[i])->0;
        let k = choose|k: int| 0 <= k < head.len() && head[k] == e;
        match f(candidates.last()) {
            Some(last) => {
                assert((head + seq![last])[k] == e);
            },
            None => {},
        }
    }
}

/// A scan holds an entry exactly when some candidate resolved to its name,
/// the name starts with a prefix of the watch list, and its tier is that of
/// the first such prefix.
pub proof fn lemma_scan_membership(
    watch: Seq<(Seq<char>, u32)>,
    candidates: Seq<Option<Seq<char>>>,
    entry: (Seq<char>, u32),
)
    ensures
        scan_spec(watch, candidates).contains(entry) <==> candidates.contains(Some(entry.0))
            && matches_any(watch, entry.0) && matched_tier(watch, entry.0) == Some(entry.1),
{
    lemma_matched_tier(watch, entry.0);
    if scan_spec(watch, candidates).contains(entry) {
        candidates.lemma_filter_map_contains(detector(watch), entry);
        let c = choose|c: Option<Seq<char>>| #[trigger]
            candidates.contains(c) && detector(watch)(c) == Some(entry);
        assert(c == Some(entry.0));
    }
    if candidates.contains(Some(entry.0)) && matched_tier(watch, entry.0) == Some(entry.1) {
        let i = choose|i: int| 0 <= i < candidates.len() && candidates[i] == Some(entry.0);
        lemma_scan_keeps(watch, candidates, i);
    }
}

/// The test that a candidate process is detected.
pub open spec fn is_detected(watch: Seq<(Seq<char>, u32)>) -> spec_fn(Option<Seq<char>>) -> bool {
    |candidate: Option<Seq<char>>| detect(watch, candidate) is Some
}

/// A scan has one entry for each candidate that resolved to a name starting
/// with a watched prefix, in the order of the candidates, and no other entry.
pub proof fn lemma_scan_is_the_detected_candidates(
    watch: Seq<(Seq<char>, u32)>,
    candidates: Seq<Option<Seq<char>>>,
)
    ensures
        scan_spec(watch, candidates).len() == candidates.filter(is_detected(watch)).len(),
        forall|k: int|
            0 <= k < scan_spec(watch, candidates).len() ==> Some(
                #[trigger] scan_spec(watch, candidates)[k],
            ) == detect(watch, candidates.filter(is_detected(watch))[k]),
        forall|k: int|
            0 <= k < scan_spec(watch, candidates).len() ==> matches_any(
                watch,
                (#[trigger] scan_spec(watch, candidates)[k]).0,
            ),
    decreases candidates.len(),
{
    reveal(Seq::filter);
    if candidates.len() > 0 {
        let rest = candidates.drop_last();
        lemma_scan_is_the_detected_candidates(watch, rest);
        let kept = rest.filter(is_detected(watch));
        let found = scan_spec(watch, rest);
        match detect(watch, candidates.last()) {
            Some(entry) => {
                lemma_matched_tier(watch, entry.0);
                assert(candidates.filter(is_detected(watch)) == kept.push(candidates.last()));
                assert(scan_spec(watch, candidates) == found + seq![entry]);
                assert forall|k: int| 0 <= k < scan_spec(watch, candidates).len() implies Some(
                    #[trigger] scan_spec(watch, candidates)[k],
                ) == detect(watch, candidates.filter(is_detected(watch))[k]) by {
                    if k < found.len() {
                        assert(Some(found[k]) == detect(watch, kept[k]));
                    }
                }
                assert forall|k: int| 0 <= k < scan_spec(watch, candidates).len() implies matches_any(
                    watch,
                    (#[trigger] scan_spec(watch, candidates)[k]).0,
                ) by {
                    if k < found.len() {
                        assert(matches_any(watch, found[k].0));
                    }
                }
            },
            None => {
                assert(candidates.filter(is_detected(watch)) == kept);
                assert(scan_spec(watch, candidates) == found);
            },
        }
    }
}

} // verus!
