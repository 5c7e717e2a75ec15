//! The cached lookup of the running applications: answer from the snapshot
//! while it is fresh, scan and store otherwise.

use crate::cache::{
    clone_apps, distinct_names, is_last_of_name, key_by_name, keyed, lemma_keyed,
    lemma_filter_keeps_names_distinct, lemma_keyed_of_distinct, lemma_signature_change, watched, ProcessCache, Snapshot,
};
use crate::signature::content_signature;
use crate::order::{lemma_sort_by_tier, sort_by_tier, sort_by_tier_spec};
use crate::scan::{lemma_scan_membership, scan, scan_spec};
use crate::watch::{apps_view, names_view, watch_view, RunningApp, TieredApp};
use vstd::prelude::*;
use vstd::seq_lib::to_multiset_contains;

verus! {

/// What a lookup gives: the matches, whether the process set changed, and
/// the cache as the lookup leaves it.
pub struct Lookup {
    pub matches: Seq<(Seq<char>, u32)>,
    pub changed: bool,
    pub cache: Snapshot,
}

/// The matches of a scan: the detections sorted by tier and keyed by name, so
/// that every application stands once, however many of its processes run.
pub open spec fn ranked_scan(
    watch: Seq<(Seq<char>, u32)>,
    candidates: Seq<Option<Seq<char>>>,
) -> Seq<(Seq<char>, u32)> {
    keyed(sort_by_tier_spec(scan_spec(watch, candidates)))
}

/// A lookup at time `now`. While the snapshot is fresh it answers from the
/// snapshot, reports no change and leaves the cache as it is; the candidates
/// are not looked at. Otherwise it scans the candidates, stores the matches,
/// and reports whether their signature or count differ from what was stored
/// before. What it returns is what it stores, counts and signs.
pub open spec fn lookup_spec(
    cache: Snapshot,
    watch: Seq<(Seq<char>, u32)>,
    candidates: Seq<Option<Seq<char>>>,
    now: u64,
) -> Lookup {
    if !cache.is_expired(now) {
        Lookup { matches: cache.matching(watch), changed: false, cache }
    } else {
        let matches = ranked_scan(watch, candidates);
        Lookup {
            matches,
            changed: cache.differs_from(matches),
            cache: cache.replaced_by(matches, now),
        }
    }
}

/// Looks up the running applications at time `now` (milliseconds).
/// `resolved` holds, for each candidate process, the base name of its
/// executable, or nothing where the process could not be inspected; it is
/// empty where the process table could not be read. It is only looked at
/// when the snapshot has expired.
pub fn get_running_apps_optimized(
    apps_to_check: &[TieredApp],
    cache: &mut ProcessCache,
    resolved: &[Option<String>],
    now: u64,
) -> (result: (Vec<RunningApp>, bool))
    ensures
        lookup_spec(old(cache)@, watch_view(apps_to_check@), names_view(resolved@), now) == (Lookup {
            matches: apps_view(result.0@),
            changed: result.1,
            cache: final(cache)@,
        }),
        old(cache)@.is_expired(now) ==> {
            &&& final(cache)@.entries == apps_view(result.0@)
            &&& final(cache)@.count == result.0@.len()
            &&& final(cache)@.signature == content_signature(apps_view(result.0@))
            &&& final(cache)@.taken_at == Some(now)
            &&& result.1 == old(cache)@.differs_from(apps_view(result.0@))
        },
        !old(cache)@.is_expired(now) ==> !result.1 && final(cache)@ == old(cache)@,
        distinct_names(apps_view(result.0@)),
        final(cache)@.wf(),
{
    if !cache.is_expired(now) {
        let cached_results = cache.cached_matches(apps_to_check);
        return (cached_results, false);
    }
    let found = sort_by_tier(scan(apps_to_check, resolved).as_slice());
    let running_apps = key_by_name(found.as_slice());
    proof {
        lemma_keyed_of_distinct(apps_view(running_apps@));
    }
    let has_changed = cache.update_with_change_detection(clone_apps(running_apps.as_slice()), now);
    (running_apps, has_changed)
}

/// While the snapshot is fresh a lookup does not depend on the process
/// table: whatever the candidates, it gives the same.
pub proof fn lemma_fresh_lookup_needs_no_scan(
    cache: Snapshot,
    watch: Seq<(Seq<char>, u32)>,
    candidates: Seq<Option<Seq<char>>>,
    other_candidates: Seq<Option<Seq<char>>>,
    now: u64,
)
    requires
        !cache.is_expired(now),
    ensures
        lookup_spec(cache, watch, candidates, now) == lookup_spec(
            cache,
            watch,
            other_candidates,
            now,
        ),
        lookup_spec(cache, watch, candidates, now).cache == cache,
{
}

/// A filter keeps a list whole when every entry passes.
proof fn lemma_filter_keeps_all(s: Seq<(Seq<char>, u32)>, pred: spec_fn((Seq<char>, u32)) -> bool)
    requires
        forall|i: int| 0 <= i < s.len() ==> pred(#[trigger] s[i]),
    ensures
        s.filter(pred) == s,
    decreases s.len(),
{
    reveal(Seq::filter);
    if s.len() > 0 {
        let rest = s.drop_last();
        assert forall|i: int| 0 <= i < rest.len() implies pred(#[trigger] rest[i]) by {
            assert(pred(s[i]));
        }
        lemma_filter_keeps_all(rest, pred);
        assert(pred(s[s.len() - 1]));
        assert(rest.push(s.last()) =~= s);
    }
}

/// Every match of a scan starts with a prefix of the watch list that the
/// scan was made with, and stands in the scan once.
pub proof fn lemma_scanned_are_watched(
    watch: Seq<(Seq<char>, u32)>,
    candidates: Seq<Option<Seq<char>>>,
)
    ensures
        ranked_scan(watch, candidates).filter(watched(watch)) == ranked_scan(watch, candidates),
        distinct_names(ranked_scan(watch, candidates)),
        keyed(ranked_scan(watch, candidates)) == ranked_scan(watch, candidates),
        forall|entry: (Seq<char>, u32)| #[trigger]
            ranked_scan(watch, candidates).contains(entry) ==> scan_spec(
                watch,
                candidates,
            ).contains(entry),
{
    let raw = scan_spec(watch, candidates);
    let sorted = sort_by_tier_spec(raw);
    let stored = ranked_scan(watch, candidates);
    lemma_sort_by_tier(raw);
    lemma_keyed(sorted);
    lemma_keyed_of_distinct(stored);
    assert forall|entry: (Seq<char>, u32)| #[trigger] stored.contains(entry) implies raw.contains(
        entry,
    ) by {
        assert(is_last_of_name(sorted, entry));
        assert(sorted.contains(entry));
        to_multiset_contains(sorted, entry);
        to_multiset_contains(raw, entry);
    }
    assert forall|i: int| 0 <= i < stored.len() implies watched(watch)(#[trigger] stored[i]) by {
        let x = stored[i];
        assert(stored.contains(x));
        lemma_scan_membership(watch, candidates, x);
    }
    lemma_filter_keeps_all(stored, watched(watch));
}

/// A lookup that scans stores what it returns: the stored entries, count and
/// signature are those of the returned matches, and the change flag compares
/// the returned matches with what was stored before.
pub proof fn lemma_scanning_lookup_stores_its_matches(
    cache: Snapshot,
    watch: Seq<(Seq<char>, u32)>,
    candidates: Seq<Option<Seq<char>>>,
    now: u64,
)
    requires
        cache.is_expired(now),
    ensures
        ({
            let look = lookup_spec(cache, watch, candidates, now);
            &&& look.cache.entries == look.matches
            &&& look.cache.count == look.matches.len()
            &&& look.cache.signature == content_signature(look.matches)
            &&& look.cache.taken_at == Some(now)
            &&& look.changed == cache.differs_from(look.matches)
        }),
{
    lemma_scanned_are_watched(watch, candidates);
}

/// Two lookups that both scan: the second reports a change exactly when its
/// matches differ from those of the first in signature or in number. Matches
/// that are the same applications, in whatever order, are no change; matches
/// of another number always are one.
pub proof fn lemma_change_between_scans(
    cache: Snapshot,
    watch: Seq<(Seq<char>, u32)>,
    first_candidates: Seq<Option<Seq<char>>>,
    second_candidates: Seq<Option<Seq<char>>>,
    first_now: u64,
    second_now: u64,
)
    requires
        cache.is_expired(first_now),
        lookup_spec(cache, watch, first_candidates, first_now).cache.is_expired(second_now),
    ensures
        ({
            let first = lookup_spec(cache, watch, first_candidates, first_now);
            let second = lookup_spec(first.cache, watch, second_candidates, second_now);
            &&& second.changed == (content_signature(second.matches) != content_signature(
                first.matches,
            ) || second.matches.len() != first.matches.len())
            &&& first.matches.to_multiset() == second.matches.to_multiset() ==> !second.changed
            &&& first.matches.len() != second.matches.len() ==> second.changed
            &&& second.changed ==> first.matches.to_multiset() != second.matches.to_multiset()
        }),
{
    let first = lookup_spec(cache, watch, first_candidates, first_now);
    let second = lookup_spec(first.cache, watch, second_candidates, second_now);
    lemma_signature_change(first.matches, second.matches);
}

/// A lookup gives every name once, and leaves a cache that holds every name
/// once.
pub proof fn lemma_lookup_gives_each_name_once(
    cache: Snapshot,
    watch: Seq<(Seq<char>, u32)>,
    candidates: Seq<Option<Seq<char>>>,
    now: u64,
)
    requires
        cache.wf(),
    ensures
        distinct_names(lookup_spec(cache, watch, candidates, now).matches),
        lookup_spec(cache, watch, candidates, now).cache.wf(),
{
    if cache.is_expired(now) {
        lemma_scanned_are_watched(watch, candidates);
    } else {
        lemma_filter_keeps_names_distinct(cache.entries, watched(watch));
    }
}

/// Two lookups with one watch list, the second while the snapshot that the
/// first one left is still fresh: the second gives the same matches as the
/// first, reports no change, and leaves the cache as it is.
pub proof fn lemma_lookup_within_ttl(
    cache: Snapshot,
    watch: Seq<(Seq<char>, u32)>,
    first_candidates: Seq<Option<Seq<char>>>,
    second_candidates: Seq<Option<Seq<char>>>,
    first_now: u64,
    second_now: u64,
)
    requires
        !lookup_spec(cache, watch, first_candidates, first_now).cache.is_expired(second_now),
    ensures
        ({
            let first = lookup_spec(cache, watch, first_candidates, first_now);
            let second = lookup_spec(first.cache, watch, second_candidates, second_now);
            &&& second.matches == first.matches
            &&& !second.changed
            &&& second.cache == first.cache
        }),
{
    if cache.is_expired(first_now) {
        lemma_scanned_are_watched(watch, first_candidates);
    }
}

} // verus!
