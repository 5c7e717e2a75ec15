//! Ranking of detected processes by tier: a stable sort, and the choice of
//! the primary application.

use crate::watch::{apps_view, RunningApp};
use vstd::prelude::*;
use vstd::seq_lib::to_multiset_build;

verus! {

/// Tiers never fall along the list.
pub open spec fn sorted_by_tier(s: Seq<(Seq<char>, u32)>) -> bool {
    forall|i: int, j: int| 0 <= i < j < s.len() ==> (#[trigger] s[i]).1 <= (#[trigger] s[j]).1
}

/// The test that an entry has tier `tier`.
pub open spec fn in_tier(tier: u32) -> spec_fn((Seq<char>, u32)) -> bool {
    |entry: (Seq<char>, u32)| entry.1 == tier
}

/// Puts an entry into a list behind every entry, counted from the end, whose
/// tier is higher than its own.
pub open spec fn insert_by_tier(s: Seq<(Seq<char>, u32)>, entry: (Seq<char>, u32)) -> Seq<
    (Seq<char>, u32),
>
    decreases s.len(),
{
    if s.len() == 0 || s.last().1 <= entry.1 {
        s.push(entry)
    } else {
        insert_by_tier(s.drop_last(), entry).push(s.last())
    }
}

/// The list sorted by tier, lowest first, entries of one tier in the order
/// in which they came.
pub open spec fn sort_by_tier_spec(s: Seq<(Seq<char>, u32)>) -> Seq<(Seq<char>, u32)>
    decreases s.len(),
{
    if s.len() == 0 {
        Seq::empty()
    } else {
        insert_by_tier(sort_by_tier_spec(s.drop_last()), s.last())
    }
}

/// Where the primary application stands: the first entry of the lowest tier.
pub open spec fn primary_index(s: Seq<(Seq<char>, u32)>) -> int
    decreases s.len(),
{
    if s.len() <= 1 {
        0
    } else {
        let k = primary_index(s.drop_last());
        if s.last().1 < s[k].1 {
            s.len() - 1
        } else {
            k
        }
    }
}

/// The primary application of a list of matches, if there is any match.
pub open spec fn primary_of(s: Seq<(Seq<char>, u32)>) -> Option<(Seq<char>, u32)> {
    if s.len() == 0 {
        None
    } else {
        Some(s[primary_index(s)])
    }
}

/// Every entry from `k` on has a tier above `tier`, and the one before `k`,
/// if any, has not: there `insert_by_tier` puts an entry of that tier.
proof fn lemma_insert_at(s: Seq<(Seq<char>, u32)>, entry: (Seq<char>, u32), k: int)
    requires
        0 <= k <= s.len(),
        forall|j: int| k <= j < s.len() ==> (#[trigger] s[j]).1 > entry.1,
        k > 0 ==> s[k - 1].1 <= entry.1,
    ensures
        insert_by_tier(s, entry) == s.insert(k, entry),
    decreases s.len() - k,
{
    if k == s.len() {
        assert(s.insert(k, entry) =~= s.push(entry));
    } else {
        let rest = s.drop_last();
        assert(s.last() == s[s.len() - 1]);
        assert forall|j: int| k <= j < rest.len() implies (#[trigger] rest[j]).1 > entry.1 by {
            assert(s[j].1 > entry.1);
        }
        lemma_insert_at(rest, entry, k);
        assert(rest.insert(k, entry).push(s.last()) =~= s.insert(k, entry));
    }
}

/// Inserting into a sorted list keeps it sorted, adds the entry and nothing
/// else, and puts it last among the entries of its own tier.
pub proof fn lemma_insert_by_tier(s: Seq<(Seq<char>, u32)>, entry: (Seq<char>, u32))
    requires
        sorted_by_tier(s),
    ensures
        sorted_by_tier(insert_by_tier(s, entry)),
        insert_by_tier(s, entry).len() == s.len() + 1,
        insert_by_tier(s, entry).to_multiset() == s.to_multiset().insert(entry),
        forall|tier: u32| #[trigger]
            insert_by_tier(s, entry).filter(in_tier(tier)) == if entry.1 == tier {
                s.filter(in_tier(tier)).push(entry)
            } else {
                s.filter(in_tier(tier))
            },
    decreases s.len(),
{
    let r = insert_by_tier(s, entry);
    if s.len() == 0 || s.last().1 <= entry.1 {
        to_multiset_build(s, entry);
        assert forall|i: int, j: int| 0 <= i < j < r.len() implies (#[trigger] r[i]).1 <= (
        #[trigger] r[j]).1 by {
            if j == s.len() {
                if i < s.len() - 1 {
                    assert(s[i].1 <= s[s.len() - 1].1);
                }
            } else {
                assert(s[i].1 <= s[j].1);
            }
        }
        assert forall|tier: u32| #[trigger]
            r.filter(in_tier(tier)) == if entry.1 == tier {
                s.filter(in_tier(tier)).push(entry)
            } else {
                s.filter(in_tier(tier))
            } by {
            s.lemma_filter_push(entry, in_tier(tier));
        }
    } else {
        let rest = s.drop_last();
        let last = s.last();
        let mid = insert_by_tier(rest, entry);
        assert(s =~= rest.push(last));
        assert forall|i: int, j: int| 0 <= i < j < rest.len() implies (#[trigger] rest[i]).1 <= (
        #[trigger] rest[j]).1 by {
            assert(s[i].1 <= s[j].1);
        }
        lemma_insert_by_tier(rest, entry);
        to_multiset_build(mid, last);
        to_multiset_build(rest, last);
        assert(r.to_multiset() =~= s.to_multiset().insert(entry));
        assert forall|i: int, j: int| 0 <= i < j < r.len() implies (#[trigger] r[i]).1 <= (
        #[trigger] r[j]).1 by {
            if j < mid.len() {
                assert(mid[i].1 <= mid[j].1);
            } else {
                assert(mid.to_multiset().count(mid[i]) > 0) by {
                    vstd::seq_lib::to_multiset_contains(mid, mid[i]);
                }
                if mid[i] != entry {
                    assert(rest.to_multiset().count(mid[i]) > 0);
                    vstd::seq_lib::to_multiset_contains(rest, mid[i]);
                    let k = choose|k: int| 0 <= k < rest.len() && rest[k] == mid[i];
                    assert(s[k].1 <= s[s.len() - 1].1);
                }
            }
        }
        assert forall|tier: u32| #[trigger]
            r.filter(in_tier(tier)) == if entry.1 == tier {
                s.filter(in_tier(tier)).push(entry)
            } else {
                s.filter(in_tier(tier))
            } by {
            mid.lemma_filter_push(last, in_tier(tier));
            rest.lemma_filter_push(last, in_tier(tier));
            assert(mid.filter(in_tier(tier)) == if entry.1 == tier {
                rest.filter(in_tier(tier)).push(entry)
            } else {
                rest.filter(in_tier(tier))
            });
        }
    }
}

/// The sorted list is sorted, holds the same entries as often, and keeps the
/// entries of each tier in the order in which they came.
pub proof fn lemma_sort_by_tier(s: Seq<(Seq<char>, u32)>)
    ensures
        sorted_by_tier(sort_by_tier_spec(s)),
        sort_by_tier_spec(s).len() == s.len(),
        sort_by_tier_spec(s).to_multiset() == s.to_multiset(),
        forall|tier: u32| #[trigger]
            sort_by_tier_spec(s).filter(in_tier(tier)) == s.filter(in_tier(tier)),
    decreases s.len(),
{
    if s.len() == 0 {
        assert(s =~= Seq::empty());
        assert forall|tier: u32| #[trigger]
            sort_by_tier_spec(s).filter(in_tier(tier)) == s.filter(in_tier(tier)) by {}
    } else {
        let rest = s.drop_last();
        lemma_sort_by_tier(rest);
        lemma_insert_by_tier(sort_by_tier_spec(rest), s.last());
        to_multiset_build(rest, s.last());
        assert(s =~= rest.push(s.last()));
        assert forall|tier: u32| #[trigger]
            sort_by_tier_spec(s).filter(in_tier(tier)) == s.filter(in_tier(tier)) by {
            rest.lemma_filter_push(s.last(), in_tier(tier));
            assert(sort_by_tier_spec(rest).filter(in_tier(tier)) == rest.filter(in_tier(tier)));
        }
    }
}

/// The primary application has the lowest tier of all matches, and is the
/// first match of that tier.
pub proof fn lemma_primary_index(s: Seq<(Seq<char>, u32)>)
    requires
        s.len() > 0,
    ensures
        0 <= primary_index(s) < s.len(),
        forall|j: int| 0 <= j < s.len() ==> s[primary_index(s)].1 <= (#[trigger] s[j]).1,
        forall|j: int| 0 <= j < primary_index(s) ==> (#[trigger] s[j]).1 > s[primary_index(s)].1,
    decreases s.len(),
{
    if s.len() > 1 {
        let rest = s.drop_last();
        lemma_primary_index(rest);
        let k = primary_index(rest);
        assert(rest[k] == s[k]);
        assert forall|j: int| 0 <= j < s.len() implies s[primary_index(s)].1 <= (
        #[trigger] s[j]).1 by {
            if j < rest.len() {
                assert(rest[k].1 <= rest[j].1);
            }
        }
        assert forall|j: int| 0 <= j < primary_index(s) implies (#[trigger] s[j]).1
            > s[primary_index(s)].1 by {
            assert(rest[k].1 <= rest[j].1);
            if j < k {
                assert(rest[j].1 > rest[k].1);
            }
        }
    }
}

/// In a list sorted by tier the primary application comes first.
pub proof fn lemma_primary_of_sorted(s: Seq<(Seq<char>, u32)>)
    requires
        s.len() > 0,
        sorted_by_tier(s),
    ensures
        primary_of(s) == Some(s[0]),
{
    lemma_primary_index(s);
    let k = primary_index(s);
    if k > 0 {
        assert(s[0].1 <= s[k].1);
        assert(s[0].1 > s[k].1);
    }
}

/// Puts a detected process into a list that is sorted by tier.
fn insert_sorted(sorted: &mut Vec<RunningApp>, app: RunningApp)
    requires
        sorted_by_tier(apps_view(old(sorted)@)),
    ensures
        apps_view(final(sorted)@) == insert_by_tier(apps_view(old(sorted)@), app@),
{
    let ghost before = apps_view(sorted@);
    let mut k: usize = sorted.len();
    while k > 0 && sorted[k - 1].tier > app.tier
        invariant
            k <= sorted.len(),
            before == apps_view(sorted@),
            forall|j: int| k <= j < before.len() ==> (#[trigger] before[j]).1 > app.tier,
        decreases k,
    {
        k -= 1;
    }
    proof {
        lemma_insert_at(before, app@, k as int);
    }
    let ghost entry = app@;
    sorted.insert(k, app);
    assert(apps_view(sorted@) =~= before.insert(k as int, entry));
}

/// Sorts detected processes by tier, lowest first; within a tier they keep
/// the order in which they were found.
pub fn sort_by_tier(apps: &[RunningApp]) -> (sorted: Vec<RunningApp>)
    ensures
        apps_view(sorted@) == sort_by_tier_spec(apps_view(apps@)),
{
    let ghost entries = apps_view(apps@);
    let mut sorted: Vec<RunningApp> = Vec::new();
    let mut i: usize = 0;
    assert(apps_view(sorted@) =~= sort_by_tier_spec(entries.take(0)));
    while i < apps.len()
        invariant
            i <= apps.len(),
            entries == apps_view(apps@),
            apps_view(sorted@) == sort_by_tier_spec(entries.take(i as int)),
        decreases apps.len() - i,
    {
        proof {
            lemma_sort_by_tier(entries.take(i as int));
            assert(entries.take(i + 1).drop_last() =~= entries.take(i as int));
        }
        insert_sorted(&mut sorted, apps[i].clone());
        i += 1;
    }
    assert(entries.take(i as int) =~= entries);
    sorted
}

/// Chooses the primary application: the match of the lowest tier, and among
/// several of that tier the first in the list. Nothing where nothing matched.
pub fn select_primary(matches: &[RunningApp]) -> (primary: Option<usize>)
    ensures
        matches@.len() == 0 <==> primary is None,
        primary matches Some(k) ==> k == primary_index(apps_view(matches@)) && k < matches@.len(),
{
    if matches.len() == 0 {
        return None;
    }
    let ghost entries = apps_view(matches@);
    let mut best: usize = 0;
    let mut i: usize = 1;
    assert(entries.take(1).len() == 1);
    while i < matches.len()
        invariant
            1 <= i <= matches.len(),
            best < i,
            entries == apps_view(matches@),
            best == primary_index(entries.take(i as int)),
        decreases matches.len() - i,
    {
        assert(entries.take(i + 1).drop_last() =~= entries.take(i as int));
        assert(entries.take(i + 1).last() == entries[i as int]);
        assert(entries.take(i + 1)[best as int] == entries[best as int]);
        if matches[i].tier < matches[best].tier {
            best = i;
        }
        i += 1;
    }
    assert(entries.take(i as int) =~= entries);
    Some(best)
}

} // verus!
