//! The scan cache: the last scan, kept for a short time, with the signature
//! and count by which a later scan is told from it.

use crate::signature::{content_signature, lemma_signature_order_free, signature_of};
use crate::watch::{apps_view, match_process, matches_any, watch_view, RunningApp, TieredApp};
use vstd::prelude::*;

verus! {

/// How long a snapshot stays fresh, in milliseconds.
pub const PROCESS_CACHE_TTL_MS: u64 = 1000;

/// No two entries have the same name.
pub open spec fn distinct_names(s: Seq<(Seq<char>, u32)>) -> bool {
    forall|i: int, j: int| 0 <= i < j < s.len() ==> (#[trigger] s[i]).0 != (#[trigger] s[j]).0
}

/// Some entry has this name.
pub open spec fn has_name(s: Seq<(Seq<char>, u32)>, name: Seq<char>) -> bool {
    exists|i: int| 0 <= i < s.len() && (#[trigger] s[i]).0 == name
}

/// Where the entry with this name stands, if there is one.
pub open spec fn index_of_name(s: Seq<(Seq<char>, u32)>, name: Seq<char>) -> int {
    choose|i: int| 0 <= i < s.len() && (#[trigger] s[i]).0 == name
}

/// Stores an entry under its name: in place of the entry that has the name,
/// or at the end where none has it.
pub open spec fn upsert(s: Seq<(Seq<char>, u32)>, entry: (Seq<char>, u32)) -> Seq<
    (Seq<char>, u32),
> {
    if has_name(s, entry.0) {
        s.update(index_of_name(s, entry.0), entry)
    } else {
        s.push(entry)
    }
}

/// A scan keyed by name: every name once, at the place of its first
/// occurrence, with the tier of its last.
pub open spec fn keyed(scanned: Seq<(Seq<char>, u32)>) -> Seq<(Seq<char>, u32)>
    decreases scanned.len(),
{
    if scanned.len() == 0 {
        Seq::empty()
    } else {
        upsert(keyed(scanned.drop_last()), scanned.last())
    }
}

/// The entry is the last one of its name in the scan.
pub open spec fn is_last_of_name(scanned: Seq<(Seq<char>, u32)>, entry: (Seq<char>, u32)) -> bool {
    exists|i: int|
        0 <= i < scanned.len() && #[trigger] scanned[i] == entry && forall|j: int|
            i < j < scanned.len() ==> (#[trigger] scanned[j]).0 != entry.0
}

/// The test that a cached entry still matches the watch list.
pub open spec fn watched(watch: Seq<(Seq<char>, u32)>) -> spec_fn((Seq<char>, u32)) -> bool {
    |entry: (Seq<char>, u32)| matches_any(watch, entry.0)
}

/// The contents of the cache.
pub struct Snapshot {
    /// The entries of the list that was stored last, keyed by name.
    pub entries: Seq<(Seq<char>, u32)>,
    /// When the list was stored, in milliseconds; nothing before the first.
    pub taken_at: Option<u64>,
    /// How many entries the list that was stored last had.
    pub count: nat,
    /// The content signature of the list that was stored last.
    pub signature: u64,
    /// How long a snapshot stays fresh, in milliseconds.
    pub ttl_ms: u64,
}

impl Snapshot {
    /// No name is stored twice.
    pub open spec fn wf(self) -> bool {
        distinct_names(self.entries)
    }

    /// The cache before any scan.
    pub open spec fn initial(ttl_ms: u64) -> Snapshot {
        Snapshot { entries: Seq::empty(), taken_at: None, count: 0, signature: 0, ttl_ms }
    }

    /// The snapshot is missing, or its age is not below the time to live. A
    /// clock that reads earlier than the snapshot makes it expired.
    pub open spec fn is_expired(self, now: u64) -> bool {
        match self.taken_at {
            None => true,
            Some(taken) => now < taken || now - taken >= self.ttl_ms,
        }
    }

    /// A list differs from the stored one in signature or in count.
    pub open spec fn differs_from(self, scanned: Seq<(Seq<char>, u32)>) -> bool {
        content_signature(scanned) != self.signature || scanned.len() != self.count
    }

    /// The cache after a list has been stored at time `now`.
    pub open spec fn replaced_by(self, scanned: Seq<(Seq<char>, u32)>, now: u64) -> Snapshot {
        Snapshot {
            entries: keyed(scanned),
            taken_at: Some(now),
            count: scanned.len(),
            signature: content_signature(scanned),
            ttl_ms: self.ttl_ms,
        }
    }

    /// The stored entries that match the watch list, in stored order.
    pub open spec fn matching(self, watch: Seq<(Seq<char>, u32)>) -> Seq<(Seq<char>, u32)> {
        self.entries.filter(watched(watch))
    }
}

/// Storing an entry keeps names distinct, holds the entry, and keeps every
/// other entry whose name differs.
pub proof fn lemma_upsert(s: Seq<(Seq<char>, u32)>, entry: (Seq<char>, u32))
    requires
        distinct_names(s),
    ensures
        distinct_names(upsert(s, entry)),
        forall|x: (Seq<char>, u32)|
            #[trigger] upsert(s, entry).contains(x) <==> x == entry || (s.contains(x) && x.0
                != entry.0),
{
    let r = upsert(s, entry);
    if has_name(s, entry.0) {
        let k = index_of_name(s, entry.0);
        assert forall|x: (Seq<char>, u32)| r.contains(x) implies x == entry || (s.contains(x)
            && x.0 != entry.0) by {
            let i = choose|i: int| 0 <= i < r.len() && r[i] == x;
            if i != k {
                assert(s[i] == x);
                assert(s[i].0 != s[k].0);
            }
        }
        assert forall|x: (Seq<char>, u32)| x == entry || (s.contains(x) && x.0 != entry.0)
            implies r.contains(x) by {
            if x == entry {
                assert(r[k] == x);
            } else {
                let i = choose|i: int| 0 <= i < s.len() && s[i] == x;
                assert(r[i] == x);
            }
        }
        assert forall|i: int, j: int| 0 <= i < j < r.len() implies (#[trigger] r[i]).0 != (
        #[trigger] r[j]).0 by {
            assert(s[i].0 != s[j].0);
        }
    } else {
        assert forall|x: (Seq<char>, u32)| r.contains(x) implies x == entry || (s.contains(x)
            && x.0 != entry.0) by {
            let i = choose|i: int| 0 <= i < r.len() && r[i] == x;
            if i < s.len() {
                assert(s[i] == x);
            }
        }
        assert forall|x: (Seq<char>, u32)| x == entry || (s.contains(x) && x.0 != entry.0)
            implies r.contains(x) by {
            if x == entry {
                assert(r[s.len() as int] == x);
            } else {
                let i = choose|i: int| 0 <= i < s.len() && s[i] == x;
                assert(r[i] == x);
            }
        }
        assert forall|i: int, j: int| 0 <= i < j < r.len() implies (#[trigger] r[i]).0 != (
        #[trigger] r[j]).0 by {
            if j < s.len() {
                assert(s[i].0 != s[j].0);
            } else {
                assert(s[i].0 != entry.0);
            }
        }
    }
}

/// A keyed scan has no name twice, and holds exactly the entries that are the
/// last of their name in the scan.
pub proof fn lemma_keyed(scanned: Seq<(Seq<char>, u32)>)
    ensures
        distinct_names(keyed(scanned)),
        forall|x: (Seq<char>, u32)|
            #[trigger] keyed(scanned).contains(x) <==> is_last_of_name(scanned, x),
    decreases scanned.len(),
{
    if scanned.len() == 0 {
    } else {
        let rest = scanned.drop_last();
        let last = scanned.last();
        let n = scanned.len() - 1;
        lemma_keyed(rest);
        lemma_upsert(keyed(rest), last);
        assert forall|x: (Seq<char>, u32)| keyed(scanned).contains(x) implies is_last_of_name(
            scanned,
            x,
        ) by {
            if x == last {
                assert(scanned[n] == x);
            } else {
                assert(is_last_of_name(rest, x));
                let i = choose|i: int|
                    0 <= i < rest.len() && #[trigger] rest[i] == x && forall|j: int|
                        i < j < rest.len() ==> (#[trigger] rest[j]).0 != x.0;
                assert(scanned[i] == x);
                assert forall|j: int| i < j < scanned.len() implies (#[trigger] scanned[j]).0
                    != x.0 by {
                    if j < n {
                        assert(rest[j].0 != x.0);
                    }
                }
            }
        }
        assert forall|x: (Seq<char>, u32)| is_last_of_name(scanned, x) implies keyed(
            scanned,
        ).contains(x) by {
            let i = choose|i: int|
                0 <= i < scanned.len() && #[trigger] scanned[i] == x && forall|j: int|
                    i < j < scanned.len() ==> (#[trigger] scanned[j]).0 != x.0;
            if i < n {
                assert(scanned[n].0 != x.0);
                assert(rest[i] == x);
                assert forall|j: int| i < j < rest.len() implies (#[trigger] rest[j]).0
                    != x.0 by {
                    assert(scanned[j].0 != x.0);
                }
                assert(is_last_of_name(rest, x));
                assert(keyed(rest).contains(x));
            } else {
                assert(x == last);
            }
            assert(upsert(keyed(rest), last).contains(x));
        }
    }
}

/// Keying changes nothing in a list that has every name once.
pub proof fn lemma_keyed_of_distinct(s: Seq<(Seq<char>, u32)>)
    requires
        distinct_names(s),
    ensures
        keyed(s) == s,
    decreases s.len(),
{
    if s.len() == 0 {
        assert(s =~= Seq::empty());
    } else {
        let rest = s.drop_last();
        let last = s.last();
        assert forall|i: int, j: int| 0 <= i < j < rest.len() implies (#[trigger] rest[i]).0 != (
        #[trigger] rest[j]).0 by {
            assert(s[i].0 != s[j].0);
        }
        lemma_keyed_of_distinct(rest);
        assert(!has_name(rest, last.0)) by {
            if has_name(rest, last.0) {
                let i = choose|i: int| 0 <= i < rest.len() && (#[trigger] rest[i]).0 == last.0;
                assert(s[i].0 != s[s.len() - 1].0);
            }
        }
        assert(rest.push(last) =~= s);
    }
}

/// A filter keeps names distinct, and keeps nothing that was not there.
pub proof fn lemma_filter_keeps_names_distinct(
    s: Seq<(Seq<char>, u32)>,
    pred: spec_fn((Seq<char>, u32)) -> bool,
)
    requires
        distinct_names(s),
    ensures
        distinct_names(s.filter(pred)),
        forall|x: (Seq<char>, u32)| #[trigger] s.filter(pred).contains(x) ==> s.contains(x),
    decreases s.len(),
{
    reveal(Seq::filter);
    if s.len() > 0 {
        let rest = s.drop_last();
        let last = s.last();
        assert forall|i: int, j: int| 0 <= i < j < rest.len() implies (#[trigger] rest[i]).0 != (
        #[trigger] rest[j]).0 by {
            assert(s[i].0 != s[j].0);
        }
        lemma_filter_keeps_names_distinct(rest, pred);
        let kept = rest.filter(pred);
        let all = s.filter(pred);
        assert forall|x: (Seq<char>, u32)| #[trigger] all.contains(x) implies s.contains(x) by {
            let i = choose|i: int| 0 <= i < all.len() && all[i] == x;
            if i < kept.len() {
                assert(kept.contains(x));
                assert(rest.contains(x));
                let k = choose|k: int| 0 <= k < rest.len() && rest[k] == x;
                assert(s[k] == x);
            } else {
                assert(s[s.len() - 1] == x);
            }
        }
        assert forall|i: int, j: int| 0 <= i < j < all.len() implies (#[trigger] all[i]).0 != (
        #[trigger] all[j]).0 by {
            if j < kept.len() {
                assert(kept[i].0 != kept[j].0);
            } else {
                assert(kept.contains(kept[i]));
                assert(rest.contains(kept[i]));
                let k = choose|k: int| 0 <= k < rest.len() && rest[k] == kept[i];
                assert(s[k].0 != s[s.len() - 1].0);
            }
        }
    }
}

/// Two lists of the same entries, each as often, have the same signature and
/// length; so lists that differ in either are not the same entries.
pub proof fn lemma_signature_change(a: Seq<(Seq<char>, u32)>, b: Seq<(Seq<char>, u32)>)
    ensures
        a.to_multiset() == b.to_multiset() ==> content_signature(a) == content_signature(b)
            && a.len() == b.len(),
{
    if a.to_multiset() == b.to_multiset() {
        lemma_signature_order_free(a, b);
    }
}

/// A scan of the same processes as the stored one, found in any order, is
/// no change; a scan with another number of processes always is one.
pub proof fn lemma_change_detection(
    cache: Snapshot,
    stored: Seq<(Seq<char>, u32)>,
    scanned: Seq<(Seq<char>, u32)>,
    now: u64,
)
    ensures
        stored.to_multiset() == scanned.to_multiset() ==> !cache.replaced_by(
            stored,
            now,
        ).differs_from(scanned),
        stored.len() != scanned.len() ==> cache.replaced_by(stored, now).differs_from(scanned),
        cache.replaced_by(stored, now).differs_from(scanned) ==> stored.to_multiset()
            != scanned.to_multiset(),
{
    if stored.to_multiset() == scanned.to_multiset() {
        lemma_signature_order_free(stored, scanned);
    }
}

/// Stores a detected process under its name.
fn upsert_app(stored: &mut Vec<RunningApp>, app: RunningApp)
    requires
        distinct_names(apps_view(old(stored)@)),
    ensures
        apps_view(final(stored)@) == upsert(apps_view(old(stored)@), app@),
{
    let ghost before = apps_view(stored@);
    let mut i: usize = 0;
    while i < stored.len()
        invariant
            i <= stored.len(),
            before == apps_view(stored@),
            before == apps_view(old(stored)@),
            distinct_names(before),
            forall|j: int| 0 <= j < i ==> (#[trigger] before[j]).0 != app.name@,
        decreases stored.len() - i,
    {
        if stored[i].name == app.name {
            assert(before[i as int].0 == app.name@);
            assert(index_of_name(before, app.name@) == i) by {
                let k = index_of_name(before, app.name@);
                if k < i {
                    assert(before[k].0 != before[i as int].0);
                } else if k > i {
                    assert(before[i as int].0 != before[k].0);
                }
            }
            let ghost entry = app@;
            stored.set(i, app);
            assert(apps_view(stored@) =~= before.update(i as int, entry));
            return ;
        }
        i += 1;
    }
    assert(!has_name(before, app.name@));
    let ghost entry = app@;
    stored.push(app);
    assert(apps_view(stored@) =~= before.push(entry));
}

/// Keys a list of detected processes by name: every name once, at the place
/// of its first occurrence, with the tier of its last.
pub fn key_by_name(scanned: &[RunningApp]) -> (stored: Vec<RunningApp>)
    ensures
        apps_view(stored@) == keyed(apps_view(scanned@)),
        distinct_names(apps_view(stored@)),
{
    proof {
        lemma_keyed(apps_view(scanned@));
    }
    let ghost entries = apps_view(scanned@);
    let mut stored: Vec<RunningApp> = Vec::new();
    let mut i: usize = 0;
    assert(apps_view(stored@) =~= keyed(entries.take(0)));
    while i < scanned.len()
        invariant
            i <= scanned.len(),
            entries == apps_view(scanned@),
            apps_view(stored@) == keyed(entries.take(i as int)),
        decreases scanned.len() - i,
    {
        proof {
            lemma_keyed(entries.take(i as int));
            assert(entries.take(i + 1).drop_last() =~= entries.take(i as int));
        }
        upsert_app(&mut stored, scanned[i].clone());
        i += 1;
    }
    assert(entries.take(i as int) =~= entries);
    stored
}

/// Copies a list of detected processes.
pub fn clone_apps(apps: &[RunningApp]) -> (copy: Vec<RunningApp>)
    ensures
        copy@ == apps@,
{
    let mut copy: Vec<RunningApp> = Vec::new();
    let mut i: usize = 0;
    while i < apps.len()
        invariant
            i <= apps.len(),
            copy@ == apps@.take(i as int),
        decreases apps.len() - i,
    {
        copy.push(apps[i].clone());
        assert(copy@ =~= apps@.take(i + 1));
        i += 1;
    }
    assert(apps@.take(i as int) =~= apps@);
    copy
}

/// The last scan and what is needed to tell the next one from it.
#[derive(Debug)]
pub struct ProcessCache {
    processes: Vec<RunningApp>,
    last_updated: Option<u64>,
    last_process_count: usize,
    process_list_hash: u64,
    ttl_ms: u64,
}

impl View for ProcessCache {
    type V = Snapshot;

    closed spec fn view(&self) -> Snapshot {
        Snapshot {
            entries: apps_view(self.processes@),
            taken_at: self.last_updated,
            count: self.last_process_count as nat,
            signature: self.process_list_hash,
            ttl_ms: self.ttl_ms,
        }
    }
}

impl ProcessCache {
    #[verifier::type_invariant]
    spec fn names_are_distinct(&self) -> bool {
        distinct_names(apps_view(self.processes@))
    }

    /// An empty cache with the standard time to live. Its first lookup scans.
    pub fn new() -> (cache: Self)
        ensures
            cache@ == Snapshot::initial(PROCESS_CACHE_TTL_MS),
            cache@.wf(),
    {
        Self::with_ttl(PROCESS_CACHE_TTL_MS)
    }

    /// An empty cache whose snapshots stay fresh for `ttl_ms` milliseconds.
    pub fn with_ttl(ttl_ms: u64) -> (cache: Self)
        ensures
            cache@ == Snapshot::initial(ttl_ms),
            cache@.wf(),
    {
        let cache = ProcessCache {
            processes: Vec::new(),
            last_updated: None,
            last_process_count: 0,
            process_list_hash: 0,
            ttl_ms,
        };
        assert(cache@.entries =~= Seq::empty());
        cache
    }

    /// Tells whether the next lookup at time `now` has to scan.
    pub fn is_expired(&self, now: u64) -> (expired: bool)
        ensures
            expired == self@.is_expired(now),
    {
        match self.last_updated {
            None => true,
            Some(taken) => now < taken || now - taken >= self.ttl_ms,
        }
    }

    /// The content signature of a scan.
    pub fn calculate_process_hash(processes: &[RunningApp]) -> (hash: u64)
        ensures
            hash == content_signature(apps_view(processes@)),
    {
        signature_of(processes)
    }

    /// Tells whether a list differs from the stored one, by signature and count.
    pub fn has_processes_changed(&self, new_processes: &[RunningApp]) -> (changed: bool)
        ensures
            changed == self@.differs_from(apps_view(new_processes@)),
    {
        let new_hash = Self::calculate_process_hash(new_processes);
        let new_count = new_processes.len();
        new_hash != self.process_list_hash || new_count != self.last_process_count
    }

    /// Stores a list taken at time `now` in place of the last one, and tells
    /// whether it differs from it. Signature and count are those of the list
    /// as it is handed in; the entries are kept keyed by name.
    pub fn update_with_change_detection(&mut self, new_processes: Vec<RunningApp>, now: u64) -> (changed:
        bool)
        ensures
            changed == old(self)@.differs_from(apps_view(new_processes@)),
            final(self)@ == old(self)@.replaced_by(apps_view(new_processes@), now),
            final(self)@.wf(),
    {
        let has_changed = self.has_processes_changed(new_processes.as_slice());
        let stored = key_by_name(new_processes.as_slice());
        proof {
            lemma_keyed(apps_view(new_processes@));
        }
        self.processes = stored;
        self.last_updated = Some(now);
        self.process_list_hash = Self::calculate_process_hash(new_processes.as_slice());
        self.last_process_count = new_processes.len();
        has_changed
    }

    /// The stored detections that match the watch list, in stored order.
    pub fn cached_matches(&self, watch: &[TieredApp]) -> (matches: Vec<RunningApp>)
        ensures
            apps_view(matches@) == self@.matching(watch_view(watch@)),
            distinct_names(apps_view(matches@)),
            self@.wf(),
    {
        proof {
            use_type_invariant(self);
            lemma_filter_keeps_names_distinct(
                apps_view(self.processes@),
                watched(watch_view(watch@)),
            );
        }
        let ghost entries = apps_view(self.processes@);
        let ghost w = watch_view(watch@);
        let mut matches: Vec<RunningApp> = Vec::new();
        let mut i: usize = 0;
        proof {
            reveal(Seq::filter);
            assert(apps_view(matches@) =~= entries.take(0).filter(watched(w)));
        }
        while i < self.processes.len()
            invariant
                i <= self.processes.len(),
                entries == apps_view(self.processes@),
                w == watch_view(watch@),
                apps_view(matches@) == entries.take(i as int).filter(watched(w)),
            decreases self.processes.len() - i,
        {
            proof {
                entries.take(i as int).lemma_filter_push(entries[i as int], watched(w));
                assert(entries.take(i + 1) =~= entries.take(i as int).push(entries[i as int]));
                crate::watch::lemma_matched_tier(w, entries[i as int].0);
            }
            let ghost before = apps_view(matches@);
            let app = &self.processes[i];
            if match_process(watch, app.name.as_str()).is_some() {
                matches.push(app.clone());
                assert(apps_view(matches@) =~= before.push(entries[i as int]));
            }
            i += 1;
        }
        assert(entries.take(i as int) =~= entries);
        matches
    }

    /// The stored detections, in stored order.
    pub fn processes(&self) -> (stored: Vec<RunningApp>)
        ensures
            apps_view(stored@) == self@.entries,
            self@.wf(),
    {
        proof {
            use_type_invariant(self);
        }
        clone_apps(self.processes.as_slice())
    }

    /// When the stored list was taken, in milliseconds.
    pub fn last_updated(&self) -> (taken: Option<u64>)
        ensures
            taken == self@.taken_at,
    {
        self.last_updated
    }

    /// How many entries the list that was stored last had.
    pub fn last_process_count(&self) -> (count: usize)
        ensures
            count == self@.count,
    {
        self.last_process_count
    }

    /// The content signature of the list that was stored last.
    pub fn process_list_hash(&self) -> (hash: u64)
        ensures
            hash == self@.signature,
    {
        self.process_list_hash
    }

    /// How long a snapshot stays fresh, in milliseconds.
    pub fn ttl_ms(&self) -> (ttl: u64)
        ensures
            ttl == self@.ttl_ms,
    {
        self.ttl_ms
    }
}

} // verus!
