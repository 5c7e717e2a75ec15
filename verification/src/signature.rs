//! The content signature of a scan: a 64-bit digest of the detected
//! (name, tier) pairs that does not depend on the order of discovery.

use crate::watch::{apps_view, RunningApp};
use std::collections::hash_map::DefaultHasher;
use std::hash::Hasher;
use vstd::bytes::{spec_u32_to_le_bytes, u32_to_le_bytes};
use vstd::prelude::*;
use vstd::seq_lib::{to_multiset_contains, to_multiset_len, to_multiset_remove};
use vstd::std_specs::hash::DefaultHasherAdditionalSpecFns;
use vstd::utf8::encode_utf8;

verus! {

/// The digest of one detection: the standard hasher, fed the name's UTF-8
/// bytes and then the tier's four bytes, least significant first.
pub open spec fn entry_digest(entry: (Seq<char>, u32)) -> u64 {
    DefaultHasher::spec_finish(seq![encode_utf8(entry.0), spec_u32_to_le_bytes(entry.1)])
}

/// The sum of the digests of all detections, each counted as often as it occurs.
pub open spec fn digest_sum(entries: Seq<(Seq<char>, u32)>) -> int
    decreases entries.len(),
{
    if entries.len() == 0 {
        0
    } else {
        digest_sum(entries.drop_last()) + entry_digest(entries.last())
    }
}

/// The content signature: the digest sum, reduced to 64 bits.
pub open spec fn content_signature(entries: Seq<(Seq<char>, u32)>) -> u64 {
    (digest_sum(entries) % 0x1_0000_0000_0000_0000) as u64
}

/// Digests one detected process.
pub fn app_digest(app: &RunningApp) -> (d: u64)
    ensures
        d == entry_digest(app@),
{
    let mut hasher = DefaultHasher::new();
    hasher.write(app.name.as_str().as_bytes());
    let tier_bytes = u32_to_le_bytes(app.tier);
    hasher.write(tier_bytes.as_slice());
    assert(hasher@ =~= seq![encode_utf8(app.name@), spec_u32_to_le_bytes(app.tier)]);
    hasher.finish()
}

/// Computes the content signature of a list of detected processes.
pub fn signature_of(processes: &[RunningApp]) -> (sig: u64)
    ensures
        sig == content_signature(apps_view(processes@)),
{
    let ghost entries = apps_view(processes@);
    let mut sum: u64 = 0;
    let mut i: usize = 0;
    while i < processes.len()
        invariant
            i <= processes.len(),
            entries == apps_view(processes@),
            sum == content_signature(entries.take(i as int)),
        decreases processes.len() - i,
    {
        assert(entries.take(i + 1).drop_last() =~= entries.take(i as int));
        sum = sum.wrapping_add(app_digest(&processes[i]));
        i += 1;
    }
    assert(entries.take(i as int) =~= entries);
    sum
}

/// Taking one detection out lowers the digest sum by its digest.
pub proof fn lemma_digest_sum_remove(entries: Seq<(Seq<char>, u32)>, i: int)
    requires
        0 <= i < entries.len(),
    ensures
        digest_sum(entries) == digest_sum(entries.remove(i)) + entry_digest(entries[i]),
    decreases entries.len(),
{
    if i == entries.len() - 1 {
        assert(entries.remove(i) =~= entries.drop_last());
    } else {
        lemma_digest_sum_remove(entries.drop_last(), i);
        assert(entries.remove(i).drop_last() =~= entries.drop_last().remove(i));
    }
}

/// The digest sum is the same for any two arrangements of the same detections.
pub proof fn lemma_digest_sum_permutation(a: Seq<(Seq<char>, u32)>, b: Seq<(Seq<char>, u32)>)
    requires
        a.to_multiset() == b.to_multiset(),
    ensures
        digest_sum(a) == digest_sum(b),
    decreases a.len(),
{
    to_multiset_len(a);
    to_multiset_len(b);
    if a.len() > 0 {
        let x = a.last();
        let last = a.len() - 1;
        to_multiset_contains(a, x);
        to_multiset_contains(b, x);
        assert(a[last] == x);
        let j = choose|j: int| 0 <= j < b.len() && b[j] == x;
        to_multiset_remove(a, last);
        to_multiset_remove(b, j);
        lemma_digest_sum_permutation(a.remove(last), b.remove(j));
        lemma_digest_sum_remove(a, last);
        lemma_digest_sum_remove(b, j);
    }
}

/// The content signature does not depend on the order of discovery: two
/// scans that detected the same processes, each as often, have the same
/// signature and the same count.
pub proof fn lemma_signature_order_free(a: Seq<(Seq<char>, u32)>, b: Seq<(Seq<char>, u32)>)
    requires
        a.to_multiset() == b.to_multiset(),
    ensures
        content_signature(a) == content_signature(b),
        a.len() == b.len(),
{
    lemma_digest_sum_permutation(a, b);
    to_multiset_len(a);
    to_multiset_len(b);
}

} // verus!
