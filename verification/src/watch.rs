//! The watch list and the matching of resolved executable names against it.

use crate::text::{all_digits, is_all_digits, starts_with, starts_with_spec};
use vstd::prelude::*;
use vstd::string::StringExecFns;

verus! {

/// One watched application: a name prefix and its display tier. A lower tier
/// is shown in preference to a higher one; several entries may share a tier.
#[derive(Debug)]
pub struct TieredApp {
    pub name: String,
    pub tier: u32,
}

/// One detected process: the base name of its executable and the tier of the
/// watch entry that it matched.
#[derive(Debug)]
pub struct RunningApp {
    pub name: String,
    pub tier: u32,
}

impl View for TieredApp {
    type V = (Seq<char>, u32);

    open spec fn view(&self) -> (Seq<char>, u32) {
        (self.name@, self.tier)
    }
}

impl View for RunningApp {
    type V = (Seq<char>, u32);

    open spec fn view(&self) -> (Seq<char>, u32) {
        (self.name@, self.tier)
    }
}

impl Clone for TieredApp {
    fn clone(&self) -> (r: Self)
        ensures
            r == *self,
    {
        TieredApp { name: self.name.clone(), tier: self.tier }
    }
}

impl Clone for RunningApp {
    fn clone(&self) -> (r: Self)
        ensures
            r == *self,
    {
        RunningApp { name: self.name.clone(), tier: self.tier }
    }
}

/// The watch list as a sequence of (prefix, tier) pairs.
pub open spec fn watch_view(w: Seq<TieredApp>) -> Seq<(Seq<char>, u32)> {
    Seq::new(w.len(), |i: int| w[i]@)
}

/// A list of detected processes as a sequence of (name, tier) pairs.
pub open spec fn apps_view(a: Seq<RunningApp>) -> Seq<(Seq<char>, u32)> {
    Seq::new(a.len(), |i: int| a[i]@)
}

/// The outcome of resolving each candidate process: its executable's base
/// name, or nothing where the process could not be inspected.
pub open spec fn names_view(c: Seq<Option<String>>) -> Seq<Option<Seq<char>>> {
    Seq::new(
        c.len(),
        |i: int|
            match c[i] {
                Some(s) => Some(s@),
                None => None,
            },
    )
}

/// Some entry of the watch list is a prefix of `name`.
pub open spec fn matches_any(watch: Seq<(Seq<char>, u32)>, name: Seq<char>) -> bool {
    exists|i: int| 0 <= i < watch.len() && starts_with_spec(name, #[trigger] watch[i].0)
}

/// The tier that `name` is detected under: that of the first watch entry, in
/// list order, whose prefix it starts with.
pub open spec fn matched_tier(watch: Seq<(Seq<char>, u32)>, name: Seq<char>) -> Option<u32>
    decreases watch.len(),
{
    if watch.len() == 0 {
        None
    } else if starts_with_spec(name, watch[0].0) {
        Some(watch[0].1)
    } else {
        matched_tier(watch.drop_first(), name)
    }
}

/// `matched_tier` finds a tier exactly when some entry matches, and the tier
/// it finds belongs to the earliest matching entry.
pub proof fn lemma_matched_tier(watch: Seq<(Seq<char>, u32)>, name: Seq<char>)
    ensures
        matched_tier(watch, name) is Some <==> matches_any(watch, name),
        matched_tier(watch, name) matches Some(t) ==> exists|i: int|
            0 <= i < watch.len() && starts_with_spec(name, #[trigger] watch[i].0) && watch[i].1 == t
                && forall|j: int| 0 <= j < i ==> !starts_with_spec(name, #[trigger] watch[j].0),
    decreases watch.len(),
{
    if watch.len() == 0 {
    } else if starts_with_spec(name, watch[0].0) {
    } else {
        let rest = watch.drop_first();
        lemma_matched_tier(rest, name);
        if matches_any(watch, name) {
            let i = choose|i: int| 0 <= i < watch.len() && starts_with_spec(name, #[trigger] watch[i].0);
            assert(starts_with_spec(name, rest[i - 1].0));
        }
        if matched_tier(rest, name) is Some {
            let t = matched_tier(rest, name)->0;
            let i = choose|i: int|
                0 <= i < rest.len() && starts_with_spec(name, #[trigger] rest[i].0) && rest[i].1 == t
                    && forall|j: int| 0 <= j < i ==> !starts_with_spec(name, #[trigger] rest[j].0);
            assert(starts_with_spec(name, watch[i + 1].0));
            assert forall|j: int| 0 <= j < i + 1 implies !starts_with_spec(
                name,
                #[trigger] watch[j].0,
            ) by {
                if j > 0 {
                    assert(!starts_with_spec(name, rest[j - 1].0));
                }
            }
        }
    }
}

/// Looks `name` up in the watch list.
pub fn match_process(watch: &[TieredApp], name: &str) -> (r: Option<u32>)
    ensures
        r == matched_tier(watch_view(watch@), name@),
{
    let ghost w = watch_view(watch@);
    let mut i: usize = 0;
    assert(w.subrange(0, w.len() as int) =~= w);
    while i < watch.len()
        invariant
            i <= watch.len(),
            w == watch_view(watch@),
            matched_tier(w, name@) == matched_tier(w.subrange(i as int, w.len() as int), name@),
        decreases watch.len() - i,
    {
        let ghost rest = w.subrange(i as int, w.len() as int);
        assert(rest.drop_first() =~= w.subrange(i + 1, w.len() as int));
        assert(rest[0] == watch@[i as int]@);
        if starts_with(name, watch[i].name.as_str()) {
            return Some(watch[i].tier);
        }
        i += 1;
    }
    None
}

/// The standard watch list: editor and chat first, then browsers and games,
/// then players, then the terminal.
pub open spec fn standard_watch() -> Seq<(Seq<char>, u32)> {
    seq![
        ("code"@, 1u32),
        ("discord"@, 1u32),
        ("zen"@, 2u32),
        ("chrome"@, 2u32),
        ("steam"@, 2u32),
        ("vlc"@, 3u32),
        ("stremio"@, 3u32),
        ("ghostty"@, 4u32),
    ]
}

/// Builds the standard watch list.
pub fn standard_watch_list() -> (watch: Vec<TieredApp>)
    ensures
        watch_view(watch@) == standard_watch(),
{
    let mut watch: Vec<TieredApp> = Vec::new();
    watch.push(TieredApp { name: String::from_str("code"), tier: 1 });
    watch.push(TieredApp { name: String::from_str("discord"), tier: 1 });
    watch.push(TieredApp { name: String::from_str("zen"), tier: 2 });
    watch.push(TieredApp { name: String::from_str("chrome"), tier: 2 });
    watch.push(TieredApp { name: String::from_str("steam"), tier: 2 });
    watch.push(TieredApp { name: String::from_str("vlc"), tier: 3 });
    watch.push(TieredApp { name: String::from_str("stremio"), tier: 3 });
    watch.push(TieredApp { name: String::from_str("ghostty"), tier: 4 });
    assert(watch_view(watch@) =~= standard_watch());
    watch
}

/// A directory entry of the process table names a process exactly when every
/// one of its characters is an ASCII digit.
pub open spec fn is_process_id_spec(entry: Seq<char>) -> bool {
    all_digits(entry)
}

/// Tells whether a directory entry of the process table names a process.
pub fn is_process_id(entry: &str) -> (r: bool)
    ensures
        r == is_process_id_spec(entry@),
{
    is_all_digits(entry)
}

} // verus!
