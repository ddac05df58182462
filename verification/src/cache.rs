//! The cache sweep decision: which entries of the cache directory are to be
//! removed, where the sweep stops, and which failure it reports.
//!
//! Entries whose name carries a marker substring are removal targets. The
//! sweep removes targets in listing order as plain files; a target that is
//! itself a directory cannot be removed that way, so the sweep stops at the
//! first such entry and reports it, leaving every later entry untouched.
//!
//! The marker is an injected value throughout; [`clear_cache_plan`] fixes it
//! to the one the application's cache files are named with.

use crate::pattern::contains_substr;
use crate::pattern::str_contains;
use vstd::prelude::*;

verus! {

/// The marker substring that names of the application's removable cache
/// files carry.
pub open spec fn cache_marker() -> Seq<char> {
    "question-"@
}

/// One entry of the cache directory listing: its file name and whether the
/// entry is itself a directory.
#[derive(Clone, Debug, PartialEq, Eq)]
pub struct CacheEntry {
    pub name: String,
    pub is_dir: bool,
}

/// The entry's name carries the marker.
pub open spec fn is_marked(e: CacheEntry, marker: Seq<char>) -> bool {
    contains_substr(e.name@, marker)
}

/// A marked entry that is a plain file: the sweep removes it.
pub open spec fn is_removable(e: CacheEntry, marker: Seq<char>) -> bool {
    is_marked(e, marker) && !e.is_dir
}

/// A marked entry that is a directory: removing it as a file fails, so the
/// sweep stops there.
pub open spec fn is_blocking(e: CacheEntry, marker: Seq<char>) -> bool {
    is_marked(e, marker) && e.is_dir
}

/// Index of the first blocking entry at or after `i`, if any.
pub open spec fn first_blocking_from(es: Seq<CacheEntry>, marker: Seq<char>, i: int) -> Option<
    int,
>
    decreases es.len() - i,
    when 0 <= i <= es.len()
{
    if i >= es.len() {
        None
    } else if is_blocking(es[i], marker) {
        Some(i)
    } else {
        first_blocking_from(es, marker, i + 1)
    }
}

/// How far the sweep runs: up to the first blocking entry, or through the
/// whole listing when none blocks.
pub open spec fn cut_index(es: Seq<CacheEntry>, marker: Seq<char>) -> int {
    match first_blocking_from(es, marker, 0) {
        Some(j) => j,
        None => es.len() as int,
    }
}

/// The names of the removable entries of `es`, in listing order.
pub open spec fn removals_of(es: Seq<CacheEntry>, marker: Seq<char>) -> Seq<Seq<char>>
    decreases es.len(),
{
    if es.len() == 0 {
        Seq::empty()
    } else if is_removable(es.last(), marker) {
        removals_of(es.drop_last(), marker).push(es.last().name@)
    } else {
        removals_of(es.drop_last(), marker)
    }
}

/// The names the sweep removes from listing `es`: the removable entries that
/// stand before the first blocking one.
pub open spec fn planned_removals(es: Seq<CacheEntry>, marker: Seq<char>) -> Seq<Seq<char>> {
    removals_of(es.subrange(0, cut_index(es, marker)), marker)
}

/// The views of a sequence of strings.
pub open spec fn string_views(v: Seq<String>) -> Seq<Seq<char>> {
    v.map_values(|s: String| s@)
}

/// Why a cache sweep reports failure.
#[derive(Clone, Debug, PartialEq, Eq)]
pub enum ClearFailure {
    /// The cache directory could not be enumerated; carries the reason the
    /// enumeration gave.
    Unreadable(String),
    /// A marked entry is itself a directory; carries that entry's name.
    DirectoryEntry(String),
}

/// What a cache sweep is to do: remove the named files, in order, and then
/// report the recorded failure, if any.
#[derive(Clone, Debug, PartialEq, Eq)]
pub struct ClearPlan {
    pub to_remove: Vec<String>,
    pub failure: Option<ClearFailure>,
}

/// Whether a file name carries the application's cache marker.
pub fn name_is_marked(name: &str) -> (b: bool)
    ensures
        b == contains_substr(name@, cache_marker()),
{
    str_contains(name, "question-")
}

/// Where the first blocking entry stands, spelt out: the returned index
/// carries a blocking entry and nothing before it does; `None` means nothing
/// blocks at all.
pub proof fn lemma_first_blocking_char(es: Seq<CacheEntry>, marker: Seq<char>, i: int)
    requires
        0 <= i <= es.len(),
    ensures
        (match first_blocking_from(es, marker, i) {
            Option::None => forall|k: int| i <= k < es.len() ==> !is_blocking(es[k], marker),
            Option::Some(j) => i <= j < es.len() && is_blocking(es[j], marker) && (forall|k: int|
                i <= k < j ==> !is_blocking(es[k], marker)),
        }),
    decreases es.len() - i,
{
    if i < es.len() && !is_blocking(es[i], marker) {
        lemma_first_blocking_char(es, marker, i + 1);
    }
}

proof fn lemma_removals_step(es: Seq<CacheEntry>, marker: Seq<char>, i: int)
    requires
        0 <= i < es.len(),
    ensures
        removals_of(es.subrange(0, i + 1), marker) == (if is_removable(es[i], marker) {
            removals_of(es.subrange(0, i), marker).push(es[i].name@)
        } else {
            removals_of(es.subrange(0, i), marker)
        }),
{
    let pre = es.subrange(0, i + 1);
    assert(pre.drop_last() =~= es.subrange(0, i));
    assert(pre.last() == es[i]);
}

/// Computes the sweep of marker-named files over the given cache directory
/// listing, or records the enumeration failure when the listing could not
/// be had.
///
/// On a listing, the plan removes exactly the names of the marked plain
/// files that stand before the first marked directory, in order; it records
/// that directory's name as the failure, or none when no marked entry is a
/// directory. A marked directory is deliberately not skipped: the sweep
/// stops there, brittle as that is, so nothing after it is touched.
#[verifier::loop_isolation(false)]
pub fn sweep_plan(listing: Result<Vec<CacheEntry>, String>, marker: &str) -> (p: ClearPlan)
    ensures
        (match listing {
            Result::Err(m) => p.to_remove@.len() == 0 && (match p.failure {
                Option::Some(ClearFailure::Unreadable(mm)) => mm@ == m@,
                _ => false,
            }),
            Result::Ok(es) => string_views(p.to_remove@) == planned_removals(es@, marker@) && (
            match first_blocking_from(es@, marker@, 0) {
                Option::None => p.failure is None,
                Option::Some(j) => (match p.failure {
                    Option::Some(ClearFailure::DirectoryEntry(nm)) => nm@ == es@[j].name@,
                    _ => false,
                }),
            }),
        }),
{
    let es = match listing {
        Result::Err(m) => {
            return ClearPlan { to_remove: Vec::new(), failure: Some(ClearFailure::Unreadable(m)) };
        },
        Result::Ok(es) => es,
    };
    let n = es.len();
    let mut out: Vec<String> = Vec::new();
    let mut i: usize = 0;
    proof {
        assert(es@.subrange(0, 0) =~= Seq::<CacheEntry>::empty());
        assert(string_views(out@) =~= removals_of(es@.subrange(0, 0), marker@));
    }
    while i < n
        invariant
            n == es@.len(),
            i <= n,
            forall|k: int| 0 <= k < i ==> !is_blocking(es@[k], marker@),
            string_views(out@) == removals_of(es@.subrange(0, i as int), marker@),
        decreases n - i,
    {
        let marked = str_contains(es[i].name.as_str(), marker);
        if marked && es[i].is_dir {
            proof {
                assert(first_blocking_from(es@, marker@, 0) == Option::Some(i as int)) by {
                    lemma_first_blocking_char(es@, marker@, 0);
                    assert(is_blocking(es@[i as int], marker@));
                }
            }
            return ClearPlan {
                to_remove: out,
                failure: Some(ClearFailure::DirectoryEntry(es[i].name.clone())),
            };
        }
        if marked {
            let nm = es[i].name.clone();
            out.push(nm);
            proof {
                lemma_removals_step(es@, marker@, i as int);
                assert(string_views(out@) =~= removals_of(es@.subrange(0, i as int), marker@).push(
                    es@[i as int].name@,
                ));
            }
        } else {
            proof {
                lemma_removals_step(es@, marker@, i as int);
            }
        }
        i += 1;
    }
    proof {
        assert(first_blocking_from(es@, marker@, 0) is None) by {
            lemma_first_blocking_char(es@, marker@, 0);
        }
        assert(es@.subrange(0, n as int) =~= es@);
    }
    ClearPlan { to_remove: out, failure: None }
}

/// The cache-clearing command: the sweep with the marker the application's
/// cache files are named with.
pub fn clear_cache_plan(listing: Result<Vec<CacheEntry>, String>) -> (p: ClearPlan)
    ensures
        (match listing {
            Result::Err(m) => p.to_remove@.len() == 0 && (match p.failure {
                Option::Some(ClearFailure::Unreadable(mm)) => mm@ == m@,
                _ => false,
            }),
            Result::Ok(es) => string_views(p.to_remove@) == planned_removals(es@, cache_marker())
                && (match first_blocking_from(es@, cache_marker(), 0) {
                Option::None => p.failure is None,
                Option::Some(j) => (match p.failure {
                    Option::Some(ClearFailure::DirectoryEntry(nm)) => nm@ == es@[j].name@,
                    _ => false,
                }),
            }),
        }),
{
    sweep_plan(listing, "question-")
}

/// Law: the sweep only ever removes names that carry the marker: every
/// planned removal contains the marker substring.
pub proof fn lemma_removals_carry_marker(es: Seq<CacheEntry>, marker: Seq<char>)
    ensures
        forall|k: int|
            0 <= k < removals_of(es, marker).len() ==> contains_substr(
                removals_of(es, marker)[k],
                marker,
            ),
    decreases es.len(),
{
    if es.len() == 0 {
        assert(removals_of(es, marker).len() == 0);
    } else {
        let rest = es.drop_last();
        lemma_removals_carry_marker(rest, marker);
        assert forall|k: int| 0 <= k < removals_of(es, marker).len() implies contains_substr(
            removals_of(es, marker)[k],
            marker,
        ) by {
            if k < removals_of(rest, marker).len() {
                assert(contains_substr(removals_of(rest, marker)[k], marker));
                assert(removals_of(es, marker)[k] == removals_of(rest, marker)[k]);
            } else {
                assert(is_removable(es.last(), marker));
                assert(removals_of(es, marker)[k] == es.last().name@);
            }
        }
    }
}

/// Law: every planned removal is the name of a marked plain-file entry of
/// the listing itself: the sweep touches nothing outside the enumerated
/// cache directory.
pub proof fn lemma_removals_are_listed(es: Seq<CacheEntry>, marker: Seq<char>)
    ensures
        forall|k: int|
            0 <= k < removals_of(es, marker).len() ==> (exists|j: int|
                0 <= j < es.len() && #[trigger] is_removable(es[j], marker) && es[j].name@
                    == #[trigger] removals_of(es, marker)[k]),
    decreases es.len(),
{
    if es.len() == 0 {
        assert(removals_of(es, marker).len() == 0);
    } else {
        let rest = es.drop_last();
        lemma_removals_are_listed(rest, marker);
        assert forall|k: int| 0 <= k < removals_of(es, marker).len() implies (exists|j: int|
            0 <= j < es.len() && #[trigger] is_removable(es[j], marker) && es[j].name@
                == #[trigger] removals_of(es, marker)[k]) by {
            if k < removals_of(rest, marker).len() {
                assert(removals_of(es, marker)[k] == removals_of(rest, marker)[k]);
                let j = choose|j: int|
                    0 <= j < rest.len() && #[trigger] is_removable(rest[j], marker)
                        && rest[j].name@ == #[trigger] removals_of(rest, marker)[k];
                assert(es[j] == rest[j]);
                assert(0 <= j < es.len() && is_removable(es[j], marker) && es[j].name@
                    == removals_of(es, marker)[k]);
            } else {
                let j = es.len() - 1;
                assert(is_removable(es[j], marker) && es[j].name@ == removals_of(es, marker)[k]);
            }
        }
    }
}

} // verus!
