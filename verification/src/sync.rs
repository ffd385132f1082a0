//! Incremental synchronisation of a folder's local cache: which uids the
//! server has that the cache lacks, which cached uids the server no longer
//! has, and which are on both sides and only need their flags refreshed.
use std::collections::HashSet;
use vstd::prelude::*;

verus! {

broadcast use vstd::std_specs::hash::group_hash_axioms;

/// The uids of `s`, in order, whose membership in `other` equals `present`.
pub open spec fn kept_where(s: Seq<u32>, other: Set<u32>, present: bool) -> Seq<u32>
    decreases s.len(),
{
    if s.len() == 0 {
        Seq::empty()
    } else {
        let prev = kept_where(s.drop_last(), other, present);
        if other.contains(s.last()) == present {
            prev.push(s.last())
        } else {
            prev
        }
    }
}

/// The distinct uids of `cached` that are not in `server`, in the order of
/// their first occurrence.
pub open spec fn vanished(cached: Seq<u32>, server: Set<u32>) -> Seq<u32>
    decreases cached.len(),
{
    if cached.len() == 0 {
        Seq::empty()
    } else {
        let prev = vanished(cached.drop_last(), server);
        let u = cached.last();
        if server.contains(u) || prev.contains(u) {
            prev
        } else {
            prev.push(u)
        }
    }
}

/// What one synchronisation of a folder does to its cache.
#[derive(Debug)]
pub struct SyncPlan {
    /// Uids on the server and not in the cache: their metadata is fetched.
    pub new_uids: Vec<u32>,
    /// Uids in the cache and no longer on the server: they are dropped.
    pub deleted: Vec<u32>,
    /// Uids on both sides: only their flags are refreshed.
    pub existing: Vec<u32>,
}

/// Whether the cached state of a folder must be discarded: the stored
/// UIDVALIDITY is missing or differs from the server's.
pub fn folder_reset_needed(stored: Option<u32>, current: u32) -> (r: bool)
    ensures
        r == (stored != Some(current)),
{
    match stored {
        Some(v) => v != current,
        None => true,
    }
}

/// The set of uids in `v`.
fn uid_set_of(v: &Vec<u32>) -> (s: HashSet<u32>)
    ensures
        s@ == v@.to_set(),
{
    let mut s: HashSet<u32> = HashSet::new();
    let mut i: usize = 0;
    while i < v.len()
        invariant
            i <= v.len(),
            s@ == v@.take(i as int).to_set(),
        decreases v.len() - i,
    {
        proof {
            assert(v@.take(i + 1) =~= v@.take(i as int).push(v@[i as int]));
            v@.take(i as int).lemma_push_to_set_commute(v@[i as int]);
        }
        s.insert(v[i]);
        i += 1;
    }
    assert(v@.take(i as int) =~= v@);
    s
}

/// The uids of `s`, in order, that are (`present`) or are not in `other`.
fn keep_where(s: &Vec<u32>, other: &HashSet<u32>, present: bool) -> (r: Vec<u32>)
    ensures
        r@ == kept_where(s@, other@, present),
{
    let mut r: Vec<u32> = Vec::new();
    let mut i: usize = 0;
    while i < s.len()
        invariant
            i <= s.len(),
            r@ == kept_where(s@.take(i as int), other@, present),
        decreases s.len() - i,
    {
        let u = s[i];
        proof {
            assert(s@.take(i + 1).drop_last() =~= s@.take(i as int));
            assert(s@.take(i + 1).last() == u);
        }
        if other.contains(&u) == present {
            r.push(u);
        }
        i += 1;
    }
    assert(s@.take(i as int) =~= s@);
    r
}

/// Plans one synchronisation from the uids the server lists and the uids
/// the cache holds.
pub fn plan_sync(server: &Vec<u32>, cached: &Vec<u32>) -> (p: SyncPlan)
    ensures
        p.new_uids@ == kept_where(server@, cached@.to_set(), false),
        p.existing@ == kept_where(server@, cached@.to_set(), true),
        p.deleted@ == vanished(cached@, server@.to_set()),
{
    let server_set = uid_set_of(server);
    let cached_set = uid_set_of(cached);
    let new_uids = keep_where(server, &cached_set, false);
    let existing = keep_where(server, &cached_set, true);
    let mut deleted: Vec<u32> = Vec::new();
    let mut seen: HashSet<u32> = HashSet::new();
    let mut i: usize = 0;
    while i < cached.len()
        invariant
            i <= cached.len(),
            server_set@ == server@.to_set(),
            deleted@ == vanished(cached@.take(i as int), server@.to_set()),
            seen@ == deleted@.to_set(),
        decreases cached.len() - i,
    {
        let u = cached[i];
        proof {
            assert(cached@.take(i + 1).drop_last() =~= cached@.take(i as int));
            assert(cached@.take(i + 1).last() == u);
        }
        if !server_set.contains(&u) && !seen.contains(&u) {
            proof {
                deleted@.lemma_push_to_set_commute(u);
            }
            deleted.push(u);
            seen.insert(u);
        }
        i += 1;
    }
    assert(cached@.take(i as int) =~= cached@);
    SyncPlan { new_uids, deleted, existing }
}

/// A uid is kept by `kept_where` exactly when it occurs in `s` and its
/// membership in `other` is `present`.
pub proof fn lemma_kept_where_contains(s: Seq<u32>, other: Set<u32>, present: bool, x: u32)
    ensures
        kept_where(s, other, present).contains(x) == (s.contains(x) && other.contains(x)
            == present),
    decreases s.len(),
{
    if s.len() > 0 {
        lemma_kept_where_contains(s.drop_last(), other, present, x);
        let prev = kept_where(s.drop_last(), other, present);
        if s.contains(x) && !s.drop_last().contains(x) {
            let j = choose|j: int| 0 <= j < s.len() && s[j] == x;
            if j < s.len() - 1 {
                assert(s.drop_last()[j] == x);
            }
        }
        if s.drop_last().contains(x) {
            let j = choose|j: int| 0 <= j < s.drop_last().len() && s.drop_last()[j] == x;
            assert(s[j] == x);
        }
        if other.contains(s.last()) == present {
            assert(prev.push(s.last()).last() == s.last());
            if prev.push(s.last()).contains(x) && x != s.last() {
                let j = choose|j: int| 0 <= j < prev.push(s.last()).len() && prev.push(s.last())[j] == x;
                assert(prev[j] == x);
            }
            if prev.contains(x) {
                let j = choose|j: int| 0 <= j < prev.len() && prev[j] == x;
                assert(prev.push(s.last())[j] == x);
            }
        }
    }
}

/// A uid is dropped by the plan exactly when the cache has it and the
/// server does not; no uid is dropped twice.
pub proof fn lemma_vanished_contains(cached: Seq<u32>, server: Set<u32>, x: u32)
    ensures
        vanished(cached, server).contains(x) == (cached.contains(x) && !server.contains(x)),
        vanished(cached, server).no_duplicates(),
    decreases cached.len(),
{
    if cached.len() > 0 {
        lemma_vanished_contains(cached.drop_last(), server, x);
        lemma_vanished_contains(cached.drop_last(), server, cached.last());
        let prev = vanished(cached.drop_last(), server);
        let u = cached.last();
        if cached.contains(x) && !cached.drop_last().contains(x) {
            let j = choose|j: int| 0 <= j < cached.len() && cached[j] == x;
            if j < cached.len() - 1 {
                assert(cached.drop_last()[j] == x);
            }
        }
        if cached.drop_last().contains(x) {
            let j = choose|j: int| 0 <= j < cached.drop_last().len() && cached.drop_last()[j] == x;
            assert(cached[j] == x);
        }
        if !(server.contains(u) || prev.contains(u)) {
            let next = prev.push(u);
            assert(next.last() == u);
            if next.contains(x) && x != u {
                let j = choose|j: int| 0 <= j < next.len() && next[j] == x;
                assert(prev[j] == x);
            }
            if prev.contains(x) {
                let j = choose|j: int| 0 <= j < prev.len() && prev[j] == x;
                assert(next[j] == x);
            }
            assert forall|a: int, b: int| 0 <= a < b < next.len() implies next[a] != next[b] by {
                if b == next.len() - 1 {
                    assert(next[a] == prev[a]);
                    assert(prev.contains(prev[a]));
                } else {
                    assert(next[a] == prev[a] && next[b] == prev[b]);
                }
            }
        }
    }
}

/// After a synchronisation the cache holds exactly the server's uids: the
/// cached uids minus the dropped ones, plus the fetched ones, are the
/// server's; the refreshed uids are those on both sides, and no fetched
/// uid was already cached.
pub proof fn lemma_sync_converges(server: Seq<u32>, cached: Seq<u32>)
    ensures
        cached.to_set().difference(vanished(cached, server.to_set()).to_set()).union(
            kept_where(server, cached.to_set(), false).to_set(),
        ) == server.to_set(),
        kept_where(server, cached.to_set(), true).to_set() == server.to_set().intersect(
            cached.to_set(),
        ),
        kept_where(server, cached.to_set(), false).to_set().disjoint(cached.to_set()),
{
    let gone = vanished(cached, server.to_set());
    let fresh = kept_where(server, cached.to_set(), false);
    let both = kept_where(server, cached.to_set(), true);
    assert forall|x: u32| #[trigger] server.to_set().contains(x) == cached.to_set().difference(
        gone.to_set(),
    ).union(fresh.to_set()).contains(x) by {
        lemma_vanished_contains(cached, server.to_set(), x);
        lemma_kept_where_contains(server, cached.to_set(), false, x);
    }
    assert(cached.to_set().difference(gone.to_set()).union(fresh.to_set()) =~= server.to_set());
    assert forall|x: u32| #[trigger] both.to_set().contains(x) == server.to_set().intersect(
        cached.to_set(),
    ).contains(x) by {
        lemma_kept_where_contains(server, cached.to_set(), true, x);
    }
    assert(both.to_set() =~= server.to_set().intersect(cached.to_set()));
    assert forall|x: u32| fresh.to_set().contains(x) implies !cached.to_set().contains(x) by {
        lemma_kept_where_contains(server, cached.to_set(), false, x);
    }
}

} // verus!
