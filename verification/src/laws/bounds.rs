//! The cache stays within its caps: at most so many layouts, the least recently
//! seen leaving first, and at most so many buffered bytes.

use vstd::prelude::*;

use crate::cache::{
    evicted, lemma_list_bytes_push, lemma_total_bytes_insert, lemma_total_bytes_remove,
    lemma_victim_exists, redefined, total_bytes, CacheView, EntryView, KeyView, PendingView,
};

verus! {

/// Eviction keeps as many layouts as may stay, unchanged, and whatever leaves was
/// seen no later than whatever stays.
pub proof fn lemma_eviction(entries: Map<KeyView, EntryView>, cap: nat)
    requires
        entries.dom().finite(),
    ensures
        evicted(entries, cap).dom().finite(),
        evicted(entries, cap).dom().len() == if entries.dom().len() <= cap {
            entries.dom().len()
        } else {
            cap
        },
        forall|k: KeyView| #[trigger]
            evicted(entries, cap).dom().contains(k) ==> entries.dom().contains(k) && evicted(
                entries,
                cap,
            )[k] == entries[k],
        forall|x: KeyView, y: KeyView|
            #![trigger entries.dom().contains(x), evicted(entries, cap).dom().contains(y)]
            entries.dom().contains(x) && !evicted(entries, cap).dom().contains(x) && evicted(
                entries,
                cap,
            ).dom().contains(y) ==> entries[x].last_seen <= entries[y].last_seen,
    decreases entries.dom().len(),
{
    if entries.dom().len() > cap {
        let v = lemma_victim_exists(entries);
        let rest = entries.remove(v);
        lemma_eviction(rest, cap);
        assert(rest.dom() =~= entries.dom().remove(v));
        assert forall|x: KeyView, y: KeyView|
            #![trigger entries.dom().contains(x), evicted(entries, cap).dom().contains(y)]
            entries.dom().contains(x) && !evicted(entries, cap).dom().contains(x) && evicted(
                entries,
                cap,
            ).dom().contains(y) implies entries[x].last_seen <= entries[y].last_seen by {
            assert(rest.dom().contains(y));
            assert(entries.dom().contains(y));
            if x != v {
                assert(rest.dom().contains(x));
            }
        }
    }
}

/// Below the cap nothing is evicted.
pub proof fn lemma_no_eviction(entries: Map<KeyView, EntryView>, cap: nat)
    requires
        entries.dom().len() <= cap,
    ensures
        evicted(entries, cap) == entries,
{
}

/// A cache whose contents are within its caps.
pub open spec fn within_caps(cache: CacheView) -> bool {
    &&& cache.entries.dom().finite()
    &&& cache.pending.dom().finite()
    &&& cache.entries.dom().len() <= cache.cap_entries
    &&& total_bytes(cache.pending) <= cache.cap_pending_bytes
}

/// Learning a template keeps the cache within its caps.
pub proof fn lemma_upsert_within_caps(cache: CacheView, k: KeyView, e: EntryView)
    requires
        within_caps(cache),
    ensures
        within_caps(cache.upserted(k, e)),
{
    lemma_eviction(
        cache.entries.insert(k, redefined(cache.lookup(k), e)),
        cache.cap_entries as nat,
    );
}

/// A redefinition replaces the layout and keeps when the template was first seen
/// and how often it was used.
pub proof fn lemma_redefinition(cache: CacheView, k: KeyView, e: EntryView)
    requires
        cache.entries.dom().finite(),
        cache.entries.dom().contains(k),
        cache.entries.dom().len() <= cache.cap_entries,
    ensures
        cache.upserted(k, e).lookup(k) == Some(
            EntryView {
                first_seen: cache.entries[k].first_seen,
                use_count: cache.entries[k].use_count,
                ..e
            },
        ),
{
    assert(cache.entries.insert(k, redefined(cache.lookup(k), e)).dom() =~= cache.entries.dom());
}

/// Using a template keeps the cache within its caps.
pub proof fn lemma_use_within_caps(cache: CacheView, k: KeyView, now: i64, n: u64)
    requires
        within_caps(cache),
    ensures
        within_caps(cache.used(k, now, n)),
{
    if cache.entries.dom().contains(k) {
        assert(cache.used(k, now, n).entries.dom() =~= cache.entries.dom());
    }
}

/// Offering a Data Set to the pending buffer keeps the cache within its caps: it is
/// taken only where there is room.
pub proof fn lemma_buffer_within_caps(cache: CacheView, k: KeyView, r: PendingView)
    requires
        within_caps(cache),
    ensures
        within_caps(cache.buffered(k, r)),
        cache.has_room(r.bytes.len()) ==> total_bytes(cache.buffered(k, r).pending) == total_bytes(
            cache.pending,
        ) + r.bytes.len(),
{
    if cache.has_room(r.bytes.len()) {
        lemma_total_bytes_insert(cache.pending, k, cache.waiting(k).push(r));
        lemma_list_bytes_push(cache.waiting(k), r);
    }
}

/// Taking what is buffered under a key keeps the cache within its caps.
pub proof fn lemma_take_within_caps(cache: CacheView, k: KeyView)
    requires
        within_caps(cache),
    ensures
        within_caps(cache.taken(k)),
{
    if cache.pending.dom().contains(k) {
        lemma_total_bytes_remove(cache.pending, k);
    } else {
        assert(cache.pending.remove(k) =~= cache.pending);
    }
}

} // verus!
