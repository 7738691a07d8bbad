//! What the cache does with templates and with data that waits for one.

use vstd::prelude::*;
use vstd::utf8::encode_utf8;

use crate::cache::{
    empty_cache, evicted, lemma_list_bytes_push, lemma_total_bytes_insert, lemma_victim_exists,
    list_bytes, records_since, redefined, restored, total_bytes, CacheDto, CacheView, EntryView,
    KeyView, PendingView, TemplateCache,
};
use crate::decode::sets::missing_row;
use crate::decode::{all_given_up, given_up};
use crate::keymap::{key_lt, lemma_key_lt_order, lemma_ordered_keys, ordered_keys};
use crate::laws::bounds::{lemma_eviction, lemma_no_eviction};
use crate::laws::values::lemma_written_cache_reads_back;
use crate::laws::wire::bare_row;
use crate::normalize::FlowView;
use crate::text::{bytes_lt, dec, text_lt};

verus! {

/// The first place where two byte strings part, and the byte there is the lower one, or
/// the first string ends there.
pub open spec fn parts_lower(a: Seq<u8>, b: Seq<u8>, i: int) -> bool {
    &&& 0 <= i < b.len()
    &&& i <= a.len()
    &&& a.take(i) == b.take(i)
    &&& i == a.len() || a[i] < b[i]
}

/// One byte string comes before another exactly where they part with a lower byte, or
/// where it is the beginning of the other.
pub proof fn lemma_bytes_in_order(a: Seq<u8>, b: Seq<u8>)
    ensures
        bytes_lt(a, b) <==> exists|i: int| parts_lower(a, b, i),
    decreases a.len(),
{
    if b.len() > 0 && a.len() == 0 {
        assert(a.take(0) =~= b.take(0));
        assert(parts_lower(a, b, 0));
    } else if b.len() > 0 {
        let (x, y) = (a.drop_first(), b.drop_first());
        if a[0] < b[0] {
            assert(a.take(0) =~= b.take(0));
            assert(parts_lower(a, b, 0));
        } else if a[0] == b[0] {
            lemma_bytes_in_order(x, y);
            if bytes_lt(x, y) {
                let i = choose|i: int| parts_lower(x, y, i);
                assert(a.take(i + 1) =~= seq![a[0]] + x.take(i));
                assert(b.take(i + 1) =~= seq![b[0]] + y.take(i));
                assert(parts_lower(a, b, i + 1));
            }
            if exists|i: int| parts_lower(a, b, i) {
                let i = choose|i: int| parts_lower(a, b, i);
                if i > 0 {
                    assert(x.take(i - 1) =~= a.take(i).drop_first());
                    assert(y.take(i - 1) =~= b.take(i).drop_first());
                    assert(parts_lower(x, y, i - 1));
                }
            }
        } else if exists|i: int| parts_lower(a, b, i) {
            let i = choose|i: int| parts_lower(a, b, i);
            if i > 0 {
                assert(a.take(i)[0] == b.take(i)[0]);
            }
        }
    }
}

/// Keys stand in order of the exporter's bytes; of one exporter, in order of the domain;
/// of one domain, in order of the template id.
pub proof fn lemma_key_order(a: KeyView, b: KeyView)
    ensures
        (exists|i: int| parts_lower(encode_utf8(a.exporter), encode_utf8(b.exporter), i))
            ==> key_lt(a, b),
        a.exporter == b.exporter && a.obs_domain < b.obs_domain ==> key_lt(a, b),
        a.exporter == b.exporter && a.obs_domain == b.obs_domain ==> (key_lt(a, b)
            <==> a.template_id < b.template_id),
        key_lt(a, b) ==> !key_lt(b, a),
{
    lemma_bytes_in_order(encode_utf8(a.exporter), encode_utf8(b.exporter));
    lemma_key_lt_order(a, b, a);
    lemma_key_lt_order(a, a, a);
    if a.exporter == b.exporter {
        let c = KeyView { obs_domain: 0, template_id: 0, ..a };
        lemma_key_lt_order(c, c, c);
        assert(!text_lt(a.exporter, b.exporter));
    }
}

/// A Data Set that waits is taken exactly where all that waits, this one with it, is within
/// the cap; then it stands behind what waits under its key, and nothing else changes. One
/// that is not taken changes nothing.
pub proof fn lemma_buffering(cache: CacheView, k: KeyView, r: PendingView)
    requires
        cache.pending.dom().finite(),
    ensures
        ({
            let grown = cache.pending.insert(k, cache.waiting(k).push(r));
            &&& total_bytes(grown) == total_bytes(cache.pending) + r.bytes.len()
            &&& cache.buffered(k, r) == if total_bytes(grown) <= cache.cap_pending_bytes {
                CacheView { pending: grown, ..cache }
            } else {
                cache
            }
            &&& cache.has_room(r.bytes.len()) <==> total_bytes(grown) <= cache.cap_pending_bytes
        }),
        total_bytes(Map::<KeyView, Seq<PendingView>>::empty()) == 0,
{
    lemma_total_bytes_insert(cache.pending, k, cache.waiting(k).push(r));
    lemma_list_bytes_push(cache.waiting(k), r);
    if !cache.pending.dom().contains(k) {
        assert(list_bytes(Seq::<PendingView>::empty()) == 0);
    }
    let none = Map::<KeyView, Seq<PendingView>>::empty();
    lemma_ordered_keys(none.dom());
    let keys = ordered_keys(none.dom());
    if keys.len() > 0 {
        assert(keys.contains(keys[0]));
    }
}

/// What is taken out under a key is gone, and what waits under other keys still does;
/// draining takes out everything. Neither touches a template.
pub proof fn lemma_taking(cache: CacheView, k: KeyView, other: KeyView)
    ensures
        cache.taken(k).waiting(k) == Seq::<PendingView>::empty(),
        other != k ==> cache.taken(k).waiting(other) == cache.waiting(other),
        cache.taken(k).entries == cache.entries,
        cache.drained().waiting(k) == Seq::<PendingView>::empty(),
        cache.drained().entries == cache.entries,
{
}

/// A template that is new is known as it was learned; its use is counted and dated, and
/// changes no layout and no other template.
pub proof fn lemma_learn_and_use(
    cache: CacheView,
    k: KeyView,
    e: EntryView,
    now: i64,
    n: u64,
    other: KeyView,
)
    requires
        cache.entries.dom().finite(),
        cache.entries.dom().len() < cache.cap_entries,
        !cache.entries.dom().contains(k),
        other != k,
    ensures
        cache.upserted(k, e).lookup(k) == Some(e),
        cache.upserted(k, e).lookup(other) == cache.lookup(other),
        cache.upserted(k, e).used(k, now, n).lookup(k) == Some(
            EntryView {
                last_seen: now,
                use_count: if e.use_count + n <= u64::MAX {
                    (e.use_count + n) as u64
                } else {
                    (e.use_count + n - u64::MAX - 1) as u64
                },
                ..e
            },
        ),
        cache.used(k, now, n) == cache,
        cache.upserted(k, e).used(k, now, n).lookup(other) == cache.lookup(other),
{
    let all = cache.entries.insert(k, e);
    assert(all.dom() =~= cache.entries.dom().insert(k));
    lemma_no_eviction(all, cache.cap_entries as nat);
}

/// What leaves a cache was seen before what stays; of templates that were seen last at the
/// same time, those with lower keys leave first.
pub proof fn lemma_eviction_order(entries: Map<KeyView, EntryView>, cap: nat)
    requires
        entries.dom().finite(),
    ensures
        forall|x: KeyView, y: KeyView|
            #![trigger entries.dom().contains(x), evicted(entries, cap).dom().contains(y)]
            entries.dom().contains(x) && !evicted(entries, cap).dom().contains(x) && evicted(
                entries,
                cap,
            ).dom().contains(y) ==> entries[x].last_seen < entries[y].last_seen || (
            entries[x].last_seen == entries[y].last_seen && key_lt(x, y)),
    decreases entries.dom().len(),
{
    if entries.dom().len() > cap {
        let v = lemma_victim_exists(entries);
        let rest = entries.remove(v);
        lemma_eviction_order(rest, cap);
        lemma_eviction(rest, cap);
        assert(rest.dom() =~= entries.dom().remove(v));
        assert(evicted(entries, cap) == evicted(rest, cap));
        assert forall|x: KeyView, y: KeyView|
            #![trigger entries.dom().contains(x), evicted(entries, cap).dom().contains(y)]
            entries.dom().contains(x) && !evicted(entries, cap).dom().contains(x) && evicted(
                entries,
                cap,
            ).dom().contains(y) implies entries[x].last_seen < entries[y].last_seen || (
        entries[x].last_seen == entries[y].last_seen && key_lt(x, y)) by {
            assert(rest.dom().contains(y));
            assert(entries.dom().contains(y));
            if x != v {
                assert(rest.dom().contains(x));
            }
        }
    }
}

/// The row of data whose template never came names the domain and the template id.
pub proof fn lemma_missing_row(
    key: KeyView,
    version: Seq<char>,
    export_time: Option<i64>,
    sequence: Option<u64>,
)
    ensures
        missing_row(key, version, export_time, sequence) == bare_row(
            key.exporter,
            version,
            key.obs_domain,
            export_time,
            sequence,
            Some(
                "missing-template:"@ + dec(key.obs_domain as nat) + "/"@ + dec(
                    key.template_id as nat,
                ),
            ),
        ),
{
}

/// What waits at the end is given up in order, one row for each Data Set, each with the
/// time and the sequence number that it came with.
pub proof fn lemma_given_up(key: KeyView, recs: Seq<PendingView>, i: int)
    requires
        0 <= i < recs.len(),
    ensures
        given_up(key, recs).len() == recs.len(),
        given_up(key, recs)[i].exporter == key.exporter,
        given_up(key, recs)[i].obs_domain == key.obs_domain,
        given_up(key, recs)[i].export_time == recs[i].export_time,
        given_up(key, recs)[i].sequence == recs[i].sequence,
        given_up(key, recs)[i].diagnostics == Some(
            "missing-template:"@ + dec(key.obs_domain as nat) + "/"@ + dec(key.template_id as nat),
        ),
        recs[0].version == "9"@ ==> given_up(key, recs)[i].flow_version == "9"@,
        recs[0].version == "10"@ ==> given_up(key, recs)[i].flow_version == "10"@,
{
}

/// What waits is given up key by key.
pub proof fn lemma_all_given_up(
    a: Seq<(KeyView, Seq<PendingView>)>,
    b: Seq<(KeyView, Seq<PendingView>)>,
    key: KeyView,
    recs: Seq<PendingView>,
)
    ensures
        all_given_up(a + b) == all_given_up(a) + all_given_up(b),
        all_given_up(seq![(key, recs)]) == given_up(key, recs),
    decreases a.len(),
{
    let none = Seq::<(KeyView, Seq<PendingView>)>::empty();
    let one = seq![(key, recs)];
    assert(one.drop_first() =~= none);
    assert(all_given_up(none) == Seq::<FlowView>::empty());
    assert(given_up(key, recs) + Seq::<FlowView>::empty() =~= given_up(key, recs));
    if a.len() == 0 {
        assert(a + b =~= b);
        assert(Seq::<FlowView>::empty() + all_given_up(b) =~= all_given_up(b));
    } else {
        let more = a.drop_first();
        assert((a + b).drop_first() =~= more + b);
        lemma_all_given_up(more, b, key, recs);
        assert(given_up(a[0].0, a[0].1) + (all_given_up(more) + all_given_up(b)) =~= given_up(
            a[0].0,
            a[0].1,
        ) + all_given_up(more) + all_given_up(b));
    }
}

/// A new cache knows nothing, waits for nothing and has room for a hundred thousand
/// templates and four mebibytes of waiting data.
pub proof fn lemma_new_cache()
    ensures
        empty_cache() == (CacheView {
            entries: Map::empty(),
            pending: Map::empty(),
            cap_entries: 100_000,
            cap_pending_bytes: 4_194_304,
        }),
{
}

/// A cache that was written down is restored as it was; where nothing was written down,
/// a new cache takes its place.
pub proof fn lemma_restored(cache: TemplateCache, dto: CacheDto)
    requires
        cache.wf(),
        dto.cache() == cache@,
    ensures
        restored(Some(dto.cache())) == cache@,
        restored(None) == empty_cache(),
{
    lemma_written_cache_reads_back(cache, dto);
}

/// What was counted since a cache was last mirrored is what its count grew by; where the
/// template was not known then, or was learned anew, all of it.
pub proof fn lemma_counted_since(e: EntryView, before: Map<KeyView, EntryView>, k: KeyView)
    ensures
        before.dom().contains(k) && before[k].use_count <= e.use_count ==> before[k].use_count
            + records_since(e, before, k) == e.use_count,
        !before.dom().contains(k) ==> records_since(e, before, k) == e.use_count,
        before.dom().contains(k) && before[k].use_count > e.use_count ==> records_since(
            e,
            before,
            k,
        ) == e.use_count,
{
}

/// A template that is mirrored into a cache that knows it keeps when it was first seen
/// there; into a cache that does not, it comes as it is.
pub proof fn lemma_mirrored(cache: CacheView, k: KeyView, e: EntryView, since: u64)
    requires
        cache.entries.dom().finite(),
        cache.entries.dom().len() < cache.cap_entries,
    ensures
        match cache.lookup(k) {
            Some(known) => cache.mirrored(k, e, since).lookup(k) matches Some(now)
                && now.first_seen == known.first_seen && now.last_seen == e.last_seen
                && now.fields == e.fields && now.kind == e.kind && now.scope_field_count
                == e.scope_field_count && (known.use_count + since <= u64::MAX ==> now.use_count
                == known.use_count + since),
            None => cache.mirrored(k, e, since).lookup(k) == Some(e),
        },
{
    let all = cache.entries.insert(k, redefined(cache.lookup(k), e));
    assert(all.dom() =~= cache.entries.dom().insert(k));
    lemma_no_eviction(all, cache.cap_entries as nat);
}

} // verus!
