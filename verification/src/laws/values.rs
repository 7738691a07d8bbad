//! What values keep: addresses can be told apart and sorted in their cells, scaled
//! sFlow counts can be unscaled, notes are not repeated, and the template listing
//! and the merge of caches say what the caches hold.

use vstd::prelude::*;

use crate::buf::{be, lemma_enc32_be};
use crate::cache::{
    records_since, redefined, CacheDto, CacheView, EntryView, KeyView, TemplateCache,
};
use crate::decode::sflow::scaled;
use crate::inet::{inet4_cell, inet6_cell, inet_cell, IpAddr};
use crate::keymap::{ascending, lemma_key_lt_order, lemma_ordered_keys, ordered_keys, pairs};
use crate::laws::bounds::lemma_no_eviction;
use crate::laws::layouts::layout;
use crate::normalize::{has_note, is_part, noted, FlowView};
use crate::templates::{is_wanted, listed};

verus! {

/// Byte strings of one length that denote the same number are the same.
pub proof fn lemma_be_injective(a: Seq<u8>, b: Seq<u8>)
    requires
        a.len() == b.len(),
        be(a) == be(b),
    ensures
        a == b,
    decreases a.len(),
{
    if a.len() == 0 {
        assert(a =~= b);
    } else {
        lemma_be_injective(a.drop_last(), b.drop_last());
        assert(a =~= a.drop_last().push(a.last()));
        assert(b =~= b.drop_last().push(b.last()));
    }
}

/// Different addresses have different `INET` cells, whatever their family.
pub proof fn lemma_addresses_stay_apart(a: IpAddr, b: IpAddr, mask: u16)
    requires
        inet_cell(a, mask) == inet_cell(b, mask),
    ensures
        a is V4 <==> b is V4,
        a.octets() == b.octets(),
{
    lemma_be_injective(a.octets(), b.octets());
}

/// Cells of one family compare as the addresses do, octet by octet from the first:
/// the sign bit of an IPv6 cell is flipped so that the signed order is theirs.
pub proof fn lemma_addresses_sort(a: Seq<u8>, b: Seq<u8>, mask: u16)
    ensures
        inet4_cell(a, mask).address < inet4_cell(b, mask).address <==> be(a) < be(b),
        inet6_cell(a, mask).address < inet6_cell(b, mask).address <==> be(a) < be(b),
{
}

/// A scaled sFlow row keeps the unscaled values: the last two raw fields denote the
/// frame length and the sampling rate whose product is the byte count.
pub proof fn lemma_scaling_can_be_undone(row: FlowView, frame_length: u32, rate: u32)
    ensures
        ({
            let r = scaled(row, frame_length, rate);
            let n = r.raw_fields.len();
            &&& n >= 2
            &&& r.raw_fields[n - 2].0 == "sflow.frame_length"@
            &&& r.raw_fields[n - 1].0 == "sflow.sampling_rate"@
            &&& r.bytes == Some(
                (be(r.raw_fields[n - 2].1) * be(r.raw_fields[n - 1].1)) as u64,
            )
            &&& be(r.raw_fields[n - 2].1) * be(r.raw_fields[n - 1].1) <= u64::MAX
            &&& r.packets == Some(be(r.raw_fields[n - 1].1) as u64)
        }),
{
    lemma_enc32_be(frame_length);
    lemma_enc32_be(rate);
    assert(frame_length * rate <= 0xffff_ffff * 0xffff_ffff) by (nonlinear_arith)
        requires
            frame_length <= 0xffff_ffff,
            rate <= 0xffff_ffff,
    ;
}

/// A note that was made is there, and making it again changes nothing.
pub proof fn lemma_note_once(d: Option<Seq<char>>, msg: Seq<char>)
    requires
        forall|i: int| 0 <= i < msg.len() ==> msg[i] != ';',
    ensures
        noted(d, msg) matches Some(t) && has_note(t, msg),
        noted(noted(d, msg), msg) == noted(d, msg),
{
    let t = noted(d, msg)->0;
    match d {
        None => {
            assert(is_part(msg, 0, msg.len() as int));
            assert(msg.subrange(0, msg.len() as int) =~= msg);
        },
        Some(old_text) => {
            if !has_note(old_text, msg) {
                reveal_strlit(";");
                let from = old_text.len() + 1;
                assert(t[old_text.len() as int] == ';');
                assert(forall|k: int| 0 <= k < msg.len() ==> t[from + k] == msg[k]);
                assert(is_part(t, from as int, t.len() as int));
                assert(t.subrange(from as int, t.len() as int) =~= msg);
            }
        },
    }
}

/// The listing shows exactly the cached templates that are wanted.
pub proof fn lemma_listing(
    entries: Map<KeyView, EntryView>,
    exporter: Option<Seq<char>>,
    k: KeyView,
    e: EntryView,
)
    requires
        entries.dom().finite(),
    ensures
        listed(entries, exporter).contains((k, e)) <==> entries.dom().contains(k) && entries[k]
            == e && (exporter is None || k.exporter == exporter->0),
{
    let pred = |t: (KeyView, EntryView)| is_wanted(t, exporter);
    let all = pairs(entries);
    let keys = ordered_keys(entries.dom());
    lemma_ordered_keys(entries.dom());
    lemma_filter_contains(all, pred, (k, e));
    if entries.dom().contains(k) && entries[k] == e {
        let i = choose|i: int| 0 <= i < keys.len() && keys[i] == k;
        assert(all[i] == (k, e));
    }
    if all.contains((k, e)) {
        let i = choose|i: int| 0 <= i < all.len() && all[i] == (k, e);
        assert(keys.contains(keys[i]));
    }
}

/// What a filter keeps is what is there and has the property.
proof fn lemma_filter_contains<A>(s: Seq<A>, pred: spec_fn(A) -> bool, x: A)
    ensures
        s.filter(pred).contains(x) <==> s.contains(x) && pred(x),
    decreases s.len(),
{
    reveal(Seq::filter);
    if s.len() > 0 {
        let most = s.drop_last();
        lemma_filter_contains(most, pred, x);
        let kept = most.filter(pred);
        if s.contains(x) {
            let i = choose|i: int| 0 <= i < s.len() && s[i] == x;
            if i < most.len() {
                assert(most[i] == x);
            }
        }
        if most.contains(x) {
            let i = choose|i: int| 0 <= i < most.len() && most[i] == x;
            assert(s[i] == x);
        }
        assert(s.last() == s[s.len() - 1]);
        if pred(s.last()) {
            let more = kept.push(s.last());
            assert(more[kept.len() as int] == s.last());
            if kept.contains(x) {
                let i = choose|i: int| 0 <= i < kept.len() && kept[i] == x;
                assert(more[i] == x);
            }
            if more.contains(x) {
                let i = choose|i: int| 0 <= i < more.len() && more[i] == x;
                if i < kept.len() {
                    assert(kept[i] == x);
                }
            }
        }
    }
}

/// Merging the layouts of another cache leaves what is buffered alone and, while the
/// cap leaves room, makes all of them known and forgets none; of those that were
/// known the count grows by the records decoded since the last merge.
pub proof fn lemma_merge(
    cache: CacheView,
    other: Map<KeyView, EntryView>,
    before: Map<KeyView, EntryView>,
    keys: Seq<KeyView>,
    k: KeyView,
)
    requires
        cache.entries.dom().finite(),
        ascending(keys),
        cache.entries.dom().union(keys.to_set()).len() <= cache.cap_entries,
    ensures
        ({
            let after = cache.merged(other, before, keys);
            &&& after.pending == cache.pending
            &&& after.cap_entries == cache.cap_entries
            &&& after.entries.dom() == cache.entries.dom().union(keys.to_set())
            &&& keys.contains(k) ==> layout(after.entries[k]) == layout(other[k])
                && after.entries[k].last_seen == other[k].last_seen
                && after.entries[k].use_count == match cache.lookup(k) {
                Some(e) => e.use_count.wrapping_add(records_since(other[k], before, k)),
                None => other[k].use_count,
            }
            &&& !keys.contains(k) ==> after.lookup(k) == cache.lookup(k)
        }),
    decreases keys.len(),
{
    if keys.len() == 0 {
        assert(cache.entries.dom().union(keys.to_set()) =~= cache.entries.dom());
    } else {
        let rest = keys.drop_first();
        let all = cache.entries.dom().union(keys.to_set());
        let grown = cache.entries.insert(
            keys[0],
            redefined(cache.lookup(keys[0]), other[keys[0]]),
        );
        let first = cache.mirrored(
            keys[0],
            other[keys[0]],
            records_since(other[keys[0]], before, keys[0]),
        );
        assert(keys.contains(keys[0]));
        assert(all.finite()) by {
            vstd::seq_lib::seq_to_set_is_finite(keys);
        }
        assert(grown.dom() =~= cache.entries.dom().insert(keys[0]));
        assert(grown.dom().subset_of(all));
        vstd::set_lib::lemma_len_subset(grown.dom(), all);
        lemma_no_eviction(grown, cache.cap_entries as nat);
        assert(first.entries.dom() =~= grown.dom());
        assert forall|i: int, j: int| 0 <= i < j < rest.len() implies crate::keymap::key_lt(
            #[trigger] rest[i],
            #[trigger] rest[j],
        ) by {
            assert(rest[i] == keys[i + 1]);
            assert(rest[j] == keys[j + 1]);
        }
        assert forall|x: KeyView| keys.contains(x) implies x == keys[0] || rest.contains(x) by {
            let j = choose|j: int| 0 <= j < keys.len() && keys[j] == x;
            if j > 0 {
                assert(rest[j - 1] == x);
            }
        }
        assert forall|x: KeyView| rest.contains(x) implies keys.contains(x) && x != keys[0] by {
            let j = choose|j: int| 0 <= j < rest.len() && rest[j] == x;
            assert(keys[j + 1] == x);
            lemma_key_lt_order(keys[0], keys[j + 1], keys[0]);
        }
        assert(first.entries.dom().union(rest.to_set()) =~= all);
        lemma_merge(first, other, before, rest, k);
    }
}

/// A cache that was written down as pairs can be read back: whatever pairs describe
/// a cache, the buffered bytes that they add up to can be counted.
pub proof fn lemma_written_cache_reads_back(cache: TemplateCache, dto: CacheDto)
    requires
        cache.wf(),
        dto.cache() == cache@,
    ensures
        crate::cache::total_bytes(dto.cache().pending) <= u32::MAX,
{
    cache.lemma_wf();
}

} // verus!
