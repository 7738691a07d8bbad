//! The template cache.
//!
//! v9/IPFIX Data Sets carry only a template id; the Template Set that defines
//! the field layout arrives out-of-band, often in an earlier datagram. The cache
//! is the durable memory of templates seen so far, keyed
//! `(exporter, obs_domain, template_id)`, plus a bounded buffer of data records
//! that arrived before their template. It is plain owned data, so it can be
//! written out between scan batches and read back losslessly.

use vstd::prelude::*;

use crate::keymap::{
    ascending, key_lt, lemma_key_lt_order, lemma_lists, lemma_map_of_finite, lemma_map_of_pairs,
    lemma_map_of_view, lemma_ordered_keys, lists, map_of, ordered_keys, pairs, pairs_view, KeyMap,
};
use crate::text::views;

verus! {

broadcast use crate::text::lemma_views_push;

/// Default cap on cached template layouts (LRU-evicted past this).
pub const DEFAULT_CAP_ENTRIES: u32 = 100_000;

/// Default cap on buffered pending-record bytes (per cache).
pub const DEFAULT_CAP_PENDING_BYTES: u32 = 4 * 1024 * 1024;

/// Whether a template describes data records or options (exporter metadata).
#[derive(Clone, Copy, Debug, PartialEq, Eq, Structural)]
pub enum TemplateKind {
    Data,
    Options,
}

impl TemplateKind {
    /// The kind's label.
    pub open spec fn label(self) -> Seq<char> {
        match self {
            TemplateKind::Data => "data"@,
            TemplateKind::Options => "options"@,
        }
    }

    /// The kind's label.
    pub fn as_str(self) -> (r: &'static str)
        ensures
            r@ == self.label(),
    {
        match self {
            TemplateKind::Data => "data",
            TemplateKind::Options => "options",
        }
    }
}

/// One field in a template layout (RFC 7011 §3.2 Field Specifier).
#[derive(Debug, PartialEq, Eq)]
pub struct FieldSpec {
    pub ie_id: u16,
    /// `0` for a standard IANA element, else the Private Enterprise Number.
    pub enterprise_number: u32,
    /// Declared length in bytes; `0xFFFF` marks a variable-length IPFIX element.
    pub length: u16,
    /// Resolved element name (or `e<PEN>id<n>` / `id<n>` when unknown).
    pub name: String,
    /// Resolved abstract-data-type label (or `octetArray` when unknown).
    pub ie_type: String,
}

/// What a field specifier holds.
#[verifier::ext_equal]
pub struct FieldView {
    pub ie_id: u16,
    pub enterprise_number: u32,
    pub length: u16,
    pub name: Seq<char>,
    pub ie_type: Seq<char>,
}

impl View for FieldSpec {
    type V = FieldView;

    open spec fn view(&self) -> FieldView {
        FieldView {
            ie_id: self.ie_id,
            enterprise_number: self.enterprise_number,
            length: self.length,
            name: self.name@,
            ie_type: self.ie_type@,
        }
    }
}

impl Clone for FieldSpec {
    fn clone(&self) -> (r: Self)
        ensures
            r@ == self@,
    {
        FieldSpec {
            ie_id: self.ie_id,
            enterprise_number: self.enterprise_number,
            length: self.length,
            name: self.name.clone(),
            ie_type: self.ie_type.clone(),
        }
    }
}

impl FieldSpec {
    /// `true` when this is a variable-length IPFIX element (`length == 0xFFFF`).
    pub fn is_variable(&self) -> (r: bool)
        ensures
            r == (self@.length == 0xFFFF),
    {
        self.length == 0xFFFF
    }
}

/// Cache key: all three components are required. Two exporters legitimately
/// reuse template id 256 for different layouts, and one exporter subdivides its
/// template-id space by observation domain.
#[derive(Debug, PartialOrd, Ord, PartialEq, Eq)]
pub struct TemplateKey {
    pub exporter: String,
    pub obs_domain: u32,
    pub template_id: u16,
}

/// What a template key holds.
#[verifier::ext_equal]
pub struct KeyView {
    pub exporter: Seq<char>,
    pub obs_domain: u32,
    pub template_id: u16,
}

impl View for TemplateKey {
    type V = KeyView;

    open spec fn view(&self) -> KeyView {
        KeyView {
            exporter: self.exporter@,
            obs_domain: self.obs_domain,
            template_id: self.template_id,
        }
    }
}

impl Clone for TemplateKey {
    fn clone(&self) -> (r: Self)
        ensures
            r@ == self@,
    {
        TemplateKey {
            exporter: self.exporter.clone(),
            obs_domain: self.obs_domain,
            template_id: self.template_id,
        }
    }
}

/// A cached template layout.
#[derive(Debug, PartialEq, Eq)]
pub struct TemplateEntry {
    pub kind: TemplateKind,
    pub fields: Vec<FieldSpec>,
    /// Number of leading scope fields (Options templates); `0` for Data.
    pub scope_field_count: u16,
    pub first_seen: i64,
    pub last_seen: i64,
    pub use_count: u64,
}

/// What a cached layout holds.
#[verifier::ext_equal]
pub struct EntryView {
    pub kind: TemplateKind,
    pub fields: Seq<FieldView>,
    pub scope_field_count: u16,
    pub first_seen: i64,
    pub last_seen: i64,
    pub use_count: u64,
}

impl View for TemplateEntry {
    type V = EntryView;

    open spec fn view(&self) -> EntryView {
        EntryView {
            kind: self.kind,
            fields: views(self.fields@),
            scope_field_count: self.scope_field_count,
            first_seen: self.first_seen,
            last_seen: self.last_seen,
            use_count: self.use_count,
        }
    }
}

impl Clone for TemplateEntry {
    fn clone(&self) -> (r: Self)
        ensures
            r@ == self@,
    {
        let fields = self.fields.clone();
        assert(views(fields@) =~= views(self.fields@));
        TemplateEntry {
            kind: self.kind,
            fields,
            scope_field_count: self.scope_field_count,
            first_seen: self.first_seen,
            last_seen: self.last_seen,
            use_count: self.use_count,
        }
    }
}

/// A Data Set buffered because its template had not yet been seen. Carries the
/// header context needed to decode it once the template arrives in a later
/// datagram or scan batch.
#[derive(Debug, PartialEq, Eq)]
pub struct PendingRecord {
    pub export_time: Option<i64>,
    pub sequence: Option<u64>,
    /// `"9"` or `"10"`: selects the time-resolution rule on retry.
    pub version: String,
    /// v9 header sysUptime in milliseconds (None for IPFIX).
    pub sys_uptime_ms: Option<u64>,
    /// The raw Data Set payload region (all records for this set).
    pub bytes: Vec<u8>,
}

/// What a buffered Data Set holds.
#[verifier::ext_equal]
pub struct PendingView {
    pub export_time: Option<i64>,
    pub sequence: Option<u64>,
    pub version: Seq<char>,
    pub sys_uptime_ms: Option<u64>,
    pub bytes: Seq<u8>,
}

impl View for PendingRecord {
    type V = PendingView;

    open spec fn view(&self) -> PendingView {
        PendingView {
            export_time: self.export_time,
            sequence: self.sequence,
            version: self.version@,
            sys_uptime_ms: self.sys_uptime_ms,
            bytes: self.bytes@,
        }
    }
}

impl Clone for PendingRecord {
    fn clone(&self) -> (r: Self)
        ensures
            r@ == self@,
    {
        let bytes = self.bytes.clone();
        assert(bytes@ =~= self.bytes@);
        PendingRecord {
            export_time: self.export_time,
            sequence: self.sequence,
            version: self.version.clone(),
            sys_uptime_ms: self.sys_uptime_ms,
            bytes,
        }
    }
}

/// What a template cache holds.
#[verifier::ext_equal]
pub struct CacheView {
    pub entries: Map<KeyView, EntryView>,
    pub pending: Map<KeyView, Seq<PendingView>>,
    pub cap_entries: u32,
    pub cap_pending_bytes: u32,
}

/// The payload bytes of buffered Data Sets.
pub open spec fn list_bytes(recs: Seq<PendingView>) -> nat
    decreases recs.len(),
{
    if recs.len() == 0 {
        0
    } else {
        list_bytes(recs.drop_last()) + recs.last().bytes.len()
    }
}

/// The payload bytes buffered under some keys.
pub open spec fn keys_bytes(pending: Map<KeyView, Seq<PendingView>>, keys: Seq<KeyView>) -> nat
    decreases keys.len(),
{
    if keys.len() == 0 {
        0
    } else {
        keys_bytes(pending, keys.drop_last()) + list_bytes(pending[keys.last()])
    }
}

/// All the payload bytes that are buffered.
pub open spec fn total_bytes(pending: Map<KeyView, Seq<PendingView>>) -> nat {
    keys_bytes(pending, ordered_keys(pending.dom()))
}

/// Pushing a Data Set adds its bytes.
pub proof fn lemma_list_bytes_push(recs: Seq<PendingView>, r: PendingView)
    ensures
        list_bytes(recs.push(r)) == list_bytes(recs) + r.bytes.len(),
{
    assert(recs.push(r).drop_last() =~= recs);
}

/// What is buffered under other keys does not matter.
proof fn lemma_keys_bytes_same(
    a: Map<KeyView, Seq<PendingView>>,
    b: Map<KeyView, Seq<PendingView>>,
    keys: Seq<KeyView>,
)
    requires
        forall|i: int| 0 <= i < keys.len() ==> a[#[trigger] keys[i]] == b[keys[i]],
    ensures
        keys_bytes(a, keys) == keys_bytes(b, keys),
    decreases keys.len(),
{
    if keys.len() > 0 {
        assert forall|i: int| 0 <= i < keys.drop_last().len() implies a[#[trigger] keys.drop_last()[i]]
            == b[keys.drop_last()[i]] by {
            assert(keys[i] == keys.drop_last()[i]);
        }
        assert(a[keys[keys.len() - 1]] == b[keys[keys.len() - 1]]);
        lemma_keys_bytes_same(a, b, keys.drop_last());
    }
}

/// One key's share can be taken out of the sum.
proof fn lemma_keys_bytes_remove(pending: Map<KeyView, Seq<PendingView>>, keys: Seq<KeyView>, i: int)
    requires
        0 <= i < keys.len(),
    ensures
        keys_bytes(pending, keys) == keys_bytes(pending, keys.remove(i)) + list_bytes(
            pending[keys[i]],
        ),
    decreases keys.len(),
{
    if i == keys.len() - 1 {
        assert(keys.remove(i) =~= keys.drop_last());
    } else {
        lemma_keys_bytes_remove(pending, keys.drop_last(), i);
        assert(keys.remove(i).drop_last() =~= keys.drop_last().remove(i));
        assert(keys.remove(i).last() == keys.last());
    }
}

/// The bytes under one key and those under the others add up to the total.
pub proof fn lemma_total_bytes_remove(pending: Map<KeyView, Seq<PendingView>>, k: KeyView)
    requires
        pending.dom().finite(),
        pending.dom().contains(k),
    ensures
        total_bytes(pending) == total_bytes(pending.remove(k)) + list_bytes(pending[k]),
{
    lemma_ordered_keys(pending.dom());
    let keys = ordered_keys(pending.dom());
    assert(keys.contains(k));
    let i = choose|i: int| 0 <= i < keys.len() && keys[i] == k;
    lemma_keys_bytes_remove(pending, keys, i);
    let rest = keys.remove(i);
    assert(lists(rest, pending.remove(k).dom())) by {
        assert forall|a: int, b: int| 0 <= a < b < rest.len() implies key_lt(
            #[trigger] rest[a],
            #[trigger] rest[b],
        ) by {
            assert(rest[a] == keys[if a < i { a } else { a + 1 }]);
            assert(rest[b] == keys[if b < i { b } else { b + 1 }]);
        }
        assert forall|x: KeyView| #[trigger] pending.remove(k).dom().contains(x) <==> rest.contains(x) by {
            if rest.contains(x) {
                let j = choose|j: int| 0 <= j < rest.len() && rest[j] == x;
                let p = if j < i { j } else { j + 1 };
                assert(keys[p] == x);
                assert(keys.contains(x));
                lemma_key_lt_order(keys[p], keys[i], x);
                lemma_key_lt_order(keys[i], keys[p], x);
            }
            if keys.contains(x) && x != k {
                let j = choose|j: int| 0 <= j < keys.len() && keys[j] == x;
                assert(rest[if j < i { j } else { j - 1 }] == x);
            }
        }
    }
    lemma_lists(rest, pending.remove(k).dom());
    assert forall|j: int| 0 <= j < rest.len() implies pending[#[trigger] rest[j]]
        == pending.remove(k)[rest[j]] by {
        assert(rest.contains(rest[j]));
        assert(pending.remove(k).dom().contains(rest[j]));
    }
    lemma_keys_bytes_same(pending, pending.remove(k), rest);
}

/// What is buffered under a new key adds to the total.
pub proof fn lemma_total_bytes_insert(
    pending: Map<KeyView, Seq<PendingView>>,
    k: KeyView,
    recs: Seq<PendingView>,
)
    requires
        pending.dom().finite(),
    ensures
        total_bytes(pending.insert(k, recs)) == list_bytes(recs) + total_bytes(pending.remove(k)),
        pending.dom().contains(k) ==> total_bytes(pending) == list_bytes(pending[k]) + total_bytes(
            pending.remove(k),
        ),
        !pending.dom().contains(k) ==> total_bytes(pending) == total_bytes(pending.remove(k)),
{
    lemma_total_bytes_remove(pending.insert(k, recs), k);
    assert(pending.insert(k, recs).remove(k) =~= pending.remove(k));
    if pending.dom().contains(k) {
        lemma_total_bytes_remove(pending, k);
    } else {
        assert(pending.remove(k) =~= pending);
    }
}

/// Of two listings, the shorter sums to no more.
proof fn lemma_keys_bytes_take(pending: Map<KeyView, Seq<PendingView>>, keys: Seq<KeyView>, n: int)
    requires
        0 <= n <= keys.len(),
    ensures
        keys_bytes(pending, keys.take(n)) <= keys_bytes(pending, keys),
    decreases keys.len(),
{
    if n == keys.len() {
        assert(keys.take(n) =~= keys);
    } else {
        assert(keys.drop_last().take(n) =~= keys.take(n));
        lemma_keys_bytes_take(pending, keys.drop_last(), n);
    }
}

proof fn lemma_list_bytes_take(recs: Seq<PendingView>, n: int)
    requires
        0 <= n <= recs.len(),
    ensures
        list_bytes(recs.take(n)) <= list_bytes(recs),
    decreases recs.len(),
{
    if n == recs.len() {
        assert(recs.take(n) =~= recs);
    } else {
        assert(recs.drop_last().take(n) =~= recs.take(n));
        lemma_list_bytes_take(recs.drop_last(), n);
    }
}

/// Key `k` has the smallest `last_seen`, and is the first of those that do.
pub open spec fn is_victim(entries: Map<KeyView, EntryView>, k: KeyView) -> bool {
    &&& entries.dom().contains(k)
    &&& forall|x: KeyView| #[trigger]
        entries.dom().contains(x) ==> {
            ||| entries[k].last_seen < entries[x].last_seen
            ||| entries[k].last_seen == entries[x].last_seen && (k == x || key_lt(k, x))
        }
}

/// The entry to evict: the one least recently seen.
pub open spec fn victim(entries: Map<KeyView, EntryView>) -> KeyView {
    choose|k: KeyView| is_victim(entries, k)
}

/// The entries that stay when at most `cap` may: the least recently seen leave.
pub open spec fn evicted(entries: Map<KeyView, EntryView>, cap: nat) -> Map<KeyView, EntryView>
    decreases entries.dom().len(),
{
    if entries.dom().finite() && entries.dom().len() > cap && is_victim(entries, victim(entries)) {
        evicted(entries.remove(victim(entries)), cap)
    } else {
        entries
    }
}

/// Only one key is the victim.
proof fn lemma_victim_unique(entries: Map<KeyView, EntryView>, k: KeyView)
    requires
        is_victim(entries, k),
    ensures
        victim(entries) == k,
{
    let v = victim(entries);
    lemma_key_lt_order(k, v, k);
}

/// Among finitely many entries there is a victim.
pub proof fn lemma_victim_exists(entries: Map<KeyView, EntryView>) -> (v: KeyView)
    requires
        entries.dom().finite(),
        entries.dom().len() > 0,
    ensures
        is_victim(entries, v),
        victim(entries) == v,
    decreases entries.dom().len(),
{
    let k = entries.dom().choose();
    let rest = entries.remove(k);
    if rest.dom().len() == 0 {
        assert forall|x: KeyView| #[trigger] entries.dom().contains(x) implies x == k by {
            if x != k {
                assert(rest.dom().contains(x));
            }
        }
        lemma_victim_unique(entries, k);
        k
    } else {
        let v = lemma_victim_exists(rest);
        let best = if entries[v].last_seen < entries[k].last_seen || (entries[v].last_seen
            == entries[k].last_seen && key_lt(v, k)) {
            v
        } else {
            k
        };
        assert(rest.dom().contains(v));
        lemma_key_lt_order(v, k, v);
        assert forall|x: KeyView| #[trigger] entries.dom().contains(x) implies {
            ||| entries[best].last_seen < entries[x].last_seen
            ||| entries[best].last_seen == entries[x].last_seen && (best == x || key_lt(best, x))
        } by {
            if x != k {
                assert(rest.dom().contains(x));
                lemma_key_lt_order(k, v, x);
            }
        }
        lemma_victim_unique(entries, best);
        best
    }
}

/// A layout that keeps the `first_seen` and `use_count` of the one it replaces.
pub open spec fn redefined(old: Option<EntryView>, new: EntryView) -> EntryView {
    match old {
        Some(o) => EntryView { first_seen: o.first_seen, use_count: o.use_count, ..new },
        None => new,
    }
}

/// A layout by which `n` more records were decoded.
pub open spec fn bumped(e: EntryView, now: i64, n: u64) -> EntryView {
    EntryView { use_count: e.use_count.wrapping_add(n), last_seen: now, ..e }
}

impl CacheView {
    /// The layout under a key.
    pub open spec fn lookup(self, k: KeyView) -> Option<EntryView> {
        if self.entries.dom().contains(k) {
            Some(self.entries[k])
        } else {
            None
        }
    }

    /// The cache after a template was learned.
    pub open spec fn upserted(self, k: KeyView, e: EntryView) -> CacheView {
        CacheView {
            entries: evicted(
                self.entries.insert(k, redefined(self.lookup(k), e)),
                self.cap_entries as nat,
            ),
            ..self
        }
    }

    /// The cache after `n` records were decoded by a known template.
    pub open spec fn used(self, k: KeyView, now: i64, n: u64) -> CacheView {
        if self.entries.dom().contains(k) {
            CacheView { entries: self.entries.insert(k, bumped(self.entries[k], now, n)), ..self }
        } else {
            self
        }
    }

    /// The Data Sets buffered under a key, in arrival order.
    pub open spec fn waiting(self, k: KeyView) -> Seq<PendingView> {
        if self.pending.dom().contains(k) {
            self.pending[k]
        } else {
            Seq::empty()
        }
    }

    /// Whether the pending buffer has room for `n` more bytes.
    pub open spec fn has_room(self, n: nat) -> bool {
        total_bytes(self.pending) + n <= self.cap_pending_bytes
    }

    /// The cache after a Data Set was offered to the pending buffer.
    pub open spec fn buffered(self, k: KeyView, r: PendingView) -> CacheView {
        if self.has_room(r.bytes.len()) {
            CacheView { pending: self.pending.insert(k, self.waiting(k).push(r)), ..self }
        } else {
            self
        }
    }

    /// The cache without what was buffered under a key.
    pub open spec fn taken(self, k: KeyView) -> CacheView {
        CacheView { pending: self.pending.remove(k), ..self }
    }

    /// The cache with an empty pending buffer.
    pub open spec fn drained(self) -> CacheView {
        CacheView { pending: Map::empty(), ..self }
    }

    /// The cache after it learned a layout from another cache, by which `since`
    /// records were decoded that are not counted yet.
    pub open spec fn mirrored(self, k: KeyView, e: EntryView, since: u64) -> CacheView {
        let knows = self.upserted(k, e);
        if self.entries.dom().contains(k) {
            knows.used(k, e.last_seen, since)
        } else {
            knows
        }
    }

    /// The cache after it learned the layouts of `other` under `keys`, in order;
    /// `before` is what the other cache held when it was last merged.
    pub open spec fn merged(
        self,
        other: Map<KeyView, EntryView>,
        before: Map<KeyView, EntryView>,
        keys: Seq<KeyView>,
    ) -> CacheView
        decreases keys.len(),
    {
        if keys.len() == 0 {
            self
        } else {
            self.mirrored(
                keys[0],
                other[keys[0]],
                records_since(other[keys[0]], before, keys[0]),
            ).merged(other, before, keys.drop_first())
        }
    }
}

/// How many records were decoded by a layout since it stood in an earlier state: all
/// that it counts, if it was not known there or has been learned anew since.
pub open spec fn records_since(e: EntryView, before: Map<KeyView, EntryView>, k: KeyView) -> u64 {
    if before.dom().contains(k) && before[k].use_count <= e.use_count {
        (e.use_count - before[k].use_count) as u64
    } else {
        e.use_count
    }
}

/// The cache that knows nothing.
pub open spec fn empty_cache() -> CacheView {
    CacheView {
        entries: Map::empty(),
        pending: Map::empty(),
        cap_entries: DEFAULT_CAP_ENTRIES,
        cap_pending_bytes: DEFAULT_CAP_PENDING_BYTES,
    }
}

/// What pairs of key and layout hold.
pub open spec fn entry_pairs(ps: Seq<(TemplateKey, TemplateEntry)>) -> Seq<(KeyView, EntryView)> {
    pairs_view(ps, |e: TemplateEntry| e@)
}

/// What pairs of key and buffered Data Sets hold.
pub open spec fn pending_pairs(ps: Seq<(TemplateKey, Vec<PendingRecord>)>) -> Seq<
    (KeyView, Seq<PendingView>),
> {
    pairs_view(ps, |v: Vec<PendingRecord>| views(v@))
}

/// Flattening of [`TemplateCache`] to arrays of key-value pairs, for formats
/// that cannot use structs as map keys.
#[derive(Debug, PartialEq)]
pub struct CacheDto {
    pub entries: Vec<(TemplateKey, TemplateEntry)>,
    pub pending: Vec<(TemplateKey, Vec<PendingRecord>)>,
    pub cap_entries: u32,
    pub cap_pending_bytes: u32,
}

impl CacheDto {
    /// The cache that the pairs describe.
    pub open spec fn cache(&self) -> CacheView {
        CacheView {
            entries: map_of(entry_pairs(self.entries@)),
            pending: map_of(pending_pairs(self.pending@)),
            cap_entries: self.cap_entries,
            cap_pending_bytes: self.cap_pending_bytes,
        }
    }
}

/// The cache after what was read from a token, if anything was.
pub open spec fn restored(read: Option<CacheView>) -> CacheView {
    match read {
        Some(c) => if total_bytes(c.pending) <= u32::MAX {
            c
        } else {
            empty_cache()
        },
        None => empty_cache(),
    }
}

/// The scan state: the template cache and nothing else.
#[derive(Clone, Debug)]
pub struct TemplateCache {
    pub entries: KeyMap<TemplateEntry>,
    pub pending: KeyMap<Vec<PendingRecord>>,
    pub cap_entries: u32,
    pub cap_pending_bytes: u32,
    /// Running total of buffered pending-record byte payloads.
    pending_bytes: u32,
}

/// What a map of layouts holds.
pub open spec fn entries_view(m: Map<KeyView, TemplateEntry>) -> Map<KeyView, EntryView> {
    m.map_values(|e: TemplateEntry| e@)
}

/// What a map of buffered Data Sets holds.
pub open spec fn pending_view(m: Map<KeyView, Vec<PendingRecord>>) -> Map<
    KeyView,
    Seq<PendingView>,
> {
    m.map_values(|v: Vec<PendingRecord>| views(v@))
}

impl View for TemplateCache {
    type V = CacheView;

    closed spec fn view(&self) -> CacheView {
        CacheView {
            entries: entries_view(self.entries@),
            pending: pending_view(self.pending@),
            cap_entries: self.cap_entries,
            cap_pending_bytes: self.cap_pending_bytes,
        }
    }
}

impl Default for TemplateCache {
    fn default() -> (r: Self)
        ensures
            r.wf(),
            r@ == empty_cache(),
    {
        let r = TemplateCache {
            entries: KeyMap::new(),
            pending: KeyMap::new(),
            cap_entries: DEFAULT_CAP_ENTRIES,
            cap_pending_bytes: DEFAULT_CAP_PENDING_BYTES,
            pending_bytes: 0,
        };
        proof {
            assert(r@ =~= empty_cache());
            assert(lists(Seq::<KeyView>::empty(), Set::empty()));
            lemma_lists(Seq::<KeyView>::empty(), Set::empty());
            assert(r@.pending.dom() =~= Set::empty());
        }
        r
    }
}

impl TemplateCache {
    /// The maps are sorted, and the running total is the number of payload bytes
    /// that are buffered.
    pub closed spec fn wf(&self) -> bool {
        &&& self.entries.wf()
        &&& self.pending.wf()
        &&& self@.entries.dom().finite()
        &&& self@.pending.dom().finite()
        &&& self.pending_bytes == total_bytes(self@.pending)
    }

    /// What holds of the contents of every well-formed cache.
    pub proof fn lemma_wf(&self)
        requires
            self.wf(),
        ensures
            self@.entries.dom().finite(),
            self@.pending.dom().finite(),
            total_bytes(self@.pending) <= u32::MAX,
    {
    }

    /// A cache that knows nothing.
    pub fn new() -> (r: Self)
        ensures
            r.wf(),
            r@ == empty_cache(),
    {
        Self::default()
    }

    /// Set how many layouts may be cached and how many bytes may be buffered. What
    /// is there stays until the next layout or Data Set comes.
    pub fn set_caps(&mut self, cap_entries: u32, cap_pending_bytes: u32)
        requires
            old(self).wf(),
        ensures
            final(self).wf(),
            final(self)@ == (CacheView { cap_entries, cap_pending_bytes, ..old(self)@ }),
    {
        let ghost before = *self;
        self.cap_entries = cap_entries;
        self.cap_pending_bytes = cap_pending_bytes;
        assert(self@.pending == before@.pending);
    }

    /// Insert or replace a template layout. A redefinition of an existing id
    /// replaces the old layout (exporters legitimately redefine ids) and
    /// preserves `first_seen` / `use_count`. Enforces the LRU entry cap.
    pub fn upsert(&mut self, key: TemplateKey, entry: TemplateEntry)
        requires
            old(self).wf(),
        ensures
            final(self).wf(),
            final(self)@ == old(self)@.upserted(key@, entry@),
    {
        let ghost before = *self;
        let mut entry = entry;
        match self.entries.get(&key) {
            Some(old_entry) => {
                entry.first_seen = old_entry.first_seen;
                entry.use_count = old_entry.use_count;
            },
            None => {},
        }
        self.entries.insert(key, entry);
        proof {
            assert(self@.entries =~= before@.entries.insert(key@, entry@));
            assert(self@.pending == before@.pending);
        }
        self.evict_if_needed();
    }

    /// The key of the entry least recently seen.
    fn find_victim(&self) -> (r: TemplateKey)
        requires
            self.entries.wf(),
            self@.entries.dom().len() > 0,
        ensures
            is_victim(self@.entries, r@),
            victim(self@.entries) == r@,
    {
        let ghost m = self@.entries;
        let ghost keys = ordered_keys(m.dom());
        proof {
            assert(m.dom() =~= self.entries@.dom());
        }
        let n: usize = self.entries.len();
        proof {
            lemma_ordered_keys(m.dom());
        }
        let mut best: usize = 0;
        let mut i: usize = 1;
        while i < n
            invariant
                self.entries.wf(),
                m == self@.entries,
                m.dom() == self.entries@.dom(),
                keys == ordered_keys(m.dom()),
                lists(keys, m.dom()),
                n == keys.len(),
                best < i <= n,
                forall|j: int|
                    0 <= j < i ==> m[keys[best as int]].last_seen <= m[#[trigger] keys[j]].last_seen,
                forall|j: int|
                    0 <= j < best ==> m[keys[best as int]].last_seen < m[#[trigger] keys[j]].last_seen,
            decreases n - i,
        {
            let (ki, ei) = self.entries.at(i);
            let (kb, eb) = self.entries.at(best);
            assert(m[ki@].last_seen == ei.last_seen);
            assert(m[kb@].last_seen == eb.last_seen);
            if ei.last_seen < eb.last_seen {
                best = i;
            }
            i = i + 1;
        }
        let (kb, _) = self.entries.at(best);
        proof {
            assert forall|x: KeyView| #[trigger] m.dom().contains(x) implies {
                ||| m[kb@].last_seen < m[x].last_seen
                ||| m[kb@].last_seen == m[x].last_seen && (kb@ == x || key_lt(kb@, x))
            } by {
                assert(keys.contains(x));
                let j = choose|j: int| 0 <= j < keys.len() && keys[j] == x;
            }
            assert(is_victim(m, kb@));
            lemma_victim_unique(m, kb@);
        }
        kb.clone()
    }

    /// Evict the least-recently-seen entries while over the cap.
    fn evict_if_needed(&mut self)
        requires
            old(self).wf(),
        ensures
            final(self).wf(),
            final(self)@ == (CacheView {
                entries: evicted(old(self)@.entries, old(self)@.cap_entries as nat),
                ..old(self)@
            }),
    {
        let ghost before = *self;
        while self.entries.len() > self.cap_entries as usize
            invariant
                self.wf(),
                self@.pending == before@.pending,
                self@.cap_entries == before@.cap_entries,
                self@.cap_pending_bytes == before@.cap_pending_bytes,
                evicted(self@.entries, self@.cap_entries as nat) == evicted(
                    before@.entries,
                    before@.cap_entries as nat,
                ),
            decreases self@.entries.dom().len(),
        {
            let ghost m = self@.entries;
            assert(m.dom() =~= self.entries@.dom());
            let k = self.find_victim();
            let _ = self.entries.remove(&k);
            proof {
                assert(self@.entries =~= m.remove(k@));
                assert(self@.pending =~= before@.pending);
            }
        }
        assert(self@.entries.dom() =~= self.entries@.dom());
    }

    /// Look up a template layout for one record and bump its `use_count` /
    /// `last_seen`.
    pub fn use_template(&mut self, key: &TemplateKey, now: i64) -> (r: Option<TemplateEntry>)
        requires
            old(self).wf(),
        ensures
            final(self).wf(),
            final(self)@ == old(self)@.used(key@, now, 1),
            crate::text::opt_view(r) == final(self)@.lookup(key@),
    {
        self.count_records(key, now, 1);
        match self.entries.get(key) {
            Some(e) => Some(e.clone()),
            None => None,
        }
    }

    /// Bump the `use_count` / `last_seen` of a known template by which `n` records
    /// were decoded.
    pub fn count_records(&mut self, key: &TemplateKey, now: i64, n: u64)
        requires
            old(self).wf(),
        ensures
            final(self).wf(),
            final(self)@ == old(self)@.used(key@, now, n),
    {
        let ghost before = *self;
        let found = match self.entries.get(key) {
            Some(e) => Some(e.clone()),
            None => None,
        };
        if let Some(mut e) = found {
            e.use_count = e.use_count.wrapping_add(n);
            e.last_seen = now;
            let ghost bumped_entry = e@;
            self.entries.insert(key.clone(), e);
            proof {
                assert(self@.entries =~= before@.entries.insert(key@, bumped_entry));
                assert(self@.pending == before@.pending);
                assert(self@ =~= before@.used(key@, now, n));
            }
        }
    }

    /// Read a template layout without mutating its stats.
    pub fn peek(&self, key: &TemplateKey) -> (r: Option<&TemplateEntry>)
        requires
            self.wf(),
        ensures
            match r {
                Some(e) => self@.lookup(key@) == Some(e@),
                None => self@.lookup(key@) is None,
            },
    {
        self.entries.get(key)
    }

    /// Buffer a data record awaiting its template. Returns `false` (and does not
    /// store) when the bounded pending buffer is full; the caller then emits the
    /// record as a `missing-template` diagnostic immediately rather than dropping
    /// it silently.
    pub fn push_pending(&mut self, key: TemplateKey, rec: PendingRecord) -> (r: bool)
        requires
            old(self).wf(),
        ensures
            final(self).wf(),
            final(self)@ == old(self)@.buffered(key@, rec@),
            r == old(self)@.has_room(rec@.bytes.len()),
    {
        let ghost before = *self;
        let cost: usize = rec.bytes.len();
        if self.pending_bytes > self.cap_pending_bytes || cost > (self.cap_pending_bytes
            - self.pending_bytes) as usize {
            return false;
        }
        let taken = self.pending.remove(&key);
        let mut list: Vec<PendingRecord> = match taken {
            Some(l) => l,
            None => Vec::new(),
        };
        proof {
            assert(views(list@) =~= before@.waiting(key@));
            lemma_list_bytes_push(before@.waiting(key@), rec@);
            lemma_total_bytes_insert(before@.pending, key@, before@.waiting(key@).push(rec@));
            assert(list_bytes(Seq::<PendingView>::empty()) == 0);
        }
        list.push(rec);
        self.pending_bytes = self.pending_bytes + cost as u32;
        self.pending.insert(key, list);
        proof {
            assert(self@.pending =~= before@.pending.insert(
                key@,
                before@.waiting(key@).push(rec@),
            ));
            assert(self@.entries == before@.entries);
        }
        true
    }

    /// Remove and return any buffered records for a key (called when its template
    /// has just been learned, to retry decode).
    pub fn take_pending(&mut self, key: &TemplateKey) -> (r: Vec<PendingRecord>)
        requires
            old(self).wf(),
        ensures
            final(self).wf(),
            final(self)@ == old(self)@.taken(key@),
            views(r@) == old(self)@.waiting(key@),
    {
        let ghost before = *self;
        let recs: Vec<PendingRecord> = match self.pending.remove(key) {
            Some(l) => l,
            None => Vec::new(),
        };
        proof {
            assert(self@.pending =~= before@.pending.remove(key@));
            assert(views(recs@) =~= before@.waiting(key@));
            if before@.pending.dom().contains(key@) {
                lemma_total_bytes_remove(before@.pending, key@);
            } else {
                assert(before@.pending.remove(key@) =~= before@.pending);
            }
            assert(list_bytes(Seq::<PendingView>::empty()) == 0);
        }
        let freed: u32 = records_bytes(&recs);
        self.pending_bytes = self.pending_bytes - freed;
        recs
    }

    /// Keys with at least one buffered pending record (for retry scans), in order.
    pub fn pending_keys(&self) -> (r: Vec<TemplateKey>)
        requires
            self.wf(),
        ensures
            views(r@) == ordered_keys(self@.pending.dom()),
            ascending(views(r@)),
            forall|k: KeyView| #[trigger]
                views(r@).contains(k) <==> self@.pending.dom().contains(k),
    {
        proof {
            lemma_ordered_keys(self@.pending.dom());
        }
        assert(self@.pending.dom() =~= self.pending@.dom());
        let n: usize = self.pending.len();
        let mut r: Vec<TemplateKey> = Vec::new();
        let mut i: usize = 0;
        while i < n
            invariant
                self.wf(),
                self@.pending.dom() == self.pending@.dom(),
                n == ordered_keys(self@.pending.dom()).len(),
                i <= n,
                views(r@) == ordered_keys(self@.pending.dom()).take(i as int),
            decreases n - i,
        {
            let (k, _) = self.pending.at(i);
            r.push(k.clone());
            i = i + 1;
            assert(ordered_keys(self@.pending.dom()).take(i as int) =~= ordered_keys(
                self@.pending.dom(),
            ).take(i - 1).push(k@));
        }
        assert(views(r@) =~= ordered_keys(self@.pending.dom()));
        r
    }

    /// Drain every remaining pending record (end-of-scan flush). The caller emits
    /// each as a `missing-template` diagnostic row.
    pub fn drain_pending(&mut self) -> (r: Vec<(TemplateKey, Vec<PendingRecord>)>)
        requires
            old(self).wf(),
        ensures
            final(self).wf(),
            final(self)@ == old(self)@.drained(),
            pending_pairs(r@) == pairs(old(self)@.pending),
    {
        let ghost before = *self;
        let mut drained: KeyMap<Vec<PendingRecord>> = KeyMap::new();
        core::mem::swap(&mut drained, &mut self.pending);
        self.pending_bytes = 0;
        proof {
            assert(self@.pending =~= Map::empty());
            assert(self@ =~= before@.drained());
            assert(lists(Seq::<KeyView>::empty(), Set::empty()));
            lemma_lists(Seq::<KeyView>::empty(), Set::empty());
            assert(self@.pending.dom() =~= Set::empty());
            assert(drained@.dom() =~= before@.pending.dom());
        }
        let r = drained.into_entries();
        assert(pending_pairs(r@) =~= pairs(before@.pending));
        r
    }

    /// `true` when nothing is buffered.
    pub fn pending_is_empty(&self) -> (r: bool)
        requires
            self.wf(),
        ensures
            r == (self@.pending == Map::<KeyView, Seq<PendingView>>::empty()),
    {
        proof {
            assert(self@.pending.dom() =~= self.pending@.dom());
            if self@.pending == Map::<KeyView, Seq<PendingView>>::empty() {
                assert(self.pending@ =~= Map::<KeyView, Vec<PendingRecord>>::empty());
            }
            if self.pending@ == Map::<KeyView, Vec<PendingRecord>>::empty() {
                assert(self@.pending =~= Map::<KeyView, Seq<PendingView>>::empty());
            }
        }
        self.pending.is_empty()
    }

    /// The number of cached layouts.
    pub fn entry_count(&self) -> (n: usize)
        requires
            self.wf(),
        ensures
            n == ordered_keys(self@.entries.dom()).len(),
            n == self@.entries.dom().len(),
    {
        assert(self@.entries.dom() =~= self.entries@.dom());
        self.entries.len()
    }

    /// The `i`th cached layout in key order.
    pub fn entry_at(&self, i: usize) -> (r: (&TemplateKey, &TemplateEntry))
        requires
            self.wf(),
            i < ordered_keys(self@.entries.dom()).len(),
        ensures
            (r.0@, r.1@) == pairs(self@.entries)[i as int],
            r.0@ == ordered_keys(self@.entries.dom())[i as int],
            self@.lookup(r.0@) == Some(r.1@),
    {
        assert(self@.entries.dom() =~= self.entries@.dom());
        self.entries.at(i)
    }

    /// Learn a layout from another cache, by which `since` records were decoded that
    /// are not counted yet.
    fn mirror(&mut self, key: &TemplateKey, entry: &TemplateEntry, since: u64)
        requires
            old(self).wf(),
        ensures
            final(self).wf(),
            final(self)@ == old(self)@.mirrored(key@, entry@, since),
    {
        let known = self.peek(key).is_some();
        self.upsert(key.clone(), entry.clone());
        if known {
            self.count_records(key, entry.last_seen, since);
        }
    }

    /// Learn every layout that another cache knows, in its key order, and count the
    /// records that were decoded by them since the other cache was last merged;
    /// `before` is what it was then.
    pub fn merge_templates(&mut self, other: &TemplateCache, before: &TemplateCache)
        requires
            old(self).wf(),
            other.wf(),
            before.wf(),
        ensures
            final(self).wf(),
            final(self)@ == old(self)@.merged(
                other@.entries,
                before@.entries,
                ordered_keys(other@.entries.dom()),
            ),
    {
        let ghost keys = ordered_keys(other@.entries.dom());
        let n: usize = other.entry_count();
        let mut i: usize = 0;
        assert(keys.skip(0) =~= keys);
        while i < n
            invariant
                self.wf(),
                other.wf(),
                before.wf(),
                keys == ordered_keys(other@.entries.dom()),
                n == keys.len(),
                i <= n,
                self@.merged(other@.entries, before@.entries, keys.skip(i as int)) == old(
                    self,
                )@.merged(other@.entries, before@.entries, keys),
            decreases n - i,
        {
            let (k, e) = other.entry_at(i);
            assert(keys.skip(i as int).drop_first() =~= keys.skip(i + 1));
            let since: u64 = match before.peek(k) {
                Some(b) if b.use_count <= e.use_count => e.use_count - b.use_count,
                _ => e.use_count,
            };
            self.mirror(k, e, since);
            i = i + 1;
        }
    }

    /// The cache as arrays of pairs, in key order.
    pub fn to_dto(&self) -> (r: CacheDto)
        requires
            self.wf(),
        ensures
            entry_pairs(r.entries@) == pairs(self@.entries),
            pending_pairs(r.pending@) == pairs(self@.pending),
            r.cap_entries == self@.cap_entries,
            r.cap_pending_bytes == self@.cap_pending_bytes,
            r.cache() == self@,
    {
        proof {
            assert(self@.entries.dom() =~= self.entries@.dom());
            assert(self@.pending.dom() =~= self.pending@.dom());
        }
        let mut entries: Vec<(TemplateKey, TemplateEntry)> = Vec::new();
        let n: usize = self.entry_count();
        let mut i: usize = 0;
        while i < n
            invariant
                self.wf(),
                n == pairs(self@.entries).len(),
                i <= n,
                entry_pairs(entries@) == pairs(self@.entries).take(i as int),
            decreases n - i,
        {
            let (k, e) = self.entry_at(i);
            let ghost before = entry_pairs(entries@);
            entries.push((k.clone(), e.clone()));
            assert(entry_pairs(entries@) =~= before.push((k@, e@)));
            i = i + 1;
            assert(pairs(self@.entries).take(i as int) =~= pairs(self@.entries).take(i - 1).push(
                (k@, e@),
            ));
        }
        let mut pending: Vec<(TemplateKey, Vec<PendingRecord>)> = Vec::new();
        let m: usize = self.pending.len();
        let mut j: usize = 0;
        while j < m
            invariant
                self.wf(),
                self@.pending.dom() == self.pending@.dom(),
                m == pairs(self@.pending).len(),
                j <= m,
                pending_pairs(pending@) == pairs(self@.pending).take(j as int),
            decreases m - j,
        {
            let (k, v) = self.pending.at(j);
            let ghost before = pending_pairs(pending@);
            let copy = v.clone();
            assert(views(copy@) =~= views(v@));
            pending.push((k.clone(), copy));
            assert(pending_pairs(pending@) =~= before.push((k@, views(v@))));
            j = j + 1;
            assert(pairs(self@.pending).take(j as int) =~= pairs(self@.pending).take(j - 1).push(
                (k@, views(v@)),
            ));
        }
        proof {
            assert(entry_pairs(entries@) =~= pairs(self@.entries));
            assert(pending_pairs(pending@) =~= pairs(self@.pending));
            lemma_map_of_pairs(self@.entries);
            lemma_map_of_pairs(self@.pending);
        }
        CacheDto {
            entries,
            pending,
            cap_entries: self.cap_entries,
            cap_pending_bytes: self.cap_pending_bytes,
        }
    }

    /// The cache that arrays of pairs describe, or `None` where the buffered
    /// bytes are too many to count in 32 bits.
    pub fn from_dto(dto: CacheDto) -> (r: Option<Self>)
        ensures
            r is Some <==> total_bytes(dto.cache().pending) <= u32::MAX,
            r matches Some(c) ==> c.wf() && c@ == dto.cache(),
    {
        let ghost want = dto.cache();
        proof {
            lemma_map_of_view(dto.entries@, |e: TemplateEntry| e@);
            lemma_map_of_view(dto.pending@, |v: Vec<PendingRecord>| views(v@));
            lemma_map_of_finite(entry_pairs(dto.entries@));
            lemma_map_of_finite(pending_pairs(dto.pending@));
        }
        let entries = KeyMap::collect(dto.entries);
        let pending = KeyMap::collect(dto.pending);
        let mut c = TemplateCache {
            entries,
            pending,
            cap_entries: dto.cap_entries,
            cap_pending_bytes: dto.cap_pending_bytes,
            pending_bytes: 0,
        };
        assert(c@ =~= want);
        match c.count_pending() {
            Some(n) => {
                c.pending_bytes = n;
                Some(c)
            },
            None => None,
        }
    }

    /// The cache that was read back from a token: an empty or corrupt token, from
    /// which nothing was read, and one whose buffered bytes are too many to count,
    /// degrade to a fresh empty cache.
    pub fn restore(read: Option<CacheDto>) -> (r: Self)
        ensures
            r.wf(),
            r@ == restored(
                match read {
                    Some(dto) => Some(dto.cache()),
                    None => None,
                },
            ),
    {
        match read {
            Some(dto) => match Self::from_dto(dto) {
                Some(c) => c,
                None => Self::new(),
            },
            None => Self::new(),
        }
    }

    /// The payload bytes that are buffered, where they fit in 32 bits.
    fn count_pending(&self) -> (r: Option<u32>)
        requires
            self.pending.wf(),
        ensures
            r == (if total_bytes(self@.pending) <= u32::MAX {
                Some(total_bytes(self@.pending) as u32)
            } else {
                None
            }),
    {
        assert(self@.pending.dom() =~= self.pending@.dom());
        let ghost keys = ordered_keys(self@.pending.dom());
        let ghost all = self@.pending;
        let n: usize = self.pending.len();
        let mut sum: u32 = 0;
        let mut i: usize = 0;
        assert(keys.take(0) =~= Seq::<KeyView>::empty());
        while i < n
            invariant
                self.pending.wf(),
                all == self@.pending,
                all.dom() == self.pending@.dom(),
                keys == ordered_keys(all.dom()),
                n == keys.len(),
                i <= n,
                sum == keys_bytes(all, keys.take(i as int)),
            decreases n - i,
        {
            let (k, recs) = self.pending.at(i);
            let ghost list = views(recs@);
            proof {
                assert(all[keys[i as int]] == list);
                assert(keys.take(i + 1).drop_last() =~= keys.take(i as int));
                lemma_keys_bytes_take(all, keys, i + 1);
                assert(list.take(0) =~= Seq::<PendingView>::empty());
            }
            let ghost base = sum;
            let mut j: usize = 0;
            while j < recs.len()
                invariant
                    list == views(recs@),
                    base + list_bytes(list) <= keys_bytes(all, keys),
                    total_bytes(all) == keys_bytes(all, keys),
                    all == self@.pending,
                    j <= recs@.len(),
                    sum == base + list_bytes(list.take(j as int)),
                decreases recs.len() - j,
            {
                let len: usize = recs[j].bytes.len();
                proof {
                    assert(list.take(j + 1) =~= list.take(j as int).push(list[j as int]));
                    lemma_list_bytes_push(list.take(j as int), list[j as int]);
                    lemma_list_bytes_take(list, j + 1);
                }
                if len > (u32::MAX - sum) as usize {
                    return None;
                }
                sum = sum + len as u32;
                j = j + 1;
            }
            assert(list.take(j as int) =~= list);
            i = i + 1;
        }
        assert(keys.take(i as int) =~= keys);
        Some(sum)
    }
}

/// The payload bytes of buffered Data Sets.
fn records_bytes(recs: &Vec<PendingRecord>) -> (n: u32)
    requires
        list_bytes(views(recs@)) <= u32::MAX,
    ensures
        n == list_bytes(views(recs@)),
{
    let ghost all = views(recs@);
    let mut n: u32 = 0;
    let mut i: usize = 0;
    assert(all.take(0) =~= Seq::<PendingView>::empty());
    while i < recs.len()
        invariant
            all == views(recs@),
            list_bytes(all) <= u32::MAX,
            i <= recs@.len(),
            n == list_bytes(all.take(i as int)),
        decreases recs.len() - i,
    {
        proof {
            assert(all.take(i + 1) =~= all.take(i as int).push(all[i as int]));
            lemma_list_bytes_push(all.take(i as int), all[i as int]);
            lemma_list_bytes_take(all, i + 1);
        }
        n = n + recs[i].bytes.len() as u32;
        i = i + 1;
    }
    assert(all.take(i as int) =~= all);
    n
}

} // verus!
