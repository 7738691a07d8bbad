//! Decode orchestration: version dispatch, per-datagram decode, cross-datagram
//! pending retry, and end-of-scan flush.
//!
//! The entry points ([`decode_datagram`], [`retry_pending`], [`flush_pending`])
//! thread the [`TemplateCache`], the externalized scan state, and never panic on
//! malformed input.

use vstd::prelude::*;

pub mod header;
pub mod ipfix;
pub mod record;
pub mod sets;
pub mod sflow;
pub mod v5;
pub mod v9;

use crate::cache::{
    CacheView, EntryView, KeyView, PendingRecord, PendingView, TemplateCache, TemplateEntry,
    TemplateKey,
};
use crate::keymap::{lemma_lists, lists, ordered_keys, pairs};
use crate::normalize::{diagnostic_row, FlowRecord, FlowView};
use crate::text::{same_text, views};
use header::{format_of, probe_format, Format};
use record::{count_records, data_set_rows, decode_data_set, records_in, Ctx, CtxView};
use sets::{missing_row, missing_template, one_row};

verus! {

broadcast use {crate::text::lemma_views_push, crate::text::lemma_views_add};

/// Output filtering mode (`flows()` `mode` argument).
#[derive(Clone, Copy, Debug, PartialEq, Eq, Structural)]
pub enum Mode {
    /// Decode everything (default); options + counter samples included.
    Auto,
    /// Drop sFlow counter samples and v9/IPFIX options records.
    FlowsOnly,
    /// Alias of `Auto`: emit every decodable record.
    All,
}

/// The mode of a label; `Auto` for every label that names no other.
pub open spec fn mode_of(s: Seq<char>) -> Mode {
    if s == "flows-only"@ {
        Mode::FlowsOnly
    } else if s == "all"@ {
        Mode::All
    } else {
        Mode::Auto
    }
}

impl Mode {
    /// The mode of a label.
    pub fn parse(s: &str) -> (r: Mode)
        ensures
            r == mode_of(s@),
    {
        if same_text(s, "flows-only") {
            Mode::FlowsOnly
        } else if same_text(s, "all") {
            Mode::All
        } else {
            Mode::Auto
        }
    }

    /// Whether only flows are wanted.
    pub fn flows_only(self) -> (r: bool)
        ensures
            r == (self == Mode::FlowsOnly),
    {
        self == Mode::FlowsOnly
    }
}

/// Which formats a decode entry point accepts. A datagram of a disallowed format
/// yields a `decode-error` diagnostic row (never a panic, never a drop).
#[derive(Clone, Copy, Debug, PartialEq, Eq, Structural)]
pub enum Restrict {
    /// `flows()`: accept all four formats.
    Any,
    /// `netflow_decode()`: v5 and v9 only.
    NetflowOnly,
    /// `ipfix_decode()`: IPFIX (v10) only.
    IpfixOnly,
    /// `sflow_decode()`: sFlow v5 only.
    SflowOnly,
}

impl Restrict {
    /// Whether a format is accepted.
    pub open spec fn admits(self, f: Format) -> bool {
        match self {
            Restrict::Any => true,
            Restrict::NetflowOnly => f == Format::V5 || f == Format::V9,
            Restrict::IpfixOnly => f == Format::Ipfix,
            Restrict::SflowOnly => f == Format::Sflow,
        }
    }

    /// Whether a format is accepted.
    pub fn accepts(self, f: Format) -> (r: bool)
        ensures
            r == self.admits(f),
    {
        match self {
            Restrict::Any => true,
            Restrict::NetflowOnly => f == Format::V5 || f == Format::V9,
            Restrict::IpfixOnly => f == Format::Ipfix,
            Restrict::SflowOnly => f == Format::Sflow,
        }
    }
}

/// Per-call decode options.
#[derive(Clone, Debug)]
pub struct DecodeOptions {
    /// Cache scope: the source device id. Empty = "default" (template ids may
    /// collide across exporters; supply this for multi-device lakes).
    pub exporter: String,
    /// Force the cache-key observation domain (overrides the datagram's).
    pub obs_domain_override: Option<u32>,
    pub mode: Mode,
    /// Wall-clock "now" in microseconds, stamped into template first/last-seen.
    pub now_micros: i64,
}

/// What decode options hold.
#[verifier::ext_equal]
pub struct OptionsView {
    pub exporter: Seq<char>,
    pub obs_domain_override: Option<u32>,
    pub mode: Mode,
    pub now_micros: i64,
}

impl View for DecodeOptions {
    type V = OptionsView;

    open spec fn view(&self) -> OptionsView {
        OptionsView {
            exporter: self.exporter@,
            obs_domain_override: self.obs_domain_override,
            mode: self.mode,
            now_micros: self.now_micros,
        }
    }
}

impl Default for DecodeOptions {
    fn default() -> (r: Self)
        ensures
            r@ == (OptionsView {
                exporter: Seq::empty(),
                obs_domain_override: None,
                mode: Mode::Auto,
                now_micros: 0,
            }),
    {
        DecodeOptions {
            exporter: String::new(),
            obs_domain_override: None,
            mode: Mode::Auto,
            now_micros: 0,
        }
    }
}

/// The header context that a buffered Data Set was stored with.
pub open spec fn pending_ctx(key: KeyView, rec: PendingView) -> CtxView {
    CtxView {
        exporter: key.exporter,
        obs_domain: key.obs_domain,
        version: pending_version(rec),
        export_time: rec.export_time,
        sequence: rec.sequence,
        sys_uptime_ms: rec.sys_uptime_ms,
        template_id: key.template_id,
    }
}

/// The version of a buffered Data Set: `10`, or `9` for every other label.
pub open spec fn pending_version(rec: PendingView) -> Seq<char> {
    if rec.version == "10"@ {
        "10"@
    } else {
        "9"@
    }
}

/// The rows of buffered Data Sets, decoded against a layout.
pub open spec fn pending_rows(
    tpl: EntryView,
    key: KeyView,
    recs: Seq<PendingView>,
    flows_only: bool,
) -> Seq<FlowView>
    decreases recs.len(),
{
    if recs.len() == 0 {
        Seq::empty()
    } else {
        data_set_rows(tpl, recs[0].bytes, pending_ctx(key, recs[0]), flows_only) + pending_rows(
            tpl,
            key,
            recs.drop_first(),
            flows_only,
        )
    }
}

/// The rows of what is buffered under a key, and the cache after it: nothing
/// happens unless the key's template is known.
pub open spec fn key_retried(cache: CacheView, key: KeyView, now: i64, flows_only: bool) -> (
    Seq<FlowView>,
    CacheView,
) {
    if cache.entries.dom().contains(key) {
        let rows = pending_rows(cache.entries[key], key, cache.waiting(key), flows_only);
        (rows, cache.used(key, now, records_in(rows) as u64).taken(key))
    } else {
        (Seq::empty(), cache)
    }
}

/// The rows of what is buffered under keys, in order, and the cache after it.
pub open spec fn keys_retried(
    cache: CacheView,
    keys: Seq<KeyView>,
    now: i64,
    flows_only: bool,
) -> (Seq<FlowView>, CacheView)
    decreases keys.len(),
{
    if keys.len() == 0 {
        (Seq::empty(), cache)
    } else {
        let first = key_retried(cache, keys[0], now, flows_only);
        let rest = keys_retried(first.1, keys.drop_first(), now, flows_only);
        (first.0 + rest.0, rest.1)
    }
}

/// The rows of everything buffered whose template is known, in key order, and the
/// cache after it.
pub open spec fn retried(cache: CacheView, now: i64, flows_only: bool) -> (
    Seq<FlowView>,
    CacheView,
) {
    keys_retried(cache, ordered_keys(cache.pending.dom()), now, flows_only)
}

/// The rows of Data Sets that are given up for want of a template: one each.
pub open spec fn given_up(key: KeyView, recs: Seq<PendingView>) -> Seq<FlowView> {
    Seq::new(
        recs.len(),
        |i: int|
            missing_row(key, pending_version(recs[0]), recs[i].export_time, recs[i].sequence),
    )
}

/// The rows of everything buffered, given up key by key.
pub open spec fn all_given_up(ps: Seq<(KeyView, Seq<PendingView>)>) -> Seq<FlowView>
    decreases ps.len(),
{
    if ps.len() == 0 {
        Seq::empty()
    } else {
        given_up(ps[0].0, ps[0].1) + all_given_up(ps.drop_first())
    }
}

/// The row of a datagram of a format that is not accepted.
pub open spec fn refused_row(exporter: Seq<char>, f: Format) -> FlowView {
    diagnostic_row(
        exporter,
        f.text(),
        0,
        None,
        None,
        "decode-error:format-"@ + f.text() + "-not-accepted-here"@,
    )
}

/// The rows of a datagram alone, and the cache after it.
pub open spec fn decoded(
    data: Seq<u8>,
    opts: OptionsView,
    cache: CacheView,
    restrict: Restrict,
) -> (Seq<FlowView>, CacheView) {
    let fo = opts.mode == Mode::FlowsOnly;
    match format_of(data) {
        None => (
            seq![
                diagnostic_row(
                    opts.exporter,
                    ""@,
                    0,
                    None,
                    None,
                    "decode-error:not-a-flow-datagram"@,
                ),
            ],
            cache,
        ),
        Some(f) => if !restrict.admits(f) {
            (seq![refused_row(opts.exporter, f)], cache)
        } else {
            match f {
                Format::V5 => (v5::v5_outcome(data, opts.exporter), cache),
                Format::V9 => v9::v9_outcome(
                    data,
                    opts.exporter,
                    opts.obs_domain_override,
                    cache,
                    opts.now_micros,
                    fo,
                ),
                Format::Ipfix => ipfix::ipfix_outcome(
                    data,
                    opts.exporter,
                    opts.obs_domain_override,
                    cache,
                    opts.now_micros,
                    fo,
                ),
                Format::Sflow => (sflow::sflow_outcome(data, opts.exporter, fo), cache),
            }
        },
    }
}

/// Whether a datagram is of a template-based format.
pub open spec fn is_templated(data: Seq<u8>) -> bool {
    format_of(data) == Some(Format::V9) || format_of(data) == Some(Format::Ipfix)
}

/// The rows of a datagram and the cache after it. A template-based datagram is
/// followed by the buffered data that can now be decoded.
pub open spec fn datagram_outcome(
    data: Seq<u8>,
    opts: OptionsView,
    cache: CacheView,
    restrict: Restrict,
) -> (Seq<FlowView>, CacheView) {
    let first = decoded(data, opts, cache, restrict);
    if is_templated(data) {
        let more = retried(first.1, opts.now_micros, opts.mode == Mode::FlowsOnly);
        (first.0 + more.0, more.1)
    } else {
        first
    }
}

/// `decode-error:format-<label>-not-accepted-here`.
fn not_accepted(label: &str) -> (r: String)
    ensures
        r@ == "decode-error:format-"@ + label@ + "-not-accepted-here"@,
{
    let mut s = "decode-error:format-".to_string();
    s.append(label);
    s.append("-not-accepted-here");
    s
}

/// Decode one datagram, updating the cache, then retry any pending data whose
/// template the cache now knows. Returns the rows produced by this datagram
/// (plus any newly-resolvable buffered rows).
pub fn decode_datagram(
    data: &[u8],
    opts: &DecodeOptions,
    cache: &mut TemplateCache,
    restrict: Restrict,
) -> (r: Vec<FlowRecord>)
    requires
        old(cache).wf(),
    ensures
        final(cache).wf(),
        (views(r@), final(cache)@) == datagram_outcome(data@, opts@, old(cache)@, restrict),
{
    let exporter = opts.exporter.as_str();
    let flows_only = opts.mode.flows_only();
    let format = match probe_format(data) {
        Some(f) => f,
        None => {
            return one_row(
                FlowRecord::diagnostic(
                    exporter,
                    "",
                    0,
                    None,
                    None,
                    "decode-error:not-a-flow-datagram".to_string(),
                ),
            );
        },
    };
    let mut out = if !restrict.accepts(format) {
        let label = format.label();
        one_row(FlowRecord::diagnostic(exporter, label, 0, None, None, not_accepted(label)))
    } else {
        match format {
            Format::V5 => v5::decode(data, exporter),
            Format::V9 => v9::decode(
                data,
                exporter,
                opts.obs_domain_override,
                cache,
                opts.now_micros,
                flows_only,
            ),
            Format::Ipfix => ipfix::decode(
                data,
                exporter,
                opts.obs_domain_override,
                cache,
                opts.now_micros,
                flows_only,
            ),
            Format::Sflow => sflow::decode(data, exporter, flows_only),
        }
    };
    // A template learned in this datagram may resolve data buffered earlier.
    if format == Format::V9 || format == Format::Ipfix {
        if cache.pending_is_empty() {
            proof {
                lemma_nothing_to_retry(cache@, opts.now_micros, flows_only);
                assert(views(out@) + Seq::<FlowView>::empty() =~= views(out@));
            }
        } else {
            let mut more = retry_pending(cache, opts.now_micros, flows_only);
            out.append(&mut more);
        }
    }
    out
}

/// Where nothing is buffered, a retry does nothing.
proof fn lemma_nothing_to_retry(cache: CacheView, now: i64, flows_only: bool)
    requires
        cache.pending == Map::<KeyView, Seq<PendingView>>::empty(),
    ensures
        retried(cache, now, flows_only) == (Seq::<FlowView>::empty(), cache),
{
    assert(lists(Seq::<KeyView>::empty(), cache.pending.dom()));
    lemma_lists(Seq::<KeyView>::empty(), cache.pending.dom());
}

/// Decode buffered Data Sets against a layout.
fn decode_pending(
    tpl: &TemplateEntry,
    key: &TemplateKey,
    recs: &Vec<PendingRecord>,
    flows_only: bool,
) -> (r: Vec<FlowRecord>)
    ensures
        views(r@) == pending_rows(tpl@, key@, views(recs@), flows_only),
{
    let ghost all = views(recs@);
    let ghost want = pending_rows(tpl@, key@, all, flows_only);
    let mut out: Vec<FlowRecord> = Vec::new();
    let mut i: usize = 0;
    proof {
        assert(all.skip(0) =~= all);
        assert(views(out@) + want =~= want);
    }
    while i < recs.len()
        invariant
            all == views(recs@),
            i <= recs@.len(),
            views(out@) + pending_rows(tpl@, key@, all.skip(i as int), flows_only) == want,
        decreases recs.len() - i,
    {
        let rec = &recs[i];
        let ghost before = views(out@);
        let version: &'static str = if same_text(rec.version.as_str(), "10") {
            "10"
        } else {
            "9"
        };
        let ctx = Ctx {
            exporter: key.exporter.clone(),
            obs_domain: key.obs_domain,
            version,
            export_time: rec.export_time,
            sequence: rec.sequence,
            sys_uptime_ms: rec.sys_uptime_ms,
            template_id: key.template_id,
        };
        let mut rows = decode_data_set(tpl, &rec.bytes, &ctx, flows_only);
        let ghost got = views(rows@);
        out.append(&mut rows);
        proof {
            assert(all.skip(i as int).drop_first() =~= all.skip(i + 1));
            assert(all.skip(i as int)[0] == rec@);
            let rest = pending_rows(tpl@, key@, all.skip(i + 1), flows_only);
            assert(before + (got + rest) =~= (before + got) + rest);
        }
        i = i + 1;
    }
    proof {
        assert(all.skip(i as int) =~= Seq::<PendingView>::empty());
        assert(views(out@) + Seq::<FlowView>::empty() =~= views(out@));
    }
    out
}

/// Drain and decode every pending Data Set whose template the cache now knows.
/// Records still missing a template stay buffered (flushed at end of scan).
pub fn retry_pending(cache: &mut TemplateCache, now: i64, flows_only: bool) -> (r: Vec<FlowRecord>)
    requires
        old(cache).wf(),
    ensures
        final(cache).wf(),
        (views(r@), final(cache)@) == retried(old(cache)@, now, flows_only),
{
    let keys = cache.pending_keys();
    let ghost all = views(keys@);
    let ghost want = retried(cache@, now, flows_only);
    let mut out: Vec<FlowRecord> = Vec::new();
    let mut i: usize = 0;
    proof {
        assert(all.skip(0) =~= all);
        assert(views(out@) + want.0 =~= want.0);
    }
    while i < keys.len()
        invariant
            cache.wf(),
            all == views(keys@),
            i <= keys@.len(),
            want.0 == views(out@) + keys_retried(cache@, all.skip(i as int), now, flows_only).0,
            want.1 == keys_retried(cache@, all.skip(i as int), now, flows_only).1,
        decreases keys.len() - i,
    {
        let key = &keys[i];
        let ghost before = views(out@);
        let ghost c0 = cache@;
        let ghost first = key_retried(c0, key@, now, flows_only);
        proof {
            assert(all.skip(i as int).drop_first() =~= all.skip(i + 1));
            assert(all.skip(i as int)[0] == key@);
        }
        let found = match cache.peek(key) {
            Some(tpl) => Some(tpl.clone()),
            None => None,
        };
        if let Some(tpl) = found {
            let recs = cache.take_pending(key);
            let mut rows = decode_pending(&tpl, key, &recs, flows_only);
            cache.count_records(key, now, count_records(&rows));
            out.append(&mut rows);
        }
        proof {
            assert(cache@ == first.1);
            assert(views(out@) =~= before + first.0);
            let rest = keys_retried(cache@, all.skip(i + 1), now, flows_only);
            assert(before + (first.0 + rest.0) =~= (before + first.0) + rest.0);
        }
        i = i + 1;
    }
    proof {
        assert(all.skip(i as int) =~= Seq::<KeyView>::empty());
        assert(views(out@) + Seq::<FlowView>::empty() =~= views(out@));
    }
    out
}

/// End-of-scan flush: every still-pending Data Set is emitted as a
/// `missing-template` diagnostic (carrying only header-recoverable fields), never
/// dropped silently. Clears the pending buffer.
pub fn flush_pending(cache: &mut TemplateCache) -> (r: Vec<FlowRecord>)
    requires
        old(cache).wf(),
    ensures
        final(cache).wf(),
        final(cache)@ == old(cache)@.drained(),
        views(r@) == all_given_up(pairs(old(cache)@.pending)),
{
    let drained = cache.drain_pending();
    let ghost all = crate::cache::pending_pairs(drained@);
    let ghost want = all_given_up(all);
    let mut out: Vec<FlowRecord> = Vec::new();
    let mut i: usize = 0;
    proof {
        assert(all.skip(0) =~= all);
        assert(views(out@) + want =~= want);
    }
    while i < drained.len()
        invariant
            all == crate::cache::pending_pairs(drained@),
            i <= drained@.len(),
            views(out@) + all_given_up(all.skip(i as int)) == want,
        decreases drained.len() - i,
    {
        let key = &drained[i].0;
        let recs = &drained[i].1;
        let ghost before = views(out@);
        let ghost rows = given_up(key@, views(recs@));
        proof {
            assert(all.skip(i as int).drop_first() =~= all.skip(i + 1));
            assert(all.skip(i as int)[0] == (key@, views(recs@)));
            assert(rows.take(0) =~= Seq::<FlowView>::empty());
            assert(views(out@) =~= before + rows.take(0));
        }
        let version: &'static str = if recs.len() > 0 && same_text(recs[0].version.as_str(), "10") {
            "10"
        } else {
            "9"
        };
        let mut j: usize = 0;
        while j < recs.len()
            invariant
                rows == given_up(key@, views(recs@)),
                recs@.len() > 0 ==> version@ == pending_version(recs@[0]@),
                j <= recs@.len(),
                views(out@) == before + rows.take(j as int),
            decreases recs.len() - j,
        {
            let rec = &recs[j];
            let row = FlowRecord::diagnostic(
                key.exporter.as_str(),
                version,
                key.obs_domain,
                rec.export_time,
                rec.sequence,
                missing_template(key.obs_domain, key.template_id),
            );
            proof {
                assert(views(recs@)[0] == recs@[0]@);
                assert(row@ == rows[j as int]);
                assert(rows.take(j + 1) =~= rows.take(j as int).push(row@));
                assert(before + rows.take(j + 1) =~= (before + rows.take(j as int)).push(row@));
            }
            out.push(row);
            j = j + 1;
        }
        proof {
            assert(rows.take(j as int) =~= rows);
            let rest = all_given_up(all.skip(i + 1));
            assert(before + (rows + rest) =~= (before + rows) + rest);
        }
        i = i + 1;
    }
    proof {
        assert(all.skip(i as int) =~= Seq::<(KeyView, Seq<PendingView>)>::empty());
        assert(views(out@) + Seq::<FlowView>::empty() =~= views(out@));
    }
    out
}

} // verus!
