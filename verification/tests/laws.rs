//! The library's laws on concrete values, and each diagnostic that decoding gives.

use netflow_core::buf::{put16, put32};
use netflow_core::cache::{
    FieldSpec, PendingRecord, TemplateCache, TemplateEntry, TemplateKey, TemplateKind,
};
use netflow_core::decode::header::{parse_header, probe_version};
use netflow_core::decode::record::{count_records, decode_data_set, field_spec, Ctx};
use netflow_core::decode::{sflow, v9};
use netflow_core::fixtures::{
    ipfix_basic, ipfix_options, netflow_v5, netflow_v9_combined, netflow_v9_data,
    netflow_v9_template, sflow_basic,
};
use netflow_core::inet::{encode, encode_ip, inet4, inet6, IpAddr};
use netflow_core::normalize::{be_uint, ipv4, ipv6};
use netflow_core::{
    decode_datagram, flush_pending, retry_pending, well_formed, DecodeOptions, FlowRecord, Mode,
    Restrict,
};

fn opts(exporter: &str, mode: Mode) -> DecodeOptions {
    DecodeOptions {
        exporter: exporter.to_string(),
        obs_domain_override: None,
        mode,
        now_micros: 1,
    }
}

fn run(data: &[u8], cache: &mut TemplateCache, restrict: Restrict) -> Vec<FlowRecord> {
    decode_datagram(data, &opts("r", Mode::Auto), cache, restrict)
}

fn diagnostics(rows: &[FlowRecord]) -> Vec<Option<&str>> {
    rows.iter().map(|r| r.diagnostics.as_deref()).collect()
}

fn key(id: u16) -> TemplateKey {
    TemplateKey {
        exporter: "r".to_string(),
        obs_domain: 0,
        template_id: id,
    }
}

fn entry(last_seen: i64) -> TemplateEntry {
    TemplateEntry {
        kind: TemplateKind::Data,
        fields: Vec::new(),
        scope_field_count: 0,
        first_seen: last_seen,
        last_seen,
        use_count: 0,
    }
}

#[test]
fn the_least_recently_seen_leaves_first() {
    let mut c = TemplateCache::new();
    c.cap_entries = 2;
    c.upsert(key(1), entry(30));
    c.upsert(key(2), entry(10));
    c.upsert(key(3), entry(20));
    assert!(c.peek(&key(2)).is_none());
    // Use makes recent.
    assert!(c.use_template(&key(3), 40).is_some());
    c.upsert(key(4), entry(50));
    assert!(c.peek(&key(1)).is_none());
    assert_eq!(c.peek(&key(3)).unwrap().use_count, 1);
    assert_eq!(c.entry_count(), 2);
    // Of equals the first in key order leaves.
    let mut c = TemplateCache::new();
    c.cap_entries = 1;
    c.upsert(key(9), entry(5));
    c.upsert(key(8), entry(5));
    assert!(c.peek(&key(8)).is_none());
    assert!(c.peek(&key(9)).is_some());
}

#[test]
fn a_full_buffer_gives_missing_template_rows() {
    let mut c = TemplateCache::new();
    c.cap_pending_bytes = 30;
    assert_eq!(run(&netflow_v9_data(), &mut c, Restrict::Any).len(), 0);
    let rows = run(&netflow_v9_data(), &mut c, Restrict::Any);
    assert_eq!(diagnostics(&rows), vec![Some("missing-template:1/256")]);
    assert_eq!(rows[0].flow_version, "9");
    // The buffered one still resolves.
    assert_eq!(run(&netflow_v9_template(), &mut c, Restrict::Any).len(), 1);
    assert!(c.pending_is_empty());
}

#[test]
fn data_first_or_template_first_is_the_same() {
    let mut a = TemplateCache::new();
    let mut rows_a = run(&netflow_v9_data(), &mut a, Restrict::Any);
    rows_a.extend(run(&netflow_v9_template(), &mut a, Restrict::Any));
    let mut b = TemplateCache::new();
    let mut rows_b = run(&netflow_v9_template(), &mut b, Restrict::Any);
    rows_b.extend(run(&netflow_v9_data(), &mut b, Restrict::Any));
    assert_eq!(rows_a.len(), 1);
    assert_eq!(rows_a, rows_b);
    assert_eq!(a.to_dto(), b.to_dto());
}

#[test]
fn data_decodes_by_the_layout_last_given() {
    let mut c = TemplateCache::new();
    // Room for one template only: sending it again takes no more.
    c.cap_entries = 1;
    for _ in 0..3 {
        run(&netflow_v9_template(), &mut c, Restrict::Any);
        run(&netflow_v5(), &mut c, Restrict::Any);
    }
    let rows = run(&netflow_v9_data(), &mut c, Restrict::Any);
    assert_eq!(rows.len(), 1);
    assert_eq!(rows[0].src_addr, inet4(&[10, 1, 1, 1]));
    assert_eq!(rows[0].dst_addr, inet4(&[10, 1, 1, 2]));
    // The template anew, with source and destination the other way round.
    let mut swapped = netflow_v9_template();
    assert_eq!((swapped[29], swapped[33]), (8, 12));
    swapped[29] = 12;
    swapped[33] = 8;
    run(&swapped, &mut c, Restrict::Any);
    let rows = run(&netflow_v9_data(), &mut c, Restrict::Any);
    assert_eq!(rows.len(), 1);
    assert_eq!(rows[0].src_addr, inet4(&[10, 1, 1, 2]));
    assert_eq!(rows[0].dst_addr, inet4(&[10, 1, 1, 1]));
}

#[test]
fn other_exporters_and_domains_are_left_alone() {
    let mut c = TemplateCache::new();
    run(&netflow_v9_template(), &mut c, Restrict::Any);
    let before = c.to_dto();
    let other = opts("other", Mode::Auto);
    decode_datagram(&netflow_v9_template(), &other, &mut c, Restrict::Any);
    let mut elsewhere = opts("r", Mode::Auto);
    elsewhere.obs_domain_override = Some(77);
    decode_datagram(&netflow_v9_template(), &elsewhere, &mut c, Restrict::Any);
    assert_eq!(c.entry_count(), 3);
    let after = c.to_dto();
    let (k, e) = &before.entries[0];
    assert!(after.entries.iter().any(|(x, y)| x == k && y == e));
}

#[test]
fn a_retry_leaves_what_lacks_a_template() {
    let mut c = TemplateCache::new();
    run(&netflow_v9_data(), &mut c, Restrict::Any);
    let before = c.to_dto();
    assert_eq!(retry_pending(&mut c, 5, false).len(), 0);
    assert_eq!(c.to_dto(), before);
}

#[test]
fn pending_keys_are_those_under_which_data_waits() {
    let mut c = TemplateCache::new();
    assert!(c.pending_keys().is_empty() && c.pending_is_empty());
    let rec = || PendingRecord {
        export_time: None,
        sequence: None,
        version: "9".to_string(),
        sys_uptime_ms: None,
        bytes: Vec::new(),
    };
    let mut elsewhere = key(1);
    elsewhere.exporter = "a".to_string();
    for k in [key(300), key(299), elsewhere.clone(), key(300)] {
        assert!(c.push_pending(k, rec()));
    }
    assert_eq!(c.pending_keys(), vec![elsewhere.clone(), key(299), key(300)]);
    // Asking for what is not there leaves nothing behind.
    assert!(c.take_pending(&key(7)).is_empty());
    assert_eq!(c.take_pending(&key(300)).len(), 2);
    assert_eq!(c.pending_keys(), vec![elsewhere, key(299)]);
    c.drain_pending();
    assert!(c.pending_keys().is_empty() && c.pending_is_empty());
}

#[test]
fn the_flush_gives_one_row_per_buffered_set() {
    let mut c = TemplateCache::new();
    let rec = |v: &str, n: u64| PendingRecord {
        export_time: Some(3),
        sequence: Some(n),
        version: v.to_string(),
        sys_uptime_ms: None,
        bytes: vec![0; 2],
    };
    assert!(c.push_pending(key(300), rec("10", 1)));
    assert!(c.push_pending(key(300), rec("10", 2)));
    assert!(c.push_pending(key(299), rec("9", 3)));
    let rows = flush_pending(&mut c);
    assert_eq!(
        diagnostics(&rows),
        vec![
            Some("missing-template:0/299"),
            Some("missing-template:0/300"),
            Some("missing-template:0/300"),
        ]
    );
    let sequences: Vec<Option<u64>> = rows.iter().map(|r| r.sequence).collect();
    assert_eq!(sequences, vec![Some(3), Some(1), Some(2)]);
    assert_eq!((rows[0].flow_version.as_str(), rows[1].flow_version.as_str()), ("9", "10"));
    assert!(c.pending_is_empty());
}

#[test]
fn every_format_has_one_restricted_decoder() {
    let grams = [netflow_v5(), netflow_v9_combined(), ipfix_basic(), sflow_basic()];
    let takers = [
        Restrict::NetflowOnly,
        Restrict::NetflowOnly,
        Restrict::IpfixOnly,
        Restrict::SflowOnly,
    ];
    for (data, taker) in grams.iter().zip(takers) {
        let unified = run(data, &mut TemplateCache::new(), Restrict::Any);
        for r in [Restrict::NetflowOnly, Restrict::IpfixOnly, Restrict::SflowOnly] {
            let mut c = TemplateCache::new();
            let rows = run(data, &mut c, r);
            if r == taker {
                assert_eq!(rows, unified);
            } else {
                let want = format!(
                    "decode-error:format-{}-not-accepted-here",
                    probe_version(data).unwrap()
                );
                assert_eq!(diagnostics(&rows), vec![Some(want.as_str())]);
                assert_eq!(c.entry_count(), 0);
            }
        }
    }
}

#[test]
fn self_contained_formats_leave_the_cache_alone() {
    let mut full = TemplateCache::new();
    run(&netflow_v9_combined(), &mut full, Restrict::Any);
    run(&ipfix_options(), &mut full, Restrict::Any);
    let before = full.to_dto();
    for data in [netflow_v5(), sflow_basic()] {
        let rows = run(&data, &mut full, Restrict::Any);
        assert_eq!(rows, run(&data, &mut TemplateCache::new(), Restrict::Any));
    }
    assert_eq!(full.to_dto(), before);
}

#[test]
fn flows_only_leaves_out_counters_and_options() {
    let only = opts("r", Mode::FlowsOnly);
    for data in [sflow_basic(), ipfix_options()] {
        let all = run(&data, &mut TemplateCache::new(), Restrict::Any);
        let some = decode_datagram(&data, &only, &mut TemplateCache::new(), Restrict::Any);
        assert_eq!(all.len(), some.len() + 1);
    }
    let all = run(&sflow_basic(), &mut TemplateCache::new(), Restrict::Any);
    let some = decode_datagram(&sflow_basic(), &only, &mut TemplateCache::new(), Restrict::Any);
    let kept: Vec<FlowRecord> = all
        .into_iter()
        .filter(|r| r.diagnostics.as_deref() != Some("counter-sample"))
        .collect();
    assert_eq!(kept, some);
    assert_eq!(Mode::parse("flows-only"), Mode::FlowsOnly);
    assert_eq!(Mode::parse("all"), Mode::All);
    assert_eq!(Mode::parse("FLOWS-ONLY"), Mode::Auto);
}

#[test]
fn probe_header_and_validator_agree() {
    for data in [netflow_v5(), netflow_v9_combined(), ipfix_basic(), sflow_basic()] {
        let v = well_formed(&data);
        assert!(v.ok);
        assert_eq!(v.version.as_deref(), probe_version(&data));
        assert!(v.error.is_none() && v.kind.is_none());
        assert!(parse_header(&data).is_some());
        let rows = run(&data, &mut TemplateCache::new(), Restrict::Any);
        assert!(rows.iter().all(|r| match &r.diagnostics {
            Some(d) => d == "counter-sample",
            None => true,
        }));
    }
    assert!(parse_header(&[0xde, 0xad]).is_none());
}

#[test]
fn each_kind_of_damage_has_its_diagnostic() {
    let mut c = TemplateCache::new();
    let mut say = |data: &[u8]| {
        let rows = run(data, &mut c, Restrict::Any);
        rows.last().unwrap().diagnostics.clone().unwrap()
    };
    assert_eq!(say(&[]), "decode-error:not-a-flow-datagram");
    assert_eq!(say(&[0, 5]), "decode-error:bad-v5-header");
    assert_eq!(say(&[0, 9]), "decode-error:bad-v9-header");
    assert_eq!(say(&[0, 10]), "decode-error:bad-ipfix-header");
    assert_eq!(say(&[0, 0, 0, 5, 0, 0, 0, 1]), "decode-error:bad-sflow-header");
    let mut v9 = netflow_v9_template();
    v9[23] = 3;
    assert_eq!(say(&v9), "set-length-overrun");
    let mut ipfix = ipfix_basic();
    ipfix[18] = 0xff;
    assert_eq!(say(&ipfix), "bad-ipfix-set");
    let v5 = netflow_v5();
    assert_eq!(say(&v5[..v5.len() - 1]), "truncated");
    assert_eq!(say(&v5[..24]), "truncated");
    // A header of which the last bytes are missing, and that declares no record.
    let mut short = v5[..22].to_vec();
    short[3] = 0;
    assert_eq!(say(&short), "truncated");
    let sflow = sflow_basic();
    assert_eq!(say(&sflow[..sflow.len() - 1]), "truncated");
    // The header declares samples that are not there at all.
    assert_eq!(say(&sflow[..28]), "truncated");
    assert_eq!(say(&sflow[..35]), "truncated");
}

#[test]
fn a_missing_sample_is_one_truncated_row() {
    let data: Vec<u8> = vec![
        0, 0, 0, 5, 0, 0, 0, 1, 10, 0, 0, 9, 0, 0, 0, 0, 0, 0, 0, 1, 0, 0, 3, 232, 0, 0, 0, 1,
    ];
    for flows_only in [false, true] {
        let rows = sflow::decode(&data, "r1", flows_only);
        assert_eq!(diagnostics(&rows), vec![Some("truncated")]);
        assert_eq!(rows[0].sequence, Some(1));
    }
    // None is declared, and none is missing.
    let mut none = data.clone();
    none[27] = 0;
    assert_eq!(sflow::decode(&none, "r1", false).len(), 0);
}

#[test]
fn a_template_counts_the_records_decoded_by_it() {
    let d = netflow_v9_combined();
    let mut two = d[0..56].to_vec();
    two.extend([1, 0, 0, 46]);
    two.extend(&d[60..81]);
    two.extend(&d[60..81]);
    let k = TemplateKey {
        exporter: "r1".to_string(),
        obs_domain: 1,
        template_id: 256,
    };
    let mut c = TemplateCache::new();
    assert_eq!(v9::decode(&two, "r1", None, &mut c, 7, false).len(), 2);
    assert_eq!(c.peek(&k).unwrap().use_count, 2);
    assert_eq!(c.peek(&k).unwrap().last_seen, 7);
    // Two buffered Data Sets of one record each.
    let mut c = TemplateCache::new();
    let o = opts("r1", Mode::Auto);
    decode_datagram(&netflow_v9_data(), &o, &mut c, Restrict::Any);
    decode_datagram(&netflow_v9_data(), &o, &mut c, Restrict::Any);
    let rows = decode_datagram(&netflow_v9_template(), &o, &mut c, Restrict::Any);
    assert_eq!(rows.len(), 2);
    assert_eq!(c.peek(&k).unwrap().use_count, 2);
    // Options records that are left out are not decoded.
    let mut c = TemplateCache::new();
    let flows = opts("r1", Mode::FlowsOnly);
    decode_datagram(&ipfix_options(), &flows, &mut c, Restrict::Any);
    assert!(c.to_dto().entries.iter().all(|(_, e)| e.use_count == 0));
}

fn layout(fields: Vec<FieldSpec>) -> TemplateEntry {
    TemplateEntry {
        fields,
        ..entry(0)
    }
}

fn context() -> Ctx {
    Ctx {
        exporter: "r".to_string(),
        obs_domain: 0,
        version: "10",
        export_time: None,
        sequence: None,
        sys_uptime_ms: None,
        template_id: 300,
    }
}

#[test]
fn padding_after_a_variable_field_is_ignored() {
    let tpl = layout(vec![field_spec(0, 8, 4), field_spec(0, 82, 0xFFFF)]);
    let payload = [10, 0, 0, 1, 0, 0, 0, 0, 0];
    let rows = decode_data_set(&tpl, &payload, &context(), false);
    assert_eq!(diagnostics(&rows), vec![None]);
    assert_eq!(rows[0].src_addr, inet4(&[10, 0, 0, 1]));
    assert_eq!(rows[0].raw_fields, vec![("interfaceName".to_string(), vec![])]);
    // Five bytes may hold a record; these declare more than is there.
    let rows = decode_data_set(&tpl, &[10, 0, 0, 1, 9], &context(), false);
    assert_eq!(diagnostics(&rows), vec![Some("truncated")]);
    assert_eq!(count_records(&rows), 0);
}

#[test]
fn fixed_records_fill_the_payload() {
    let tpl = layout(vec![field_spec(0, 7, 2), field_spec(0, 4, 1)]);
    let a = [0, 80, 6, 0, 53, 17];
    let b = [1, 187, 6, 0, 0];
    let both: Vec<u8> = a.iter().chain(b.iter()).copied().collect();
    let rows = decode_data_set(&tpl, &both, &context(), false);
    assert_eq!(rows.len(), both.len() / 3);
    assert_eq!(count_records(&rows), 3);
    assert_eq!(rows[2].src_port, Some(443));
    let mut parts = decode_data_set(&tpl, &a, &context(), false);
    parts.extend(decode_data_set(&tpl, &b, &context(), false));
    assert_eq!(rows, parts);
}

#[test]
fn unsound_datagrams_keep_what_is_whole() {
    let v5 = netflow_v5();
    let rows = run(&v5[..v5.len() - 1], &mut TemplateCache::new(), Restrict::Any);
    assert_eq!(diagnostics(&rows), vec![None, Some("truncated")]);
    // A scrap of a set behind the whole ones.
    let mut v9 = netflow_v9_combined();
    v9.extend([0, 0]);
    assert_eq!(well_formed(&v9).kind.as_deref(), Some("truncated"));
    assert_eq!(run(&v9, &mut TemplateCache::new(), Restrict::Any).len(), 1);
    // An overrun teaches nothing, though a whole template stands before it.
    let mut overrun = netflow_v9_combined();
    overrun[59] = 0xff;
    let mut c = TemplateCache::new();
    let rows = run(&overrun, &mut c, Restrict::Any);
    assert_eq!(diagnostics(&rows), vec![Some("set-length-overrun")]);
    assert_eq!(c.entry_count(), 0);
}

#[test]
fn caps_are_set_and_tokens_restored() {
    let mut c = TemplateCache::new();
    c.upsert(key(1), entry(1));
    c.upsert(key(2), entry(2));
    c.set_caps(1, 3);
    assert_eq!(c.entry_count(), 2);
    c.upsert(key(3), entry(3));
    assert_eq!(c.entry_count(), 1);
    let rec = |n: usize| PendingRecord {
        export_time: None,
        sequence: None,
        version: "9".to_string(),
        sys_uptime_ms: None,
        bytes: vec![0; n],
    };
    assert!(!c.push_pending(key(9), rec(4)));
    assert!(c.push_pending(key(9), rec(3)));
    assert_eq!(TemplateCache::restore(Some(c.to_dto())).to_dto(), c.to_dto());
    assert_eq!(TemplateCache::restore(None).to_dto(), TemplateCache::new().to_dto());
}

#[test]
fn validation_names_each_kind_of_damage() {
    let kind = |data: &[u8]| well_formed(data).kind.unwrap();
    assert_eq!(kind(&[0, 5]), "truncated");
    let v5 = netflow_v5();
    assert_eq!(kind(&v5[..v5.len() - 1]), "short-record");
    let mut v9 = netflow_v9_template();
    v9[22] = 0xff;
    assert_eq!(kind(&v9), "set-length-overrun");
    let mut ipfix = ipfix_basic();
    ipfix[3] = 15;
    assert_eq!(kind(&ipfix), "bad-ipfix-set");
    assert_eq!(kind(&[0, 0, 0, 5, 0, 0, 0, 1]), "truncated");
    assert_eq!(kind(&[1]), "not-a-flow-datagram");
}

#[test]
fn addresses_stay_apart_and_sort() {
    let number = |a: [u8; 16]| i128::from_le_bytes(a);
    let low = encode_ip(IpAddr::V6([0; 16]));
    let high = encode_ip(IpAddr::V6([255; 16]));
    assert_eq!(number(low.address_le), i128::MIN);
    assert_eq!(number(high.address_le), i128::MAX);
    assert_ne!(encode_ip(IpAddr::V4([0; 4])), low);
    assert_eq!(number(encode_ip(IpAddr::V4([1, 2, 3, 4])).address_le), 0x0102_0304);
    let net = encode(IpAddr::V4([10, 0, 0, 0]), 8);
    assert_eq!((net.ip_type, net.mask), (1, 8));
    assert_eq!(net.to_ip_string(), "10.0.0.0");
    assert_eq!(inet4(&[1, 2, 3]), None);
    assert_eq!(inet6(&[0; 4]), None);
}

#[test]
fn addresses_have_their_canonical_text() {
    assert_eq!(ipv4(&[192, 0, 2, 1]).unwrap(), "192.0.2.1");
    assert_eq!(ipv4(&[1, 2, 3]), None);
    let text = |s: [u16; 8]| {
        let b: Vec<u8> = s.iter().flat_map(|x| x.to_be_bytes()).collect();
        ipv6(&b).unwrap()
    };
    assert_eq!(text([0; 8]), "::");
    assert_eq!(text([0, 0, 0, 0, 0, 0, 0, 1]), "::1");
    assert_eq!(text([1, 0, 0, 0, 0, 0, 0, 0]), "1::");
    assert_eq!(text([0x2001, 0xdb8, 0, 0, 1, 0, 0, 1]), "2001:db8::1:0:0:1");
    assert_eq!(text([0x2001, 0xdb8, 0, 1, 1, 1, 1, 1]), "2001:db8:0:1:1:1:1:1");
    assert_eq!(text([1, 0, 0, 2, 0, 0, 0, 3]), "1:0:0:2::3");
    assert_eq!(text([0, 0, 0, 0, 0, 0xffff, 0xc000, 0x201]), "::ffff:192.0.2.1");
    assert_eq!(ipv6(&[0; 15]), None);
}

#[test]
fn scaled_counts_can_be_unscaled() {
    let rows = run(&sflow_basic(), &mut TemplateCache::new(), Restrict::Any);
    let r = &rows[0];
    let raw = |n: &str| {
        let (_, b) = r.raw_fields.iter().find(|(k, _)| k == n).unwrap();
        be_uint(b)
    };
    let (length, rate) = (raw("sflow.frame_length"), raw("sflow.sampling_rate"));
    assert_eq!((length, rate), (64, 4096));
    assert_eq!(r.bytes, Some(length * rate));
    assert_eq!(r.packets, Some(rate));
}

#[test]
fn notes_are_not_repeated() {
    let mut r = FlowRecord::default();
    r.note("a");
    r.note("bc");
    r.note("b");
    r.note("a");
    r.note("bc");
    assert_eq!(r.diagnostics.as_deref(), Some("a;bc;b"));
}

#[test]
fn numbers_are_read_and_written_in_network_order() {
    let mut out = Vec::new();
    put16(&mut out, 0x0102);
    put32(&mut out, 0x0304_0506);
    assert_eq!(out, vec![1, 2, 3, 4, 5, 6]);
    assert_eq!(be_uint(&out), 0x0102_0304_0506);
    assert_eq!(be_uint(&[]), 0);
    assert_eq!(be_uint(&[1, 2, 3, 4, 5, 6, 7, 8, 9]), 0x0102_0304_0506_0708);
}

#[test]
fn a_layout_that_is_redefined_keeps_its_counts() {
    let mut c = TemplateCache::new();
    c.upsert(key(1), entry(10));
    c.use_template(&key(1), 20);
    let mut again = entry(30);
    again.scope_field_count = 4;
    c.upsert(key(1), again);
    let e = c.peek(&key(1)).unwrap();
    assert_eq!((e.first_seen, e.last_seen, e.use_count, e.scope_field_count), (10, 30, 1, 4));
}
