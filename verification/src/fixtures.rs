//! Deterministic golden flow-export datagrams, built in code.
//!
//! Each builder returns a raw UDP-payload datagram exactly as an exporter would
//! emit it. Building the bytes here keeps the golden vectors reproducible and
//! reviewable.

use vstd::prelude::*;

use crate::buf::{enc16, enc32, enc64, put16, put32, put64, put_bytes};

verus! {

/// Header export time used by all stateful fixtures (2023-11-14T22:13:20Z).
pub const EXPORT_UNIX_SECS: u32 = 1_700_000_000;

/// v9 header sysUptime (ms since boot) used by the v9 fixtures.
pub const V9_SYS_UPTIME_MS: u32 = 100_000;

/// Template id used by the v9 fixtures.
pub const V9_TEMPLATE_ID: u16 = 256;

/// Observation domain (source id) used by the v9 fixtures.
pub const V9_OBS_DOMAIN: u32 = 1;

/// IPFIX data template id.
pub const IPFIX_TEMPLATE_ID: u16 = 256;

/// IPFIX variable-length + enterprise template id.
pub const IPFIX_VAR_TEMPLATE_ID: u16 = 257;

/// IPFIX options template id.
pub const IPFIX_OPTIONS_TEMPLATE_ID: u16 = 258;

/// IPFIX observation domain.
pub const IPFIX_OBS_DOMAIN: u32 = 42;

// ---------------------------------------------------------------- NetFlow v5

/// The values of a v5 record that differ between the fixtures' records.
pub struct V5Flow {
    pub src: [u8; 4],
    pub dst: [u8; 4],
    pub sp: u16,
    pub dp: u16,
    pub proto: u8,
    pub flags: u8,
    pub pkts: u32,
    pub octets: u32,
    pub src_as: u16,
    pub dst_as: u16,
}

/// `s` and a v5 record behind it.
pub open spec fn with_v5_record(s: Seq<u8>, f: V5Flow) -> Seq<u8> {
    s + f.src@ + f.dst@ + seq![10u8, 0, 0, 254]  // next hop
     + enc16(1) + enc16(2)  // input, output
     + enc32(f.pkts) + enc32(f.octets) + enc32(90_000) + enc32(95_000)  // first, last sysUptime
     + enc16(f.sp) + enc16(f.dp) + seq![0u8, f.flags, f.proto, 0]  // pad, flags, protocol, tos
     + enc16(f.src_as) + enc16(f.dst_as) + seq![24u8, 24] + enc16(0)
}

/// The first flow: 10.0.0.1:1234 to 10.0.0.2:80 over TCP, 10 packets / 1000 bytes.
pub open spec fn v5_tcp_flow() -> V5Flow {
    V5Flow {
        src: [10, 0, 0, 1],
        dst: [10, 0, 0, 2],
        sp: 1234,
        dp: 80,
        proto: 6,
        flags: 0x18,
        pkts: 10,
        octets: 1000,
        src_as: 64500,
        dst_as: 64501,
    }
}

/// The second: 192.168.1.1:5353 to 8.8.8.8:53 over UDP, 2 packets / 200 bytes.
pub open spec fn v5_udp_flow() -> V5Flow {
    V5Flow {
        src: [192, 168, 1, 1],
        dst: [8, 8, 8, 8],
        sp: 5353,
        dp: 53,
        proto: 17,
        flags: 0,
        pkts: 2,
        octets: 200,
        src_as: 0,
        dst_as: 15169,
    }
}

/// A v5 header: version, count, sysUptime, seconds, nanoseconds, sequence, engine
/// type and id, sampling.
pub open spec fn v5_header_bytes() -> Seq<u8> {
    Seq::<u8>::empty() + enc16(5) + enc16(2) + enc32(V9_SYS_UPTIME_MS) + enc32(EXPORT_UNIX_SECS)
        + enc32(0) + enc32(10) + seq![0u8, 1] + enc16(0)
}

/// A NetFlow v5 datagram with two records (a TCP flow and a UDP flow).
pub fn netflow_v5() -> (r: Vec<u8>)
    ensures
        r@ == with_v5_record(with_v5_record(v5_header_bytes(), v5_tcp_flow()), v5_udp_flow()),
{
    let mut w: Vec<u8> = Vec::new();
    put16(&mut w, 5);
    put16(&mut w, 2);
    put32(&mut w, V9_SYS_UPTIME_MS);
    put32(&mut w, EXPORT_UNIX_SECS);
    put32(&mut w, 0);
    put32(&mut w, 10);
    put_bytes(&mut w, &[0, 1]);
    put16(&mut w, 0);
    assert(w@ =~= v5_header_bytes());
    push_v5_record(
        &mut w,
        V5Flow {
            src: [10, 0, 0, 1],
            dst: [10, 0, 0, 2],
            sp: 1234,
            dp: 80,
            proto: 6,
            flags: 0x18,
            pkts: 10,
            octets: 1000,
            src_as: 64500,
            dst_as: 64501,
        },
    );
    push_v5_record(
        &mut w,
        V5Flow {
            src: [192, 168, 1, 1],
            dst: [8, 8, 8, 8],
            sp: 5353,
            dp: 53,
            proto: 17,
            flags: 0,
            pkts: 2,
            octets: 200,
            src_as: 0,
            dst_as: 15169,
        },
    );
    w
}

fn push_v5_record(w: &mut Vec<u8>, f: V5Flow)
    ensures
        final(w)@ == with_v5_record(old(w)@, f),
{
    put_bytes(w, &f.src);
    put_bytes(w, &f.dst);
    put_bytes(w, &[10, 0, 0, 254]);
    put16(w, 1);
    put16(w, 2);
    put32(w, f.pkts);
    put32(w, f.octets);
    put32(w, 90_000);
    put32(w, 95_000);
    put16(w, f.sp);
    put16(w, f.dp);
    put_bytes(w, &[0, f.flags, f.proto, 0]);
    put16(w, f.src_as);
    put16(w, f.dst_as);
    put_bytes(w, &[24, 24]);
    put16(w, 0);
    assert(w@ =~= with_v5_record(old(w)@, f));
}

// ---------------------------------------------------------------- templates

/// `s` and field specifiers, id and length each, behind it.
pub open spec fn with_specs(s: Seq<u8>, specs: Seq<(u16, u16)>) -> Seq<u8>
    decreases specs.len(),
{
    if specs.len() == 0 {
        s
    } else {
        with_specs(s, specs.drop_last()) + enc16(specs.last().0) + enc16(specs.last().1)
    }
}

/// Field specifiers take four bytes each.
proof fn lemma_with_specs_len(s: Seq<u8>, specs: Seq<(u16, u16)>)
    ensures
        with_specs(s, specs).len() == s.len() + 4 * specs.len(),
    decreases specs.len(),
{
    if specs.len() > 0 {
        lemma_with_specs_len(s, specs.drop_last());
    }
}

fn put_specs(w: &mut Vec<u8>, specs: &[(u16, u16)])
    ensures
        final(w)@ == with_specs(old(w)@, specs@),
        final(w)@.len() == old(w)@.len() + 4 * specs@.len(),
{
    let mut i: usize = 0;
    while i < specs.len()
        invariant
            i <= specs@.len(),
            w@ == with_specs(old(w)@, specs@.take(i as int)),
        decreases specs.len() - i,
    {
        assert(specs@.take(i + 1).drop_last() =~= specs@.take(i as int));
        put16(w, specs[i].0);
        put16(w, specs[i].1);
        i = i + 1;
    }
    assert(specs@.take(i as int) =~= specs@);
    proof {
        lemma_with_specs_len(old(w)@, specs@);
    }
}

/// `s` and a `{id, length, body}` FlowSet/Set behind it.
pub open spec fn with_set(s: Seq<u8>, id: u16, body: Seq<u8>) -> Seq<u8> {
    s + enc16(id) + enc16((body.len() + 4) as u16) + body
}

/// Wrap a body in a `{id, length, body}` FlowSet/Set header.
fn put_set(w: &mut Vec<u8>, id: u16, body: &[u8])
    requires
        body@.len() <= 0xFF00,
    ensures
        final(w)@ == with_set(old(w)@, id, body@),
{
    put16(w, id);
    put16(w, (body.len() + 4) as u16);
    put_bytes(w, body);
}

// ---------------------------------------------------------------- NetFlow v9

/// The fields of the v9 template: addresses, ports, protocol, packets, octets.
pub const V9_FIELDS: [(u16, u16); 7] = [(8, 4), (12, 4), (7, 2), (11, 2), (4, 1), (2, 4), (1, 4)];

/// A v9 header: version, count, sysUptime, seconds, sequence, source id.
pub open spec fn v9_header_bytes(count: u16) -> Seq<u8> {
    Seq::<u8>::empty() + enc16(9) + enc16(count) + enc32(V9_SYS_UPTIME_MS) + enc32(
        EXPORT_UNIX_SECS,
    ) + enc32(20) + enc32(V9_OBS_DOMAIN)
}

/// The v9 template record: id, field count, fields.
pub open spec fn v9_template_bytes() -> Seq<u8> {
    with_specs(Seq::<u8>::empty() + enc16(V9_TEMPLATE_ID) + enc16(7), V9_FIELDS@)
}

/// A data record of the v9 template.
pub open spec fn v9_record_bytes(
    src: [u8; 4],
    dst: [u8; 4],
    sp: u16,
    dp: u16,
    pkts: u32,
    octets: u32,
) -> Seq<u8> {
    Seq::<u8>::empty() + src@ + dst@ + enc16(sp) + enc16(dp) + seq![6u8] + enc32(pkts) + enc32(
        octets,
    )
}

fn v9_header(count: u16) -> (w: Vec<u8>)
    ensures
        w@ == v9_header_bytes(count),
{
    let mut w: Vec<u8> = Vec::new();
    put16(&mut w, 9);
    put16(&mut w, count);
    put32(&mut w, V9_SYS_UPTIME_MS);
    put32(&mut w, EXPORT_UNIX_SECS);
    put32(&mut w, 20);
    put32(&mut w, V9_OBS_DOMAIN);
    w
}

fn v9_template() -> (w: Vec<u8>)
    ensures
        w@ == v9_template_bytes(),
        w@.len() == 32,
{
    let mut w: Vec<u8> = Vec::new();
    put16(&mut w, V9_TEMPLATE_ID);
    put16(&mut w, 7);
    put_specs(&mut w, &V9_FIELDS);
    w
}

fn v9_record(src: [u8; 4], dst: [u8; 4], sp: u16, dp: u16, pkts: u32, octets: u32) -> (w: Vec<u8>)
    ensures
        w@ == v9_record_bytes(src, dst, sp, dp, pkts, octets),
        w@.len() == 21,
{
    let mut w: Vec<u8> = Vec::new();
    put_bytes(&mut w, &src);
    put_bytes(&mut w, &dst);
    put16(&mut w, sp);
    put16(&mut w, dp);
    put_bytes(&mut w, &[6]);
    put32(&mut w, pkts);
    put32(&mut w, octets);
    assert(w@ =~= v9_record_bytes(src, dst, sp, dp, pkts, octets));
    w
}

/// v9 Template-only datagram (defines template 256). Sent before the data
/// datagram in the cross-batch priming test.
pub fn netflow_v9_template() -> (r: Vec<u8>)
    ensures
        r@ == with_set(v9_header_bytes(1), 0, v9_template_bytes()),
{
    let mut w = v9_header(1);
    let body = v9_template();
    put_set(&mut w, 0, &body);
    w
}

/// v9 Data-only datagram (one record for template 256). Undecodable until the
/// template datagram above has been seen. The record: 10.1.1.1:4000 to
/// 10.1.1.2:443 over TCP, 5 packets, 800 octets.
pub fn netflow_v9_data() -> (r: Vec<u8>)
    ensures
        r@ == with_set(
            v9_header_bytes(1),
            V9_TEMPLATE_ID,
            v9_record_bytes([10, 1, 1, 1], [10, 1, 1, 2], 4000, 443, 5, 800),
        ),
{
    let mut w = v9_header(1);
    let body = v9_record([10, 1, 1, 1], [10, 1, 1, 2], 4000, 443, 5, 800);
    put_set(&mut w, V9_TEMPLATE_ID, &body);
    w
}

/// A single v9 datagram that carries the template AND its data (template first).
pub fn netflow_v9_combined() -> (r: Vec<u8>)
    ensures
        r@ == with_set(
            with_set(v9_header_bytes(2), 0, v9_template_bytes()),
            V9_TEMPLATE_ID,
            v9_record_bytes([172, 16, 0, 1], [172, 16, 0, 2], 1111, 22, 3, 180),
        ),
{
    let mut w = v9_header(2);
    let tmpl = v9_template();
    let rec = v9_record([172, 16, 0, 1], [172, 16, 0, 2], 1111, 22, 3, 180);
    put_set(&mut w, 0, &tmpl);
    put_set(&mut w, V9_TEMPLATE_ID, &rec);
    w
}

// ---------------------------------------------------------------- IPFIX

/// The fields of the fixed IPFIX template: addresses, ports, protocol, octets,
/// packets, start and end in milliseconds.
pub const IPFIX_FIELDS: [(u16, u16); 9] = [
    (8, 4),
    (12, 4),
    (7, 2),
    (11, 2),
    (4, 1),
    (1, 8),
    (2, 8),
    (152, 8),
    (153, 8),
];

/// An IPFIX datagram of sets: version, total length, seconds, sequence,
/// observation domain, sets.
pub open spec fn ipfix_bytes(sets: Seq<u8>) -> Seq<u8> {
    Seq::<u8>::empty() + enc16(10) + enc16((16 + sets.len()) as u16) + enc32(EXPORT_UNIX_SECS)
        + enc32(7) + enc32(IPFIX_OBS_DOMAIN) + sets
}

/// Build an IPFIX datagram, computing the header `length` field.
fn ipfix_datagram(sets: &[u8]) -> (w: Vec<u8>)
    requires
        sets@.len() <= 0xFF00,
    ensures
        w@ == ipfix_bytes(sets@),
{
    let mut w: Vec<u8> = Vec::new();
    put16(&mut w, 10);
    put16(&mut w, (16 + sets.len()) as u16);
    put32(&mut w, EXPORT_UNIX_SECS);
    put32(&mut w, 7);
    put32(&mut w, IPFIX_OBS_DOMAIN);
    put_bytes(&mut w, sets);
    w
}

/// The fixed IPFIX template record.
pub open spec fn ipfix_template_bytes() -> Seq<u8> {
    with_specs(Seq::<u8>::empty() + enc16(IPFIX_TEMPLATE_ID) + enc16(9), IPFIX_FIELDS@)
}

/// Its data record: 203.0.113.5:33000 to 198.51.100.9:443 over TCP.
pub open spec fn ipfix_record_bytes() -> Seq<u8> {
    Seq::<u8>::empty() + seq![203u8, 0, 113, 5] + seq![198u8, 51, 100, 9] + enc16(33000) + enc16(443)
        + seq![6u8] + enc64(1_500_000) + enc64(1_200) + enc64(1_700_000_000_000) + enc64(
        1_700_000_010_000,
    )
}

/// IPFIX datagram: a Template Set defining a fixed flow template, plus a Data Set
/// with one fully-decodable IPv4/TCP flow (absolute millisecond timestamps).
pub fn ipfix_basic() -> (r: Vec<u8>)
    ensures
        r@ == ipfix_bytes(
            with_set(
                with_set(Seq::empty(), 2, ipfix_template_bytes()),
                IPFIX_TEMPLATE_ID,
                ipfix_record_bytes(),
            ),
        ),
{
    let mut tmpl: Vec<u8> = Vec::new();
    put16(&mut tmpl, IPFIX_TEMPLATE_ID);
    put16(&mut tmpl, 9);
    put_specs(&mut tmpl, &IPFIX_FIELDS);
    let mut data: Vec<u8> = Vec::new();
    put_bytes(&mut data, &[203, 0, 113, 5]);
    put_bytes(&mut data, &[198, 51, 100, 9]);
    put16(&mut data, 33000);
    put16(&mut data, 443);
    put_bytes(&mut data, &[6]);
    put64(&mut data, 1_500_000);
    put64(&mut data, 1_200);
    put64(&mut data, 1_700_000_000_000);
    put64(&mut data, 1_700_000_010_000);
    assert(data@ =~= ipfix_record_bytes());
    let mut sets: Vec<u8> = Vec::new();
    put_set(&mut sets, 2, &tmpl);
    put_set(&mut sets, IPFIX_TEMPLATE_ID, &data);
    ipfix_datagram(&sets)
}

/// The template record with a variable-length element (interfaceName) and an
/// enterprise element (VMware PEN 6876, id 880).
pub open spec fn ipfix_var_template_bytes() -> Seq<u8> {
    Seq::<u8>::empty() + enc16(IPFIX_VAR_TEMPLATE_ID) + enc16(4) + enc16(8) + enc16(4) + enc16(12)
        + enc16(4) + enc16(82) + enc16(0xFFFF) + enc16(0x8370) + enc16(1) + enc32(6876)
}

/// Its data record: two addresses, `eth0` behind its length, and one byte.
pub open spec fn ipfix_var_record_bytes() -> Seq<u8> {
    Seq::<u8>::empty() + seq![10u8, 9, 9, 1] + seq![10u8, 9, 9, 2] + seq![
        4u8,
        0x65,
        0x74,
        0x68,
        0x30,
    ] + seq![7u8]
}

/// IPFIX datagram exercising a variable-length element (interfaceName) and an
/// enterprise element (VMware PEN 6876, id 880).
pub fn ipfix_variable_enterprise() -> (r: Vec<u8>)
    ensures
        r@ == ipfix_bytes(
            with_set(
                with_set(Seq::empty(), 2, ipfix_var_template_bytes()),
                IPFIX_VAR_TEMPLATE_ID,
                ipfix_var_record_bytes(),
            ),
        ),
{
    let mut tmpl: Vec<u8> = Vec::new();
    put16(&mut tmpl, IPFIX_VAR_TEMPLATE_ID);
    put16(&mut tmpl, 4);
    put16(&mut tmpl, 8);
    put16(&mut tmpl, 4);
    put16(&mut tmpl, 12);
    put16(&mut tmpl, 4);
    put16(&mut tmpl, 82);
    // Variable length.
    put16(&mut tmpl, 0xFFFF);
    // Enterprise bit and element 880, then its length and enterprise number.
    put16(&mut tmpl, 0x8370);
    put16(&mut tmpl, 1);
    put32(&mut tmpl, 6876);
    let mut data: Vec<u8> = Vec::new();
    put_bytes(&mut data, &[10, 9, 9, 1]);
    put_bytes(&mut data, &[10, 9, 9, 2]);
    put_bytes(&mut data, &[4, 0x65, 0x74, 0x68, 0x30]);
    put_bytes(&mut data, &[7]);
    assert(data@ =~= ipfix_var_record_bytes());
    let mut sets: Vec<u8> = Vec::new();
    put_set(&mut sets, 2, &tmpl);
    put_set(&mut sets, IPFIX_VAR_TEMPLATE_ID, &data);
    ipfix_datagram(&sets)
}

/// The options template record: two fields, of which one is a scope field
/// (exportingProcessId) and one an option (samplingInterval).
pub open spec fn ipfix_options_template_bytes() -> Seq<u8> {
    Seq::<u8>::empty() + enc16(IPFIX_OPTIONS_TEMPLATE_ID) + enc16(2) + enc16(1) + enc16(144)
        + enc16(4) + enc16(34) + enc16(4)
}

/// IPFIX datagram with an Options Template + Options Data record (sampling
/// configuration).
pub fn ipfix_options() -> (r: Vec<u8>)
    ensures
        r@ == ipfix_bytes(
            with_set(
                with_set(Seq::empty(), 3, ipfix_options_template_bytes()),
                IPFIX_OPTIONS_TEMPLATE_ID,
                Seq::<u8>::empty() + enc32(1001) + enc32(1000),
            ),
        ),
{
    let mut tmpl: Vec<u8> = Vec::new();
    put16(&mut tmpl, IPFIX_OPTIONS_TEMPLATE_ID);
    put16(&mut tmpl, 2);
    put16(&mut tmpl, 1);
    put16(&mut tmpl, 144);
    put16(&mut tmpl, 4);
    put16(&mut tmpl, 34);
    put16(&mut tmpl, 4);
    let mut data: Vec<u8> = Vec::new();
    put32(&mut data, 1001);
    put32(&mut data, 1000);
    let mut sets: Vec<u8> = Vec::new();
    put_set(&mut sets, 3, &tmpl);
    put_set(&mut sets, IPFIX_OPTIONS_TEMPLATE_ID, &data);
    ipfix_datagram(&sets)
}

// ---------------------------------------------------------------- sFlow v5

/// `s` and a `{type, length, body}` sample or record behind it.
pub open spec fn with_record(s: Seq<u8>, kind: u32, body: Seq<u8>) -> Seq<u8> {
    s + enc32(kind) + enc32(body.len() as u32) + body
}

fn put_record(w: &mut Vec<u8>, kind: u32, body: &[u8])
    requires
        body@.len() <= 0xFF00,
    ensures
        final(w)@ == with_record(old(w)@, kind, body@),
{
    put32(w, kind);
    put32(w, body.len() as u32);
    put_bytes(w, body);
}

/// An sFlow header: version, agent IPv4 10.0.0.9, sub-agent, sequence, uptime,
/// two samples.
pub open spec fn sflow_header_bytes() -> Seq<u8> {
    Seq::<u8>::empty() + enc32(5) + enc32(1) + seq![10u8, 0, 0, 9] + enc32(0) + enc32(1) + enc32(
        1_000,
    ) + enc32(2)
}

/// A sampled IPv4 record: length, protocol, addresses, ports, flags, tos.
pub open spec fn sampled_ipv4_bytes() -> Seq<u8> {
    Seq::<u8>::empty() + enc32(64) + enc32(6) + seq![192u8, 0, 2, 10] + seq![192u8, 0, 2, 20]
        + enc32(51000) + enc32(80) + enc32(0x18) + enc32(0)
}

/// What precedes the records of the flow sample: sequence, source, sampling rate,
/// pool, drops, input, output, one record.
pub open spec fn flow_sample_start() -> Seq<u8> {
    Seq::<u8>::empty() + enc32(100) + enc32(0) + enc32(4096) + enc32(0) + enc32(0) + enc32(5)
        + enc32(6) + enc32(1)
}

/// What precedes the records of the counter sample: sequence, source, one record.
pub open spec fn counter_sample_start() -> Seq<u8> {
    Seq::<u8>::empty() + enc32(200) + enc32(0) + enc32(1)
}

fn sampled_ipv4() -> (w: Vec<u8>)
    ensures
        w@ == sampled_ipv4_bytes(),
        w@.len() == 32,
{
    let mut w: Vec<u8> = Vec::new();
    put32(&mut w, 64);
    put32(&mut w, 6);
    put_bytes(&mut w, &[192, 0, 2, 10]);
    put_bytes(&mut w, &[192, 0, 2, 20]);
    put32(&mut w, 51000);
    put32(&mut w, 80);
    put32(&mut w, 0x18);
    put32(&mut w, 0);
    assert(w@ =~= sampled_ipv4_bytes());
    w
}

/// `n` zero bytes.
fn zeros(n: usize) -> (w: Vec<u8>)
    ensures
        w@ == Seq::new(n as nat, |i: int| 0u8),
{
    let mut w: Vec<u8> = Vec::new();
    let mut i: usize = 0;
    while i < n
        invariant
            i <= n,
            w@ == Seq::new(i as nat, |j: int| 0u8),
        decreases n - i,
    {
        w.push(0);
        i = i + 1;
        assert(w@ =~= Seq::new(i as nat, |j: int| 0u8));
    }
    w
}

/// sFlow v5 datagram: one flow sample (sampled_ipv4) + one counter sample.
pub fn sflow_basic() -> (r: Vec<u8>)
    ensures
        r@ == with_record(
            with_record(
                sflow_header_bytes(),
                1,
                with_record(flow_sample_start(), 3, sampled_ipv4_bytes()),
            ),
            2,
            with_record(counter_sample_start(), 1, Seq::new(88, |i: int| 0u8)),
        ),
{
    let mut w: Vec<u8> = Vec::new();
    put32(&mut w, 5);
    put32(&mut w, 1);
    put_bytes(&mut w, &[10, 0, 0, 9]);
    put32(&mut w, 0);
    put32(&mut w, 1);
    put32(&mut w, 1_000);
    put32(&mut w, 2);
    assert(w@ =~= sflow_header_bytes());
    let mut fs: Vec<u8> = Vec::new();
    put32(&mut fs, 100);
    put32(&mut fs, 0);
    put32(&mut fs, 4096);
    put32(&mut fs, 0);
    put32(&mut fs, 0);
    put32(&mut fs, 5);
    put32(&mut fs, 6);
    put32(&mut fs, 1);
    let rec = sampled_ipv4();
    put_record(&mut fs, 3, &rec);
    put_record(&mut w, 1, &fs);
    let mut cs: Vec<u8> = Vec::new();
    put32(&mut cs, 200);
    put32(&mut cs, 0);
    put32(&mut cs, 1);
    let counters = zeros(88);
    put_record(&mut cs, 1, &counters);
    put_record(&mut w, 2, &cs);
    w
}

} // verus!
