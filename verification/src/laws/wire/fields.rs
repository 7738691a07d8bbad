//! Data records of NetFlow v9 and IPFIX on the wire, and which column shows what.

use vstd::prelude::*;

use crate::cache::{EntryView, FieldView, TemplateKind};
use crate::decode::record::{
    data_set_rows, field_bytes, finished, min_len, ntp_of, record_bytes, record_of, records_of,
    row_start, with_fields, CtxView, RowState,
};
use crate::inet::InetView;
use crate::laws::wire::{
    host6, lemma_front16, lemma_host6, lemma_number, lemma_w32, number, w16, w32,
};
use crate::normalize::{noted, uint_of, FlowView};
use crate::num::wrap_i64;

verus! {

/// An integer as 64 signed bits: the number between -2^63 and 2^63 that differs from
/// it by a multiple of 2^64.
pub open spec fn signed64(x: int) -> i64 {
    let m = x % 18_446_744_073_709_551_616;
    if m < 9_223_372_036_854_775_808 {
        m as i64
    } else {
        (m - 18_446_744_073_709_551_616) as i64
    }
}

/// The number in a value: of more than eight bytes, the first eight count.
pub open spec fn amount(b: Seq<u8>) -> nat {
    if b.len() <= 8 {
        number(b)
    } else {
        number(b.take(8))
    }
}

/// Whether a field is a standard element with one of some numbers.
pub open spec fn is_one_of(f: FieldView, ids: Set<u16>) -> bool {
    f.enterprise_number == 0 && ids.contains(f.ie_id)
}

/// The value of the last of the first `n` fields that is one of some elements.
pub open spec fn latest(
    fields: Seq<FieldView>,
    vals: Seq<Seq<u8>>,
    n: nat,
    ids: Set<u16>,
) -> Option<Seq<u8>>
    decreases n,
{
    if n == 0 {
        None
    } else if is_one_of(fields[n - 1], ids) {
        Some(vals[n - 1])
    } else {
        latest(fields, vals, (n - 1) as nat, ids)
    }
}

/// The value of the first of the first `n` fields that is one of some elements.
pub open spec fn earliest(
    fields: Seq<FieldView>,
    vals: Seq<Seq<u8>>,
    n: nat,
    ids: Set<u16>,
) -> Option<Seq<u8>>
    decreases n,
{
    if n == 0 {
        None
    } else {
        match earliest(fields, vals, (n - 1) as nat, ids) {
            Some(b) => Some(b),
            None => if is_one_of(fields[n - 1], ids) {
                Some(vals[n - 1])
            } else {
                None
            },
        }
    }
}

/// The low bits of a value's number, where there is a value.
pub open spec fn low_u8(b: Option<Seq<u8>>) -> Option<u8> {
    match b {
        Some(b) => Some((amount(b) % 256) as u8),
        None => None,
    }
}

/// The low bits of a value's number, where there is a value.
pub open spec fn low_u16(b: Option<Seq<u8>>) -> Option<u16> {
    match b {
        Some(b) => Some((amount(b) % 65_536) as u16),
        None => None,
    }
}

/// The low bits of a value's number, where there is a value.
pub open spec fn low_u32(b: Option<Seq<u8>>) -> Option<u32> {
    match b {
        Some(b) => Some((amount(b) % 4_294_967_296) as u32),
        None => None,
    }
}

/// A count: the value of one element wherever it stands, else the first of some others.
pub open spec fn tally(
    fields: Seq<FieldView>,
    vals: Seq<Seq<u8>>,
    n: nat,
    main: Set<u16>,
    others: Set<u16>,
) -> Option<u64> {
    match latest(fields, vals, n, main) {
        Some(b) => Some(amount(b) as u64),
        None => match earliest(fields, vals, n, others) {
            Some(b) => Some(amount(b) as u64),
            None => None,
        },
    }
}

/// An address: the last value of one of some IPv4 elements that is four bytes long, or
/// of one of some IPv6 elements that is sixteen bytes long.
pub open spec fn address(
    fields: Seq<FieldView>,
    vals: Seq<Seq<u8>>,
    n: nat,
    four: Set<u16>,
    six: Set<u16>,
) -> Option<InetView>
    decreases n,
{
    if n == 0 {
        None
    } else {
        let b = vals[n - 1];
        if is_one_of(fields[n - 1], four) && b.len() == 4 {
            Some(InetView { ip_type: 1, address: number(b) as int, mask: 32 })
        } else if is_one_of(fields[n - 1], six) && b.len() == 16 {
            Some(host6(b))
        } else {
            address(fields, vals, (n - 1) as nat, four, six)
        }
    }
}

/// The microseconds since 1970 of eight bytes in the form of the Network Time
/// Protocol: seconds since 1900, 2,208,988,800 seconds earlier, and a fraction of a
/// second in units of 2^-32.
pub open spec fn ntp_micros(b: Seq<u8>) -> int {
    let (secs, frac) = (number(b.take(4)) as int, number(b.skip(4)) as int);
    (secs - 2_208_988_800) * 1_000_000 + (frac * 1_000_000) / 4_294_967_296
}

/// A time that is given absolutely: the last of an element in seconds, one in
/// milliseconds, and two in NTP form that are eight bytes long.
pub open spec fn moment(
    fields: Seq<FieldView>,
    vals: Seq<Seq<u8>>,
    n: nat,
    secs: u16,
    millis: u16,
    ntp: Set<u16>,
) -> Option<i64>
    decreases n,
{
    if n == 0 {
        None
    } else {
        let b = vals[n - 1];
        let f = fields[n - 1];
        if f.enterprise_number == 0 && f.ie_id == secs {
            Some(signed64(amount(b) as int * 1_000_000))
        } else if f.enterprise_number == 0 && f.ie_id == millis {
            Some(signed64(amount(b) as int * 1_000))
        } else if is_one_of(f, ntp) && b.len() == 8 {
            Some(ntp_micros(b) as i64)
        } else {
            moment(fields, vals, (n - 1) as nat, secs, millis, ntp)
        }
    }
}

/// A time of a flow: given absolutely, else counted from the boot, which was
/// `sys_uptime_ms` before the export, where the header says when both were.
pub open spec fn time_of(given: Option<i64>, stamp: Option<u32>, ctx: CtxView) -> Option<i64> {
    match given {
        Some(t) => Some(t),
        None => match (stamp, ctx.export_time, ctx.sys_uptime_ms) {
            (Some(s), Some(export), Some(uptime)) => Some(
                signed64(export - uptime * 1_000 + s * 1_000),
            ),
            _ => None,
        },
    }
}

/// The standard elements that have a column of their own.
pub open spec fn has_column(id: u16) -> bool {
    ||| id == 1 || id == 2 || id == 4 || id == 5 || id == 6 || id == 7 || id == 8 || id == 9
    ||| id == 10 || id == 11 || id == 12 || id == 13 || id == 14 || id == 15 || id == 16
    ||| id == 17 || id == 18 || id == 21 || id == 22 || id == 23 || id == 24 || id == 27
    ||| id == 28 || id == 29 || id == 30 || id == 34 || id == 61 || id == 62 || id == 63
    ||| id == 85 || id == 86 || id == 130 || id == 131 || 150 <= id <= 157
    ||| 180 <= id <= 183 || id == 195 || id == 226 || id == 305 || id == 351 || id == 352
}

/// What has no column is kept: name and bytes, in order.
pub open spec fn kept(fields: Seq<FieldView>, vals: Seq<Seq<u8>>, n: nat) -> Seq<
    (Seq<char>, Seq<u8>),
>
    decreases n,
{
    if n == 0 {
        Seq::empty()
    } else {
        let before = kept(fields, vals, (n - 1) as nat);
        let f = fields[n - 1];
        if f.enterprise_number != 0 || !has_column(f.ie_id) {
            before.push((f.name, vals[n - 1]))
        } else {
            before
        }
    }
}

/// Whether one of the first `n` fields is an enterprise's that nobody has named.
pub open spec fn has_unnamed(fields: Seq<FieldView>, n: nat) -> bool {
    exists|i: int|
        0 <= i < n && (#[trigger] fields[i]).enterprise_number != 0 && fields[i].name.len() > 0
            && fields[i].name[0] == 'e' && fields[i].ie_type == "octetArray"@
}

/// The row of a record with some values in some fields: each column shows the value of
/// the element that belongs to it, and what has no column is kept with its name.
pub open spec fn record_row(
    ctx: CtxView,
    fields: Seq<FieldView>,
    vals: Seq<Seq<u8>>,
) -> FlowView {
    let n = fields.len();
    FlowView {
        exporter: ctx.exporter,
        flow_version: ctx.version,
        obs_domain: ctx.obs_domain,
        template_id: Some(ctx.template_id),
        export_time: ctx.export_time,
        sequence: ctx.sequence,
        // sourceIPv4Address, exporterIPv4Address, sourceIPv6Address, exporterIPv6Address
        src_addr: address(fields, vals, n, set![8u16, 130], set![27u16, 131]),
        // destinationIPv4Address, postNATDestinationIPv4Address, destinationIPv6Address
        dst_addr: address(fields, vals, n, set![12u16, 226], set![28u16]),
        // sourceTransportPort, udpSourcePort, tcpSourcePort
        src_port: low_u16(latest(fields, vals, n, set![7u16, 180, 182])),
        // destinationTransportPort, udpDestinationPort, tcpDestinationPort
        dst_port: low_u16(latest(fields, vals, n, set![11u16, 181, 183])),
        // protocolIdentifier
        protocol: low_u8(latest(fields, vals, n, set![4u16])),
        // tcpControlBits
        tcp_flags: low_u8(latest(fields, vals, n, set![6u16])),
        // octetDeltaCount, else postOctetDeltaCount, octetTotalCount, layer 2 counts
        bytes: tally(fields, vals, n, set![1u16], set![23u16, 85, 351, 352]),
        // packetDeltaCount, else postPacketDeltaCount, packetTotalCount
        packets: tally(fields, vals, n, set![2u16], set![24u16, 86]),
        // flowStartSeconds, ..Milliseconds, ..Microseconds, ..Nanoseconds, ..SysUpTime
        flow_start: time_of(
            moment(fields, vals, n, 150, 152, set![154u16, 156]),
            low_u32(latest(fields, vals, n, set![22u16])),
            ctx,
        ),
        // flowEndSeconds, ..Milliseconds, ..Microseconds, ..Nanoseconds, ..SysUpTime
        flow_end: time_of(
            moment(fields, vals, n, 151, 153, set![155u16, 157]),
            low_u32(latest(fields, vals, n, set![21u16])),
            ctx,
        ),
        // bgpSourceAsNumber
        src_as: low_u32(latest(fields, vals, n, set![16u16])),
        // bgpDestinationAsNumber
        dst_as: low_u32(latest(fields, vals, n, set![17u16])),
        // ingressInterface
        input_snmp: low_u32(latest(fields, vals, n, set![10u16])),
        // egressInterface
        output_snmp: low_u32(latest(fields, vals, n, set![14u16])),
        // ipNextHopIPv4Address, bgpNextHopIPv4Address, and both for IPv6
        next_hop: address(fields, vals, n, set![15u16, 18], set![62u16, 63]),
        // ipClassOfService, ipDiffServCodePoint
        tos: low_u8(latest(fields, vals, n, set![5u16, 195])),
        // sourceIPv4PrefixLength, sourceIPv6PrefixLength
        src_mask: low_u8(latest(fields, vals, n, set![9u16, 29])),
        // destinationIPv4PrefixLength, destinationIPv6PrefixLength
        dst_mask: low_u8(latest(fields, vals, n, set![13u16, 30])),
        // samplingInterval, samplingPacketInterval
        sampling_rate: low_u32(latest(fields, vals, n, set![34u16, 305])),
        // flowDirection
        direction: low_u8(latest(fields, vals, n, set![61u16])),
        raw_fields: kept(fields, vals, n),
        diagnostics: if has_unnamed(fields, n) {
            Some("enterprise-unmapped"@)
        } else {
            None
        },
    }
}

/// The number that decoding reads off a value is the value's number.
proof fn lemma_amount(b: Seq<u8>)
    ensures
        uint_of(b) == amount(b),
{
    if b.len() <= 8 {
        assert(b.take(b.len() as int) =~= b);
        lemma_number(b);
    } else {
        lemma_number(b.take(8));
    }
}

/// Reducing to 64 signed bits.
proof fn lemma_signed64(x: int)
    ensures
        wrap_i64(x) == signed64(x),
{
}

/// Eight bytes in NTP form.
proof fn lemma_ntp(b: Seq<u8>)
    requires
        b.len() == 8,
    ensures
        ntp_of(b) == Some(ntp_micros(b) as i64),
{
    lemma_number(b.take(4));
    lemma_number(b.skip(4));
}

/// The columns that hold the low bits of a number.
spec fn small_columns(row: FlowView, fields: Seq<FieldView>, vals: Seq<Seq<u8>>, n: nat) -> bool {
    &&& row.src_port == low_u16(latest(fields, vals, n, set![7u16, 180, 182]))
    &&& row.dst_port == low_u16(latest(fields, vals, n, set![11u16, 181, 183]))
    &&& row.protocol == low_u8(latest(fields, vals, n, set![4u16]))
    &&& row.tcp_flags == low_u8(latest(fields, vals, n, set![6u16]))
    &&& row.tos == low_u8(latest(fields, vals, n, set![5u16, 195]))
    &&& row.src_mask == low_u8(latest(fields, vals, n, set![9u16, 29]))
    &&& row.dst_mask == low_u8(latest(fields, vals, n, set![13u16, 30]))
    &&& row.direction == low_u8(latest(fields, vals, n, set![61u16]))
}

/// The columns that hold the low 32 bits of a number, and the stamps.
spec fn wide_columns(st: RowState, fields: Seq<FieldView>, vals: Seq<Seq<u8>>, n: nat) -> bool {
    &&& st.row.src_as == low_u32(latest(fields, vals, n, set![16u16]))
    &&& st.row.dst_as == low_u32(latest(fields, vals, n, set![17u16]))
    &&& st.row.input_snmp == low_u32(latest(fields, vals, n, set![10u16]))
    &&& st.row.output_snmp == low_u32(latest(fields, vals, n, set![14u16]))
    &&& st.row.sampling_rate == low_u32(latest(fields, vals, n, set![34u16, 305]))
    &&& st.start_sysup == low_u32(latest(fields, vals, n, set![22u16]))
    &&& st.end_sysup == low_u32(latest(fields, vals, n, set![21u16]))
}

/// The columns that count.
spec fn count_columns(row: FlowView, fields: Seq<FieldView>, vals: Seq<Seq<u8>>, n: nat) -> bool {
    &&& row.bytes == tally(fields, vals, n, set![1u16], set![23u16, 85, 351, 352])
    &&& row.packets == tally(fields, vals, n, set![2u16], set![24u16, 86])
}

/// The columns that hold addresses.
spec fn address_columns(row: FlowView, fields: Seq<FieldView>, vals: Seq<Seq<u8>>, n: nat) -> bool {
    &&& row.src_addr == address(fields, vals, n, set![8u16, 130], set![27u16, 131])
    &&& row.dst_addr == address(fields, vals, n, set![12u16, 226], set![28u16])
    &&& row.next_hop == address(fields, vals, n, set![15u16, 18], set![62u16, 63])
}

/// The columns that hold times.
spec fn time_columns(row: FlowView, fields: Seq<FieldView>, vals: Seq<Seq<u8>>, n: nat) -> bool {
    &&& row.flow_start == moment(fields, vals, n, 150, 152, set![154u16, 156])
    &&& row.flow_end == moment(fields, vals, n, 151, 153, set![155u16, 157])
}

/// The columns that do not come from a field, and what is kept.
spec fn other_columns(
    row: FlowView,
    ctx: CtxView,
    fields: Seq<FieldView>,
    vals: Seq<Seq<u8>>,
    n: nat,
) -> bool {
    &&& row.exporter == ctx.exporter
    &&& row.flow_version == ctx.version
    &&& row.obs_domain == ctx.obs_domain
    &&& row.template_id == Some(ctx.template_id)
    &&& row.export_time == ctx.export_time
    &&& row.sequence == ctx.sequence
    &&& row.raw_fields == kept(fields, vals, n)
    &&& row.diagnostics == if has_unnamed(fields, n) {
        Some("enterprise-unmapped"@)
    } else {
        None
    }
}

/// The state after some fields.
spec fn after_fields(
    ctx: CtxView,
    fields: Seq<FieldView>,
    vals: Seq<Seq<u8>>,
    n: nat,
) -> RowState {
    with_fields(row_start(ctx), fields, vals, n)
}

/// The columns of one and two bytes.
proof fn lemma_small_columns(ctx: CtxView, fields: Seq<FieldView>, vals: Seq<Seq<u8>>, n: nat)
    ensures
        small_columns(after_fields(ctx, fields, vals, n).row, fields, vals, n),
    decreases n,
{
    if n > 0 {
        lemma_small_columns(ctx, fields, vals, (n - 1) as nat);
        lemma_amount(vals[n - 1]);
    }
}

/// The columns of four bytes.
proof fn lemma_wide_columns(ctx: CtxView, fields: Seq<FieldView>, vals: Seq<Seq<u8>>, n: nat)
    ensures
        wide_columns(after_fields(ctx, fields, vals, n), fields, vals, n),
    decreases n,
{
    if n > 0 {
        lemma_wide_columns(ctx, fields, vals, (n - 1) as nat);
        lemma_amount(vals[n - 1]);
    }
}

/// The columns of counts.
proof fn lemma_count_columns(ctx: CtxView, fields: Seq<FieldView>, vals: Seq<Seq<u8>>, n: nat)
    ensures
        count_columns(after_fields(ctx, fields, vals, n).row, fields, vals, n),
    decreases n,
{
    if n > 0 {
        lemma_count_columns(ctx, fields, vals, (n - 1) as nat);
        lemma_amount(vals[n - 1]);
    }
}

/// The columns of addresses.
proof fn lemma_address_columns(ctx: CtxView, fields: Seq<FieldView>, vals: Seq<Seq<u8>>, n: nat)
    ensures
        address_columns(after_fields(ctx, fields, vals, n).row, fields, vals, n),
    decreases n,
{
    if n > 0 {
        let b = vals[n - 1];
        lemma_address_columns(ctx, fields, vals, (n - 1) as nat);
        lemma_number(b);
        if b.len() == 16 {
            lemma_host6(b);
        }
    }
}

/// The columns of times.
proof fn lemma_time_columns(ctx: CtxView, fields: Seq<FieldView>, vals: Seq<Seq<u8>>, n: nat)
    ensures
        time_columns(after_fields(ctx, fields, vals, n).row, fields, vals, n),
    decreases n,
{
    if n > 0 {
        let b = vals[n - 1];
        lemma_time_columns(ctx, fields, vals, (n - 1) as nat);
        lemma_amount(b);
        lemma_signed64(amount(b) as int * 1_000_000);
        lemma_signed64(amount(b) as int * 1_000);
        if b.len() == 8 {
            lemma_ntp(b);
        }
    }
}

/// A note that is the only one is there.
proof fn lemma_only_note(msg: Seq<char>)
    requires
        forall|i: int| 0 <= i < msg.len() ==> msg[i] != ';',
    ensures
        noted(None, msg) == Some(msg),
        noted(Some(msg), msg) == Some(msg),
{
    assert(crate::normalize::is_part(msg, 0, msg.len() as int));
    assert(msg.subrange(0, msg.len() as int) =~= msg);
}

/// What has no column of its own, and the notes.
proof fn lemma_other_columns(ctx: CtxView, fields: Seq<FieldView>, vals: Seq<Seq<u8>>, n: nat)
    ensures
        other_columns(after_fields(ctx, fields, vals, n).row, ctx, fields, vals, n),
    decreases n,
{
    if n > 0 {
        let m = (n - 1) as nat;
        lemma_other_columns(ctx, fields, vals, m);
        reveal_strlit("enterprise-unmapped");
        lemma_only_note("enterprise-unmapped"@);
        let f = fields[n - 1];
        let unnamed = f.enterprise_number != 0 && f.name.len() > 0 && f.name[0] == 'e' && f.ie_type
            == "octetArray"@;
        assert(has_unnamed(fields, n) <==> has_unnamed(fields, m) || unnamed) by {
            if has_unnamed(fields, m) {
                let i = choose|i: int|
                    0 <= i < m && (#[trigger] fields[i]).enterprise_number != 0
                        && fields[i].name.len() > 0 && fields[i].name[0] == 'e'
                        && fields[i].ie_type == "octetArray"@;
                assert(fields[i].enterprise_number != 0);
            }
        }
    }
}

/// Every column of a decoded record shows what belongs to it.
#[verifier::rlimit(40)]
pub proof fn lemma_record_row(ctx: CtxView, fields: Seq<FieldView>, vals: Seq<Seq<u8>>)
    ensures
        finished(with_fields(row_start(ctx), fields, vals, fields.len()), ctx) == record_row(
            ctx,
            fields,
            vals,
        ),
{
    let n = fields.len();
    lemma_small_columns(ctx, fields, vals, n);
    lemma_wide_columns(ctx, fields, vals, n);
    lemma_count_columns(ctx, fields, vals, n);
    lemma_address_columns(ctx, fields, vals, n);
    lemma_time_columns(ctx, fields, vals, n);
    lemma_other_columns(ctx, fields, vals, n);
    let st = after_fields(ctx, fields, vals, n);
    assert(finished(st, ctx).flow_start == record_row(ctx, fields, vals).flow_start);
    assert(finished(st, ctx).flow_end == record_row(ctx, fields, vals).flow_end);
    assert(finished(st, ctx) =~= record_row(ctx, fields, vals));
}

/// Whether a field is of variable length: its length is written with each value.
pub open spec fn is_variable(f: FieldView) -> bool {
    f.length == 65_535
}

/// A value as a field holds it on the wire: as it is, or, of variable length, behind
/// its length in one byte; a length of 255 and more, or one that is written `long`,
/// stands in two bytes behind a byte of 255.
pub open spec fn value_bytes(f: FieldView, v: Seq<u8>, long: bool) -> Seq<u8> {
    if !is_variable(f) {
        v
    } else if v.len() < 255 && !long {
        seq![v.len() as u8] + v
    } else {
        seq![255u8] + w16(v.len() as u16) + v
    }
}

/// A value that a field can hold.
pub open spec fn fits(f: FieldView, v: Seq<u8>) -> bool {
    if is_variable(f) {
        v.len() <= 65_535
    } else {
        v.len() == f.length
    }
}

/// A record: a value for each field, and how its length is written.
pub struct Record {
    pub vals: Seq<Seq<u8>>,
    pub long: Seq<bool>,
}

/// A record that fields can hold.
pub open spec fn record_fits(fields: Seq<FieldView>, r: Record) -> bool {
    &&& r.vals.len() == fields.len()
    &&& r.long.len() == fields.len()
    &&& forall|i: int| 0 <= i < fields.len() ==> fits(fields[i], #[trigger] r.vals[i])
}

/// The first `n` values of a record on the wire.
pub open spec fn values_bytes(fields: Seq<FieldView>, r: Record, n: nat) -> Seq<u8>
    decreases n,
{
    if n == 0 {
        Seq::empty()
    } else {
        values_bytes(fields, r, (n - 1) as nat) + value_bytes(
            fields[n - 1],
            r.vals[n - 1],
            r.long[n - 1],
        )
    }
}

/// Records on the wire, one after another.
pub open spec fn records_bytes(fields: Seq<FieldView>, rs: Seq<Record>) -> Seq<u8>
    decreases rs.len(),
{
    if rs.len() == 0 {
        Seq::empty()
    } else {
        values_bytes(fields, rs[0], fields.len()) + records_bytes(fields, rs.drop_first())
    }
}

/// The fewest bytes that a record takes: a value of variable length takes one at least.
pub open spec fn least_bytes(fields: Seq<FieldView>) -> nat
    decreases fields.len(),
{
    if fields.len() == 0 {
        0
    } else {
        least_bytes(fields.drop_last()) + if is_variable(fields.last()) {
            1nat
        } else {
            fields.last().length as nat
        }
    }
}

/// One value reads back.
proof fn lemma_value(f: FieldView, v: Seq<u8>, long: bool, rest: Seq<u8>)
    requires
        fits(f, v),
    ensures
        field_bytes(f, value_bytes(f, v, long) + rest) == Some((v, rest)),
{
    let s = value_bytes(f, v, long) + rest;
    let body = v + rest;
    assert(body.take(v.len() as int) =~= v);
    assert(body.skip(v.len() as int) =~= rest);
    if !is_variable(f) {
    } else if v.len() < 255 && !long {
        assert(s.skip(1) =~= body);
    } else {
        let n = v.len() as u16;
        assert(s.skip(1) =~= w16(n) + body);
        lemma_front16(n, body);
    }
}

/// The values of a record read back.
proof fn lemma_values(fields: Seq<FieldView>, r: Record, n: nat, rest: Seq<u8>)
    requires
        record_fits(fields, r),
        n <= fields.len(),
    ensures
        record_bytes(fields, n, values_bytes(fields, r, n) + rest) == Some(
            (r.vals.take(n as int), rest),
        ),
    decreases n,
{
    let s = values_bytes(fields, r, n) + rest;
    if n == 0 {
        assert(s =~= rest);
        assert(r.vals.take(0) =~= Seq::<Seq<u8>>::empty());
    } else {
        let m = (n - 1) as nat;
        let one = value_bytes(fields[n - 1], r.vals[n - 1], r.long[n - 1]);
        lemma_values(fields, r, m, one + rest);
        assert(s =~= values_bytes(fields, r, m) + (one + rest));
        assert(fits(fields[n - 1], r.vals[n - 1]));
        lemma_value(fields[n - 1], r.vals[n - 1], r.long[n - 1], rest);
        assert(r.vals.take(m as int).push(r.vals[n - 1]) =~= r.vals.take(n as int));
    }
}

/// A record that is written by a layout reads back by it: the row shows the values
/// that were written, each in the column that belongs to its element, and what follows
/// the record is left.
#[verifier::rlimit(40)]
pub proof fn lemma_record_reads_back(
    fields: Seq<FieldView>,
    r: Record,
    rest: Seq<u8>,
    ctx: CtxView,
)
    requires
        record_fits(fields, r),
    ensures
        record_of(fields, values_bytes(fields, r, fields.len()) + rest, ctx) == Some(
            (record_row(ctx, fields, r.vals), rest),
        ),
{
    lemma_values(fields, r, fields.len(), rest);
    assert(r.vals.take(fields.len() as int) =~= r.vals);
    lemma_record_row(ctx, fields, r.vals);
}

/// Both ways of counting the fewest bytes agree.
proof fn lemma_least_bytes(fields: Seq<FieldView>)
    ensures
        min_len(fields) == least_bytes(fields),
    decreases fields.len(),
{
    if fields.len() > 0 {
        lemma_least_bytes(fields.drop_last());
    }
}

/// A record takes no fewer bytes than the fewest.
proof fn lemma_record_len(fields: Seq<FieldView>, r: Record, n: nat)
    requires
        record_fits(fields, r),
        n <= fields.len(),
    ensures
        values_bytes(fields, r, n).len() >= least_bytes(fields.take(n as int)),
    decreases n,
{
    if n > 0 {
        lemma_record_len(fields, r, (n - 1) as nat);
        assert(fields.take(n as int).drop_last() =~= fields.take(n - 1));
        assert(fits(fields[n - 1], r.vals[n - 1]));
    }
}

/// The records of a Data Set read back: as many rows as records, in order, each with
/// the values of its own, and padding that is too short for one more is ignored.
#[verifier::rlimit(40)]
pub proof fn lemma_records_read_back(
    fields: Seq<FieldView>,
    rs: Seq<Record>,
    pad: Seq<u8>,
    ctx: CtxView,
)
    requires
        forall|i: int| 0 <= i < rs.len() ==> record_fits(fields, #[trigger] rs[i]),
        pad.len() < least_bytes(fields),
    ensures
        records_of(fields, records_bytes(fields, rs) + pad, ctx) == Seq::new(
            rs.len(),
            |i: int| record_row(ctx, fields, rs[i].vals),
        ),
    decreases rs.len(),
{
    let s = records_bytes(fields, rs) + pad;
    let want = Seq::new(rs.len(), |i: int| record_row(ctx, fields, rs[i].vals));
    lemma_least_bytes(fields);
    if rs.len() == 0 {
        assert(s =~= pad);
        assert(want =~= Seq::<FlowView>::empty());
    } else {
        let tail = rs.drop_first();
        let rest = records_bytes(fields, tail) + pad;
        assert(record_fits(fields, rs[0]));
        assert forall|i: int| 0 <= i < tail.len() implies record_fits(
            fields,
            #[trigger] tail[i],
        ) by {
            assert(tail[i] == rs[i + 1]);
        }
        lemma_records_read_back(fields, tail, pad, ctx);
        lemma_record_reads_back(fields, rs[0], rest, ctx);
        lemma_record_len(fields, rs[0], fields.len());
        assert(fields.take(fields.len() as int) =~= fields);
        assert(s =~= values_bytes(fields, rs[0], fields.len()) + rest);
        assert(seq![record_row(ctx, fields, rs[0].vals)] + Seq::new(
            tail.len(),
            |i: int| record_row(ctx, fields, tail[i].vals),
        ) =~= want);
    }
}

/// A Data Set of records under a template reads back; options records are left out
/// where only flows are wanted.
pub proof fn lemma_data_set_reads_back(
    tpl: EntryView,
    rs: Seq<Record>,
    pad: Seq<u8>,
    ctx: CtxView,
    flows_only: bool,
)
    requires
        forall|i: int| 0 <= i < rs.len() ==> record_fits(tpl.fields, #[trigger] rs[i]),
        pad.len() < least_bytes(tpl.fields),
    ensures
        data_set_rows(tpl, records_bytes(tpl.fields, rs) + pad, ctx, flows_only) == (if flows_only
            && tpl.kind == TemplateKind::Options {
            Seq::empty()
        } else {
            Seq::new(rs.len(), |i: int| record_row(ctx, tpl.fields, rs[i].vals))
        }),
{
    lemma_records_read_back(tpl.fields, rs, pad, ctx);
}

/// A record that ends too early is not made up: what can hold the fewest bytes of a
/// record but not the record gives a row that says `truncated`, and says nothing of a
/// flow.
pub proof fn lemma_cut_record_is_truncated(
    fields: Seq<FieldView>,
    rest: Seq<u8>,
    ctx: CtxView,
)
    requires
        rest.len() > 0,
        rest.len() >= least_bytes(fields),
        record_of(fields, rest, ctx) is None,
    ensures
        ({
            let rows = records_of(fields, rest, ctx);
            &&& rows.len() == 1
            &&& rows[0].diagnostics == Some("truncated"@)
            &&& rows[0].exporter == ctx.exporter
            &&& rows[0].flow_version == ctx.version
            &&& rows[0].obs_domain == ctx.obs_domain
            &&& rows[0].export_time == ctx.export_time
            &&& rows[0].sequence == ctx.sequence
            &&& rows[0].template_id is None
            &&& rows[0].src_addr is None && rows[0].dst_addr is None && rows[0].bytes is None
            &&& rows[0].raw_fields.len() == 0
        }),
{
    lemma_least_bytes(fields);
}

/// The stamps of a v9 flow in absolute time: in a record with one start stamp (element
/// 22) and one end stamp (element 21) and no time given absolutely, the start is the
/// boot plus the start stamp and the end is the boot plus the end stamp. So they are
/// as far apart as the stamps, and a flow that does not end before it starts is not
/// shown to.
#[verifier::rlimit(40)]
pub proof fn lemma_stamps_become_times(
    ctx: CtxView,
    fields: Seq<FieldView>,
    vals: Seq<Seq<u8>>,
    i: int,
    j: int,
    secs: u32,
    uptime: u32,
    start: u32,
    end: u32,
)
    requires
        ctx.export_time == Some((secs * 1_000_000) as i64),
        ctx.sys_uptime_ms == Some(uptime as u64),
        0 <= i < fields.len(),
        0 <= j < fields.len(),
        fields[i].enterprise_number == 0 && fields[i].ie_id == 22,
        fields[j].enterprise_number == 0 && fields[j].ie_id == 21,
        vals[i] == w32(start),
        vals[j] == w32(end),
        forall|k: int|
            #![trigger fields[k]]
            0 <= k < fields.len() && fields[k].enterprise_number == 0 ==> {
                &&& fields[k].ie_id == 22 ==> k == i
                &&& fields[k].ie_id == 21 ==> k == j
                &&& !(150 <= fields[k].ie_id <= 157)
            },
    ensures
        ({
            let row = finished(with_fields(row_start(ctx), fields, vals, fields.len()), ctx);
            let boot = secs * 1_000_000 - uptime * 1_000;
            &&& row.flow_start matches Some(t) && t == boot + start * 1_000
            &&& row.flow_end matches Some(t) && t == boot + end * 1_000
            &&& row.flow_end->0 - row.flow_start->0 == (end - start) * 1_000
            &&& start <= end <==> row.flow_start->0 <= row.flow_end->0
        }),
{
    let n = fields.len();
    let row = finished(with_fields(row_start(ctx), fields, vals, n), ctx);
    lemma_record_row(ctx, fields, vals);
    assert(row.flow_start == time_of(None, Some(start), ctx)) by {
        lemma_latest_only(fields, vals, n, 22, i);
        lemma_no_moment(fields, vals, n, 150, 152, set![154u16, 156]);
        lemma_stamp(start);
    }
    assert(row.flow_end == time_of(None, Some(end), ctx)) by {
        lemma_latest_only(fields, vals, n, 21, j);
        lemma_no_moment(fields, vals, n, 151, 153, set![155u16, 157]);
        lemma_stamp(end);
    }
    lemma_time_of(ctx, secs, uptime, start);
    lemma_time_of(ctx, secs, uptime, end);
}

/// A stamp of four bytes.
proof fn lemma_stamp(v: u32)
    ensures
        low_u32(Some(w32(v))) == Some(v),
{
    lemma_w32(v);
}

/// A stamp counts from the boot, and no such time is out of range.
proof fn lemma_time_of(ctx: CtxView, secs: u32, uptime: u32, stamp: u32)
    requires
        ctx.export_time == Some((secs * 1_000_000) as i64),
        ctx.sys_uptime_ms == Some(uptime as u64),
    ensures
        time_of(None, Some(stamp), ctx) matches Some(t) && t == secs * 1_000_000 - uptime * 1_000
            + stamp * 1_000,
{
    let x = secs * 1_000_000 - uptime * 1_000 + stamp * 1_000;
    assert(-10_000_000_000_000_000 < x < 10_000_000_000_000_000);
    assert(x >= 0 ==> x % 18_446_744_073_709_551_616 == x);
    assert(x < 0 ==> x % 18_446_744_073_709_551_616 == x + 18_446_744_073_709_551_616);
    assert(signed64(x) == x);
}

/// The only field of an element is the last of it.
proof fn lemma_latest_only(
    fields: Seq<FieldView>,
    vals: Seq<Seq<u8>>,
    n: nat,
    id: u16,
    i: int,
)
    requires
        0 <= i < fields.len(),
        n <= fields.len(),
        fields[i].enterprise_number == 0 && fields[i].ie_id == id,
        forall|k: int|
            #![trigger fields[k]]
            0 <= k < fields.len() && fields[k].enterprise_number == 0 && fields[k].ie_id == id
                ==> k == i,
    ensures
        latest(fields, vals, n, set![id]) == if i < n {
            Some(vals[i])
        } else {
            None
        },
    decreases n,
{
    if n > 0 {
        lemma_latest_only(fields, vals, (n - 1) as nat, id, i);
        assert(is_one_of(fields[n - 1], set![id]) <==> n - 1 == i);
    }
}

/// Without an element that gives a time there is none.
proof fn lemma_no_moment(
    fields: Seq<FieldView>,
    vals: Seq<Seq<u8>>,
    n: nat,
    secs: u16,
    millis: u16,
    ntp: Set<u16>,
)
    requires
        n <= fields.len(),
        150 <= secs <= 157,
        150 <= millis <= 157,
        forall|x: u16| #[trigger] ntp.contains(x) ==> 150 <= x <= 157,
        forall|k: int|
            #![trigger fields[k]]
            0 <= k < fields.len() && fields[k].enterprise_number == 0 ==> !(150 <= fields[k].ie_id
                <= 157),
    ensures
        moment(fields, vals, n, secs, millis, ntp) is None,
    decreases n,
{
    if n > 0 {
        lemma_no_moment(fields, vals, (n - 1) as nat, secs, millis, ntp);
        assert(fields[n - 1].enterprise_number == 0 ==> !(150 <= fields[n - 1].ie_id <= 157));
        assert(!is_one_of(fields[n - 1], ntp));
    }
}

} // verus!
