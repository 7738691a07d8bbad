//! The wire formats, read backwards: what an exporter writes down is what the
//! decoders give back. Each format is written here value by value, as its
//! publication lays it out, and the laws say that decoding recovers the values.

use vstd::arithmetic::power::pow;
use vstd::prelude::*;

use crate::buf::{at16, at32, be, front16, front32, lemma_be2, lemma_be4};
use crate::inet::{inet4_of, inet6_of, InetView};
use crate::normalize::FlowView;

pub mod fields;
pub mod layouts;
pub mod messages;
pub mod netflow5;
pub mod refusals;
pub mod samples;
pub mod sflow;
pub mod soundness;

verus! {

/// A 16-bit number on the wire: the higher byte, then the lower.
pub open spec fn w16(v: u16) -> Seq<u8> {
    seq![(v / 256) as u8, (v % 256) as u8]
}

/// A 32-bit number on the wire: the higher half, then the lower.
pub open spec fn w32(v: u32) -> Seq<u8> {
    w16((v / 65_536) as u16) + w16((v % 65_536) as u16)
}

/// The number that bytes in network order stand for: the first weighs most.
pub open spec fn number(b: Seq<u8>) -> nat
    decreases b.len(),
{
    if b.len() == 0 {
        0
    } else {
        b[0] as nat * (pow(256, (b.len() - 1) as nat) as nat) + number(b.drop_first())
    }
}

/// The host cell of an IPv4 address, given as a number: type 1, a full mask.
pub open spec fn host4(address: u32) -> InetView {
    InetView { ip_type: 1, address: address as int, mask: 32 }
}

/// The host cell of an IPv6 address, given as sixteen bytes: type 2, a full mask,
/// and the number shifted down by 2^127 so that it fits a signed one.
pub open spec fn host6(address: Seq<u8>) -> InetView {
    InetView {
        ip_type: 2,
        address: number(address) - 170_141_183_460_469_231_731_687_303_715_884_105_728,
        mask: 128,
    }
}

/// A row that says where it comes from and nothing of a flow.
pub open spec fn bare_row(
    exporter: Seq<char>,
    flow_version: Seq<char>,
    obs_domain: u32,
    export_time: Option<i64>,
    sequence: Option<u64>,
    diagnostics: Option<Seq<char>>,
) -> FlowView {
    FlowView {
        exporter,
        flow_version,
        obs_domain,
        template_id: None,
        export_time,
        sequence,
        src_addr: None,
        dst_addr: None,
        src_port: None,
        dst_port: None,
        protocol: None,
        tcp_flags: None,
        bytes: None,
        packets: None,
        flow_start: None,
        flow_end: None,
        src_as: None,
        dst_as: None,
        input_snmp: None,
        output_snmp: None,
        next_hop: None,
        tos: None,
        src_mask: None,
        dst_mask: None,
        sampling_rate: None,
        direction: None,
        raw_fields: Seq::empty(),
        diagnostics,
    }
}

/// Reading from the back or from the front makes no difference.
pub proof fn lemma_number(b: Seq<u8>)
    ensures
        be(b) == number(b),
    decreases b.len(),
{
    if b.len() > 0 {
        lemma_number_push(b.drop_last(), b.last());
        lemma_number(b.drop_last());
        assert(b.drop_last().push(b.last()) =~= b);
    }
}

/// One byte more makes the others weigh 256 times as much.
proof fn lemma_number_push(b: Seq<u8>, x: u8)
    ensures
        number(b.push(x)) == number(b) * 256 + x,
    decreases b.len(),
{
    reveal(pow);
    let more = b.push(x);
    if b.len() == 0 {
        assert(more.drop_first() =~= Seq::<u8>::empty());
        assert(pow(256, 0) == 1);
        assert(number(more.drop_first()) == 0);
        assert(number(more) == x * 1 + 0);
    } else {
        let n = (b.len() - 1) as nat;
        lemma_number_push(b.drop_first(), x);
        assert(more.drop_first() =~= b.drop_first().push(x));
        vstd::arithmetic::power::lemma_pow_positive(256, n);
        vstd::arithmetic::power::lemma_pow_positive(256, b.len());
        let p = pow(256, n);
        assert(pow(256, b.len()) == 256 * p);
        let rest = number(b.drop_first()) as int;
        let top = b[0] as int;
        assert(top * (256 * p) + (rest * 256 + x) == (top * p + rest) * 256 + x)
            by (nonlinear_arith);
    }
}

/// What a 16-bit number is written as reads back, wherever it stands.
pub proof fn lemma_at16(s: Seq<u8>, i: int, v: u16)
    requires
        0 <= i,
        i + 2 <= s.len(),
        s[i] == w16(v)[0],
        s[i + 1] == w16(v)[1],
    ensures
        at16(s, i) == v,
{
    lemma_be2(s.subrange(i, i + 2));
}

/// What a 32-bit number is written as reads back, wherever it stands.
pub proof fn lemma_at32(s: Seq<u8>, i: int, v: u32)
    requires
        0 <= i,
        i + 4 <= s.len(),
        s[i] == w32(v)[0],
        s[i + 1] == w32(v)[1],
        s[i + 2] == w32(v)[2],
        s[i + 3] == w32(v)[3],
    ensures
        at32(s, i) == v,
        s.subrange(i, i + 4) == w32(v),
{
    lemma_be4(s.subrange(i, i + 4));
    lemma_w32(v);
    assert(s.subrange(i, i + 4) =~= w32(v));
}

/// The bytes of a 32-bit number weigh powers of 256.
pub proof fn lemma_w32(v: u32)
    ensures
        w32(v).len() == 4,
        be(w32(v)) == v,
        number(w32(v)) == v,
{
    let (hi, lo) = ((v / 65_536) as u16, (v % 65_536) as u16);
    lemma_be4(w32(v));
    lemma_number(w32(v));
    assert(hi == (hi / 256) * 256 + hi % 256);
    assert(lo == (lo / 256) * 256 + lo % 256);
    assert(v == hi * 65_536 + lo);
}

/// The bytes of a 16-bit number weigh powers of 256.
pub proof fn lemma_w16(v: u16)
    ensures
        w16(v).len() == 2,
        be(w16(v)) == v,
        number(w16(v)) == v,
{
    lemma_be2(w16(v));
    lemma_number(w16(v));
}

/// Numbers inside a part stand in the whole as far on as the part does.
pub proof fn lemma_inside(s: Seq<u8>, from: int, part: Seq<u8>, i: int)
    requires
        0 <= from,
        0 <= i,
        from + part.len() <= s.len(),
        s.subrange(from, from + part.len()) == part,
    ensures
        i + 2 <= part.len() ==> at16(s, from + i) == at16(part, i),
        i + 4 <= part.len() ==> at32(s, from + i) == at32(part, i),
        i + 4 <= part.len() ==> s.subrange(from + i, from + i + 4) == part.subrange(i, i + 4),
        i < part.len() ==> s[from + i] == part[i],
{
    let whole = s.subrange(from, from + part.len());
    if i + 2 <= part.len() {
        assert(s.subrange(from + i, from + i + 2) =~= whole.subrange(i, i + 2));
    }
    if i + 4 <= part.len() {
        assert(s.subrange(from + i, from + i + 4) =~= whole.subrange(i, i + 4));
    }
    if i < part.len() {
        assert(s[from + i] == whole[i]);
    }
}

/// A 16-bit number at the front reads back, and what follows it is left.
pub proof fn lemma_front16(v: u16, rest: Seq<u8>)
    ensures
        front16(w16(v) + rest) == v,
        (w16(v) + rest).skip(2) == rest,
        (w16(v) + rest).len() == 2 + rest.len(),
{
    let s = w16(v) + rest;
    assert(s.take(2) =~= w16(v));
    assert(s.skip(2) =~= rest);
    lemma_w16(v);
}

/// A 32-bit number at the front reads back, and what follows it is left.
pub proof fn lemma_front32(v: u32, rest: Seq<u8>)
    ensures
        front32(w32(v) + rest) == v,
        (w32(v) + rest).skip(4) == rest,
        (w32(v) + rest).take(4) == w32(v),
        (w32(v) + rest).len() == 4 + rest.len(),
{
    let s = w32(v) + rest;
    assert(s.take(4) =~= w32(v));
    assert(s.skip(4) =~= rest);
    lemma_w32(v);
}

/// The cell of an IPv4 address on the wire.
pub proof fn lemma_host4(address: u32)
    ensures
        inet4_of(w32(address)) == Some(host4(address)),
{
    lemma_w32(address);
}

/// The cell of an IPv6 address on the wire.
pub proof fn lemma_host6(address: Seq<u8>)
    requires
        address.len() == 16,
    ensures
        inet6_of(address) == Some(host6(address)),
{
    lemma_number(address);
}

} // verus!
