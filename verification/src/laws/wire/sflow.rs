//! sFlow v5 on the wire, down to the sampled packets.

use vstd::prelude::*;

use crate::buf::{after, at32, enc32};
use crate::decode::sflow::{
    byte_or0, cell4, cell6, half_or0, scaled, with_flow_record, with_frame, with_ipv4, with_ipv6,
    with_l4, with_raw_header, with_sampled_ipv4, with_sampled_ipv6, word_or,
};
use crate::laws::wire::{
    host4, host6, lemma_front16, lemma_front32, lemma_host4, lemma_host6, lemma_w32, w16, w32,
};
use crate::normalize::FlowView;

verus! {

/// Words of 32 bits, one after another.
pub open spec fn words(ws: Seq<u32>) -> Seq<u8>
    decreases ws.len(),
{
    if ws.len() == 0 {
        Seq::empty()
    } else {
        words(ws.drop_last()) + w32(ws.last())
    }
}

/// What a transport header says.
pub enum Transport {
    Tcp { src_port: u16, dst_port: u16, sequence: u32, ack: u32, offset: u8, flags: u8 },
    Udp { src_port: u16, dst_port: u16 },
    Other { protocol: u8 },
}

impl Transport {
    /// The protocol number: 6 is TCP and 17 is UDP.
    pub open spec fn protocol(self) -> u8 {
        match self {
            Transport::Tcp { .. } => 6,
            Transport::Udp { .. } => 17,
            Transport::Other { protocol } => protocol,
        }
    }

    /// The header as far as it matters: the source port comes first.
    pub open spec fn bytes(self) -> Seq<u8> {
        match self {
            Transport::Tcp { src_port, dst_port, sequence, ack, offset, flags } => w16(src_port)
                + w16(dst_port) + (w32(sequence) + w32(ack)) + seq![offset] + seq![flags],
            Transport::Udp { src_port, dst_port } => w16(src_port) + w16(dst_port),
            Transport::Other { .. } => Seq::empty(),
        }
    }

    /// No other protocol goes under the number of one of the two.
    pub open spec fn valid(self) -> bool {
        self is Other ==> self.protocol() != 6 && self.protocol() != 17
    }

    /// The row with the ports, and of TCP the flags.
    pub open spec fn shown(self, row: FlowView) -> FlowView {
        match self {
            Transport::Tcp { src_port, dst_port, flags, .. } => FlowView {
                src_port: Some(src_port),
                dst_port: Some(dst_port),
                tcp_flags: Some(flags),
                ..row
            },
            Transport::Udp { src_port, dst_port } => FlowView {
                src_port: Some(src_port),
                dst_port: Some(dst_port),
                ..row
            },
            Transport::Other { .. } => row,
        }
    }
}

/// What an IP header says.
pub enum Network {
    V4 {
        tos: u8,
        length: u16,
        ident: u16,
        fragment: u16,
        ttl: u8,
        checksum: u16,
        src: u32,
        dst: u32,
        options: Seq<u8>,
    },
    V6 { flow: u32, length: u16, hops: u8, src: Seq<u8>, dst: Seq<u8> },
}

impl Network {
    /// The type that announces the header in an Ethernet frame.
    pub open spec fn ethertype(self) -> u16 {
        match self {
            Network::V4 { .. } => 0x0800,
            Network::V6 { .. } => 0x86dd,
        }
    }

    /// The header in front of a transport protocol. Of IPv4, the low half of the first
    /// byte is the length of the header in words.
    pub open spec fn bytes(self, protocol: u8) -> Seq<u8> {
        match self {
            Network::V4 { tos, length, ident, fragment, ttl, checksum, src, dst, options } => (seq![
                (64 + 5 + options.len() / 4) as u8,
                tos,
            ] + w16(length) + w16(ident) + w16(fragment) + seq![ttl, protocol] + w16(checksum))
                + w32(src) + w32(dst) + options,
            Network::V6 { flow, length, hops, src, dst } => (w32(flow) + w16(length) + seq![
                protocol,
                hops,
            ]) + src + dst,
        }
    }

    /// A header that can be written.
    pub open spec fn valid(self) -> bool {
        match self {
            Network::V4 { options, .. } => options.len() <= 40 && options.len() % 4 == 0,
            Network::V6 { src, dst, .. } => src.len() == 16 && dst.len() == 16,
        }
    }

    /// The row with the addresses, the protocol, and of IPv4 the type of service.
    pub open spec fn shown(self, protocol: u8, row: FlowView) -> FlowView {
        match self {
            Network::V4 { tos, src, dst, .. } => FlowView {
                src_addr: Some(host4(src)),
                dst_addr: Some(host4(dst)),
                protocol: Some(protocol),
                tos: Some(tos),
                ..row
            },
            Network::V6 { src, dst, .. } => FlowView {
                src_addr: Some(host6(src)),
                dst_addr: Some(host6(dst)),
                protocol: Some(protocol),
                ..row
            },
        }
    }
}

/// What a sampled Ethernet frame holds.
pub struct Packet {
    /// Destination and source on the link.
    pub link: Seq<u8>,
    /// The 802.1Q tag, if there is one.
    pub tag: Option<u16>,
    pub network: Network,
    pub transport: Transport,
    /// What follows the transport header, as far as it was sampled.
    pub payload: Seq<u8>,
}

impl Packet {
    /// The frame on the wire.
    pub open spec fn bytes(self) -> Seq<u8> {
        self.link + (match self.tag {
            Some(tag) => w16(0x8100) + w16(tag),
            None => Seq::empty(),
        }) + (w16(self.network.ethertype()) + (self.network.bytes(self.transport.protocol()) + (
        self.transport.bytes() + self.payload)))
    }

    /// A frame that can be written.
    pub open spec fn valid(self) -> bool {
        &&& self.link.len() == 12
        &&& self.network.valid()
        &&& self.transport.valid()
    }

    /// The row with what the frame shows.
    pub open spec fn shown(self, row: FlowView) -> FlowView {
        self.transport.shown(self.network.shown(self.transport.protocol(), row))
    }
}

/// What was taken off is what follows.
proof fn lemma_after(p: Seq<u8>, q: Seq<u8>)
    ensures
        after(p + q, p.len() as int) == q,
        (p + q).len() == p.len() + q.len(),
{
    assert((p + q).skip(p.len() as int) =~= q);
}

/// Taking off a 16-bit number.
proof fn lemma_half(v: u16, rest: Seq<u8>)
    ensures
        half_or0(w16(v) + rest) == v,
        after(w16(v) + rest, 2) == rest,
{
    lemma_front16(v, rest);
}

/// Taking off a byte.
proof fn lemma_byte(v: u8, rest: Seq<u8>)
    ensures
        byte_or0(seq![v] + rest) == v,
        after(seq![v] + rest, 1) == rest,
        (seq![v] + rest).skip(1) == rest,
        (seq![v] + rest)[0] == v,
{
    assert((seq![v] + rest).skip(1) =~= rest);
}

/// A transport header reads back.
#[verifier::rlimit(40)]
proof fn lemma_transport(t: Transport, rest: Seq<u8>, row: FlowView)
    requires
        t.valid(),
    ensures
        with_l4(t.bytes() + rest, t.protocol(), row) == t.shown(row),
{
    let s = t.bytes() + rest;
    match t {
        Transport::Tcp { src_port, dst_port, sequence, ack, offset, flags } => {
            let s4 = seq![flags] + rest;
            let s3 = seq![offset] + s4;
            let s2 = (w32(sequence) + w32(ack)) + s3;
            let s1 = w16(dst_port) + s2;
            assert(s =~= w16(src_port) + s1);
            lemma_half(src_port, s1);
            lemma_half(dst_port, s2);
            lemma_w32(sequence);
            lemma_w32(ack);
            lemma_after(w32(sequence) + w32(ack), s3);
            lemma_byte(offset, s4);
            lemma_byte(flags, rest);
        },
        Transport::Udp { src_port, dst_port } => {
            let s1 = w16(dst_port) + rest;
            assert(s =~= w16(src_port) + s1);
            lemma_half(src_port, s1);
            lemma_half(dst_port, rest);
        },
        Transport::Other { .. } => {},
    }
}

/// Where the parts of an IPv4 header stand.
proof fn lemma_ipv4_parts(s: Seq<u8>, row: FlowView)
    requires
        s.len() >= 20,
    ensures
        ({
            let ihl = (s[0] % 16) * 4;
            let l4 = if ihl > 20 {
                after(s.skip(20), ihl - 20)
            } else {
                s.skip(20)
            };
            with_ipv4(s, row) == with_l4(
                l4,
                s[9],
                FlowView {
                    src_addr: cell4(s.skip(12)),
                    dst_addr: cell4(s.skip(16)),
                    protocol: Some(s[9]),
                    tos: Some(s[1]),
                    ..row
                },
            )
        }),
{
    broadcast use crate::buf::lemma_skip_skip;

    let p = s.skip(1).skip(1);
    assert(p == s.skip(2));
    assert(after(p, 2) == s.skip(4));
    assert(after(s.skip(4), 2) == s.skip(6));
    assert(after(s.skip(6), 2) == s.skip(8));
    assert(after(s.skip(8), 1) == s.skip(9));
    assert(after(s.skip(9), 1) == s.skip(10));
    assert(after(s.skip(10), 2) == s.skip(12));
    assert(after(s.skip(12), 4) == s.skip(16));
    assert(after(s.skip(16), 4) == s.skip(20));
}

/// Where the parts of an IPv6 header stand.
proof fn lemma_ipv6_parts(s: Seq<u8>, row: FlowView)
    requires
        s.len() >= 40,
    ensures
        with_ipv6(s, row) == with_l4(
            s.skip(40),
            s[6],
            FlowView {
                src_addr: cell6(s.skip(8)),
                dst_addr: cell6(s.skip(24)),
                protocol: Some(s[6]),
                ..row
            },
        ),
{
    broadcast use crate::buf::lemma_skip_skip;

    assert(after(s.skip(4), 2) == s.skip(6));
    assert(after(s.skip(6), 1) == s.skip(7));
    assert(after(s.skip(7), 1) == s.skip(8));
    assert(after(s.skip(8), 16) == s.skip(24));
    assert(after(s.skip(24), 16) == s.skip(40));
}

/// The fixed part of an IPv4 header, up to the addresses.
spec fn ipv4_head(n: Network, protocol: u8) -> Seq<u8> {
    match n {
        Network::V4 { tos, length, ident, fragment, ttl, checksum, options, .. } => seq![
            (64 + 5 + options.len() / 4) as u8,
            tos,
        ] + w16(length) + w16(ident) + w16(fragment) + seq![ttl, protocol] + w16(checksum),
        _ => Seq::empty(),
    }
}

/// What stands where in the fixed part.
proof fn lemma_ipv4_head(n: Network, protocol: u8)
    requires
        n is V4,
        n.valid(),
    ensures
        ipv4_head(n, protocol).len() == 12,
        ipv4_head(n, protocol)[0] == 69 + n->options.len() / 4,
        ipv4_head(n, protocol)[1] == n->tos,
        ipv4_head(n, protocol)[9] == protocol,
{
}

/// An IPv4 header in its parts.
proof fn lemma_ipv4_bytes(n: Network, protocol: u8, l4: Seq<u8>)
    requires
        n is V4,
        n.valid(),
    ensures
        ({
            let s = n.bytes(protocol) + l4;
            let end = n->options + l4;
            &&& s.len() >= 20
            &&& s[0] == 69 + n->options.len() / 4
            &&& s[1] == n->tos
            &&& s[9] == protocol
            &&& s.skip(12) == w32(n->V4_src) + (w32(n->V4_dst) + end)
            &&& s.skip(16) == w32(n->V4_dst) + end
            &&& s.skip(20) == end
        }),
{
    lemma_ipv4_head(n, protocol);
    let head = ipv4_head(n, protocol);
    let (a, d) = (w32(n->V4_src), w32(n->V4_dst));
    let end = n->options + l4;
    let s = n.bytes(protocol) + l4;
    assert(n.bytes(protocol) == head + a + d + n->options);
    assert(a.len() == 4 && d.len() == 4);
    lemma_four_parts(head, a, d, n->options, l4);
}

/// Four texts one after another, and a fifth.
proof fn lemma_four_parts(head: Seq<u8>, a: Seq<u8>, d: Seq<u8>, o: Seq<u8>, rest: Seq<u8>)
    requires
        head.len() == 12,
        a.len() == 4,
        d.len() == 4,
    ensures
        ({
            let s = head + a + d + o + rest;
            &&& s.len() >= 20
            &&& s[0] == head[0]
            &&& s[1] == head[1]
            &&& s[9] == head[9]
            &&& s.skip(12) == a + (d + (o + rest))
            &&& s.skip(16) == d + (o + rest)
            &&& s.skip(20) == o + rest
        }),
{
    let s = head + a + d + o + rest;
    assert(s.skip(12) =~= a + (d + (o + rest)));
    assert(s.skip(16) =~= d + (o + rest));
    assert(s.skip(20) =~= o + rest);
}

/// An IPv4 header by what stands in its places.
#[verifier::rlimit(40)]
proof fn lemma_ipv4_places(
    s: Seq<u8>,
    options: Seq<u8>,
    l4: Seq<u8>,
    src: u32,
    dst: u32,
    row: FlowView,
)
    requires
        s.len() >= 20,
        options.len() <= 40,
        options.len() % 4 == 0,
        s[0] == 69 + options.len() / 4,
        s.skip(12) == w32(src) + (w32(dst) + (options + l4)),
        s.skip(16) == w32(dst) + (options + l4),
        s.skip(20) == options + l4,
    ensures
        with_ipv4(s, row) == with_l4(
            l4,
            s[9],
            FlowView {
                src_addr: Some(host4(src)),
                dst_addr: Some(host4(dst)),
                protocol: Some(s[9]),
                tos: Some(s[1]),
                ..row
            },
        ),
{
    let end = options + l4;
    assert(cell4(s.skip(12)) == Some(host4(src))) by {
        lemma_front32(src, w32(dst) + end);
        lemma_host4(src);
    }
    assert(cell4(s.skip(16)) == Some(host4(dst))) by {
        lemma_front32(dst, end);
        lemma_host4(dst);
    }
    assert((s[0] % 16) * 4 == 20 + options.len());
    if options.len() == 0 {
        assert(end =~= l4);
    } else {
        assert(after(end, options.len() as int) == l4) by {
            lemma_after(options, l4);
        }
    }
    lemma_ipv4_parts(s, row);
}

/// An IPv4 header reads back.
#[verifier::rlimit(40)]
proof fn lemma_ipv4(n: Network, t: Transport, rest: Seq<u8>, row: FlowView)
    requires
        n is V4,
        n.valid(),
        t.valid(),
    ensures
        with_ipv4(n.bytes(t.protocol()) + (t.bytes() + rest), row) == t.shown(
            n.shown(t.protocol(), row),
        ),
{
    let l4 = t.bytes() + rest;
    let proto = t.protocol();
    let s = n.bytes(proto) + l4;
    lemma_transport(t, rest, n.shown(proto, row));
    lemma_ipv4_bytes(n, proto, l4);
    lemma_ipv4_places(s, n->options, l4, n->V4_src, n->V4_dst, row);
}

/// An IPv6 header reads back.
proof fn lemma_ipv6(n: Network, t: Transport, rest: Seq<u8>, row: FlowView)
    requires
        n is V6,
        n.valid(),
        t.valid(),
    ensures
        with_ipv6(n.bytes(t.protocol()) + (t.bytes() + rest), row) == t.shown(
            n.shown(t.protocol(), row),
        ),
{
    let l4 = t.bytes() + rest;
    let proto = t.protocol();
    let s = n.bytes(proto) + l4;
    lemma_transport(t, rest, n.shown(proto, row));
    if let Network::V6 { flow, length, hops, src, dst } = n {
        let head = w32(flow) + w16(length) + seq![proto, hops];
        assert(head.len() == 8 && head[6] == proto);
        assert(s =~= head + (src + (dst + l4)));
        assert(s[6] == proto);
        lemma_ipv6_parts(s, row);
        assert(s.skip(8) =~= src + (dst + l4));
        assert(s.skip(24) =~= dst + l4);
        assert(s.skip(40) =~= l4);
        assert((src + (dst + l4)).take(16) =~= src);
        assert((dst + l4).take(16) =~= dst);
        lemma_host6(src);
        lemma_host6(dst);
    }
}

/// A sampled Ethernet frame shows what is in it: source and destination address,
/// protocol and ports are those of the packet, the source where the source is written
/// and the destination where the destination is.
#[verifier::rlimit(40)]
pub proof fn lemma_packet_reads_back(p: Packet, row: FlowView)
    requires
        p.valid(),
    ensures
        with_frame(p.bytes(), row) == p.shown(row),
{
    let body = p.network.bytes(p.transport.protocol()) + (p.transport.bytes() + p.payload);
    let ethertype = p.network.ethertype();
    lemma_frame(p.link, p.tag, ethertype, body, row);
    match p.network {
        Network::V4 { .. } => {
            lemma_ipv4(p.network, p.transport, p.payload, row);
        },
        Network::V6 { .. } => {
            lemma_ipv6(p.network, p.transport, p.payload, row);
        },
    }
}

/// The frame around a body.
proof fn lemma_frame(
    link: Seq<u8>,
    tag: Option<u16>,
    ethertype: u16,
    body: Seq<u8>,
    row: FlowView,
)
    requires
        link.len() == 12,
        ethertype != 0x8100,
    ensures
        with_frame(
            link + (match tag {
                Some(tag) => w16(0x8100) + w16(tag),
                None => Seq::empty(),
            }) + (w16(ethertype) + body),
            row,
        ) == if ethertype == 0x0800 {
            with_ipv4(body, row)
        } else if ethertype == 0x86dd {
            with_ipv6(body, row)
        } else {
            row
        },
{
    let t = w16(ethertype) + body;
    lemma_half(ethertype, body);
    match tag {
        Some(tag) => {
            let s = w16(0x8100) + (w16(tag) + t);
            let h = link + (w16(0x8100) + w16(tag)) + t;
            assert(h.skip(12) =~= s);
            lemma_half(0x8100, w16(tag) + t);
            lemma_half(tag, t);
        },
        None => {
            let h = link + Seq::<u8>::empty() + t;
            assert(h.skip(12) =~= t);
        },
    }
}

/// A flow record of an sFlow sample. The numbers that are wider than their columns are
/// given as they are written.
pub enum FlowNote {
    /// The head of a sampled packet, with padding behind it.
    Head { protocol: u32, frame_length: u32, stripped: u32, packet: Packet, pad: Seq<u8> },
    /// An IPv4 packet that was taken apart.
    Ip4 {
        length: u32,
        protocol: u32,
        src: u32,
        dst: u32,
        src_port: u32,
        dst_port: u32,
        flags: u32,
        tos: u32,
    },
    /// An IPv6 packet that was taken apart.
    Ip6 {
        length: u32,
        protocol: u32,
        src: Seq<u8>,
        dst: Seq<u8>,
        src_port: u32,
        dst_port: u32,
        flags: u32,
        priority: u32,
    },
    /// A record of another format.
    Other { format: u32, body: Seq<u8> },
}

impl FlowNote {
    /// The number of the format.
    pub open spec fn format(self) -> u32 {
        match self {
            FlowNote::Head { .. } => 1,
            FlowNote::Ip4 { .. } => 3,
            FlowNote::Ip6 { .. } => 4,
            FlowNote::Other { format, .. } => format,
        }
    }

    /// The body of the record.
    pub open spec fn body(self) -> Seq<u8> {
        match self {
            FlowNote::Head { protocol, frame_length, stripped, packet, pad } => words(
                seq![protocol, frame_length, stripped, packet.bytes().len() as u32],
            ) + packet.bytes() + pad,
            FlowNote::Ip4 { length, protocol, src, dst, src_port, dst_port, flags, tos } => words(
                seq![length, protocol, src, dst, src_port, dst_port, flags, tos],
            ),
            FlowNote::Ip6 {
                length,
                protocol,
                src,
                dst,
                src_port,
                dst_port,
                flags,
                priority,
            } => words(seq![length, protocol]) + src + dst + words(seq![src_port, dst_port, flags, priority]),
            FlowNote::Other { body, .. } => body,
        }
    }

    /// A record that can be written.
    pub open spec fn valid(self) -> bool {
        &&& self.body().len() <= 0xFFFF_FFFF
        &&& match self {
            FlowNote::Head { packet, .. } => packet.valid() && packet.bytes().len() <= 0xFFFF_FFFF,
            FlowNote::Ip6 { src, dst, .. } => src.len() == 16 && dst.len() == 16,
            FlowNote::Other { format, .. } => format < 4_096 && format != 1 && format != 3 && format
                != 4,
            _ => true,
        }
    }

    /// The row with what the record says. A frame stands for as many as the rate says,
    /// and what was sampled is kept beside the product.
    pub open spec fn shown(self, row: FlowView, rate: u32) -> FlowView {
        match self {
            FlowNote::Head { frame_length, packet, .. } => packet.shown(
                multiplied(row, frame_length, rate),
            ),
            FlowNote::Ip4 {
                length,
                protocol,
                src,
                dst,
                src_port,
                dst_port,
                flags,
                tos,
            } => multiplied(
                FlowView {
                    src_addr: Some(host4(src)),
                    dst_addr: Some(host4(dst)),
                    protocol: Some((protocol % 256) as u8),
                    src_port: Some((src_port % 65_536) as u16),
                    dst_port: Some((dst_port % 65_536) as u16),
                    tcp_flags: Some((flags % 256) as u8),
                    tos: Some((tos % 256) as u8),
                    ..row
                },
                length,
                rate,
            ),
            FlowNote::Ip6 {
                length,
                protocol,
                src,
                dst,
                src_port,
                dst_port,
                flags,
                ..
            } => multiplied(
                FlowView {
                    src_addr: Some(host6(src)),
                    dst_addr: Some(host6(dst)),
                    protocol: Some((protocol % 256) as u8),
                    src_port: Some((src_port % 65_536) as u16),
                    dst_port: Some((dst_port % 65_536) as u16),
                    tcp_flags: Some((flags % 256) as u8),
                    ..row
                },
                length,
                rate,
            ),
            FlowNote::Other { .. } => row,
        }
    }
}

/// A row with the counts of a sampled frame: the bytes are its length times the rate,
/// the packets are the rate, and both factors are kept.
pub open spec fn multiplied(row: FlowView, frame_length: u32, rate: u32) -> FlowView {
    FlowView {
        bytes: Some((frame_length * rate) as u64),
        packets: Some(rate as u64),
        raw_fields: row.raw_fields + seq![
            ("sflow.frame_length"@, w32(frame_length)),
            ("sflow.sampling_rate"@, w32(rate)),
        ],
        ..row
    }
}

/// The two ways of writing four bytes agree.
proof fn lemma_enc32(v: u32)
    ensures
        enc32(v) == w32(v),
{
    let (hi, lo) = (v / 65_536, v % 65_536);
    assert(v / 0x100_0000 == hi / 256);
    assert(v / 0x1_0000 % 0x100 == hi % 256);
    assert(v / 0x100 % 0x100 == lo / 256);
    assert(v % 0x100 == lo % 256);
    assert(enc32(v) =~= w32(v));
}

/// Scaling is multiplying.
proof fn lemma_scaled(row: FlowView, frame_length: u32, rate: u32)
    ensures
        scaled(row, frame_length, rate) == multiplied(row, frame_length, rate),
{
    lemma_enc32(frame_length);
    lemma_enc32(rate);
    assert(scaled(row, frame_length, rate).raw_fields =~= multiplied(
        row,
        frame_length,
        rate,
    ).raw_fields);
}

/// Words read back by their places.
pub proof fn lemma_words(ws: Seq<u32>)
    ensures
        words(ws).len() == 4 * ws.len(),
        forall|i: int|
            #![trigger ws[i]]
            0 <= i < ws.len() ==> words(ws).subrange(4 * i, 4 * i + 4) == w32(ws[i]),
    decreases ws.len(),
{
    if ws.len() > 0 {
        let most = ws.drop_last();
        let last = w32(ws.last());
        lemma_words(most);
        lemma_w32(ws.last());
        assert forall|i: int| #![trigger ws[i]] 0 <= i < ws.len() implies words(ws).subrange(
            4 * i,
            4 * i + 4,
        ) == w32(ws[i]) by {
            if i < most.len() {
                assert(most[i] == ws[i]);
                assert(words(ws).subrange(4 * i, 4 * i + 4) =~= words(most).subrange(
                    4 * i,
                    4 * i + 4,
                ));
            } else {
                assert(words(ws).subrange(4 * i, 4 * i + 4) =~= last);
            }
        }
    }
}

/// The word in some place of a text that words stand in.
pub proof fn lemma_word_in(s: Seq<u8>, from: int, ws: Seq<u32>, i: int)
    requires
        0 <= from,
        from + 4 * ws.len() <= s.len(),
        s.subrange(from, from + 4 * ws.len()) == words(ws),
        0 <= i < ws.len(),
    ensures
        at32(s, from + 4 * i) == ws[i],
        s.subrange(from + 4 * i, from + 4 * i + 4) == w32(ws[i]),
        word_or(s.skip(from + 4 * i), 0) == ws[i],
        cell4(s.skip(from + 4 * i)) == Some(host4(ws[i])),
{
    lemma_words(ws);
    lemma_w32(ws[i]);
    lemma_host4(ws[i]);
    let whole = s.subrange(from, from + 4 * ws.len());
    assert(whole.subrange(4 * i, 4 * i + 4) =~= s.subrange(from + 4 * i, from + 4 * i + 4));
    assert(s.skip(from + 4 * i).take(4) =~= s.subrange(from + 4 * i, from + 4 * i + 4));
}

/// The head of a sampled packet reads back.
#[verifier::rlimit(40)]
proof fn lemma_head(n: FlowNote, row: FlowView, rate: u32)
    requires
        n is Head,
        n.valid(),
    ensures
        with_raw_header(n.body(), row, rate) == n.shown(row, rate),
{
    broadcast use crate::buf::lemma_skip_skip;

    let b = n.body();
    if let FlowNote::Head { protocol, frame_length, stripped, packet, pad } = n {
        let size = packet.bytes().len() as u32;
        let ws = seq![protocol, frame_length, stripped, size];
        lemma_words(ws);
        assert(b.subrange(0, 16) =~= words(ws));
        lemma_word_in(b, 0, ws, 1);
        lemma_word_in(b, 0, ws, 3);
        assert(after(b, 4) == b.skip(4));
        assert(after(b.skip(4), 4) == b.skip(8));
        assert(after(b.skip(8), 4) == b.skip(12));
        assert(after(b.skip(12), 4) == b.skip(16));
        assert(b.skip(16).take(size as int) =~= packet.bytes());
        lemma_scaled(row, frame_length, rate);
        lemma_packet_reads_back(packet, multiplied(row, frame_length, rate));
    }
}

/// Where the words of an IPv4 packet that was taken apart stand.
proof fn lemma_ip4_places(b: Seq<u8>, row: FlowView, rate: u32)
    requires
        b.len() >= 32,
    ensures
        with_sampled_ipv4(b, row, rate) == scaled(
            FlowView {
                src_addr: cell4(b.skip(8)),
                dst_addr: cell4(b.skip(12)),
                protocol: Some((word_or(b.skip(4), 0) % 256) as u8),
                src_port: Some((word_or(b.skip(16), 0) % 65_536) as u16),
                dst_port: Some((word_or(b.skip(20), 0) % 65_536) as u16),
                tcp_flags: Some((word_or(b.skip(24), 0) % 256) as u8),
                tos: Some((word_or(b.skip(28), 0) % 256) as u8),
                ..row
            },
            word_or(b.skip(0), 0),
            rate,
        ),
{
    broadcast use crate::buf::lemma_skip_skip;

    assert(b.skip(0) =~= b);
    assert(after(b, 4) == b.skip(4));
    assert(after(b.skip(4), 4) == b.skip(8));
    assert(after(b.skip(8), 4) == b.skip(12));
    assert(after(b.skip(12), 4) == b.skip(16));
    assert(after(b.skip(16), 4) == b.skip(20));
    assert(after(b.skip(20), 4) == b.skip(24));
    assert(after(b.skip(24), 4) == b.skip(28));
}

/// An IPv4 packet that was taken apart reads back.
#[verifier::rlimit(40)]
proof fn lemma_ip4_note(n: FlowNote, row: FlowView, rate: u32)
    requires
        n is Ip4,
    ensures
        with_sampled_ipv4(n.body(), row, rate) == n.shown(row, rate),
{
    let b = n.body();
    if let FlowNote::Ip4 { length, protocol, src, dst, src_port, dst_port, flags, tos } = n {
        let ws = seq![length, protocol, src, dst, src_port, dst_port, flags, tos];
        lemma_words(ws);
        assert(b.subrange(0, 32) =~= words(ws));
        lemma_word_in(b, 0, ws, 0);
        lemma_word_in(b, 0, ws, 1);
        lemma_word_in(b, 0, ws, 2);
        lemma_word_in(b, 0, ws, 3);
        lemma_word_in(b, 0, ws, 4);
        lemma_word_in(b, 0, ws, 5);
        lemma_word_in(b, 0, ws, 6);
        lemma_word_in(b, 0, ws, 7);
        lemma_ip4_places(b, row, rate);
        lemma_scaled(
            FlowView {
                src_addr: Some(host4(src)),
                dst_addr: Some(host4(dst)),
                protocol: Some((protocol % 256) as u8),
                src_port: Some((src_port % 65_536) as u16),
                dst_port: Some((dst_port % 65_536) as u16),
                tcp_flags: Some((flags % 256) as u8),
                tos: Some((tos % 256) as u8),
                ..row
            },
            length,
            rate,
        );
    }
}

/// Where the parts of an IPv6 packet that was taken apart stand.
proof fn lemma_ip6_places(b: Seq<u8>, row: FlowView, rate: u32)
    requires
        b.len() >= 56,
    ensures
        with_sampled_ipv6(b, row, rate) == scaled(
            FlowView {
                src_addr: cell6(b.skip(8)),
                dst_addr: cell6(b.skip(24)),
                protocol: Some((word_or(b.skip(4), 0) % 256) as u8),
                src_port: Some((word_or(b.skip(40), 0) % 65_536) as u16),
                dst_port: Some((word_or(b.skip(44), 0) % 65_536) as u16),
                tcp_flags: Some((word_or(b.skip(48), 0) % 256) as u8),
                ..row
            },
            word_or(b.skip(0), 0),
            rate,
        ),
{
    broadcast use crate::buf::lemma_skip_skip;

    assert(b.skip(0) =~= b);
    assert(after(b, 4) == b.skip(4));
    assert(after(b.skip(4), 4) == b.skip(8));
    assert(after(b.skip(8), 16) == b.skip(24));
    assert(after(b.skip(24), 16) == b.skip(40));
    assert(after(b.skip(40), 4) == b.skip(44));
    assert(after(b.skip(44), 4) == b.skip(48));
}

/// The addresses of an IPv6 packet that was taken apart.
proof fn lemma_ip6_hosts(head: Seq<u8>, src: Seq<u8>, dst: Seq<u8>, tail: Seq<u8>)
    requires
        head.len() == 8,
        src.len() == 16,
        dst.len() == 16,
        tail.len() == 16,
    ensures
        ({
            let b = head + src + dst + tail;
            &&& b.len() == 56
            &&& b.subrange(0, 8) == head
            &&& b.subrange(40, 56) == tail
            &&& cell6(b.skip(8)) == Some(host6(src))
            &&& cell6(b.skip(24)) == Some(host6(dst))
        }),
{
    let b = head + src + dst + tail;
    assert(b.subrange(0, 8) =~= head);
    assert(b.subrange(40, 56) =~= tail);
    assert(b.skip(8).take(16) =~= src);
    assert(b.skip(24).take(16) =~= dst);
    lemma_host6(src);
    lemma_host6(dst);
}

/// An IPv6 packet that was taken apart reads back.
#[verifier::rlimit(40)]
proof fn lemma_ip6_note(n: FlowNote, row: FlowView, rate: u32)
    requires
        n is Ip6,
        n.valid(),
    ensures
        with_sampled_ipv6(n.body(), row, rate) == n.shown(row, rate),
{
    let b = n.body();
    if let FlowNote::Ip6 { length, protocol, src, dst, src_port, dst_port, flags, priority } = n {
        let (ws, xs) = (seq![length, protocol], seq![src_port, dst_port, flags, priority]);
        lemma_words(ws);
        lemma_words(xs);
        lemma_ip6_hosts(words(ws), src, dst, words(xs));
        lemma_word_in(b, 0, ws, 0);
        lemma_word_in(b, 0, ws, 1);
        lemma_word_in(b, 40, xs, 0);
        lemma_word_in(b, 40, xs, 1);
        lemma_word_in(b, 40, xs, 2);
        lemma_ip6_places(b, row, rate);
        lemma_scaled(
            FlowView {
                src_addr: Some(host6(src)),
                dst_addr: Some(host6(dst)),
                protocol: Some((protocol % 256) as u8),
                src_port: Some((src_port % 65_536) as u16),
                dst_port: Some((dst_port % 65_536) as u16),
                tcp_flags: Some((flags % 256) as u8),
                ..row
            },
            length,
            rate,
        );
    }
}

/// The lower twelve bits of its type say how a flow record is read.
proof fn lemma_by_format(kind: u32, format: u32, b: Seq<u8>, row: FlowView, rate: u32)
    requires
        kind % 0x1000 == format,
    ensures
        format == 1 ==> with_flow_record(kind, b, row, rate) == with_raw_header(b, row, rate),
        format == 3 ==> with_flow_record(kind, b, row, rate) == with_sampled_ipv4(b, row, rate),
        format == 4 ==> with_flow_record(kind, b, row, rate) == with_sampled_ipv6(b, row, rate),
        format != 1 && format != 3 && format != 4 ==> with_flow_record(kind, b, row, rate) == row,
{
}

/// A flow record reads back; the enterprise in the high bits of its type does not
/// matter.
#[verifier::rlimit(40)]
pub proof fn lemma_flow_note_reads_back(
    n: FlowNote,
    enterprise: u32,
    row: FlowView,
    rate: u32,
)
    requires
        n.valid(),
        enterprise < 1_048_576,
    ensures
        with_flow_record((enterprise * 4_096 + n.format()) as u32, n.body(), row, rate) == n.shown(
            row,
            rate,
        ),
{
    let kind = (enterprise * 4_096 + n.format()) as u32;
    assert(kind % 0x1000 == n.format());
    lemma_by_format(kind, n.format(), n.body(), row, rate);
    match n {
        FlowNote::Head { .. } => {
            lemma_head(n, row, rate);
        },
        FlowNote::Ip4 { .. } => {
            lemma_ip4_note(n, row, rate);
        },
        FlowNote::Ip6 { .. } => {
            lemma_ip6_note(n, row, rate);
        },
        FlowNote::Other { .. } => {},
    }
}

/// A frame too short for its two addresses shows nothing, and neither does a frame of
/// another type than IPv4 and IPv6, tagged or not.
pub proof fn lemma_other_frames_show_nothing(
    link: Seq<u8>,
    tag: Option<u16>,
    ethertype: u16,
    body: Seq<u8>,
    row: FlowView,
)
    requires
        link.len() <= 12,
        ethertype != 0x8100,
        ethertype != 0x0800,
        ethertype != 0x86dd,
    ensures
        link.len() < 12 ==> with_frame(link, row) == row,
        link.len() == 12 ==> with_frame(
            link + (match tag {
                Some(tag) => w16(0x8100) + w16(tag),
                None => Seq::empty(),
            }) + (w16(ethertype) + body),
            row,
        ) == row,
{
    if link.len() == 12 {
        lemma_frame(link, tag, ethertype, body, row);
    }
}

/// A transport header that is cut shows the ports that are left of it: a port that is not
/// there is shown as zero. The flags of a cut header are of no meaning.
pub proof fn lemma_cut_transport(t: Transport, n: int, row: FlowView)
    requires
        0 <= n < t.bytes().len(),
    ensures
        with_l4(t.bytes().take(n), t.protocol(), row) == match t {
            Transport::Tcp { src_port, dst_port, .. } => FlowView {
                src_port: Some(
                    if n >= 2 {
                        src_port
                    } else {
                        0
                    },
                ),
                dst_port: Some(
                    if n >= 4 {
                        dst_port
                    } else {
                        0
                    },
                ),
                tcp_flags: with_l4(t.bytes().take(n), t.protocol(), row).tcp_flags,
                ..row
            },
            Transport::Udp { src_port, dst_port } => FlowView {
                src_port: Some(
                    if n >= 2 {
                        src_port
                    } else {
                        0
                    },
                ),
                dst_port: Some(0),
                ..row
            },
            Transport::Other { .. } => row,
        },
{
    match t {
        Transport::Tcp { src_port, dst_port, sequence, ack, offset, flags } => {
            let rest = (w32(sequence) + w32(ack)) + seq![offset] + seq![flags];
            assert(t.bytes() =~= w16(src_port) + (w16(dst_port) + rest));
            assert(rest.len() == 10);
            lemma_cut_ports(src_port, dst_port, rest, n);
        },
        Transport::Udp { src_port, dst_port } => {
            let rest = Seq::<u8>::empty();
            assert(t.bytes() =~= w16(src_port) + (w16(dst_port) + rest));
            lemma_cut_ports(src_port, dst_port, rest, n);
        },
        Transport::Other { .. } => {},
    }
}

/// The ports of a header that is cut.
proof fn lemma_cut_ports(src: u16, dst: u16, rest: Seq<u8>, n: int)
    requires
        0 <= n <= 4 + rest.len(),
    ensures
        ({
            let s = (w16(src) + (w16(dst) + rest)).take(n);
            &&& half_or0(s) == if n >= 2 {
                src
            } else {
                0
            }
            &&& half_or0(after(s, 2)) == if n >= 4 {
                dst
            } else {
                0
            }
        }),
{
    let full = w16(src) + (w16(dst) + rest);
    let s = full.take(n);
    if n >= 2 {
        lemma_front16(src, w16(dst) + rest);
        assert(s.take(2) =~= full.take(2));
        assert(after(s, 2) =~= full.skip(2).take(n - 2));
        if n >= 4 {
            lemma_front16(dst, rest);
            assert(full.skip(2) =~= w16(dst) + rest);
            assert(after(s, 2).take(2) =~= (w16(dst) + rest).take(2));
        }
    }
}

/// The head of a packet that claims to be longer than its record shows nothing of the
/// packet; its frame is counted all the same.
pub proof fn lemma_long_head_shows_nothing(
    protocol: u32,
    frame_length: u32,
    stripped: u32,
    size: u32,
    rest: Seq<u8>,
    row: FlowView,
    rate: u32,
)
    requires
        size > rest.len(),
    ensures
        with_raw_header(
            words(seq![protocol, frame_length, stripped, size]) + rest,
            row,
            rate,
        ) == multiplied(row, frame_length, rate),
{
    broadcast use crate::buf::lemma_skip_skip;

    let ws = seq![protocol, frame_length, stripped, size];
    let b = words(ws) + rest;
    lemma_words(ws);
    assert(b.subrange(0, 16) =~= words(ws));
    lemma_word_in(b, 0, ws, 1);
    lemma_word_in(b, 0, ws, 3);
    assert(after(b, 4) == b.skip(4));
    assert(after(b.skip(4), 4) == b.skip(8));
    assert(after(b.skip(8), 4) == b.skip(12));
    assert(after(b.skip(12), 4) == b.skip(16));
    assert(b.skip(16) =~= rest);
    lemma_scaled(row, frame_length, rate);
}

} // verus!
