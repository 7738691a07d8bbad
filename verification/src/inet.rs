//! Encode an IP address into DuckDB's internal `INET` physical layout.
//!
//! DuckDB's `INET` type is, on the Arrow boundary, a
//! `STRUCT(ip_type UTINYINT, address HUGEINT, mask USMALLINT)`, so address
//! columns are emitted as exactly that struct.
//!
//! - `ip_type`: `1` IPv4, `2` IPv6.
//! - `address` (little-endian `i128`): IPv4, the 32 address bits in the low
//!   bits; IPv6, the 128 network-order bits with the sign bit flipped, which
//!   maps them onto the signed range in order.
//! - `mask`: prefix length (host addresses use the full width, /32 or /128).

use vstd::arithmetic::power::pow;
use vstd::prelude::*;

use crate::buf::be;
use crate::text::{dec, hex, push_dec, push_hex};

verus! {

/// 2^127.
pub open spec fn sign_bit() -> int {
    0x8000_0000_0000_0000_0000_0000_0000_0000
}

/// The number that a byte string denotes, least significant byte first.
pub open spec fn le(s: Seq<u8>) -> nat
    decreases s.len(),
{
    if s.len() == 0 {
        0
    } else {
        s[0] as nat + 256 * le(s.drop_first())
    }
}

/// The number that sixteen little-endian bytes denote in two's complement.
pub open spec fn hugeint(s: Seq<u8>) -> int {
    if le(s) >= sign_bit() {
        le(s) - 2 * sign_bit()
    } else {
        le(s) as int
    }
}

/// An IP address, its octets in network order.
#[derive(Clone, Copy, Debug, PartialEq, Eq)]
pub enum IpAddr {
    V4([u8; 4]),
    V6([u8; 16]),
}

impl IpAddr {
    /// The octets, in network order.
    pub open spec fn octets(self) -> Seq<u8> {
        match self {
            IpAddr::V4(o) => o@,
            IpAddr::V6(o) => o@,
        }
    }

    /// The text form of the address.
    pub open spec fn text(self) -> Seq<char> {
        match self {
            IpAddr::V4(o) => ipv4_text(o@),
            IpAddr::V6(o) => ipv6_text(o@),
        }
    }
}

/// The three field values of one DuckDB `INET` struct cell.
#[derive(Debug, Clone, Copy, PartialEq, Eq)]
pub struct InetVal {
    /// `1` = IPv4, `2` = IPv6.
    pub ip_type: u8,
    /// The DuckDB `HUGEINT` address value, little-endian `i128` bytes.
    pub address_le: [u8; 16],
    /// Prefix length in bits.
    pub mask: u16,
}

/// What an `INET` cell holds, the address as a number.
pub struct InetView {
    pub ip_type: u8,
    pub address: int,
    pub mask: u16,
}

impl View for InetVal {
    type V = InetView;

    open spec fn view(&self) -> InetView {
        InetView { ip_type: self.ip_type, address: hugeint(self.address_le@), mask: self.mask }
    }
}

const IP_TYPE_V4: u8 = 1;

const IP_TYPE_V6: u8 = 2;

/// The `INET` cell of four octets.
pub open spec fn inet4_cell(o: Seq<u8>, mask: u16) -> InetView {
    InetView { ip_type: 1, address: be(o) as int, mask }
}

/// The `INET` cell of sixteen octets.
pub open spec fn inet6_cell(o: Seq<u8>, mask: u16) -> InetView {
    InetView { ip_type: 2, address: be(o) - sign_bit(), mask }
}

/// The `INET` cell of an address and a prefix length.
pub open spec fn inet_cell(ip: IpAddr, mask: u16) -> InetView {
    match ip {
        IpAddr::V4(o) => inet4_cell(o@, mask),
        IpAddr::V6(o) => inet6_cell(o@, mask),
    }
}

/// The cell of on-wire bytes as an IPv4 host; none on a length mismatch.
pub open spec fn inet4_of(b: Seq<u8>) -> Option<InetView> {
    if b.len() == 4 {
        Some(inet4_cell(b, 32))
    } else {
        None
    }
}

/// The cell of on-wire bytes as an IPv6 host; none on a length mismatch.
pub open spec fn inet6_of(b: Seq<u8>) -> Option<InetView> {
    if b.len() == 16 {
        Some(inet6_cell(b, 128))
    } else {
        None
    }
}

/// Reading backwards turns big-endian into little-endian.
pub proof fn lemma_le_reverse(s: Seq<u8>)
    ensures
        le(s.reverse()) == be(s),
    decreases s.len(),
{
    if s.len() > 0 {
        lemma_le_reverse(s.drop_last());
        assert(s.reverse().drop_first() =~= s.drop_last().reverse());
    }
}

/// The most significant byte weighs its power of 256.
proof fn lemma_le_push(s: Seq<u8>, b: u8)
    ensures
        le(s.push(b)) == le(s) + b * pow(256, s.len()),
    decreases s.len(),
{
    reveal(pow);
    if s.len() == 0 {
        assert(s.push(b).drop_first() =~= s);
        assert(pow(256, 0) == 1);
    } else {
        lemma_le_push(s.drop_first(), b);
        assert(s.push(b).drop_first() =~= s.drop_first().push(b));
        let p = pow(256, (s.len() - 1) as nat);
        assert(256 * (b * p) == b * (256 * p)) by (nonlinear_arith);
    }
}

/// A little-endian number is below the power of 256 of its length.
pub proof fn lemma_le_bound(s: Seq<u8>)
    ensures
        le(s) < pow(256, s.len()),
    decreases s.len(),
{
    reveal(pow);
    if s.len() > 0 {
        lemma_le_bound(s.drop_first());
    }
}

/// The weight of the sixteenth byte.
pub proof fn lemma_top_weight()
    ensures
        pow(256, 15) == 0x1_0000_0000_0000_0000_0000_0000_0000_00,
{
    reveal(pow);
    reveal_with_fuel(pow, 16);
}

/// A byte with its highest bit flipped, as arithmetic.
pub proof fn lemma_flip_top(x: u8)
    ensures
        x < 128 ==> x ^ 0x80 == x + 128,
        x >= 128 ==> x ^ 0x80 == x - 128,
{
    assert(x < 128 ==> x ^ 0x80 == x + 128) by (bit_vector);
    assert(x >= 128 ==> x ^ 0x80 == x - 128) by (bit_vector);
}

/// Flipping the top bit of sixteen octets and reading the result as a signed
/// number takes 2^127 off what the octets denote.
pub proof fn lemma_flipped_hugeint(o: Seq<u8>, a: Seq<u8>)
    requires
        o.len() == 16,
        a == o.reverse().update(15, o[0] ^ 0x80),
    ensures
        hugeint(a) == be(o) - sign_bit(),
{
    let low = o.reverse().take(15);
    lemma_le_reverse(o);
    assert(o.reverse() =~= low.push(o[0]));
    assert(a =~= low.push(o[0] ^ 0x80));
    lemma_le_push(low, o[0]);
    lemma_le_push(low, o[0] ^ 0x80);
    lemma_le_bound(low);
    lemma_top_weight();
    lemma_flip_top(o[0]);
}

/// Four octets and twelve zeros, least significant byte first, are the number
/// that the octets denote.
pub proof fn lemma_v4_hugeint(o: Seq<u8>, a: Seq<u8>)
    requires
        o.len() == 4,
        a.len() == 16,
        a.take(4) == o.reverse(),
        forall|i: int| 4 <= i < 16 ==> a[i] == 0,
    ensures
        hugeint(a) == be(o),
        be(o) < 0x1_0000_0000,
{
    lemma_le_reverse(o);
    lemma_le_zeros(a, 4);
    crate::buf::lemma_be_bound(o);
}

/// Leading zero bytes do not count.
proof fn lemma_le_zeros(a: Seq<u8>, n: int)
    requires
        0 <= n <= a.len(),
        forall|i: int| n <= i < a.len() ==> a[i] == 0,
    ensures
        le(a) == le(a.take(n)),
    decreases a.len(),
{
    if a.len() > 0 {
        if n == 0 {
            assert(a.drop_first().take(0) =~= a.take(0));
            lemma_le_zeros(a.drop_first(), 0);
        } else {
            assert(a.drop_first().take(n - 1) =~= a.take(n).drop_first());
            lemma_le_zeros(a.drop_first(), n - 1);
        }
    }
}

/// Encode a bare host address (full-width mask).
pub fn encode_ip(ip: IpAddr) -> (r: InetVal)
    ensures
        r@ == (match ip {
            IpAddr::V4(_) => inet_cell(ip, 32),
            IpAddr::V6(_) => inet_cell(ip, 128),
        }),
        r.host_octets() == ip.octets(),
{
    match ip {
        IpAddr::V4(_) => encode(ip, 32),
        IpAddr::V6(_) => encode(ip, 128),
    }
}

/// Encode an address + prefix length into the DuckDB `INET` field triple.
pub fn encode(ip: IpAddr, mask: u16) -> (r: InetVal)
    ensures
        r@ == inet_cell(ip, mask),
        r.host_octets() == ip.octets(),
{
    match ip {
        IpAddr::V4(o) => {
            let address_le: [u8; 16] = [o[3], o[2], o[1], o[0], 0, 0, 0, 0, 0, 0, 0, 0, 0, 0, 0, 0];
            proof {
                assert(address_le@.take(4) =~= o@.reverse());
                lemma_v4_hugeint(o@, address_le@);
                assert(address_le@.take(4).reverse() =~= o@);
            }
            InetVal { ip_type: IP_TYPE_V4, address_le, mask }
        },
        IpAddr::V6(o) => {
            let address_le: [u8; 16] = [
                o[15],
                o[14],
                o[13],
                o[12],
                o[11],
                o[10],
                o[9],
                o[8],
                o[7],
                o[6],
                o[5],
                o[4],
                o[3],
                o[2],
                o[1],
                o[0] ^ 0x80,
            ];
            proof {
                assert(address_le@ =~= o@.reverse().update(15, o@[0] ^ 0x80));
                lemma_flipped_hugeint(o@, address_le@);
                let x = o@[0];
                assert((x ^ 0x80) ^ 0x80 == x) by (bit_vector);
                assert(address_le@.reverse().update(0, address_le@[15] ^ 0x80) =~= o@);
            }
            InetVal { ip_type: IP_TYPE_V6, address_le, mask }
        },
    }
}

/// Encode 4 on-wire bytes as an IPv4 host `INET`, or `None` on a length mismatch.
pub fn inet4(b: &[u8]) -> (r: Option<InetVal>)
    ensures
        crate::text::opt_view(r) == inet4_of(b@),
{
    if b.len() == 4 {
        let o: [u8; 4] = [b[0], b[1], b[2], b[3]];
        assert(o@ =~= b@);
        Some(encode_ip(IpAddr::V4(o)))
    } else {
        None
    }
}

/// Sixteen bytes as an array.
fn array16(b: &[u8]) -> (r: [u8; 16])
    requires
        b@.len() == 16,
    ensures
        r@ == b@,
{
    let r: [u8; 16] = [
        b[0],
        b[1],
        b[2],
        b[3],
        b[4],
        b[5],
        b[6],
        b[7],
        b[8],
        b[9],
        b[10],
        b[11],
        b[12],
        b[13],
        b[14],
        b[15],
    ];
    assert(r@ =~= b@);
    r
}

/// Encode 16 on-wire bytes as an IPv6 host `INET`, or `None` on a length mismatch.
pub fn inet6(b: &[u8]) -> (r: Option<InetVal>)
    ensures
        crate::text::opt_view(r) == inet6_of(b@),
{
    if b.len() == 16 {
        Some(encode_ip(IpAddr::V6(array16(b))))
    } else {
        None
    }
}

/// Four octets in dotted decimal.
pub open spec fn ipv4_text(o: Seq<u8>) -> Seq<char> {
    dec(o[0] as nat) + "."@ + dec(o[1] as nat) + "."@ + dec(o[2] as nat) + "."@ + dec(o[3] as nat)
}

/// Render four octets in dotted decimal.
pub fn ipv4_string(o: &[u8]) -> (r: String)
    requires
        o@.len() == 4,
    ensures
        r@ == ipv4_text(o@),
{
    let mut s = String::new();
    push_ipv4(&mut s, o[0], o[1], o[2], o[3]);
    assert(s@ =~= ipv4_text(o@));
    s
}

fn push_ipv4(s: &mut String, a: u8, b: u8, c: u8, d: u8)
    ensures
        final(s)@ == old(s)@ + ipv4_text(seq![a, b, c, d]),
{
    push_dec(s, a as u64);
    s.append(".");
    push_dec(s, b as u64);
    s.append(".");
    push_dec(s, c as u64);
    s.append(".");
    push_dec(s, d as u64);
    assert(s@ =~= old(s)@ + ipv4_text(seq![a, b, c, d]));
}

/// The `i`th 16-bit group of an IPv6 address.
pub open spec fn segment(o: Seq<u8>, i: int) -> u16 {
    be(o.subrange(2 * i, 2 * i + 2)) as u16
}

/// The eight 16-bit groups of an IPv6 address.
pub open spec fn segments(o: Seq<u8>) -> Seq<u16> {
    Seq::new(8, |i: int| segment(o, i))
}

/// How many zero groups follow from position `i` on.
pub open spec fn zeros_from(segs: Seq<u16>, i: int) -> nat
    decreases segs.len() - i,
{
    if 0 <= i < segs.len() && segs[i] == 0 {
        zeros_from(segs, i + 1) + 1
    } else {
        0
    }
}

/// Position `s` starts the longest run of zero groups, and no earlier one does.
pub open spec fn starts_longest_run(segs: Seq<u16>, s: int) -> bool {
    &&& 0 <= s < segs.len()
    &&& forall|t: int| 0 <= t < segs.len() ==> #[trigger] zeros_from(segs, t) <= zeros_from(segs, s)
    &&& forall|t: int| 0 <= t < s ==> #[trigger] zeros_from(segs, t) < zeros_from(segs, s)
}

/// Groups in hexadecimal, joined by colons.
pub open spec fn groups_text(segs: Seq<u16>) -> Seq<char>
    decreases segs.len(),
{
    if segs.len() == 0 {
        Seq::empty()
    } else if segs.len() == 1 {
        hex(segs[0] as nat)
    } else {
        groups_text(segs.drop_last()) + ":"@ + hex(segs.last() as nat)
    }
}

/// Whether the octets are an IPv4-mapped IPv6 address.
pub open spec fn is_v4_mapped(o: Seq<u8>) -> bool {
    &&& forall|i: int| 0 <= i < 10 ==> o[i] == 0
    &&& o[10] == 0xff
    &&& o[11] == 0xff
}

/// The canonical text of an IPv6 address: lower-case hexadecimal groups, the
/// first longest run of two or more zero groups written `::`, and IPv4-mapped
/// addresses in dotted decimal.
pub open spec fn ipv6_text(o: Seq<u8>) -> Seq<char> {
    let segs = segments(o);
    if is_v4_mapped(o) {
        "::ffff:"@ + ipv4_text(o.subrange(12, 16))
    } else {
        let start = choose|s: int| starts_longest_run(segs, s);
        let len = zeros_from(segs, start) as int;
        if len > 1 {
            groups_text(segs.take(start)) + "::"@ + groups_text(segs.skip(start + len))
        } else {
            groups_text(segs)
        }
    }
}

/// A run of zero groups stays inside the address.
pub proof fn lemma_zeros_from_bound(segs: Seq<u16>, i: int)
    requires
        0 <= i <= segs.len(),
    ensures
        i + zeros_from(segs, i) <= segs.len(),
    decreases segs.len() - i,
{
    if i < segs.len() && segs[i] == 0 {
        lemma_zeros_from_bound(segs, i + 1);
    }
}

/// The length of the run of zero groups from `i` on.
fn count_zeros(segs: &[u16], i: usize) -> (n: usize)
    requires
        i <= segs@.len(),
    ensures
        n == zeros_from(segs@, i as int),
        i + n <= segs@.len(),
    decreases segs@.len() - i,
{
    if i < segs.len() && segs[i] == 0 {
        count_zeros(segs, i + 1) + 1
    } else {
        0
    }
}

/// Appends groups in hexadecimal, joined by colons.
fn push_groups(s: &mut String, segs: &[u16], from: usize, to: usize)
    requires
        from <= to <= segs@.len(),
    ensures
        final(s)@ == old(s)@ + groups_text(segs@.subrange(from as int, to as int)),
{
    let mut i: usize = from;
    assert(segs@.subrange(from as int, from as int) =~= Seq::<u16>::empty());
    assert(s@ =~= old(s)@ + groups_text(segs@.subrange(from as int, from as int)));
    while i < to
        invariant
            from <= i <= to <= segs@.len(),
            s@ == old(s)@ + groups_text(segs@.subrange(from as int, i as int)),
        decreases to - i,
    {
        let ghost before = segs@.subrange(from as int, i as int);
        let ghost now = segs@.subrange(from as int, i + 1);
        assert(now.drop_last() =~= before);
        if i > from {
            s.append(":");
        }
        push_hex(s, segs[i] as u64);
        i = i + 1;
        assert(s@ =~= old(s)@ + groups_text(now));
    }
}

/// Render sixteen octets as a canonical IPv6 string.
pub fn ipv6_string(o: &[u8]) -> (r: String)
    requires
        o@.len() == 16,
    ensures
        r@ == ipv6_text(o@),
{
    let mut segs: Vec<u16> = Vec::new();
    let mut i: usize = 0;
    while i < 8
        invariant
            i <= 8,
            o@.len() == 16,
            segs@ == segments(o@).take(i as int),
        decreases 8 - i,
    {
        let v: u16 = crate::buf::be_u16(o[2 * i], o[2 * i + 1]);
        proof {
            assert(o@.subrange(2 * i, 2 * i + 2) =~= seq![o@[2 * i], o@[2 * i + 1]]);
            assert(segments(o@).take(i + 1) =~= segments(o@).take(i as int).push(v));
        }
        segs.push(v);
        i = i + 1;
    }
    assert(segs@ =~= segments(o@));
    let mut s = String::new();
    let mut j: usize = 0;
    while j < 10 && o[j] == 0
        invariant
            j <= 10,
            o@.len() == 16,
            forall|k: int| 0 <= k < j ==> o@[k] == 0,
        decreases 10 - j,
    {
        j = j + 1;
    }
    if j == 10 && o[10] == 0xff && o[11] == 0xff {
        s.append("::ffff:");
        push_ipv4(&mut s, o[12], o[13], o[14], o[15]);
        proof {
            assert(is_v4_mapped(o@));
            assert(o@.subrange(12, 16) =~= seq![o@[12], o@[13], o@[14], o@[15]]);
            assert(s@ =~= ipv6_text(o@));
        }
        return s;
    }
    let mut start: usize = 0;
    let mut len: usize = count_zeros(&segs, 0);
    let mut k: usize = 1;
    while k < 8
        invariant
            1 <= k <= 8,
            segs@.len() == 8,
            start < k,
            len == zeros_from(segs@, start as int),
            forall|t: int| 0 <= t < k ==> #[trigger] zeros_from(segs@, t) <= len,
            forall|t: int| 0 <= t < start ==> #[trigger] zeros_from(segs@, t) < len,
        decreases 8 - k,
    {
        let n: usize = count_zeros(&segs, k);
        if n > len {
            start = k;
            len = n;
        }
        k = k + 1;
    }
    proof {
        assert(starts_longest_run(segs@, start as int));
        let chosen = choose|c: int| starts_longest_run(segs@, c);
        assert(chosen == start) by {
            if chosen < start {
                assert(zeros_from(segs@, chosen) < zeros_from(segs@, start as int));
            } else if chosen > start {
                assert(zeros_from(segs@, start as int) < zeros_from(segs@, chosen));
            }
        }
        lemma_zeros_from_bound(segs@, start as int);
        assert(segs@.subrange(0, start as int) =~= segs@.take(start as int));
        assert(segs@.subrange(start + len, 8) =~= segs@.skip(start + len));
        assert(segs@.subrange(0, 8) =~= segs@);
    }
    if len > 1 {
        push_groups(&mut s, &segs, 0, start);
        s.append("::");
        push_groups(&mut s, &segs, start + len, 8);
    } else {
        push_groups(&mut s, &segs, 0, 8);
    }
    assert(s@ =~= ipv6_text(o@));
    s
}

impl InetVal {
    /// The octets of the address in network order: the low four bytes of an
    /// IPv4 cell, or all sixteen with the sign bit flipped back.
    pub open spec fn host_octets(&self) -> Seq<u8> {
        if self.ip_type == 1 {
            self.address_le@.take(4).reverse()
        } else {
            self.address_le@.reverse().update(0, self.address_le@[15] ^ 0x80)
        }
    }

    /// Render back to a canonical IP text string.
    pub fn to_ip_string(&self) -> (r: String)
        ensures
            r@ == (if self.ip_type == 1 {
                ipv4_text(self.host_octets())
            } else {
                ipv6_text(self.host_octets())
            }),
    {
        let a = self.address_le;
        if self.ip_type == IP_TYPE_V4 {
            let o: [u8; 4] = [a[3], a[2], a[1], a[0]];
            assert(o@ =~= self.host_octets());
            ipv4_string(&o)
        } else {
            let o: [u8; 16] = [
                a[15] ^ 0x80,
                a[14],
                a[13],
                a[12],
                a[11],
                a[10],
                a[9],
                a[8],
                a[7],
                a[6],
                a[5],
                a[4],
                a[3],
                a[2],
                a[1],
                a[0],
            ];
            assert(o@ =~= self.host_octets());
            ipv6_string(&o)
        }
    }
}

} // verus!
