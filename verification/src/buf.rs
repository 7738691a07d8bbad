//! A panic-free big-endian byte cursor.
//!
//! Every read is bounds-checked and returns `None` on underrun, leaving the
//! cursor where it was, and any declared length is held against the remaining
//! buffer before it is used to slice.
//!
//! The model of a cursor is the sequence of bytes it has not consumed yet, so a
//! parser's contract reads as a function from unread bytes to unread bytes.

use vstd::prelude::*;
use vstd::slice::slice_subrange;

verus! {

/// The number that a byte string denotes, most significant byte first.
pub open spec fn be(s: Seq<u8>) -> nat
    decreases s.len(),
{
    if s.len() == 0 {
        0
    } else {
        be(s.drop_last()) * 256 + s.last() as nat
    }
}

/// `be` of two bytes.
pub proof fn lemma_be2(s: Seq<u8>)
    requires
        s.len() == 2,
    ensures
        be(s) == s[0] * 0x100 + s[1],
{
    reveal_with_fuel(be, 3);
}

/// `be` of four bytes.
pub proof fn lemma_be4(s: Seq<u8>)
    requires
        s.len() == 4,
    ensures
        be(s) == s[0] * 0x100_0000 + s[1] * 0x1_0000 + s[2] * 0x100 + s[3],
{
    reveal_with_fuel(be, 5);
}

/// `be` of eight bytes, as two halves.
pub proof fn lemma_be8(s: Seq<u8>)
    requires
        s.len() == 8,
    ensures
        be(s) == be(s.take(4)) * 0x1_0000_0000 + be(s.skip(4)),
{
    reveal_with_fuel(be, 9);
    lemma_be4(s.take(4));
    lemma_be4(s.skip(4));
}

/// What a byte string denotes is below the power of 256 of its length.
pub proof fn lemma_be_bound(s: Seq<u8>)
    ensures
        s.len() == 1 ==> be(s) < 0x100,
        s.len() == 2 ==> be(s) < 0x1_0000,
        s.len() == 4 ==> be(s) < 0x1_0000_0000,
        s.len() == 8 ==> be(s) < 0x1_0000_0000_0000_0000,
{
    if s.len() == 1 {
        reveal_with_fuel(be, 2);
    }
    if s.len() == 2 {
        lemma_be2(s);
    }
    if s.len() == 4 {
        lemma_be4(s);
    }
    if s.len() == 8 {
        lemma_be8(s);
        lemma_be4(s.take(4));
        lemma_be4(s.skip(4));
    }
}

/// The big-endian 16-bit number at the front of `s`, where two bytes are there.
pub open spec fn front16(s: Seq<u8>) -> u16 {
    be(s.take(2)) as u16
}

/// The big-endian 32-bit number at the front of `s`, where four bytes are there.
pub open spec fn front32(s: Seq<u8>) -> u32 {
    be(s.take(4)) as u32
}

/// The big-endian 64-bit number at the front of `s`, where eight bytes are there.
pub open spec fn front64(s: Seq<u8>) -> u64 {
    be(s.take(8)) as u64
}

/// The big-endian 16-bit number at offset `i`.
pub open spec fn at16(s: Seq<u8>, i: int) -> u16 {
    be(s.subrange(i, i + 2)) as u16
}

/// The big-endian 32-bit number at offset `i`.
pub open spec fn at32(s: Seq<u8>, i: int) -> u32 {
    be(s.subrange(i, i + 4)) as u32
}

/// Skipping twice is skipping once.
pub broadcast proof fn lemma_skip_skip(s: Seq<u8>, i: int, j: int)
    requires
        0 <= i,
        0 <= j,
        i + j <= s.len(),
    ensures
        #[trigger] s.skip(i).skip(j) == s.skip(i + j),
{
    assert(s.skip(i).skip(j) =~= s.skip(i + j));
}

/// The front of what is left after `i` bytes is what stands at offset `i`.
pub broadcast proof fn lemma_front16_skip(s: Seq<u8>, i: int)
    requires
        0 <= i,
        i + 2 <= s.len(),
    ensures
        #[trigger] front16(s.skip(i)) == at16(s, i),
{
    assert(s.skip(i).take(2) =~= s.subrange(i, i + 2));
}

/// The front of what is left after `i` bytes is what stands at offset `i`.
pub broadcast proof fn lemma_front32_skip(s: Seq<u8>, i: int)
    requires
        0 <= i,
        i + 4 <= s.len(),
    ensures
        #[trigger] front32(s.skip(i)) == at32(s, i),
{
    assert(s.skip(i).take(4) =~= s.subrange(i, i + 4));
}

/// The front of the whole is what stands at offset 0.
pub broadcast proof fn lemma_front_whole(s: Seq<u8>)
    ensures
        s.len() >= 2 ==> #[trigger] front16(s) == at16(s, 0),
{
    if s.len() >= 2 {
        assert(s.take(2) =~= s.subrange(0, 2));
    }
}

/// The front of the whole is what stands at offset 0.
pub broadcast proof fn lemma_front32_whole(s: Seq<u8>)
    ensures
        s.len() >= 4 ==> #[trigger] front32(s) == at32(s, 0),
{
    if s.len() >= 4 {
        assert(s.take(4) =~= s.subrange(0, 4));
    }
}

/// Reading in sequence is reading at offsets.
pub broadcast group group_offsets {
    lemma_skip_skip,
    lemma_front16_skip,
    lemma_front32_skip,
    lemma_front_whole,
    lemma_front32_whole,
}

/// Two bytes as a 16-bit number.
pub fn be_u16(a: u8, b: u8) -> (r: u16)
    ensures
        r == be(seq![a, b]),
{
    proof {
        lemma_be2(seq![a, b]);
    }
    a as u16 * 0x100 + b as u16
}

/// Four bytes as a 32-bit number.
pub fn be_u32(a: u8, b: u8, c: u8, d: u8) -> (r: u32)
    ensures
        r == be(seq![a, b, c, d]),
{
    proof {
        lemma_be4(seq![a, b, c, d]);
    }
    a as u32 * 0x100_0000 + b as u32 * 0x1_0000 + c as u32 * 0x100 + d as u32
}

/// Two bytes that denote a number, most significant first.
pub open spec fn enc16(v: u16) -> Seq<u8> {
    seq![(v / 0x100) as u8, (v % 0x100) as u8]
}

/// Four bytes that denote a number, most significant first.
pub open spec fn enc32(v: u32) -> Seq<u8> {
    seq![
        (v / 0x100_0000) as u8,
        (v / 0x1_0000 % 0x100) as u8,
        (v / 0x100 % 0x100) as u8,
        (v % 0x100) as u8,
    ]
}

/// Eight bytes that denote a number, most significant first.
pub open spec fn enc64(v: u64) -> Seq<u8> {
    enc32((v / 0x1_0000_0000) as u32) + enc32((v % 0x1_0000_0000) as u32)
}

/// What is written big-endian is read back.
pub proof fn lemma_enc16_be(v: u16)
    ensures
        be(enc16(v)) == v,
{
    lemma_be2(enc16(v));
}

/// What is written big-endian is read back.
pub proof fn lemma_enc32_be(v: u32)
    ensures
        be(enc32(v)) == v,
{
    lemma_be4(enc32(v));
    let (hi, lo) = (v / 0x1_0000, v % 0x1_0000);
    assert(v / 0x100_0000 == hi / 0x100);
    assert(v / 0x1_0000 % 0x100 == hi % 0x100);
    assert(v / 0x100 % 0x100 == lo / 0x100);
    assert(v % 0x100 == lo % 0x100);
}

/// What is written big-endian is read back.
pub proof fn lemma_enc64_be(v: u64)
    ensures
        be(enc64(v)) == v,
{
    let hi = (v / 0x1_0000_0000) as u32;
    let lo = (v % 0x1_0000_0000) as u32;
    lemma_enc32_be(hi);
    lemma_enc32_be(lo);
    lemma_be8(enc64(v));
    assert(enc64(v).take(4) =~= enc32(hi));
    assert(enc64(v).skip(4) =~= enc32(lo));
}

/// Appends two bytes, most significant first.
pub fn put16(out: &mut Vec<u8>, v: u16)
    ensures
        final(out)@ == old(out)@ + enc16(v),
{
    out.push((v / 0x100) as u8);
    out.push((v % 0x100) as u8);
    assert(out@ =~= old(out)@ + enc16(v));
}

/// Appends four bytes, most significant first.
pub fn put32(out: &mut Vec<u8>, v: u32)
    ensures
        final(out)@ == old(out)@ + enc32(v),
{
    out.push((v / 0x100_0000) as u8);
    out.push((v / 0x1_0000 % 0x100) as u8);
    out.push((v / 0x100 % 0x100) as u8);
    out.push((v % 0x100) as u8);
    assert(out@ =~= old(out)@ + enc32(v));
}

/// Appends eight bytes, most significant first.
pub fn put64(out: &mut Vec<u8>, v: u64)
    ensures
        final(out)@ == old(out)@ + enc64(v),
{
    put32(out, (v / 0x1_0000_0000) as u32);
    put32(out, (v % 0x1_0000_0000) as u32);
    assert(out@ =~= old(out)@ + enc64(v));
}

/// Appends bytes.
pub fn put_bytes(out: &mut Vec<u8>, b: &[u8])
    ensures
        final(out)@ == old(out)@ + b@,
{
    out.extend_from_slice(b);
    assert(out@ =~= old(out)@ + b@);
}

/// The big-endian 16-bit number at offset `i`.
pub fn read16(b: &[u8], i: usize) -> (r: u16)
    requires
        i + 2 <= b@.len(),
    ensures
        r == at16(b@, i as int),
{
    assert(b@.subrange(i as int, i + 2) =~= seq![b@[i as int], b@[i + 1]]);
    be_u16(b[i], b[i + 1])
}

/// The big-endian 32-bit number at offset `i`.
pub fn read32(b: &[u8], i: usize) -> (r: u32)
    requires
        i + 4 <= b@.len(),
    ensures
        r == at32(b@, i as int),
{
    assert(b@.subrange(i as int, i + 4) =~= seq![
        b@[i as int],
        b@[i + 1],
        b@[i + 2],
        b@[i + 3],
    ]);
    be_u32(b[i], b[i + 1], b[i + 2], b[i + 3])
}

/// What `Cursor::take` leaves unread: `n` bytes fewer, or all of them.
pub open spec fn after(s: Seq<u8>, n: int) -> Seq<u8> {
    if n <= s.len() {
        s.skip(n)
    } else {
        s
    }
}

/// A read cursor over a byte slice. Reads advance the position and never panic.
pub struct Cursor<'a> {
    data: &'a [u8],
    pos: usize,
}

impl<'a> View for Cursor<'a> {
    type V = Seq<u8>;

    /// The bytes not yet consumed.
    closed spec fn view(&self) -> Seq<u8> {
        self.data@.skip(self.pos as int)
    }
}

impl<'a> Cursor<'a> {
    /// The position lies in the slice.
    pub closed spec fn wf(&self) -> bool {
        self.pos <= self.data@.len()
    }

    /// The whole slice, consumed bytes included.
    pub closed spec fn source(&self) -> Seq<u8> {
        self.data@
    }

    /// What is not yet consumed is the end of the slice.
    pub proof fn lemma_rest(&self)
        requires
            self.wf(),
        ensures
            self@.len() <= self.source().len(),
            self@ == self.source().skip(self.source().len() - self@.len()),
    {
    }

    /// A cursor at the start of `data`.
    pub fn new(data: &'a [u8]) -> (r: Self)
        ensures
            r.wf(),
            r.source() == data@,
            r@ == data@,
    {
        let c = Cursor { data, pos: 0 };
        assert(c@ =~= data@);
        c
    }

    /// Bytes not yet consumed.
    pub fn remaining(&self) -> (n: usize)
        requires
            self.wf(),
        ensures
            n == self@.len(),
    {
        self.data.len() - self.pos
    }

    /// Bytes consumed so far.
    pub fn position(&self) -> (n: usize)
        requires
            self.wf(),
        ensures
            n == self.source().len() - self@.len(),
    {
        self.pos
    }

    /// `true` when every byte is consumed.
    pub fn is_empty(&self) -> (r: bool)
        requires
            self.wf(),
        ensures
            r == (self@.len() == 0),
    {
        self.remaining() == 0
    }

    /// Borrow the next `n` bytes and advance, or `None` if fewer remain.
    pub fn take(&mut self, n: usize) -> (r: Option<&'a [u8]>)
        requires
            old(self).wf(),
        ensures
            final(self).wf(),
            final(self).source() == old(self).source(),
            final(self)@ == after(old(self)@, n as int),
            r is Some <==> n <= old(self)@.len(),
            r matches Some(s) ==> s@ == old(self)@.take(n as int),
    {
        if n > self.remaining() {
            return None;
        }
        assert(self.pos + n <= self.data.len());
        let s = slice_subrange(self.data, self.pos, self.pos + n);
        proof {
            assert(s@ =~= self@.take(n as int));
            assert(self.data@.skip(self.pos + n) =~= self@.skip(n as int));
        }
        self.pos = self.pos + n;
        Some(s)
    }

    /// Peek the next `n` bytes without advancing.
    pub fn peek(&self, n: usize) -> (r: Option<&'a [u8]>)
        requires
            self.wf(),
        ensures
            r is Some <==> n <= self@.len(),
            r matches Some(s) ==> s@ == self@.take(n as int),
    {
        if n > self.remaining() {
            return None;
        }
        assert(self.pos + n <= self.data.len());
        let s = slice_subrange(self.data, self.pos, self.pos + n);
        assert(s@ =~= self@.take(n as int));
        Some(s)
    }

    /// The next byte.
    pub fn u8(&mut self) -> (r: Option<u8>)
        requires
            old(self).wf(),
        ensures
            final(self).wf(),
            final(self).source() == old(self).source(),
            final(self)@ == after(old(self)@, 1),
            r == (if old(self)@.len() >= 1 {
                Some(old(self)@[0])
            } else {
                None
            }),
    {
        match self.take(1) {
            Some(b) => Some(b[0]),
            None => None,
        }
    }

    /// The next two bytes as a big-endian number.
    pub fn u16(&mut self) -> (r: Option<u16>)
        requires
            old(self).wf(),
        ensures
            final(self).wf(),
            final(self).source() == old(self).source(),
            final(self)@ == after(old(self)@, 2),
            r == (if old(self)@.len() >= 2 {
                Some(front16(old(self)@))
            } else {
                None
            }),
    {
        match self.take(2) {
            Some(b) => {
                assert(b@ =~= seq![b@[0], b@[1]]);
                Some(be_u16(b[0], b[1]))
            },
            None => None,
        }
    }

    /// The next four bytes as a big-endian number.
    pub fn u32(&mut self) -> (r: Option<u32>)
        requires
            old(self).wf(),
        ensures
            final(self).wf(),
            final(self).source() == old(self).source(),
            final(self)@ == after(old(self)@, 4),
            r == (if old(self)@.len() >= 4 {
                Some(front32(old(self)@))
            } else {
                None
            }),
    {
        match self.take(4) {
            Some(b) => {
                assert(b@ =~= seq![b@[0], b@[1], b@[2], b@[3]]);
                Some(be_u32(b[0], b[1], b[2], b[3]))
            },
            None => None,
        }
    }

    /// The next eight bytes as a big-endian number.
    pub fn u64(&mut self) -> (r: Option<u64>)
        requires
            old(self).wf(),
        ensures
            final(self).wf(),
            final(self).source() == old(self).source(),
            final(self)@ == after(old(self)@, 8),
            r == (if old(self)@.len() >= 8 {
                Some(front64(old(self)@))
            } else {
                None
            }),
    {
        match self.take(8) {
            Some(b) => {
                let hi: u32 = be_u32(b[0], b[1], b[2], b[3]);
                let lo: u32 = be_u32(b[4], b[5], b[6], b[7]);
                proof {
                    assert(b@.take(4) =~= seq![b@[0], b@[1], b@[2], b@[3]]);
                    assert(b@.skip(4) =~= seq![b@[4], b@[5], b@[6], b@[7]]);
                    lemma_be8(b@);
                }
                Some(hi as u64 * 0x1_0000_0000 + lo as u64)
            },
            None => None,
        }
    }

    /// Skip `n` bytes; `false`, and nothing skipped, if fewer remain.
    pub fn skip(&mut self, n: usize) -> (r: bool)
        requires
            old(self).wf(),
        ensures
            final(self).wf(),
            final(self).source() == old(self).source(),
            final(self)@ == after(old(self)@, n as int),
            r == (n <= old(self)@.len()),
    {
        self.take(n).is_some()
    }
}

} // verus!
