//! The packet buffer: an owned byte sequence with a byte cursor and a bit
//! cursor, written and read in the protocol's integer encodings.

use crate::wire::{
    be2, be3, be4, be8, be_bytes, byte_at, cursor_after, latin, le2, le4, le_bytes,
    lemma_nonzero_prefix, lemma_nonzero_step, lemma_written_twice, nonzero, octet, placed,
    signed16, signed32, signed64, signed8, smart_bytes, smart_value, smart_width, smarts_bytes,
    smarts_value, taken, text_at, text_cursor, text_end, unbiased, window, written, zeros,
};
use vstd::prelude::*;
use vstd::string::StringSliceAdditionalSpecFns;

verus! {

/// A byte buffer with two cursors. The two are independent: `bits` and
/// `bytes` set one from the other, and nothing else ties them.
#[derive(Clone, Debug, PartialEq)]
pub struct Packet {
    pub data: Vec<u8>,
    /// The byte cursor: where the next byte is read or written.
    pub position: usize,
    /// The bit cursor.
    pub bit_position: usize,
}

/// Shifting and cutting an `i32` down to a byte gives its bytes.
proof fn lemma_octets_i32(v: i32)
    ensures
        (v as u8) == octet(v as int, 0),
        ((v >> 8) as u8) == octet(v as int, 1),
        ((v >> 16) as u8) == octet(v as int, 2),
        ((v >> 24) as u8) == octet(v as int, 3),
{
    assert((v as u8) == (v as int % 0x100) as u8) by (bit_vector);
    assert(((v >> 8) as u8) == (v as int / 0x100 % 0x100) as u8) by (bit_vector);
    assert(((v >> 16) as u8) == (v as int / 0x1_0000 % 0x100) as u8) by (bit_vector);
    assert(((v >> 24) as u8) == (v as int / 0x100_0000 % 0x100) as u8) by (bit_vector);
}

/// Shifting and cutting an `i64` down to a byte gives its bytes.
proof fn lemma_octets_i64(v: i64)
    ensures
        (v as u8) == octet(v as int, 0),
        ((v >> 8) as u8) == octet(v as int, 1),
        ((v >> 16) as u8) == octet(v as int, 2),
        ((v >> 24) as u8) == octet(v as int, 3),
        ((v >> 32) as u8) == octet(v as int, 4),
        ((v >> 40) as u8) == octet(v as int, 5),
        ((v >> 48) as u8) == octet(v as int, 6),
        ((v >> 56) as u8) == octet(v as int, 7),
{
    assert((v as u8) == (v as int % 0x100) as u8) by (bit_vector);
    assert(((v >> 8) as u8) == (v as int / 0x100 % 0x100) as u8) by (bit_vector);
    assert(((v >> 16) as u8) == (v as int / 0x1_0000 % 0x100) as u8) by (bit_vector);
    assert(((v >> 24) as u8) == (v as int / 0x100_0000 % 0x100) as u8) by (bit_vector);
    assert(((v >> 32) as u8) == (v as int / 0x1_0000_0000 % 0x100) as u8) by (bit_vector);
    assert(((v >> 40) as u8) == (v as int / 0x100_0000_0000 % 0x100) as u8) by (bit_vector);
    assert(((v >> 48) as u8) == (v as int / 0x1_0000_0000_0000 % 0x100) as u8) by (bit_vector);
    assert(((v >> 56) as u8) == (v as int / 0x100_0000_0000_0000 % 0x100) as u8) by (bit_vector);
}

/// Two bytes joined by shift and or spell the number that they do by
/// multiplying and adding.
proof fn lemma_join_u16(b0: u8, b1: u8)
    ensures
        ((b0 as u16) << 8 | (b1 as u16)) == b0 * 0x100 + b1,
{
    assert(((b0 as u16) << 8 | (b1 as u16)) == (b0 as u16) * 0x100 + (b1 as u16)) by (bit_vector);
}

/// Three or four bytes joined by shift and or spell the number that they do
/// by multiplying and adding; taken as an `i32`, that number is read as two's
/// complement.
proof fn lemma_join_u32(b0: u8, b1: u8, b2: u8, b3: u8)
    ensures
        ((b0 as u32) << 24 | (b1 as u32) << 16 | (b2 as u32) << 8 | (b3 as u32)) == b0 * 0x100_0000
            + b1 * 0x1_0000 + b2 * 0x100 + b3,
        b0 == 0 ==> ((b1 as i32) << 16 | (b2 as i32) << 8 | (b3 as i32)) == b1 * 0x1_0000 + b2
            * 0x100 + b3,
        (((b0 as u32) << 24 | (b1 as u32) << 16 | (b2 as u32) << 8 | (b3 as u32)) as i32) as int
            == signed32(b0 * 0x100_0000 + b1 * 0x1_0000 + b2 * 0x100 + b3),
{
    let u: u32 = (b0 as u32) << 24 | (b1 as u32) << 16 | (b2 as u32) << 8 | (b3 as u32);
    assert(u == (b0 as u32) * 0x100_0000 + (b1 as u32) * 0x1_0000 + (b2 as u32) * 0x100 + (
    b3 as u32)) by (bit_vector)
        requires
            u == (b0 as u32) << 24 | (b1 as u32) << 16 | (b2 as u32) << 8 | (b3 as u32),
    ;
    assert(((b1 as i32) << 16 | (b2 as i32) << 8 | (b3 as i32)) == (b1 as i32) * 0x1_0000 + (
    b2 as i32) * 0x100 + (b3 as i32)) by (bit_vector);
    assert((u as i32) as int == if u >= 0x8000_0000 {
        u as int - 0x1_0000_0000
    } else {
        u as int
    }) by (bit_vector);
}

/// Two words joined by shift and or spell the number that they do by
/// multiplying and adding.
proof fn lemma_join_u64(high: u32, low: u32)
    ensures
        ((high as u64) << 32 | (low as u64)) == high * 0x1_0000_0000 + low,
{
    assert(((high as u64) << 32 | (low as u64)) == (high as u64) * 0x1_0000_0000 + (low as u64))
        by (bit_vector);
}

/// A `u64` taken as an `i64` is read as two's complement.
proof fn lemma_signed_cast_u64(u: u64)
    ensures
        (u as i64) as int == signed64(u as int),
{
    assert((u as i64) as int == if u >= 0x8000_0000_0000_0000 {
        u as int - 0x1_0000_0000_0000_0000
    } else {
        u as int
    }) by (bit_vector);
}

/// A `u8` taken as an `i8`, and a `u16` taken as an `i16`, are read as two's
/// complement.
proof fn lemma_signed_casts(a: u8, b: u16)
    ensures
        (a as i8) as int == signed8(a as int),
        (b as i16) as int == signed16(b as int),
{
    assert((a as i8) as int == if a >= 0x80 { a as int - 0x100 } else { a as int }) by (bit_vector);
    assert((b as i16) as int == if b >= 0x8000 { b as int - 0x1_0000 } else { b as int })
        by (bit_vector);
}

/// `String::push` of std appends the character to the end of the string.
pub assume_specification[ String::push ](text: &mut String, c: char)
    ensures
        final(text)@ == old(text)@.push(c),
;

impl Packet {
    /// The `n` bytes that a read sees at the cursor.
    pub open spec fn ahead(&self, n: nat) -> Seq<u8> {
        window(self.data@, self.position as int, n)
    }

    /// `self` is what a read of `n` bytes makes of `before`: the bytes stay, the
    /// cursor moves on by `n` and stops at the buffer's end.
    pub open spec fn read_from(&self, before: Packet, n: int) -> bool {
        &&& self.data@ == before.data@
        &&& self.bit_position == before.bit_position
        &&& self.position == cursor_after(before.data@.len() as int, before.position as int, n)
    }

    /// `self` is what a write of `bytes` makes of `before`.
    pub open spec fn wrote_to(&self, before: Packet, bytes: Seq<u8>) -> bool {
        &&& self.data@ == written(before.data@, before.position as int, bytes)
        &&& self.position == before.position + bytes.len()
        &&& self.bit_position == before.bit_position
    }

    /// A packet of `size` zero bytes, both cursors at the start.
    pub fn new(size: usize) -> (packet: Packet)
        ensures
            packet.data@ == zeros(size as nat),
            packet.position == 0,
            packet.bit_position == 0,
    {
        let data: Vec<u8> = vec![0u8; size];
        assert(data@ =~= zeros(size as nat));
        Packet { data, position: 0, bit_position: 0 }
    }

    /// A packet over `data`, both cursors at the start.
    pub fn from(data: Vec<u8>) -> (packet: Packet)
        ensures
            packet.data == data,
            packet.position == 0,
            packet.bit_position == 0,
    {
        Packet { data, position: 0, bit_position: 0 }
    }

    /// How many bytes lie between the cursor and the end, as the `i32` that the
    /// difference truncates to.
    pub fn remaining(&self) -> (left: i32)
        requires
            self.position <= self.data@.len(),
        ensures
            left == (self.data@.len() - self.position) as usize as i32,
            self.data@.len() - self.position <= i32::MAX ==> left == self.data@.len()
                - self.position,
    {
        let d: usize = self.data.len() - self.position;
        assert(d <= 0x7fff_ffff ==> (d as i32) as int == d as int) by (bit_vector);
        #[verifier::truncate]
        (d as i32)
    }

    /// How many bytes the buffer holds.
    pub fn len(&self) -> (n: usize)
        ensures
            n == self.data@.len(),
    {
        self.data.len()
    }

    /// Whether the buffer holds no byte.
    pub fn is_empty(&self) -> (empty: bool)
        ensures
            empty == (self.data@.len() == 0),
    {
        self.data.len() == 0
    }

    /// Byte `k` behind the cursor, zero where the buffer has ended.
    fn peek(&self, k: usize) -> (b: u8)
        ensures
            b == byte_at(self.data@, self.position + k),
    {
        let len: usize = self.data.len();
        if self.position < len && k < len - self.position {
            self.data[self.position + k]
        } else {
            0
        }
    }

    /// Moves the cursor over `n` bytes, as far as the buffer reaches.
    fn skip(&mut self, n: usize)
        ensures
            final(self).read_from(*old(self), n as int),
    {
        let len: usize = self.data.len();
        if self.position < len && n <= len - self.position {
            self.position += n;
        } else {
            self.position = len;
        }
    }

    /// Writes one byte at the cursor.
    fn put(&mut self, b: u8)
        requires
            old(self).position < usize::MAX,
        ensures
            final(self).wrote_to(*old(self), seq![b]),
    {
        if self.position < self.data.len() {
            self.data[self.position] = b;
        } else {
            self.data.push(b);
        }
        self.position += 1;
        assert(self.data@ =~= written(old(self).data@, old(self).position as int, seq![b]));
    }

    /// Writes the low byte of `value`.
    pub fn p1(&mut self, value: i32)
        requires
            old(self).position + 1 <= usize::MAX,
        ensures
            final(self).wrote_to(*old(self), be_bytes(value as int, 1)),
    {
        proof {
            lemma_octets_i32(value);
        }
        self.put(#[verifier::truncate] (value as u8));
        assert(seq![octet(value as int, 0)] =~= be_bytes(value as int, 1));
    }

    /// Writes the low byte of `value + 128`.
    pub fn p1add(&mut self, value: i32)
        requires
            old(self).position + 1 <= usize::MAX,
        ensures
            final(self).wrote_to(*old(self), be_bytes(value + 128, 1)),
    {
        let low: u8 = #[verifier::truncate] (value as u8);
        let biased: u8 = low.wrapping_add(128);
        proof {
            lemma_octets_i32(value);
            assert(biased == octet(value + 128, 0));
        }
        self.put(biased);
        assert(seq![biased] =~= be_bytes(value + 128, 1));
    }

    /// Writes the low two bytes of `value`, most significant first.
    pub fn p2(&mut self, value: i32)
        requires
            old(self).position + 2 <= usize::MAX,
        ensures
            final(self).wrote_to(*old(self), be_bytes(value as int, 2)),
    {
        proof {
            lemma_octets_i32(value);
        }
        let b0: u8 = #[verifier::truncate] ((value >> 8) as u8);
        let b1: u8 = #[verifier::truncate] (value as u8);
        self.put(b0);
        self.put(b1);
        proof {
            lemma_written_twice(old(self).data@, old(self).position as int, seq![b0], seq![b1]);
            assert(seq![b0] + seq![b1] =~= be_bytes(value as int, 2));
        }
    }

    /// Reads one byte.
    pub fn g1(&mut self) -> (value: u8)
        ensures
            final(self).read_from(*old(self), 1),
            value == old(self).ahead(1)[0],
    {
        let b: u8 = self.peek(0);
        self.skip(1);
        b
    }

    /// Reads one byte as a signed number.
    pub fn g1b(&mut self) -> (value: i8)
        ensures
            final(self).read_from(*old(self), 1),
            value == signed8(old(self).ahead(1)[0] as int),
    {
        let b: u8 = self.peek(0);
        self.skip(1);
        proof {
            lemma_signed_casts(b, 0);
        }
        #[verifier::truncate]
        (b as i8)
    }

    /// Reads two bytes, most significant first.
    pub fn g2(&mut self) -> (value: u16)
        ensures
            final(self).read_from(*old(self), 2),
            value == be2(old(self).ahead(2)),
    {
        let b0: u8 = self.peek(0);
        let b1: u8 = self.peek(1);
        self.skip(2);
        proof {
            lemma_join_u16(b0, b1);
        }
        (b0 as u16) << 8 | (b1 as u16)
    }

    /// Writes two bytes at the cursor.
    fn put2(&mut self, b0: u8, b1: u8)
        requires
            old(self).position + 2 <= usize::MAX,
        ensures
            final(self).wrote_to(*old(self), seq![b0, b1]),
    {
        self.put(b0);
        self.put(b1);
        proof {
            lemma_written_twice(old(self).data@, old(self).position as int, seq![b0], seq![b1]);
            assert(seq![b0] + seq![b1] =~= seq![b0, b1]);
        }
    }

    /// Writes four bytes at the cursor.
    fn put4(&mut self, b0: u8, b1: u8, b2: u8, b3: u8)
        requires
            old(self).position + 4 <= usize::MAX,
        ensures
            final(self).wrote_to(*old(self), seq![b0, b1, b2, b3]),
    {
        self.put2(b0, b1);
        self.put2(b2, b3);
        proof {
            lemma_written_twice(
                old(self).data@,
                old(self).position as int,
                seq![b0, b1],
                seq![b2, b3],
            );
            assert(seq![b0, b1] + seq![b2, b3] =~= seq![b0, b1, b2, b3]);
        }
    }

    /// Writes the second byte of `value`, then the low byte of `value + 128`.
    pub fn p2add(&mut self, value: i32)
        requires
            old(self).position + 2 <= usize::MAX,
        ensures
            final(self).wrote_to(*old(self), seq![octet(value as int, 1), octet(value + 128, 0)]),
    {
        proof {
            lemma_octets_i32(value);
        }
        let b0: u8 = #[verifier::truncate] ((value >> 8) as u8);
        let low: u8 = #[verifier::truncate] (value as u8);
        self.put2(b0, low.wrapping_add(128));
    }

    /// Writes the low byte of `value + 128`, then the second byte of `value`.
    pub fn p2leadd(&mut self, value: i32)
        requires
            old(self).position + 2 <= usize::MAX,
        ensures
            final(self).wrote_to(*old(self), seq![octet(value + 128, 0), octet(value as int, 1)]),
    {
        proof {
            lemma_octets_i32(value);
        }
        let low: u8 = #[verifier::truncate] (value as u8);
        let b1: u8 = #[verifier::truncate] ((value >> 8) as u8);
        self.put2(low.wrapping_add(128), b1);
    }

    /// Writes the low two bytes of `value`, least significant first.
    pub fn ip2(&mut self, value: i32)
        requires
            old(self).position + 2 <= usize::MAX,
        ensures
            final(self).wrote_to(*old(self), le_bytes(value as int, 2)),
    {
        proof {
            lemma_octets_i32(value);
        }
        let b0: u8 = #[verifier::truncate] (value as u8);
        let b1: u8 = #[verifier::truncate] ((value >> 8) as u8);
        self.put2(b0, b1);
        assert(seq![b0, b1] =~= le_bytes(value as int, 2));
    }

    /// Writes the low three bytes of `value`, most significant first.
    pub fn p3(&mut self, value: i32)
        requires
            old(self).position + 3 <= usize::MAX,
        ensures
            final(self).wrote_to(*old(self), be_bytes(value as int, 3)),
    {
        proof {
            lemma_octets_i32(value);
        }
        let b0: u8 = #[verifier::truncate] ((value >> 16) as u8);
        let b1: u8 = #[verifier::truncate] ((value >> 8) as u8);
        let b2: u8 = #[verifier::truncate] (value as u8);
        self.put(b0);
        self.put2(b1, b2);
        proof {
            lemma_written_twice(old(self).data@, old(self).position as int, seq![b0], seq![b1, b2]);
            assert(seq![b0] + seq![b1, b2] =~= be_bytes(value as int, 3));
        }
    }

    /// Writes the four bytes of `value`, most significant first.
    pub fn p4(&mut self, value: i32)
        requires
            old(self).position + 4 <= usize::MAX,
        ensures
            final(self).wrote_to(*old(self), be_bytes(value as int, 4)),
    {
        proof {
            lemma_octets_i32(value);
        }
        let b0: u8 = #[verifier::truncate] ((value >> 24) as u8);
        let b1: u8 = #[verifier::truncate] ((value >> 16) as u8);
        let b2: u8 = #[verifier::truncate] ((value >> 8) as u8);
        let b3: u8 = #[verifier::truncate] (value as u8);
        self.put4(b0, b1, b2, b3);
        assert(seq![b0, b1, b2, b3] =~= be_bytes(value as int, 4));
    }

    /// Writes the four bytes of `value` in the order third, fourth, first,
    /// second, counted from the least significant.
    pub fn p4me(&mut self, value: i32)
        requires
            old(self).position + 4 <= usize::MAX,
        ensures
            final(self).wrote_to(
                *old(self),
                seq![
                    octet(value as int, 2),
                    octet(value as int, 3),
                    octet(value as int, 0),
                    octet(value as int, 1),
                ],
            ),
    {
        proof {
            lemma_octets_i32(value);
        }
        let b0: u8 = #[verifier::truncate] ((value >> 16) as u8);
        let b1: u8 = #[verifier::truncate] ((value >> 24) as u8);
        let b2: u8 = #[verifier::truncate] (value as u8);
        let b3: u8 = #[verifier::truncate] ((value >> 8) as u8);
        self.put4(b0, b1, b2, b3);
    }

    /// Writes the four bytes of `value` in the order second, first, fourth,
    /// third, counted from the least significant.
    pub fn p4rme(&mut self, value: i32)
        requires
            old(self).position + 4 <= usize::MAX,
        ensures
            final(self).wrote_to(
                *old(self),
                seq![
                    octet(value as int, 1),
                    octet(value as int, 0),
                    octet(value as int, 3),
                    octet(value as int, 2),
                ],
            ),
    {
        proof {
            lemma_octets_i32(value);
        }
        let b0: u8 = #[verifier::truncate] ((value >> 8) as u8);
        let b1: u8 = #[verifier::truncate] (value as u8);
        let b2: u8 = #[verifier::truncate] ((value >> 24) as u8);
        let b3: u8 = #[verifier::truncate] ((value >> 16) as u8);
        self.put4(b0, b1, b2, b3);
    }

    /// Writes the four bytes of `value`, least significant first.
    pub fn ip4(&mut self, value: i32)
        requires
            old(self).position + 4 <= usize::MAX,
        ensures
            final(self).wrote_to(*old(self), le_bytes(value as int, 4)),
    {
        proof {
            lemma_octets_i32(value);
        }
        let b0: u8 = #[verifier::truncate] (value as u8);
        let b1: u8 = #[verifier::truncate] ((value >> 8) as u8);
        let b2: u8 = #[verifier::truncate] ((value >> 16) as u8);
        let b3: u8 = #[verifier::truncate] ((value >> 24) as u8);
        self.put4(b0, b1, b2, b3);
        assert(seq![b0, b1, b2, b3] =~= le_bytes(value as int, 4));
    }

    /// Writes the eight bytes of `value`, most significant first.
    pub fn p8(&mut self, value: i64)
        requires
            old(self).position + 8 <= usize::MAX,
        ensures
            final(self).wrote_to(*old(self), be_bytes(value as int, 8)),
    {
        proof {
            lemma_octets_i64(value);
        }
        let b0: u8 = #[verifier::truncate] ((value >> 56) as u8);
        let b1: u8 = #[verifier::truncate] ((value >> 48) as u8);
        let b2: u8 = #[verifier::truncate] ((value >> 40) as u8);
        let b3: u8 = #[verifier::truncate] ((value >> 32) as u8);
        let b4: u8 = #[verifier::truncate] ((value >> 24) as u8);
        let b5: u8 = #[verifier::truncate] ((value >> 16) as u8);
        let b6: u8 = #[verifier::truncate] ((value >> 8) as u8);
        let b7: u8 = #[verifier::truncate] (value as u8);
        self.put4(b0, b1, b2, b3);
        self.put4(b4, b5, b6, b7);
        proof {
            lemma_written_twice(
                old(self).data@,
                old(self).position as int,
                seq![b0, b1, b2, b3],
                seq![b4, b5, b6, b7],
            );
            assert(seq![b0, b1, b2, b3] + seq![b4, b5, b6, b7] =~= be_bytes(value as int, 8));
        }
    }

    /// Writes `value` as an unsigned smart: one byte below 128, else two bytes
    /// with the top bit set.
    pub fn psmart(&mut self, value: i32)
        requires
            0 <= value <= 32767,
            old(self).position + smart_bytes(value as int).len() <= usize::MAX,
        ensures
            final(self).wrote_to(*old(self), smart_bytes(value as int)),
    {
        if value < 128 {
            self.p1(value);
        } else {
            self.p2(value + 32768);
        }
    }

    /// Writes `value` as a signed smart: one byte from -64 to 63, else two
    /// bytes with the top two bits set.
    pub fn psmarts(&mut self, value: i32)
        requires
            -16384 <= value <= 16383,
            old(self).position + smarts_bytes(value as int).len() <= usize::MAX,
        ensures
            final(self).wrote_to(*old(self), smarts_bytes(value as int)),
    {
        if value < 64 && value >= -64 {
            self.p1(value + 64);
        } else {
            self.p2(value + 49152);
        }
    }

    /// Writes `value` as `psmart` does and says yes, where the value lies
    /// from 0 to 32767. Any other value is refused: nothing is written, the
    /// cursor stays, and the answer is no.
    pub fn try_psmart(&mut self, value: i32) -> (accepted: bool)
        requires
            0 <= value <= 32767 ==> old(self).position + smart_bytes(value as int).len()
                <= usize::MAX,
        ensures
            accepted == (0 <= value <= 32767),
            accepted ==> final(self).wrote_to(*old(self), smart_bytes(value as int)),
            !accepted ==> *final(self) == *old(self),
    {
        if value >= 0 && value < 32768 {
            self.psmart(value);
            true
        } else {
            false
        }
    }

    /// Writes `value` as `psmarts` does and says yes, where the value lies
    /// from -16384 to 16383. Any other value is refused: nothing is written,
    /// the cursor stays, and the answer is no.
    pub fn try_psmarts(&mut self, value: i32) -> (accepted: bool)
        requires
            -16384 <= value <= 16383 ==> old(self).position + smarts_bytes(value as int).len()
                <= usize::MAX,
        ensures
            accepted == (-16384 <= value <= 16383),
            accepted ==> final(self).wrote_to(*old(self), smarts_bytes(value as int)),
            !accepted ==> *final(self) == *old(self),
    {
        if value < 16384 && value >= -16384 {
            self.psmarts(value);
            true
        } else {
            false
        }
    }

    /// Fills the gap with zeros where the cursor stands behind the end.
    fn fill_to_cursor(&mut self)
        ensures
            final(self).position == old(self).position,
            final(self).bit_position == old(self).bit_position,
            final(self).data@ == placed(old(self).data@, old(self).position as int, Seq::empty()),
            final(self).position <= final(self).data@.len(),
    {
        if self.position > self.data.len() {
            self.data.resize(self.position, 0);
            assert(self.data@ =~= old(self).data@ + zeros(
                (old(self).position - old(self).data@.len()) as nat,
            ));
        }
        assert(self.data@ =~= placed(old(self).data@, old(self).position as int, Seq::empty()));
    }

    /// Copies `length` bytes of `src`, from `offset` on, to the cursor.
    pub fn pbytes(&mut self, src: &[u8], offset: usize, length: usize)
        requires
            offset + length <= src@.len(),
            old(self).position + length <= usize::MAX,
        ensures
            final(self).data@ == placed(
                old(self).data@,
                old(self).position as int,
                src@.subrange(offset as int, offset + length),
            ),
            final(self).position == old(self).position + length,
            final(self).bit_position == old(self).bit_position,
    {
        self.fill_to_cursor();
        let total: usize = src.len();
        let ghost base = self.data@;
        let ghost start = self.position as int;
        let mut i: usize = 0;
        while i < length
            invariant
                i <= length,
                offset + length <= total == src@.len(),
                0 <= start,
                start + length <= usize::MAX,
                start <= base.len(),
                self.position == start + i,
                self.bit_position == old(self).bit_position,
                self.data@ == written(base, start, src@.subrange(offset as int, offset + i)),
            decreases length - i,
        {
            let b: u8 = src[offset + i];
            let ghost done = src@.subrange(offset as int, offset + i);
            self.put(b);
            proof {
                lemma_written_twice(base, start, done, seq![b]);
                assert(done + seq![b] =~= src@.subrange(offset as int, offset + i + 1));
            }
            i += 1;
        }
        assert(self.data@ =~= placed(
            old(self).data@,
            old(self).position as int,
            src@.subrange(offset as int, offset + length),
        ));
    }

    /// Writes the bytes of `str` but the zero ones, then `terminator`.
    pub fn pjstr(&mut self, str: &str, terminator: u8)
        requires
            old(self).position + nonzero(str.spec_bytes()).len() + 1 <= usize::MAX,
        ensures
            final(self).data@ == placed(
                old(self).data@,
                old(self).position as int,
                nonzero(str.spec_bytes()).push(terminator),
            ),
            final(self).position == old(self).position + nonzero(str.spec_bytes()).len() + 1,
            final(self).bit_position == old(self).bit_position,
    {
        self.fill_to_cursor();
        let bytes: &[u8] = str.as_bytes();
        let ghost base = self.data@;
        let ghost start = self.position as int;
        let mut i: usize = 0;
        while i < bytes.len()
            invariant
                i <= bytes@.len(),
                bytes@ == str.spec_bytes(),
                0 <= start,
                start + nonzero(bytes@).len() + 1 <= usize::MAX,
                start <= base.len(),
                self.position == start + nonzero(bytes@.subrange(0, i as int)).len(),
                self.bit_position == old(self).bit_position,
                self.data@ == written(base, start, nonzero(bytes@.subrange(0, i as int))),
            decreases bytes@.len() - i,
        {
            let b: u8 = bytes[i];
            let ghost done = nonzero(bytes@.subrange(0, i as int));
            proof {
                lemma_nonzero_step(bytes@, i as int);
                lemma_nonzero_prefix(bytes@, i as int + 1);
            }
            if b != 0 {
                self.put(b);
                proof {
                    lemma_written_twice(base, start, done, seq![b]);
                }
            }
            i += 1;
        }
        let ghost text = nonzero(bytes@);
        assert(bytes@.subrange(0, bytes@.len() as int) =~= bytes@);
        self.put(terminator);
        proof {
            lemma_written_twice(base, start, text, seq![terminator]);
            assert(text + seq![terminator] =~= text.push(terminator));
            assert(self.data@ =~= placed(
                old(self).data@,
                old(self).position as int,
                text.push(terminator),
            ));
        }
    }

    /// Writes a zero byte, then `str` as `pjstr` does with a zero terminator.
    pub fn pjstr2(&mut self, str: &str)
        requires
            old(self).position + nonzero(str.spec_bytes()).len() + 2 <= usize::MAX,
        ensures
            final(self).data@ == placed(
                written(old(self).data@, old(self).position as int, seq![0u8]),
                old(self).position + 1,
                nonzero(str.spec_bytes()).push(0u8),
            ),
            final(self).position == old(self).position + nonzero(str.spec_bytes()).len() + 2,
            final(self).bit_position == old(self).bit_position,
    {
        self.put(0);
        self.pjstr(str, 0);
    }

    /// How many bytes lie between the cursor and the end.
    pub open spec fn available(&self) -> int {
        if self.position <= self.data@.len() {
            self.data@.len() - self.position
        } else {
            0
        }
    }

    /// Reads two bytes, most significant first, and takes 128 off the second.
    /// Where the second byte is missing, the first alone counts.
    pub fn g2add(&mut self) -> (value: u16)
        ensures
            final(self).read_from(*old(self), 2),
            value == if old(self).available() >= 2 {
                old(self).ahead(2)[0] * 0x100 + unbiased(old(self).ahead(2)[1])
            } else {
                be2(old(self).ahead(2))
            },
    {
        let len: usize = self.data.len();
        let whole: bool = self.position < len && 1 < len - self.position;
        let b0: u8 = self.peek(0);
        let b1: u8 = self.peek(1);
        let low: u8 = if whole {
            b1.wrapping_sub(128)
        } else {
            0
        };
        self.skip(2);
        proof {
            lemma_join_u16(b0, low);
        }
        (b0 as u16) << 8 | (low as u16)
    }

    /// Reads two bytes, most significant first, as a signed number.
    pub fn g2b(&mut self) -> (value: i16)
        ensures
            final(self).read_from(*old(self), 2),
            value == signed16(be2(old(self).ahead(2))),
    {
        let u: u16 = self.g2();
        proof {
            lemma_signed_casts(0, u);
        }
        #[verifier::truncate]
        (u as i16)
    }

    /// Reads two bytes, most significant first, as a signed number.
    pub fn g2s(&mut self) -> (value: i16)
        ensures
            final(self).read_from(*old(self), 2),
            value == signed16(be2(old(self).ahead(2))),
    {
        self.g2b()
    }

    /// Reads two bytes, least significant first, as a signed number.
    pub fn ig2s(&mut self) -> (value: i16)
        ensures
            final(self).read_from(*old(self), 2),
            value == signed16(le2(old(self).ahead(2))),
    {
        let u: u16 = self.ig2();
        proof {
            lemma_signed_casts(0, u);
        }
        #[verifier::truncate]
        (u as i16)
    }

    /// Reads two bytes, least significant first.
    pub fn ig2(&mut self) -> (value: u16)
        ensures
            final(self).read_from(*old(self), 2),
            value == le2(old(self).ahead(2)),
    {
        let b0: u8 = self.peek(0);
        let b1: u8 = self.peek(1);
        self.skip(2);
        proof {
            lemma_join_u16(b1, b0);
        }
        (b1 as u16) << 8 | (b0 as u16)
    }

    /// Reads three bytes, most significant first.
    pub fn g3(&mut self) -> (value: i32)
        ensures
            final(self).read_from(*old(self), 3),
            value == be3(old(self).ahead(3)),
    {
        let b0: u8 = self.peek(0);
        let b1: u8 = self.peek(1);
        let b2: u8 = self.peek(2);
        self.skip(3);
        proof {
            lemma_join_u32(0, b0, b1, b2);
        }
        (b0 as i32) << 16 | (b1 as i32) << 8 | (b2 as i32)
    }

    /// Reads four bytes, most significant first, as a signed number.
    pub fn g4(&mut self) -> (value: i32)
        ensures
            final(self).read_from(*old(self), 4),
            value == signed32(be4(old(self).ahead(4))),
    {
        let b0: u8 = self.peek(0);
        let b1: u8 = self.peek(1);
        let b2: u8 = self.peek(2);
        let b3: u8 = self.peek(3);
        self.skip(4);
        proof {
            lemma_join_u32(b0, b1, b2, b3);
        }
        let u: u32 = (b0 as u32) << 24 | (b1 as u32) << 16 | (b2 as u32) << 8 | (b3 as u32);
        #[verifier::truncate]
        (u as i32)
    }

    /// Reads four bytes, most significant first, as a signed number.
    pub fn g4s(&mut self) -> (value: i32)
        ensures
            final(self).read_from(*old(self), 4),
            value == signed32(be4(old(self).ahead(4))),
    {
        self.g4()
    }

    /// Reads four bytes, least significant first, as a signed number.
    pub fn ig4s(&mut self) -> (value: i32)
        ensures
            final(self).read_from(*old(self), 4),
            value == signed32(le4(old(self).ahead(4))),
    {
        let b0: u8 = self.peek(0);
        let b1: u8 = self.peek(1);
        let b2: u8 = self.peek(2);
        let b3: u8 = self.peek(3);
        self.skip(4);
        proof {
            lemma_join_u32(b3, b2, b1, b0);
        }
        let u: u32 = (b3 as u32) << 24 | (b2 as u32) << 16 | (b1 as u32) << 8 | (b0 as u32);
        #[verifier::truncate]
        (u as i32)
    }

    /// The eight bytes at the cursor as one unsigned number, most significant
    /// first.
    fn peek8(&self) -> (value: u64)
        ensures
            value == be8(self.ahead(8)),
    {
        let b0: u8 = self.peek(0);
        let b1: u8 = self.peek(1);
        let b2: u8 = self.peek(2);
        let b3: u8 = self.peek(3);
        let b4: u8 = self.peek(4);
        let b5: u8 = self.peek(5);
        let b6: u8 = self.peek(6);
        let b7: u8 = self.peek(7);
        let high: u32 = (b0 as u32) << 24 | (b1 as u32) << 16 | (b2 as u32) << 8 | (b3 as u32);
        let low: u32 = (b4 as u32) << 24 | (b5 as u32) << 16 | (b6 as u32) << 8 | (b7 as u32);
        proof {
            lemma_join_u32(b0, b1, b2, b3);
            lemma_join_u32(b4, b5, b6, b7);
            lemma_join_u64(high, low);
            assert(self.ahead(8).subrange(0, 4) =~= seq![b0, b1, b2, b3]);
            assert(self.ahead(8).subrange(4, 8) =~= seq![b4, b5, b6, b7]);
        }
        (high as u64) << 32 | (low as u64)
    }

    /// Reads eight bytes, most significant first.
    pub fn g8(&mut self) -> (value: u64)
        ensures
            final(self).read_from(*old(self), 8),
            value == be8(old(self).ahead(8)),
    {
        let u: u64 = self.peek8();
        self.skip(8);
        u
    }

    /// Reads eight bytes, most significant first, as a signed number.
    pub fn g8s(&mut self) -> (value: i64)
        ensures
            final(self).read_from(*old(self), 8),
            value == signed64(be8(old(self).ahead(8))),
    {
        let u: u64 = self.peek8();
        self.skip(8);
        proof {
            lemma_signed_cast_u64(u);
        }
        #[verifier::truncate]
        (u as i64)
    }

    /// Reads a text: the bytes up to the next zero byte or the buffer's end,
    /// each as the character with its code, and steps over the zero byte.
    pub fn gjstr(&mut self) -> (text: String)
        ensures
            final(self).data@ == old(self).data@,
            final(self).bit_position == old(self).bit_position,
            final(self).position == text_cursor(old(self).data@, old(self).position as int),
            text@ == latin(text_at(old(self).data@, old(self).position as int)),
    {
        let len: usize = self.data.len();
        let mut text: String = String::new();
        if self.position >= len {
            self.position = len;
            assert(text@ =~= latin(Seq::<u8>::empty()));
            return text;
        }
        let start: usize = self.position;
        let mut i: usize = start;
        while i < len && self.data[i] != 0
            invariant
                start <= i <= len == self.data@.len(),
                start < len,
                self.data@ == old(self).data@,
                self.bit_position == old(self).bit_position,
                text_end(self.data@, start as int) == text_end(self.data@, i as int),
                text@ == latin(self.data@.subrange(start as int, i as int)),
            decreases len - i,
        {
            let c: char = self.data[i] as char;
            text.push(c);
            assert(text@ =~= latin(self.data@.subrange(start as int, i + 1)));
            i += 1;
        }
        if i < len {
            self.position = i + 1;
        } else {
            self.position = len;
        }
        text
    }

    /// Reads an unsigned smart.
    pub fn gsmart(&mut self) -> (value: i32)
        ensures
            final(self).read_from(
                *old(self),
                smart_width(old(self).data@, old(self).position as int),
            ),
            value == smart_value(old(self).data@, old(self).position as int),
    {
        if self.position >= self.data.len() {
            self.skip(0);
            return 0;
        }
        if self.data[self.position] < 128 {
            self.g1() as i32
        } else {
            self.g2() as i32 - 32768
        }
    }

    /// Reads a signed smart.
    pub fn gsmarts(&mut self) -> (value: i32)
        ensures
            final(self).read_from(
                *old(self),
                smart_width(old(self).data@, old(self).position as int),
            ),
            value == smarts_value(old(self).data@, old(self).position as int),
    {
        if self.position >= self.data.len() {
            self.skip(0);
            return 0;
        }
        if self.data[self.position] < 128 {
            self.g1() as i32 - 64
        } else {
            self.g2() as i32 - 49152
        }
    }

    /// Reads up to `length` bytes, as many as the buffer still holds.
    pub fn gbytes(&mut self, length: usize) -> (bytes: Vec<u8>)
        ensures
            final(self).read_from(*old(self), length as int),
            bytes@ == taken(old(self).data@, old(self).position as int, length as int),
    {
        let mut bytes: Vec<u8> = Vec::new();
        let len: usize = self.data.len();
        if self.position >= len {
            self.skip(length);
            return bytes;
        }
        let start: usize = self.position;
        self.skip(length);
        let end: usize = self.position;
        let mut i: usize = start;
        while i < end
            invariant
                start <= i <= end <= len == self.data@.len(),
                bytes@ == self.data@.subrange(start as int, i as int),
            decreases end - i,
        {
            bytes.push(self.data[i]);
            assert(bytes@ =~= self.data@.subrange(start as int, i + 1));
            i += 1;
        }
        bytes
    }

    /// Sets the bit cursor to the first bit of the byte under the byte cursor.
    pub fn bits(&mut self)
        ensures
            final(self).data == old(self).data,
            final(self).position == old(self).position,
            final(self).bit_position == (old(self).position * 8) as usize,
    {
        let p: usize = self.position;
        assert(p << 3 == (p * 8) as usize) by (bit_vector);
        self.bit_position = p << 3;
    }

    /// Sets the byte cursor to the first byte that the bit cursor has not
    /// entered.
    pub fn bytes(&mut self)
        requires
            old(self).bit_position + 7 <= usize::MAX,
        ensures
            final(self).data == old(self).data,
            final(self).bit_position == old(self).bit_position,
            final(self).position == (old(self).bit_position + 7) / 8,
    {
        let b: usize = self.bit_position + 7;
        assert((b >> 3) as int == b as int / 8) by (bit_vector);
        self.position = b >> 3;
    }
}

} // verus!
