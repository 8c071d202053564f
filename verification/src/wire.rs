//! The arithmetic model of the wire encodings: what a write leaves in a buffer,
//! what a read sees there, and the integer that a group of bytes stands for.

use vstd::prelude::*;

verus! {

/// The byte at offset `i`, or zero where the buffer has none.
pub open spec fn byte_at(data: Seq<u8>, i: int) -> u8 {
    if 0 <= i < data.len() {
        data[i]
    } else {
        0u8
    }
}

/// The `n` bytes a reader sees from `pos` on: the buffer's own bytes as far as
/// they reach, zero after its end.
pub open spec fn window(data: Seq<u8>, pos: int, n: nat) -> Seq<u8> {
    Seq::new(n, |k: int| byte_at(data, pos + k))
}

/// Where the cursor stands after a read of `n` bytes from `pos`: behind the
/// bytes read, but never behind the buffer's end.
pub open spec fn cursor_after(len: int, pos: int, n: int) -> int {
    if pos + n <= len {
        pos + n
    } else {
        len
    }
}

/// The buffer after `bytes` went in at `pos`, byte by byte: a byte replaces the
/// one under the cursor while there is one, and is appended once the cursor has
/// reached the end.
pub open spec fn written(data: Seq<u8>, pos: int, bytes: Seq<u8>) -> Seq<u8> {
    if pos >= data.len() {
        data + bytes
    } else if pos + bytes.len() >= data.len() {
        data.subrange(0, pos) + bytes
    } else {
        data.subrange(0, pos) + bytes + data.subrange(pos + bytes.len(), data.len() as int)
    }
}

/// `n` zero bytes.
pub open spec fn zeros(n: nat) -> Seq<u8> {
    Seq::new(n, |k: int| 0u8)
}

/// The buffer after a block of `bytes` was placed at `pos`: as `written`, but a
/// cursor behind the end first has the gap up to it filled with zeros.
pub open spec fn placed(data: Seq<u8>, pos: int, bytes: Seq<u8>) -> Seq<u8> {
    if pos > data.len() {
        data + zeros((pos - data.len()) as nat) + bytes
    } else {
        written(data, pos, bytes)
    }
}

/// Byte `k` of `v` in two's complement, byte 0 being the least significant.
pub open spec fn octet(v: int, k: int) -> u8 {
    if k <= 0 {
        (v % 0x100) as u8
    } else if k == 1 {
        (v / 0x100 % 0x100) as u8
    } else if k == 2 {
        (v / 0x1_0000 % 0x100) as u8
    } else if k == 3 {
        (v / 0x100_0000 % 0x100) as u8
    } else if k == 4 {
        (v / 0x1_0000_0000 % 0x100) as u8
    } else if k == 5 {
        (v / 0x100_0000_0000 % 0x100) as u8
    } else if k == 6 {
        (v / 0x1_0000_0000_0000 % 0x100) as u8
    } else {
        (v / 0x100_0000_0000_0000 % 0x100) as u8
    }
}

/// The low `n` bytes of `v`, most significant first.
pub open spec fn be_bytes(v: int, n: nat) -> Seq<u8> {
    Seq::new(n, |i: int| octet(v, n - 1 - i))
}

/// The low `n` bytes of `v`, least significant first.
pub open spec fn le_bytes(v: int, n: nat) -> Seq<u8> {
    Seq::new(n, |i: int| octet(v, i))
}

/// The unsigned number that two bytes spell, most significant first.
pub open spec fn be2(s: Seq<u8>) -> int {
    s[0] * 0x100 + s[1]
}

/// The unsigned number that three bytes spell, most significant first.
pub open spec fn be3(s: Seq<u8>) -> int {
    s[0] * 0x1_0000 + s[1] * 0x100 + s[2]
}

/// The unsigned number that four bytes spell, most significant first.
pub open spec fn be4(s: Seq<u8>) -> int {
    s[0] * 0x100_0000 + s[1] * 0x1_0000 + s[2] * 0x100 + s[3]
}

/// The unsigned number that eight bytes spell, most significant first.
pub open spec fn be8(s: Seq<u8>) -> int {
    be4(s.subrange(0, 4)) * 0x1_0000_0000 + be4(s.subrange(4, 8))
}

/// The unsigned number that two bytes spell, least significant first.
pub open spec fn le2(s: Seq<u8>) -> int {
    s[0] + s[1] * 0x100
}

/// The unsigned number that four bytes spell, least significant first.
pub open spec fn le4(s: Seq<u8>) -> int {
    s[0] + s[1] * 0x100 + s[2] * 0x1_0000 + s[3] * 0x100_0000
}

/// `u`, an unsigned number of `2 * half` values, read as two's complement.
pub open spec fn signed(u: int, half: int) -> int {
    if u >= half {
        u - 2 * half
    } else {
        u
    }
}

/// A byte read as two's complement.
pub open spec fn signed8(u: int) -> int {
    signed(u, 0x80)
}

/// A number of 16 bits read as two's complement.
pub open spec fn signed16(u: int) -> int {
    signed(u, 0x8000)
}

/// A number of 32 bits read as two's complement.
pub open spec fn signed32(u: int) -> int {
    signed(u, 0x8000_0000)
}

/// A number of 64 bits read as two's complement.
pub open spec fn signed64(u: int) -> int {
    signed(u, 0x8000_0000_0000_0000)
}

/// The byte that `b` stands for where its writer added 128.
pub open spec fn unbiased(b: u8) -> u8 {
    ((b + 128) % 0x100) as u8
}

/// How many bytes the smart at `pos` takes: none behind the end, one where
/// its first byte is below 128, else two.
pub open spec fn smart_width(data: Seq<u8>, pos: int) -> int {
    if !(0 <= pos < data.len()) {
        0
    } else if data[pos] < 128 {
        1
    } else {
        2
    }
}

/// The unsigned smart at `pos`.
pub open spec fn smart_value(data: Seq<u8>, pos: int) -> int {
    if smart_width(data, pos) == 0 {
        0
    } else if smart_width(data, pos) == 1 {
        data[pos] as int
    } else {
        be2(window(data, pos, 2)) - 32768
    }
}

/// The signed smart at `pos`.
pub open spec fn smarts_value(data: Seq<u8>, pos: int) -> int {
    if smart_width(data, pos) == 0 {
        0
    } else if smart_width(data, pos) == 1 {
        data[pos] - 64
    } else {
        be2(window(data, pos, 2)) - 49152
    }
}

/// Where the text that starts at `pos` ends: at the first zero byte from `pos`
/// on, or at the buffer's end where there is none.
pub open spec fn text_end(data: Seq<u8>, pos: int) -> int
    decreases data.len() - pos,
{
    if pos < 0 || pos >= data.len() {
        data.len() as int
    } else if data[pos] == 0 {
        pos
    } else {
        text_end(data, pos + 1)
    }
}

/// The bytes of the text that starts at `pos`, its terminator left out.
pub open spec fn text_at(data: Seq<u8>, pos: int) -> Seq<u8> {
    if 0 <= pos < data.len() {
        data.subrange(pos, text_end(data, pos))
    } else {
        Seq::empty()
    }
}

/// Where the cursor stands after the text at `pos` was read: behind its
/// terminator, or at the buffer's end where it has none.
pub open spec fn text_cursor(data: Seq<u8>, pos: int) -> int {
    if text_end(data, pos) < data.len() {
        text_end(data, pos) + 1
    } else {
        data.len() as int
    }
}

/// Each byte as the character with that code.
pub open spec fn latin(s: Seq<u8>) -> Seq<char> {
    Seq::new(s.len(), |i: int| s[i] as char)
}

/// What a read of up to `n` bytes at `pos` hands out: the bytes from `pos` to
/// where the cursor then stands.
pub open spec fn taken(data: Seq<u8>, pos: int, n: int) -> Seq<u8> {
    if 0 <= pos < data.len() && 0 <= n {
        data.subrange(pos, cursor_after(data.len() as int, pos, n))
    } else {
        Seq::empty()
    }
}

/// The text at `pos` lies inside the buffer, holds no zero byte, and ends at
/// a zero byte or at the buffer's end.
pub proof fn lemma_text_end(data: Seq<u8>, pos: int)
    requires
        0 <= pos <= data.len(),
    ensures
        pos <= text_end(data, pos) <= data.len(),
        forall|i: int| pos <= i < text_end(data, pos) ==> data[i] != 0,
        text_end(data, pos) < data.len() ==> data[text_end(data, pos)] == 0,
    decreases data.len() - pos,
{
    if pos < data.len() && data[pos] != 0 {
        lemma_text_end(data, pos + 1);
    }
}

/// `s` without its zero bytes.
pub open spec fn nonzero(s: Seq<u8>) -> Seq<u8> {
    s.filter(|b: u8| b != 0u8)
}

/// The bytes of an unsigned smart: one byte for a value below 128, else the
/// two bytes of the value plus 32768.
pub open spec fn smart_bytes(v: int) -> Seq<u8> {
    if v < 128 {
        be_bytes(v, 1)
    } else {
        be_bytes(v + 32768, 2)
    }
}

/// The bytes of a signed smart: one byte, the value plus 64, from -64 to 63,
/// else the two bytes of the value plus 49152.
pub open spec fn smarts_bytes(v: int) -> Seq<u8> {
    if -64 <= v < 64 {
        be_bytes(v + 64, 1)
    } else {
        be_bytes(v + 49152, 2)
    }
}

/// The zero-free part of a prefix grows by the next byte where that is not
/// zero, and stays where it is zero.
pub proof fn lemma_nonzero_step(s: Seq<u8>, i: int)
    requires
        0 <= i < s.len(),
    ensures
        nonzero(s.subrange(0, i + 1)) == if s[i] != 0 {
            nonzero(s.subrange(0, i)).push(s[i])
        } else {
            nonzero(s.subrange(0, i))
        },
{
    reveal(Seq::filter);
    assert(s.subrange(0, i + 1).drop_last() =~= s.subrange(0, i));
}

/// A prefix has no more bytes other than zero than the whole.
pub proof fn lemma_nonzero_prefix(s: Seq<u8>, i: int)
    requires
        0 <= i <= s.len(),
    ensures
        nonzero(s.subrange(0, i)).len() <= nonzero(s).len(),
{
    Seq::filter_distributes_over_add(
        s.subrange(0, i),
        s.subrange(i, s.len() as int),
        |b: u8| b != 0u8,
    );
    assert(s.subrange(0, i) + s.subrange(i, s.len() as int) =~= s);
}

/// The low four bytes of a length cut down to an `i32` are those of the
/// length.
pub proof fn lemma_truncated_octets(n: usize)
    ensures
        be_bytes((n as i32) as int, 4) =~= be_bytes(n as int, 4),
{
    let v: i32 = n as i32;
    assert((v as int % 0x100) as u8 == (n as int % 0x100) as u8) by (bit_vector)
        requires
            v == n as i32,
    ;
    assert((v as int / 0x100 % 0x100) as u8 == (n as int / 0x100 % 0x100) as u8) by (bit_vector)
        requires
            v == n as i32,
    ;
    assert((v as int / 0x1_0000 % 0x100) as u8 == (n as int / 0x1_0000 % 0x100) as u8)
        by (bit_vector)
        requires
            v == n as i32,
    ;
    assert((v as int / 0x100_0000 % 0x100) as u8 == (n as int / 0x100_0000 % 0x100) as u8)
        by (bit_vector)
        requires
            v == n as i32,
    ;
}

/// Writing `a` and then `b` behind it is writing `a + b`.
pub proof fn lemma_written_twice(data: Seq<u8>, pos: int, a: Seq<u8>, b: Seq<u8>)
    requires
        0 <= pos,
    ensures
        written(written(data, pos, a), pos + a.len(), b) =~= written(data, pos, a + b),
{
}

/// A read at the place of a write sees the bytes written, whatever was there
/// before, as long as the cursor stood inside the buffer or at its end.
pub proof fn lemma_window_of_written(data: Seq<u8>, pos: int, bytes: Seq<u8>)
    requires
        0 <= pos <= data.len(),
    ensures
        window(written(data, pos, bytes), pos, bytes.len()) =~= bytes,
        written(data, pos, bytes).len() >= pos + bytes.len(),
        cursor_after(written(data, pos, bytes).len() as int, pos, bytes.len() as int) == pos
            + bytes.len(),
{
}

} // verus!
