//! What a reader gets back from the bytes that the matching writer left, and
//! what it gets where the buffer ends early.
//!
//! Each statement is over a buffer `data` and a cursor `pos` inside it or at
//! its end: the writer works at `pos`, the cursor is set back to `pos`, and the
//! reader works there.

use crate::wire::{
    be2, be3, be4, be8, be_bytes, cursor_after, latin, le2, le4, le_bytes, lemma_text_end,
    lemma_window_of_written,
    nonzero, octet, placed, signed16, signed32, signed64, signed8, smart_bytes, smart_value,
    smart_width, smarts_bytes, smarts_value, taken, text_at, text_cursor, text_end, unbiased,
    window, written, zeros,
};
use vstd::prelude::*;
use vstd::string::StringSliceAdditionalSpecFns;

verus! {

/// `p1` then `g1` gives the value's low byte; `g1b` gives it as a signed byte,
/// which is the value itself from -128 to 127.
pub proof fn lemma_p1_read_back(data: Seq<u8>, pos: int, value: i32)
    requires
        0 <= pos <= data.len(),
    ensures
        window(written(data, pos, be_bytes(value as int, 1)), pos, 1)[0] == value as int % 0x100,
        -128 <= value <= 127 ==> signed8(
            window(written(data, pos, be_bytes(value as int, 1)), pos, 1)[0] as int,
        ) == value,
        cursor_after(written(data, pos, be_bytes(value as int, 1)).len() as int, pos, 1) == pos
            + 1,
{
    lemma_window_of_written(data, pos, be_bytes(value as int, 1));
}

/// `p2` then `g2` gives the value's low 16 bits; `g2b` and `g2s` give the
/// value itself where it fits an `i16`. The same holds of `ip2` with `ig2` and
/// `ig2s`.
pub proof fn lemma_p2_read_back(data: Seq<u8>, pos: int, value: i32)
    requires
        0 <= pos <= data.len(),
    ensures
        be2(window(written(data, pos, be_bytes(value as int, 2)), pos, 2)) == value as int % 0x1_0000,
        le2(window(written(data, pos, le_bytes(value as int, 2)), pos, 2)) == value as int % 0x1_0000,
        -32768 <= value <= 32767 ==> signed16(value as int % 0x1_0000) == value,
        cursor_after(written(data, pos, be_bytes(value as int, 2)).len() as int, pos, 2) == pos
            + 2,
        cursor_after(written(data, pos, le_bytes(value as int, 2)).len() as int, pos, 2) == pos
            + 2,
{
    lemma_window_of_written(data, pos, be_bytes(value as int, 2));
    lemma_window_of_written(data, pos, le_bytes(value as int, 2));
}

/// `p2add` then `g2add` gives the value's low 16 bits.
pub proof fn lemma_p2add_read_back(data: Seq<u8>, pos: int, value: i32)
    requires
        0 <= pos <= data.len(),
    ensures
        ({
            let after = written(
                data,
                pos,
                seq![octet(value as int, 1), octet(value + 128, 0)],
            );
            &&& after.len() - pos >= 2
            &&& window(after, pos, 2)[0] * 0x100 + unbiased(window(after, pos, 2)[1]) == value as int
                % 0x1_0000
            &&& cursor_after(after.len() as int, pos, 2) == pos + 2
        }),
{
    lemma_window_of_written(data, pos, seq![octet(value as int, 1), octet(value + 128, 0)]);
}

/// `p3` then `g3` gives the value's low 24 bits.
pub proof fn lemma_p3_read_back(data: Seq<u8>, pos: int, value: i32)
    requires
        0 <= pos <= data.len(),
    ensures
        be3(window(written(data, pos, be_bytes(value as int, 3)), pos, 3)) == value as int
            % 0x100_0000,
        cursor_after(written(data, pos, be_bytes(value as int, 3)).len() as int, pos, 3) == pos
            + 3,
{
    lemma_window_of_written(data, pos, be_bytes(value as int, 3));
}

/// `p4` then `g4` or `g4s` gives the value; so does `ip4` then `ig4s`.
pub proof fn lemma_p4_read_back(data: Seq<u8>, pos: int, value: i32)
    requires
        0 <= pos <= data.len(),
    ensures
        signed32(be4(window(written(data, pos, be_bytes(value as int, 4)), pos, 4))) == value,
        signed32(le4(window(written(data, pos, le_bytes(value as int, 4)), pos, 4))) == value,
        cursor_after(written(data, pos, be_bytes(value as int, 4)).len() as int, pos, 4) == pos
            + 4,
        cursor_after(written(data, pos, le_bytes(value as int, 4)).len() as int, pos, 4) == pos
            + 4,
{
    let be = be_bytes(value as int, 4);
    let le = le_bytes(value as int, 4);
    lemma_window_of_written(data, pos, be);
    lemma_window_of_written(data, pos, le);
    lemma_be4_of_bytes(value as int);
    assert(le4(le) == be4(be));
}

/// Dividing by `c` and then by `d` is dividing by their product, for negative
/// numbers too.
proof fn lemma_divide_twice(v: int, c: int, d: int)
    requires
        0 < c,
        0 < d,
    ensures
        (v / c) / d == v / (c * d),
{
    let q1 = v / c;
    let r1 = v % c;
    let q2 = q1 / d;
    let r2 = q1 % d;
    vstd::arithmetic::div_mod::lemma_fundamental_div_mod(v, c);
    vstd::arithmetic::div_mod::lemma_fundamental_div_mod(q1, d);
    vstd::arithmetic::div_mod::lemma_mod_bound(v, c);
    vstd::arithmetic::div_mod::lemma_mod_bound(q1, d);
    assert(v == q2 * (c * d) + (c * r2 + r1)) by (nonlinear_arith)
        requires
            v == c * q1 + r1,
            q1 == d * q2 + r2,
    ;
    assert(0 <= c * r2 + r1 < c * d) by (nonlinear_arith)
        requires
            0 <= r1 < c,
            0 <= r2 < d,
    ;
    vstd::arithmetic::div_mod::lemma_fundamental_div_mod_converse(v, c * d, q2, c * r2 + r1);
}

/// The four low bytes of a number spell it modulo 2^32.
proof fn lemma_be4_of_bytes(v: int)
    ensures
        be4(be_bytes(v, 4)) == v % 0x1_0000_0000,
{
    lemma_divide_twice(v, 0x100, 0x100);
    lemma_divide_twice(v, 0x1_0000, 0x100);
    lemma_divide_twice(v, 0x100_0000, 0x100);
    let q0 = v / 0x100;
    let q1 = v / 0x1_0000;
    let q2 = v / 0x100_0000;
    let q3 = v / 0x1_0000_0000;
    let b0 = v % 0x100;
    let b1 = q0 % 0x100;
    let b2 = q1 % 0x100;
    let b3 = q2 % 0x100;
    assert(q1 == q0 / 0x100 && q2 == q1 / 0x100 && q3 == q2 / 0x100);
    let sum = b3 * 0x100_0000 + b2 * 0x1_0000 + b1 * 0x100 + b0;
    assert(v == q3 * 0x1_0000_0000 + sum);
    vstd::arithmetic::div_mod::lemma_fundamental_div_mod_converse(v, 0x1_0000_0000, q3, sum);
    assert(be4(be_bytes(v, 4)) == sum);
}

/// Bytes four to seven of a number are bytes zero to three of its quotient by
/// 2^32.
proof fn lemma_high_octets(v: int)
    ensures
        octet(v / 0x1_0000_0000, 0) == octet(v, 4),
        octet(v / 0x1_0000_0000, 1) == octet(v, 5),
        octet(v / 0x1_0000_0000, 2) == octet(v, 6),
        octet(v / 0x1_0000_0000, 3) == octet(v, 7),
{
    lemma_divide_twice(v, 0x1_0000_0000, 0x100);
    lemma_divide_twice(v, 0x1_0000_0000, 0x1_0000);
    lemma_divide_twice(v, 0x1_0000_0000, 0x100_0000);
}

/// The eight low bytes of a number spell it modulo 2^64.
proof fn lemma_be8_of_bytes(v: int)
    ensures
        be8(be_bytes(v, 8)) == v % 0x1_0000_0000_0000_0000,
{
    let bytes = be_bytes(v, 8);
    let high = v / 0x1_0000_0000;
    assert(bytes.subrange(4, 8) =~= be_bytes(v, 4));
    assert(bytes.subrange(0, 4) =~= be_bytes(high, 4)) by {
        lemma_high_octets(v);
    }
    lemma_be4_of_bytes(v);
    lemma_be4_of_bytes(high);
    let a = high % 0x1_0000_0000;
    let b = v % 0x1_0000_0000;
    assert(be8(bytes) == a * 0x1_0000_0000 + b);
    assert(a * 0x1_0000_0000 + b == v % 0x1_0000_0000_0000_0000) by {
        let q = high / 0x1_0000_0000;
        assert(v == 0x1_0000_0000 * high + b);
        assert(high == 0x1_0000_0000 * q + a);
        assert(v == 0x1_0000_0000_0000_0000 * q + (a * 0x1_0000_0000 + b));
        vstd::arithmetic::div_mod::lemma_fundamental_div_mod_converse(
            v,
            0x1_0000_0000_0000_0000,
            q,
            a * 0x1_0000_0000 + b,
        );
    }
}

/// `p8` then `g8s` gives the value; `g8` gives it as an unsigned number of 64
/// bits.
pub proof fn lemma_p8_read_back(data: Seq<u8>, pos: int, value: i64)
    requires
        0 <= pos <= data.len(),
    ensures
        be8(window(written(data, pos, be_bytes(value as int, 8)), pos, 8)) == value as int
            % 0x1_0000_0000_0000_0000,
        signed64(be8(window(written(data, pos, be_bytes(value as int, 8)), pos, 8))) == value,
        cursor_after(written(data, pos, be_bytes(value as int, 8)).len() as int, pos, 8) == pos
            + 8,
{
    lemma_window_of_written(data, pos, be_bytes(value as int, 8));
    lemma_be8_of_bytes(value as int);
}

/// `psmart` then `gsmart` gives the value, for every value from 0 to 32767,
/// and the reader takes as many bytes as the writer wrote.
pub proof fn lemma_psmart_read_back(data: Seq<u8>, pos: int, value: i32)
    requires
        0 <= pos <= data.len(),
        0 <= value <= 32767,
    ensures
        smart_value(written(data, pos, smart_bytes(value as int)), pos) == value,
        smart_width(written(data, pos, smart_bytes(value as int)), pos) == smart_bytes(
            value as int,
        ).len(),
        cursor_after(
            written(data, pos, smart_bytes(value as int)).len() as int,
            pos,
            smart_bytes(value as int).len() as int,
        ) == pos + smart_bytes(value as int).len(),
{
    let bytes = smart_bytes(value as int);
    let after = written(data, pos, bytes);
    lemma_window_of_written(data, pos, bytes);
    assert(after[pos] == window(after, pos, bytes.len())[0]);
}

/// `psmarts` then `gsmarts` gives the value, for every value from -16384 to
/// 16383, and the reader takes as many bytes as the writer wrote.
pub proof fn lemma_psmarts_read_back(data: Seq<u8>, pos: int, value: i32)
    requires
        0 <= pos <= data.len(),
        -16384 <= value <= 16383,
    ensures
        smarts_value(written(data, pos, smarts_bytes(value as int)), pos) == value,
        smart_width(written(data, pos, smarts_bytes(value as int)), pos) == smarts_bytes(
            value as int,
        ).len(),
        cursor_after(
            written(data, pos, smarts_bytes(value as int)).len() as int,
            pos,
            smarts_bytes(value as int).len() as int,
        ) == pos + smarts_bytes(value as int).len(),
{
    let bytes = smarts_bytes(value as int);
    let after = written(data, pos, bytes);
    lemma_window_of_written(data, pos, bytes);
    assert(after[pos] == window(after, pos, bytes.len())[0]);
}

/// `pbytes` then `gbytes` of the same length gives the bytes copied.
pub proof fn lemma_pbytes_read_back(data: Seq<u8>, pos: int, bytes: Seq<u8>)
    requires
        0 <= pos <= data.len(),
    ensures
        taken(placed(data, pos, bytes), pos, bytes.len() as int) == bytes,
        cursor_after(placed(data, pos, bytes).len() as int, pos, bytes.len() as int) == pos
            + bytes.len(),
{
    assert(taken(placed(data, pos, bytes), pos, bytes.len() as int) =~= bytes);
}

/// The characters of `text` but the zero ones.
pub open spec fn without_nul(text: Seq<char>) -> Seq<char> {
    text.filter(|c: char| c != '\0')
}

/// A character below 128 is the character of its own byte.
proof fn lemma_low_char(c: char)
    requires
        c <= '\u{7f}',
    ensures
        (c as u8) as char == c,
        (c as u8 != 0) == (c != '\0'),
{
    let n: u32 = c as u32;
    assert((n as u8) as u32 == n) by (bit_vector)
        requires
            n < 128,
    ;
    assert(c as u8 == n as u8);
}

/// For characters below 128, dropping the zero bytes of the encoding drops
/// the zero characters of the text.
proof fn lemma_latin_nonzero(chars: Seq<char>)
    requires
        forall|i: int| 0 <= i < chars.len() ==> #[trigger] chars[i] <= '\u{7f}',
    ensures
        latin(nonzero(Seq::new(chars.len(), |i: int| chars[i] as u8))) == without_nul(chars),
    decreases chars.len(),
{
    reveal(Seq::filter);
    let bytes = Seq::new(chars.len(), |i: int| chars[i] as u8);
    if chars.len() == 0 {
        assert(latin(nonzero(bytes)) =~= without_nul(chars));
    } else {
        let front = chars.drop_last();
        lemma_latin_nonzero(front);
        assert(bytes.drop_last() =~= Seq::new(front.len(), |i: int| front[i] as u8));
        let c = chars[chars.len() - 1];
        assert(c <= '\u{7f}');
        assert(bytes.last() == c as u8);
        lemma_low_char(c);
        assert(latin(nonzero(bytes)) =~= without_nul(chars));
    }
}

/// `pjstr` with a zero terminator, then `gjstr`, gives the text without its
/// zero characters, for a text of characters below 128. The reader stops
/// behind the terminator.
pub proof fn lemma_pjstr_read_back(data: Seq<u8>, pos: int, text: &str)
    requires
        0 <= pos <= data.len(),
        text.is_ascii(),
    ensures
        ({
            let body = nonzero(text.spec_bytes());
            let after = placed(data, pos, body.push(0u8));
            &&& latin(text_at(after, pos)) == without_nul(text@)
            &&& text_cursor(after, pos) == pos + body.len() + 1
        }),
{
    broadcast use vstd::string::is_ascii_spec_bytes;

    let body = nonzero(text.spec_bytes());
    let after = placed(data, pos, body.push(0u8));
    assert forall|i: int| 0 <= i < body.len() implies body[i] != 0 by {
        text.spec_bytes().lemma_filter_pred(|b: u8| b != 0u8, i);
    }
    assert(forall|i: int| 0 <= i < body.len() ==> after[pos + i] == body[i]);
    assert(after[pos + body.len()] == 0);
    lemma_text_end(after, pos);
    assert(text_end(after, pos) == pos + body.len());
    assert(text_at(after, pos) =~= body);
    assert(text.spec_bytes() =~= Seq::new(text@.len(), |i: int| text@[i] as u8));
    lemma_latin_nonzero(text@);
}

/// A read where the buffer has ended sees zero bytes only and leaves the
/// cursor at the buffer's end; a read that the buffer covers in part sees its
/// bytes first and zeros behind them, and leaves the cursor at the end too.
pub proof fn lemma_read_past_end(data: Seq<u8>, pos: int, n: nat)
    requires
        0 <= pos,
        pos + n > data.len(),
    ensures
        cursor_after(data.len() as int, pos, n as int) == data.len(),
        forall|k: int| 0 <= k < n && pos + k < data.len() ==> window(data, pos, n)[k] == data[pos + k],
        forall|k: int| 0 <= k < n && pos + k >= data.len() ==> window(data, pos, n)[k] == 0,
        pos >= data.len() ==> window(data, pos, n) == zeros(n),
        pos >= data.len() ==> smart_width(data, pos) == 0 && smart_value(data, pos) == 0
            && smarts_value(data, pos) == 0,
        pos >= data.len() ==> text_at(data, pos) == Seq::<u8>::empty() && text_cursor(data, pos)
            == data.len(),
        pos >= data.len() ==> taken(data, pos, n as int) == Seq::<u8>::empty(),
{
    if pos >= data.len() {
        assert(window(data, pos, n) =~= zeros(n));
    }
}

/// The numbers that zero bytes spell are zero.
pub proof fn lemma_zeros_spell_zero()
    ensures
        be2(zeros(2)) == 0,
        be3(zeros(3)) == 0,
        be4(zeros(4)) == 0,
        be8(zeros(8)) == 0,
        le2(zeros(2)) == 0,
        le4(zeros(4)) == 0,
        signed8(zeros(1)[0] as int) == 0,
        signed16(0) == 0,
        signed32(0) == 0,
        signed64(0) == 0,
{
    assert(zeros(8).subrange(0, 4) =~= zeros(4));
    assert(zeros(8).subrange(4, 8) =~= zeros(4));
}

} // verus!
