//! Laws of the strkey codec and its checksum: base32 decoding is a round trip
//! and injective, the accepted account ids are exactly the canonical encodings
//! of 32-byte keys, CRC16-XModem is linear and leaves a zero residue, and
//! single-character typos in an account id are always caught.
//!
//! Changing one character of a valid strkey to another base32 character
//! changes one 5-bit field of the decoded 280 bits.  Either the version byte
//! changes, or only the checksum bytes change, or the payload changes in at
//! most two adjacent bytes; CRC16-XModem maps every such change to a different
//! checksum.

use vstd::prelude::*;

use vstd::arithmetic::div_mod::{lemma_breakdown, lemma_small_mod};

use crate::validation::{
    all_base32, base32_digit, base32_number, be_bytes, bytes_number, crc16_spec, crc_byte,
    crc_shift, crc_shift_n, is_ed25519_public_key_strkey, lemma_be_bytes_of_number, strkey_bytes,
    VERSION_ED25519_PUBLIC_KEY,
};

verus! {

/// The 5-bit value of base32 character `c` (0 outside the alphabet).
pub open spec fn digit_value(c: u8) -> u8 {
    match base32_digit(c) {
        Some(v) => v,
        None => 0,
    }
}

/// Byte `r` (0..5) of the 40-bit block spelled by eight 5-bit digits.
pub open spec fn block_byte(d0: u8, d1: u8, d2: u8, d3: u8, d4: u8, d5: u8, d6: u8, d7: u8, r: int) -> u8 {
    if r == 0 {
        (d0 << 3u8) | (d1 >> 2u8)
    } else if r == 1 {
        ((d1 & 3u8) << 6u8) | (d2 << 1u8) | (d3 >> 4u8)
    } else if r == 2 {
        ((d3 & 15u8) << 4u8) | (d4 >> 1u8)
    } else if r == 3 {
        ((d4 & 1u8) << 7u8) | (d5 << 2u8) | (d6 >> 3u8)
    } else {
        ((d6 & 7u8) << 5u8) | d7
    }
}

proof fn lemma_block_bits(d0: u8, d1: u8, d2: u8, d3: u8, d4: u8, d5: u8, d6: u8, d7: u8, g: u64)
    requires
        d0 < 32,
        d1 < 32,
        d2 < 32,
        d3 < 32,
        d4 < 32,
        d5 < 32,
        d6 < 32,
        d7 < 32,
        g == (((((((d0 as u64) * 32 + d1 as u64) * 32 + d2 as u64) * 32 + d3 as u64) * 32
            + d4 as u64) * 32 + d5 as u64) * 32 + d6 as u64) * 32 + d7 as u64,
    ensures
        ((g / 256 / 256 / 256 / 256) % 256) as u8 == (d0 << 3u8) | (d1 >> 2u8),
        ((g / 256 / 256 / 256) % 256) as u8 == ((d1 & 3u8) << 6u8) | (d2 << 1u8) | (d3 >> 4u8),
        ((g / 256 / 256) % 256) as u8 == ((d3 & 15u8) << 4u8) | (d4 >> 1u8),
        ((g / 256) % 256) as u8 == ((d4 & 1u8) << 7u8) | (d5 << 2u8) | (d6 >> 3u8),
        (g % 256) as u8 == ((d6 & 7u8) << 5u8) | d7,
{
    assert(((g / 256 / 256 / 256 / 256) % 256) as u8 == (d0 << 3u8) | (d1 >> 2u8)) by (bit_vector)
        requires
            d0 < 32,
            d1 < 32,
            d2 < 32,
            d3 < 32,
            d4 < 32,
            d5 < 32,
            d6 < 32,
            d7 < 32,
            g == (((((((d0 as u64) * 32 + d1 as u64) * 32 + d2 as u64) * 32 + d3 as u64) * 32
                + d4 as u64) * 32 + d5 as u64) * 32 + d6 as u64) * 32 + d7 as u64,
    ;
    assert(((g / 256 / 256 / 256) % 256) as u8 == ((d1 & 3u8) << 6u8) | (d2 << 1u8) | (d3 >> 4u8)) by (bit_vector)
        requires
            d0 < 32,
            d1 < 32,
            d2 < 32,
            d3 < 32,
            d4 < 32,
            d5 < 32,
            d6 < 32,
            d7 < 32,
            g == (((((((d0 as u64) * 32 + d1 as u64) * 32 + d2 as u64) * 32 + d3 as u64) * 32
                + d4 as u64) * 32 + d5 as u64) * 32 + d6 as u64) * 32 + d7 as u64,
    ;
    assert(((g / 256 / 256) % 256) as u8 == ((d3 & 15u8) << 4u8) | (d4 >> 1u8)) by (bit_vector)
        requires
            d0 < 32,
            d1 < 32,
            d2 < 32,
            d3 < 32,
            d4 < 32,
            d5 < 32,
            d6 < 32,
            d7 < 32,
            g == (((((((d0 as u64) * 32 + d1 as u64) * 32 + d2 as u64) * 32 + d3 as u64) * 32
                + d4 as u64) * 32 + d5 as u64) * 32 + d6 as u64) * 32 + d7 as u64,
    ;
    assert(((g / 256) % 256) as u8 == ((d4 & 1u8) << 7u8) | (d5 << 2u8) | (d6 >> 3u8)) by (bit_vector)
        requires
            d0 < 32,
            d1 < 32,
            d2 < 32,
            d3 < 32,
            d4 < 32,
            d5 < 32,
            d6 < 32,
            d7 < 32,
            g == (((((((d0 as u64) * 32 + d1 as u64) * 32 + d2 as u64) * 32 + d3 as u64) * 32
                + d4 as u64) * 32 + d5 as u64) * 32 + d6 as u64) * 32 + d7 as u64,
    ;
    assert((g % 256) as u8 == ((d6 & 7u8) << 5u8) | d7) by (bit_vector)
        requires
            d0 < 32,
            d1 < 32,
            d2 < 32,
            d3 < 32,
            d4 < 32,
            d5 < 32,
            d6 < 32,
            d7 < 32,
            g == (((((((d0 as u64) * 32 + d1 as u64) * 32 + d2 as u64) * 32 + d3 as u64) * 32
                + d4 as u64) * 32 + d5 as u64) * 32 + d6 as u64) * 32 + d7 as u64,
    ;
}

proof fn lemma_digit_small(c: u8)
    ensures
        digit_value(c) < 32,
{
}

proof fn lemma_number_push(s: Seq<u8>, c: u8)
    ensures
        base32_number(s.push(c)) == base32_number(s) * 32 + digit_value(c),
{
    assert(s.push(c).drop_last() =~= s);
}

/// The five bytes of an eight-character block are the block formula applied
/// to its digits.
proof fn lemma_block(s8: Seq<u8>)
    requires
        s8.len() == 8,
    ensures
        ({
            let n = base32_number(s8);
            let d = |k: int| digit_value(s8[k]);
            &&& n < 0x100_0000_0000
            &&& be_bytes(n, 5).len() == 5
            &&& forall|r: int|
                0 <= r < 5 ==> #[trigger] be_bytes(n, 5)[r] == block_byte(
                    d(0),
                    d(1),
                    d(2),
                    d(3),
                    d(4),
                    d(5),
                    d(6),
                    d(7),
                    r,
                )
        }),
{
    let d0 = digit_value(s8[0]);
    let d1 = digit_value(s8[1]);
    let d2 = digit_value(s8[2]);
    let d3 = digit_value(s8[3]);
    let d4 = digit_value(s8[4]);
    let d5 = digit_value(s8[5]);
    let d6 = digit_value(s8[6]);
    let d7 = digit_value(s8[7]);
    lemma_digit_small(s8[0]);
    lemma_digit_small(s8[1]);
    lemma_digit_small(s8[2]);
    lemma_digit_small(s8[3]);
    lemma_digit_small(s8[4]);
    lemma_digit_small(s8[5]);
    lemma_digit_small(s8[6]);
    lemma_digit_small(s8[7]);
    assert(s8.take(0) =~= Seq::<u8>::empty());
    assert forall|k: int| 0 <= k < 8 implies #[trigger] s8.take(k + 1) == s8.take(k).push(s8[k]) by {
        assert(s8.take(k + 1) =~= s8.take(k).push(s8[k]));
    }
    lemma_number_push(s8.take(0), s8[0]);
    lemma_number_push(s8.take(1), s8[1]);
    lemma_number_push(s8.take(2), s8[2]);
    lemma_number_push(s8.take(3), s8[3]);
    lemma_number_push(s8.take(4), s8[4]);
    lemma_number_push(s8.take(5), s8[5]);
    lemma_number_push(s8.take(6), s8[6]);
    lemma_number_push(s8.take(7), s8[7]);
    assert(s8.take(8) =~= s8);
    let expr = (((((((d0 as int) * 32 + d1) * 32 + d2) * 32 + d3) * 32 + d4) * 32 + d5) * 32 + d6)
        * 32 + d7;
    assert(base32_number(s8) == expr);
    assert(expr < 0x100_0000_0000);
    let g: u64 = expr as u64;
    lemma_block_bits(d0, d1, d2, d3, d4, d5, d6, d7, g);
    let n = base32_number(s8);
    reveal_with_fuel(be_bytes, 6);
    assert(be_bytes(n, 5) =~= seq![
        ((n / 256 / 256 / 256 / 256) % 256) as u8,
        ((n / 256 / 256 / 256) % 256) as u8,
        ((n / 256 / 256) % 256) as u8,
        ((n / 256) % 256) as u8,
        (n % 256) as u8,
    ]);
}

spec fn pow32(k: nat) -> nat
    decreases k,
{
    if k == 0 {
        1
    } else {
        32 * pow32((k - 1) as nat)
    }
}

spec fn pow256(k: nat) -> nat
    decreases k,
{
    if k == 0 {
        1
    } else {
        256 * pow256((k - 1) as nat)
    }
}

proof fn lemma_be_bytes_len(n: nat, len: nat)
    ensures
        be_bytes(n, len).len() == len,
    decreases len,
{
    if len > 0 {
        lemma_be_bytes_len(n / 256, (len - 1) as nat);
    }
}

proof fn lemma_number_concat(x: Seq<u8>, y: Seq<u8>)
    ensures
        base32_number(x + y) == base32_number(x) * pow32(y.len()) + base32_number(y),
    decreases y.len(),
{
    if y.len() == 0 {
        assert(x + y =~= x);
        assert(pow32(0) == 1);
        assert(base32_number(y) == 0);
        let a = base32_number(x);
        assert(a * 1 + 0 == a);
    } else {
        let y0 = y.drop_last();
        lemma_number_concat(x, y0);
        assert((x + y).drop_last() =~= x + y0);
        assert((x + y).last() == y.last());
        let a = base32_number(x);
        let p = pow32(y0.len());
        let b = base32_number(y0);
        let dl: nat = match base32_digit(y.last()) {
            Some(v) => v as nat,
            None => 0,
        };
        assert(base32_number(x + y) == (a * p + b) * 32 + dl);
        assert(base32_number(y) == b * 32 + dl);
        assert(pow32(y.len()) == 32 * p);
        assert((a * p + b) * 32 + dl == a * (32 * p) + (b * 32 + dl)) by (nonlinear_arith);
    }
}

proof fn lemma_be_bytes_concat(a: nat, b: nat, m: nat, k: nat)
    requires
        b < pow256(k),
    ensures
        be_bytes(a * pow256(k) + b, m + k) == be_bytes(a, m) + be_bytes(b, k),
    decreases k,
{
    if k == 0 {
        assert(b == 0);
        assert(a * pow256(0) + b == a);
        assert(be_bytes(b, 0) =~= Seq::<u8>::empty());
        assert(be_bytes(a, m) + be_bytes(b, 0) =~= be_bytes(a, m));
    } else {
        let q = pow256((k - 1) as nat);
        let x = a * q;
        let n = a * pow256(k) + b;
        assert(a * pow256(k) == x * 256) by (nonlinear_arith)
            requires
                pow256(k) == 256 * q,
                x == a * q,
        ;
        assert(n / 256 == x + b / 256 && n % 256 == b % 256) by (nonlinear_arith)
            requires
                n == x * 256 + b,
                x >= 0,
                b >= 0,
        ;
        assert(b / 256 < q) by (nonlinear_arith)
            requires
                b < 256 * q,
                b >= 0,
        ;
        lemma_be_bytes_concat(a, b / 256, m, (k - 1) as nat);
        assert((m + k - 1) as nat == m + (k - 1) as nat);
        assert(be_bytes(n, m + k) == be_bytes(n / 256, (m + k - 1) as nat).push((n % 256) as u8));
        assert(be_bytes(b, k) == be_bytes(b / 256, (k - 1) as nat).push((b % 256) as u8));
        assert(be_bytes(n, m + k) =~= be_bytes(a, m) + be_bytes(b, k));
    }
}

proof fn lemma_pow_40()
    ensures
        pow32(8) == 0x100_0000_0000,
        pow256(5) == 0x100_0000_0000,
{
    reveal_with_fuel(pow32, 9);
    reveal_with_fuel(pow256, 6);
}

/// Decoded byte `5g + r` of a strkey is byte `r` of the block of characters
/// `8g .. 8g + 8`.
proof fn lemma_blocks(s: Seq<u8>, n: nat)
    requires
        s.len() == 8 * n,
    ensures
        be_bytes(base32_number(s), 5 * n).len() == 5 * n,
        forall|g: int, r: int|
            0 <= g < n && 0 <= r < 5 ==> #[trigger] be_bytes(base32_number(s), 5 * n)[5 * g + r]
                == be_bytes(base32_number(s.subrange(8 * g, 8 * g + 8)), 5)[r],
    decreases n,
{
    lemma_be_bytes_len(base32_number(s), 5 * n);
    if n > 0 {
        let m = (n - 1) as nat;
        let x = s.subrange(0, (8 * m) as int);
        let y = s.subrange((8 * m) as int, (8 * n) as int);
        assert(s =~= x + y);
        lemma_blocks(x, m);
        lemma_number_concat(x, y);
        lemma_block(y);
        lemma_pow_40();
        lemma_be_bytes_concat(base32_number(x), base32_number(y), 5 * m, 5);
        assert(5 * m + 5 == 5 * n);
        lemma_be_bytes_len(base32_number(x), 5 * m);
        lemma_be_bytes_len(base32_number(y), 5);
        assert forall|g: int, r: int| 0 <= g < n && 0 <= r < 5 implies #[trigger] be_bytes(
            base32_number(s),
            5 * n,
        )[5 * g + r] == be_bytes(base32_number(s.subrange(8 * g, 8 * g + 8)), 5)[r] by {
            if g < m {
                assert(x.subrange(8 * g, 8 * g + 8) =~= s.subrange(8 * g, 8 * g + 8));
                assert(5 * g + r < 5 * m);
            } else {
                assert(y =~= s.subrange(8 * g, 8 * g + 8));
            }
        }
    }
}

// ─── CRC16-XModem facts ──────────────────────────────────────────────────────

/// CRC16-XModem of `data`, starting from the running value `c`.
spec fn crc_from(c: u16, data: Seq<u8>) -> u16
    decreases data.len(),
{
    if data.len() == 0 {
        c
    } else {
        crc_byte(crc_from(c, data.drop_last()), data.last())
    }
}

proof fn lemma_crc16_from_zero(data: Seq<u8>)
    ensures
        crc16_spec(data) == crc_from(0, data),
    decreases data.len(),
{
    if data.len() > 0 {
        lemma_crc16_from_zero(data.drop_last());
    }
}

proof fn lemma_crc_from_concat(c: u16, x: Seq<u8>, y: Seq<u8>)
    ensures
        crc_from(c, x + y) == crc_from(crc_from(c, x), y),
    decreases y.len(),
{
    if y.len() == 0 {
        assert(x + y =~= x);
    } else {
        lemma_crc_from_concat(c, x, y.drop_last());
        assert((x + y).drop_last() =~= x + y.drop_last());
        assert((x + y).last() == y.last());
    }
}

proof fn lemma_shift_linear(a: u16, b: u16)
    ensures
        crc_shift(a) ^ crc_shift(b) == crc_shift(a ^ b),
{
    assert(crc_shift(a) ^ crc_shift(b) == crc_shift(a ^ b)) by (bit_vector);
}

proof fn lemma_shift_n_linear(a: u16, b: u16, n: nat)
    ensures
        crc_shift_n(a, n) ^ crc_shift_n(b, n) == crc_shift_n(a ^ b, n),
    decreases n,
{
    if n > 0 {
        lemma_shift_n_linear(a, b, (n - 1) as nat);
        lemma_shift_linear(crc_shift_n(a, (n - 1) as nat), crc_shift_n(b, (n - 1) as nat));
    }
}

proof fn lemma_byte_linear(c1: u16, b1: u8, c2: u16, b2: u8)
    ensures
        crc_byte(c1, b1) ^ crc_byte(c2, b2) == crc_byte(c1 ^ c2, b1 ^ b2),
{
    lemma_shift_n_linear(c1 ^ ((b1 as u16) << 8u16), c2 ^ ((b2 as u16) << 8u16), 8);
    assert((c1 ^ ((b1 as u16) << 8u16)) ^ (c2 ^ ((b2 as u16) << 8u16)) == (c1 ^ c2) ^ (((b1
        ^ b2) as u16) << 8u16)) by (bit_vector);
}

/// The byte-wise XOR of two byte strings of equal length.
pub open spec fn xor_bytes(a: Seq<u8>, b: Seq<u8>) -> Seq<u8> {
    Seq::new(a.len(), |k: int| a[k] ^ b[k])
}

/// CRC16-XModem is linear over XOR for messages of equal length.
proof fn lemma_crc_linear(c1: u16, a: Seq<u8>, c2: u16, b: Seq<u8>)
    requires
        a.len() == b.len(),
    ensures
        crc_from(c1, a) ^ crc_from(c2, b) == crc_from(c1 ^ c2, xor_bytes(a, b)),
    decreases a.len(),
{
    if a.len() > 0 {
        lemma_crc_linear(c1, a.drop_last(), c2, b.drop_last());
        assert(xor_bytes(a, b).drop_last() =~= xor_bytes(a.drop_last(), b.drop_last()));
        lemma_byte_linear(
            crc_from(c1, a.drop_last()),
            a.last(),
            crc_from(c2, b.drop_last()),
            b.last(),
        );
    }
}

proof fn lemma_shift_nonzero(c: u16)
    requires
        c != 0,
    ensures
        crc_shift(c) != 0,
{
    assert(c != 0 ==> crc_shift(c) != 0) by (bit_vector);
}

proof fn lemma_shift_n_nonzero(c: u16, n: nat)
    requires
        c != 0,
    ensures
        crc_shift_n(c, n) != 0,
    decreases n,
{
    if n > 0 {
        lemma_shift_n_nonzero(c, (n - 1) as nat);
        lemma_shift_nonzero(crc_shift_n(c, (n - 1) as nat));
    }
}

/// `n` zero bytes.
pub open spec fn zeros(n: nat) -> Seq<u8> {
    Seq::new(n, |k: int| 0u8)
}

proof fn lemma_crc_zeros(c: u16, n: nat)
    ensures
        c == 0 ==> crc_from(c, zeros(n)) == 0,
        c != 0 ==> crc_from(c, zeros(n)) != 0,
    decreases n,
{
    if n > 0 {
        assert(zeros(n).drop_last() =~= zeros((n - 1) as nat));
        lemma_crc_zeros(c, (n - 1) as nat);
        let x = crc_from(c, zeros((n - 1) as nat));
        assert(x ^ ((0u8 as u16) << 8u16) == x) by (bit_vector);
        if x != 0 {
            lemma_shift_n_nonzero(x, 8);
        } else {
            lemma_shift_n_zero(8);
        }
    }
}

proof fn lemma_shift_n_zero(n: nat)
    ensures
        crc_shift_n(0, n) == 0,
    decreases n,
{
    if n > 0 {
        lemma_shift_n_zero((n - 1) as nat);
        assert(crc_shift(0) == 0) by (bit_vector);
    }
}

/// Eight bit steps spelled out, for the bit-vector solver.
proof fn lemma_shift_8(c: u16)
    ensures
        crc_shift_n(c, 8) == crc_shift(
            crc_shift(crc_shift(crc_shift(crc_shift(crc_shift(crc_shift(crc_shift(c))))))),
        ),
{
    reveal_with_fuel(crc_shift_n, 9);
}

/// A byte folded into a zero CRC never leaves the low byte zero.
proof fn lemma_table_low_byte(b: u8)
    requires
        b != 0,
    ensures
        crc_byte(0, b) & 0xff != 0,
{
    let v0: u16 = 0u16 ^ ((b as u16) << 8u16);
    lemma_shift_8(v0);
    let v1 = crc_shift(v0);
    let v2 = crc_shift(v1);
    let v3 = crc_shift(v2);
    let v4 = crc_shift(v3);
    let v5 = crc_shift(v4);
    let v6 = crc_shift(v5);
    let v7 = crc_shift(v6);
    let v8 = crc_shift(v7);
    assert(v8 & 0xff != 0) by (bit_vector)
        requires
            b != 0,
            v0 == 0u16 ^ ((b as u16) << 8u16),
            v1 == crc_shift(v0),
            v2 == crc_shift(v1),
            v3 == crc_shift(v2),
            v4 == crc_shift(v3),
            v5 == crc_shift(v4),
            v6 == crc_shift(v5),
            v7 == crc_shift(v6),
            v8 == crc_shift(v7),
    ;
}

/// A burst of at most two bytes in an otherwise zero message has a nonzero CRC.
proof fn lemma_crc_burst(j: nat, x: u8, y: u8, rest: nat)
    requires
        x != 0 || y != 0,
    ensures
        crc_from(0, zeros(j) + seq![x, y] + zeros(rest)) != 0,
{
    lemma_crc_from_concat(0, zeros(j) + seq![x, y], zeros(rest));
    lemma_crc_from_concat(0, zeros(j), seq![x, y]);
    lemma_crc_zeros(0, j);
    let pair = seq![x, y];
    assert(pair.drop_last() =~= seq![x]);
    assert(seq![x].drop_last() =~= Seq::<u8>::empty());
    let a = crc_byte(0, x);
    let z = crc_byte(a, y);
    assert(crc_from(0, Seq::<u8>::empty()) == 0);
    assert(seq![x].last() == x);
    assert(crc_from(0, seq![x]) == a);
    assert(pair.last() == y);
    assert(crc_from(0, pair) == z);
    if x == 0 {
        assert(0u16 ^ ((0u8 as u16) << 8u16) == 0) by (bit_vector);
        lemma_shift_n_zero(8);
        assert(a == 0);
        assert(y != 0);
        assert(0u16 ^ ((y as u16) << 8u16) != 0) by (bit_vector)
            requires
                y != 0,
        ;
        lemma_shift_n_nonzero(0u16 ^ ((y as u16) << 8u16), 8);
    } else {
        lemma_table_low_byte(x);
        assert(a ^ ((y as u16) << 8u16) != 0) by (bit_vector)
            requires
                a & 0xff != 0,
        ;
        lemma_shift_n_nonzero(a ^ ((y as u16) << 8u16), 8);
    }
    lemma_crc_zeros(z, rest);
}

/// A small byte folded into a zero CRC sets its high byte.
proof fn lemma_table_high_byte(b: u8)
    requires
        b != 0,
        b < 16,
    ensures
        crc_byte(0, b) >= 256,
{
    let v0: u16 = 0u16 ^ ((b as u16) << 8u16);
    lemma_shift_8(v0);
    let v1 = crc_shift(v0);
    let v2 = crc_shift(v1);
    let v3 = crc_shift(v2);
    let v4 = crc_shift(v3);
    let v5 = crc_shift(v4);
    let v6 = crc_shift(v5);
    let v7 = crc_shift(v6);
    let v8 = crc_shift(v7);
    assert(v8 >= 256) by (bit_vector)
        requires
            b != 0,
            b < 16,
            v0 == 0u16 ^ ((b as u16) << 8u16),
            v1 == crc_shift(v0),
            v2 == crc_shift(v1),
            v3 == crc_shift(v2),
            v4 == crc_shift(v3),
            v5 == crc_shift(v4),
            v6 == crc_shift(v5),
            v7 == crc_shift(v6),
            v8 == crc_shift(v7),
    ;
}

// ─── One changed digit ────────────────────────────────────────────────────────

/// Digit `m` of a block after digit `p` is replaced by `q`.
spec fn swapped(d: u8, m: int, q: u8, p: int) -> u8 {
    if m == p {
        q
    } else {
        d
    }
}

/// How byte `r` of a block changes when digit `p` is replaced by `q`.
spec fn block_xor(
    d0: u8,
    d1: u8,
    d2: u8,
    d3: u8,
    d4: u8,
    d5: u8,
    d6: u8,
    d7: u8,
    q: u8,
    p: int,
    r: int,
) -> u8 {
    block_byte(d0, d1, d2, d3, d4, d5, d6, d7, r) ^ block_byte(
        swapped(d0, 0, q, p),
        swapped(d1, 1, q, p),
        swapped(d2, 2, q, p),
        swapped(d3, 3, q, p),
        swapped(d4, 4, q, p),
        swapped(d5, 5, q, p),
        swapped(d6, 6, q, p),
        swapped(d7, 7, q, p),
        r,
    )
}

/// The first byte of a block that digit `p` reaches; it reaches at most that
/// byte and the next.
spec fn first_byte(p: int) -> int {
    if p <= 1 {
        0
    } else if p <= 3 {
        1
    } else if p == 4 {
        2
    } else if p <= 6 {
        3
    } else {
        4
    }
}

/// Digit `p` of a block.
spec fn digit_at(d0: u8, d1: u8, d2: u8, d3: u8, d4: u8, d5: u8, d6: u8, d7: u8, p: int) -> u8 {
    if p == 0 {
        d0
    } else if p == 1 {
        d1
    } else if p == 2 {
        d2
    } else if p == 3 {
        d3
    } else if p == 4 {
        d4
    } else if p == 5 {
        d5
    } else if p == 6 {
        d6
    } else {
        d7
    }
}

/// Replacing one digit of a block by a different digit changes the block's
/// byte `first_byte(p)` or the one after it, and no other byte.
proof fn lemma_block_change(
    d0: u8,
    d1: u8,
    d2: u8,
    d3: u8,
    d4: u8,
    d5: u8,
    d6: u8,
    d7: u8,
    q: u8,
    p: int,
)
    requires
        d0 < 32 && d1 < 32 && d2 < 32 && d3 < 32 && d4 < 32 && d5 < 32 && d6 < 32 && d7 < 32,
        q < 32,
        0 <= p < 8,
        q != digit_at(d0, d1, d2, d3, d4, d5, d6, d7, p),
    ensures
        forall|r: int|
            0 <= r < 5 && r != first_byte(p) && r != first_byte(p) + 1 ==> #[trigger] block_xor(
                d0,
                d1,
                d2,
                d3,
                d4,
                d5,
                d6,
                d7,
                q,
                p,
                r,
            ) == 0,
        block_xor(d0, d1, d2, d3, d4, d5, d6, d7, q, p, first_byte(p)) != 0 || (first_byte(p) < 4
            && block_xor(d0, d1, d2, d3, d4, d5, d6, d7, q, p, first_byte(p) + 1) != 0),
        p == 0 ==> block_xor(d0, d1, d2, d3, d4, d5, d6, d7, q, p, 0) != 0,
        p == 4 ==> block_xor(d0, d1, d2, d3, d4, d5, d6, d7, q, p, 2) == (d4 >> 1u8) ^ (q >> 1u8),
        p == 4 ==> block_xor(d0, d1, d2, d3, d4, d5, d6, d7, q, p, 3) == ((d4 & 1u8) ^ (q & 1u8))
            << 7u8,
{
    if p == 0 {
        assert(block_xor(d0, d1, d2, d3, d4, d5, d6, d7, q, 0, 2) == 0 && block_xor(d0, d1, d2, d3, d4, d5, d6, d7, q, 0, 3) == 0 && block_xor(d0, d1, d2, d3, d4, d5, d6, d7, q, 0, 4) == 0 && block_xor(d0, d1, d2, d3, d4, d5, d6, d7, q, 0, 1) == 0 && block_xor(d0, d1, d2, d3, d4, d5, d6, d7, q, 0, 0) != 0) by (bit_vector)
            requires
                d0 < 32 && d1 < 32 && d2 < 32 && d3 < 32 && d4 < 32 && d5 < 32 && d6 < 32 && d7 < 32,
                q < 32,
                q != d0,
        ;
    } else if p == 1 {
        assert(block_xor(d0, d1, d2, d3, d4, d5, d6, d7, q, 1, 2) == 0 && block_xor(d0, d1, d2, d3, d4, d5, d6, d7, q, 1, 3) == 0 && block_xor(d0, d1, d2, d3, d4, d5, d6, d7, q, 1, 4) == 0 && (block_xor(d0, d1, d2, d3, d4, d5, d6, d7, q, 1, 0) != 0 || block_xor(d0, d1, d2, d3, d4, d5, d6, d7, q, 1, 1) != 0)) by (bit_vector)
            requires
                d0 < 32 && d1 < 32 && d2 < 32 && d3 < 32 && d4 < 32 && d5 < 32 && d6 < 32 && d7 < 32,
                q < 32,
                q != d1,
        ;
    } else if p == 2 {
        assert(block_xor(d0, d1, d2, d3, d4, d5, d6, d7, q, 2, 0) == 0 && block_xor(d0, d1, d2, d3, d4, d5, d6, d7, q, 2, 3) == 0 && block_xor(d0, d1, d2, d3, d4, d5, d6, d7, q, 2, 4) == 0 && (block_xor(d0, d1, d2, d3, d4, d5, d6, d7, q, 2, 1) != 0 || block_xor(d0, d1, d2, d3, d4, d5, d6, d7, q, 2, 2) != 0)) by (bit_vector)
            requires
                d0 < 32 && d1 < 32 && d2 < 32 && d3 < 32 && d4 < 32 && d5 < 32 && d6 < 32 && d7 < 32,
                q < 32,
                q != d2,
        ;
    } else if p == 3 {
        assert(block_xor(d0, d1, d2, d3, d4, d5, d6, d7, q, 3, 0) == 0 && block_xor(d0, d1, d2, d3, d4, d5, d6, d7, q, 3, 3) == 0 && block_xor(d0, d1, d2, d3, d4, d5, d6, d7, q, 3, 4) == 0 && (block_xor(d0, d1, d2, d3, d4, d5, d6, d7, q, 3, 1) != 0 || block_xor(d0, d1, d2, d3, d4, d5, d6, d7, q, 3, 2) != 0)) by (bit_vector)
            requires
                d0 < 32 && d1 < 32 && d2 < 32 && d3 < 32 && d4 < 32 && d5 < 32 && d6 < 32 && d7 < 32,
                q < 32,
                q != d3,
        ;
    } else if p == 4 {
        assert(block_xor(d0, d1, d2, d3, d4, d5, d6, d7, q, 4, 0) == 0 && block_xor(d0, d1, d2, d3, d4, d5, d6, d7, q, 4, 1) == 0 && block_xor(d0, d1, d2, d3, d4, d5, d6, d7, q, 4, 4) == 0 && (block_xor(d0, d1, d2, d3, d4, d5, d6, d7, q, 4, 2) != 0 || block_xor(d0, d1, d2, d3, d4, d5, d6, d7, q, 4, 3) != 0) && block_xor(d0, d1, d2, d3, d4, d5, d6, d7, q, 4, 2) == (d4 >> 1u8) ^ (q >> 1u8) && block_xor(d0, d1, d2, d3, d4, d5, d6, d7, q, 4, 3) == ((d4 & 1u8) ^ (q & 1u8)) << 7u8) by (bit_vector)
            requires
                d0 < 32 && d1 < 32 && d2 < 32 && d3 < 32 && d4 < 32 && d5 < 32 && d6 < 32 && d7 < 32,
                q < 32,
                q != d4,
        ;
    } else if p == 5 {
        assert(block_xor(d0, d1, d2, d3, d4, d5, d6, d7, q, 5, 0) == 0 && block_xor(d0, d1, d2, d3, d4, d5, d6, d7, q, 5, 1) == 0 && block_xor(d0, d1, d2, d3, d4, d5, d6, d7, q, 5, 2) == 0 && (block_xor(d0, d1, d2, d3, d4, d5, d6, d7, q, 5, 3) != 0 || block_xor(d0, d1, d2, d3, d4, d5, d6, d7, q, 5, 4) != 0)) by (bit_vector)
            requires
                d0 < 32 && d1 < 32 && d2 < 32 && d3 < 32 && d4 < 32 && d5 < 32 && d6 < 32 && d7 < 32,
                q < 32,
                q != d5,
        ;
    } else if p == 6 {
        assert(block_xor(d0, d1, d2, d3, d4, d5, d6, d7, q, 6, 0) == 0 && block_xor(d0, d1, d2, d3, d4, d5, d6, d7, q, 6, 1) == 0 && block_xor(d0, d1, d2, d3, d4, d5, d6, d7, q, 6, 2) == 0 && (block_xor(d0, d1, d2, d3, d4, d5, d6, d7, q, 6, 3) != 0 || block_xor(d0, d1, d2, d3, d4, d5, d6, d7, q, 6, 4) != 0)) by (bit_vector)
            requires
                d0 < 32 && d1 < 32 && d2 < 32 && d3 < 32 && d4 < 32 && d5 < 32 && d6 < 32 && d7 < 32,
                q < 32,
                q != d6,
        ;
    } else {
        assert(block_xor(d0, d1, d2, d3, d4, d5, d6, d7, q, 7, 0) == 0 && block_xor(d0, d1, d2, d3, d4, d5, d6, d7, q, 7, 1) == 0 && block_xor(d0, d1, d2, d3, d4, d5, d6, d7, q, 7, 2) == 0 && block_xor(d0, d1, d2, d3, d4, d5, d6, d7, q, 7, 3) == 0 && block_xor(d0, d1, d2, d3, d4, d5, d6, d7, q, 7, 4) != 0) by (bit_vector)
            requires
                d0 < 32 && d1 < 32 && d2 < 32 && d3 < 32 && d4 < 32 && d5 < 32 && d6 < 32 && d7 < 32,
                q < 32,
                q != d7,
        ;
    }
}

// ─── Decoded bytes by block ──────────────────────────────────────────────────

/// Byte `r` of block `g` of the 56-character strkey `s`, by the block formula.
spec fn strkey_block_byte(s: Seq<u8>, g: int, r: int) -> u8 {
    block_byte(
        digit_value(s[8 * g]),
        digit_value(s[8 * g + 1]),
        digit_value(s[8 * g + 2]),
        digit_value(s[8 * g + 3]),
        digit_value(s[8 * g + 4]),
        digit_value(s[8 * g + 5]),
        digit_value(s[8 * g + 6]),
        digit_value(s[8 * g + 7]),
        r,
    )
}

proof fn lemma_strkey_bytes_formula(s: Seq<u8>)
    requires
        s.len() == 56,
    ensures
        strkey_bytes(s).len() == 35,
        forall|g: int, r: int|
            0 <= g < 7 && 0 <= r < 5 ==> #[trigger] strkey_bytes(s)[5 * g + r]
                == strkey_block_byte(s, g, r),
{
    lemma_blocks(s, 7);
    assert forall|g: int, r: int| 0 <= g < 7 && 0 <= r < 5 implies #[trigger] strkey_bytes(s)[5 * g
        + r] == strkey_block_byte(s, g, r) by {
        let sub = s.subrange(8 * g, 8 * g + 8);
        lemma_block(sub);
        assert(sub[0] == s[8 * g] && sub[1] == s[8 * g + 1] && sub[2] == s[8 * g + 2] && sub[3]
            == s[8 * g + 3]);
        assert(sub[4] == s[8 * g + 4] && sub[5] == s[8 * g + 5] && sub[6] == s[8 * g + 6] && sub[7]
            == s[8 * g + 7]);
        assert(be_bytes(base32_number(sub), 5)[r] == strkey_block_byte(s, g, r));
    }
}

proof fn lemma_digit_injective(x: u8, y: u8)
    requires
        base32_digit(x) is Some,
        base32_digit(y) is Some,
        digit_value(x) == digit_value(y),
    ensures
        x == y,
{
}

proof fn lemma_xor_facts(x: u8, y: u8)
    ensures
        (x ^ y == 0) == (x == y),
{
    assert((x ^ y == 0) == (x == y)) by (bit_vector);
}

/// The checksum relation between two decoded strkeys: when both carry a valid
/// checksum, the CRC of the XOR of their payloads is the XOR of their
/// checksum fields.
proof fn lemma_checksum_difference(d: Seq<u8>, d2: Seq<u8>)
    requires
        d.len() == 35,
        d2.len() == 35,
        crc16_spec(d.take(33)) as int == d[33] as int + 256 * d[34] as int,
        crc16_spec(d2.take(33)) as int == d2[33] as int + 256 * d2[34] as int,
    ensures
        crc_from(0, xor_bytes(d, d2).take(33)) as int == (d[33] ^ d2[33]) as int + 256 * (d[34]
            ^ d2[34]) as int,
{
    let u = crc16_spec(d.take(33));
    let u2 = crc16_spec(d2.take(33));
    lemma_crc16_from_zero(d.take(33));
    lemma_crc16_from_zero(d2.take(33));
    lemma_crc_linear(0, d.take(33), 0, d2.take(33));
    assert(xor_bytes(d.take(33), d2.take(33)) =~= xor_bytes(d, d2).take(33));
    assert(0u16 ^ 0u16 == 0u16) by (bit_vector);
    let x = u ^ u2;
    let a = d[33];
    let b = d[34];
    let a2 = d2[33];
    let b2 = d2[34];
    assert(x == ((a ^ a2) as u16) + 256 * ((b ^ b2) as u16)) by (bit_vector)
        requires
            u == (a as u16) + 256 * (b as u16),
            u2 == (a2 as u16) + 256 * (b2 as u16),
            x == u ^ u2,
    ;
}

// ─── The law ──────────────────────────────────────────────────────────────────

/// Changing any single character of a valid Stellar account id to a different
/// base32 character always yields an id that fails the strkey check: the
/// well-shaped typos a length-and-prefix check would let through are caught.
pub proof fn law_single_character_typo_rejected(s: Seq<u8>, i: int, c: u8)
    requires
        is_ed25519_public_key_strkey(s),
        0 <= i < 56,
        base32_digit(c) is Some,
        c != s[i],
    ensures
        !is_ed25519_public_key_strkey(s.update(i, c)),
{
    let t = s.update(i, c);
    if is_ed25519_public_key_strkey(t) {
        lemma_strkey_bytes_formula(s);
        lemma_strkey_bytes_formula(t);
        let d = strkey_bytes(s);
        let d2 = strkey_bytes(t);
        let e = xor_bytes(d, d2);
        let g0 = i / 8;
        let p = i % 8;
        assert(0 <= g0 < 7 && 0 <= p < 8 && i == 8 * g0 + p);
        let a0 = digit_value(s[8 * g0]);
        let a1 = digit_value(s[8 * g0 + 1]);
        let a2 = digit_value(s[8 * g0 + 2]);
        let a3 = digit_value(s[8 * g0 + 3]);
        let a4 = digit_value(s[8 * g0 + 4]);
        let a5 = digit_value(s[8 * g0 + 5]);
        let a6 = digit_value(s[8 * g0 + 6]);
        let a7 = digit_value(s[8 * g0 + 7]);
        let q = digit_value(c);
        lemma_digit_small(s[8 * g0]);
        lemma_digit_small(s[8 * g0 + 1]);
        lemma_digit_small(s[8 * g0 + 2]);
        lemma_digit_small(s[8 * g0 + 3]);
        lemma_digit_small(s[8 * g0 + 4]);
        lemma_digit_small(s[8 * g0 + 5]);
        lemma_digit_small(s[8 * g0 + 6]);
        lemma_digit_small(s[8 * g0 + 7]);
        lemma_digit_small(c);
        assert(base32_digit(s[i]) is Some);
        if q == digit_value(s[i]) {
            lemma_digit_injective(c, s[i]);
        }
        assert(q != digit_at(a0, a1, a2, a3, a4, a5, a6, a7, p));
        lemma_block_change(a0, a1, a2, a3, a4, a5, a6, a7, q, p);
        let lo = first_byte(p);
        // Bytes of the block holding character `i` change by `block_xor`; all
        // other bytes stay the same.
        assert forall|k: int| 0 <= k < 35 implies #[trigger] e[k] == (if k / 5 == g0 {
            block_xor(a0, a1, a2, a3, a4, a5, a6, a7, q, p, k % 5)
        } else {
            0u8
        }) by {
            let g = k / 5;
            let r = k % 5;
            assert(k == 5 * g + r);
            assert(d[k] == strkey_block_byte(s, g, r));
            assert(d2[k] == strkey_block_byte(t, g, r));
            if g == g0 {
                assert(t[8 * g0] == if p == 0 { c } else { s[8 * g0] });
                assert(t[8 * g0 + 1] == if p == 1 { c } else { s[8 * g0 + 1] });
                assert(t[8 * g0 + 2] == if p == 2 { c } else { s[8 * g0 + 2] });
                assert(t[8 * g0 + 3] == if p == 3 { c } else { s[8 * g0 + 3] });
                assert(t[8 * g0 + 4] == if p == 4 { c } else { s[8 * g0 + 4] });
                assert(t[8 * g0 + 5] == if p == 5 { c } else { s[8 * g0 + 5] });
                assert(t[8 * g0 + 6] == if p == 6 { c } else { s[8 * g0 + 6] });
                assert(t[8 * g0 + 7] == if p == 7 { c } else { s[8 * g0 + 7] });
            } else {
                assert(t[8 * g] == s[8 * g] && t[8 * g + 1] == s[8 * g + 1] && t[8 * g + 2] == s[8
                    * g + 2] && t[8 * g + 3] == s[8 * g + 3]);
                assert(t[8 * g + 4] == s[8 * g + 4] && t[8 * g + 5] == s[8 * g + 5] && t[8 * g + 6]
                    == s[8 * g + 6] && t[8 * g + 7] == s[8 * g + 7]);
                lemma_xor_facts(d[k], d2[k]);
            }
        }
        lemma_checksum_difference(d, d2);
        let x = crc_from(0, e.take(33));
        assert(x as int == e[33] as int + 256 * e[34] as int);
        if g0 == 0 && (p == 0 || (p == 1 && e[0] != 0)) {
            // The version byte changes.
            assert(e[0] != 0);
            lemma_xor_facts(d[0], d2[0]);
            assert(false);
        } else if g0 == 6 && p >= 5 {
            // Only the checksum bytes change.
            assert(e.take(33) =~= zeros(33));
            lemma_crc_zeros(0, 33);
            assert(e[33] != 0 || e[34] != 0);
            assert(false);
        } else if g0 == 6 && p == 4 {
            // The last payload byte and the first checksum byte change.
            assert(e.take(33) =~= zeros(32) + seq![e[32]]);
            lemma_crc_from_concat(0, zeros(32), seq![e[32]]);
            lemma_crc_zeros(0, 32);
            assert(seq![e[32]].drop_last() =~= Seq::<u8>::empty());
            assert(seq![e[32]].last() == e[32]);
            assert(crc_from(0, Seq::<u8>::empty()) == 0);
            assert(crc_from(0, seq![e[32]]) == crc_byte(0, e[32]));
            assert(x == crc_byte(0, e[32]));
            assert(e[34] == 0);
            assert(e[32] == (a4 >> 1u8) ^ (q >> 1u8));
            assert(e[33] == ((a4 & 1u8) ^ (q & 1u8)) << 7u8);
            if e[32] == 0 {
                assert(0u16 ^ ((0u8 as u16) << 8u16) == 0) by (bit_vector);
                lemma_shift_n_zero(8);
                assert(e[33] != 0);
                assert(false);
            } else {
                let y = e[32];
                let z = e[33];
                assert(y < 16 && z <= 128) by (bit_vector)
                    requires
                        a4 < 32,
                        q < 32,
                        y == (a4 >> 1u8) ^ (q >> 1u8),
                        z == ((a4 & 1u8) ^ (q & 1u8)) << 7u8,
                ;
                lemma_table_high_byte(y);
                assert(false);
            }
        } else {
            // The payload changes in at most two adjacent bytes and the
            // checksum bytes stay: the CRC of the change is nonzero.
            let j = 5 * g0 + lo;
            assert(j + 1 <= 32);
            assert(e[33] == 0 && e[34] == 0);
            let ej = e[j];
            let ej1 = e[j + 1];
            assert(ej != 0 || ej1 != 0);
            assert(e.take(33) =~= zeros(j as nat) + seq![ej, ej1] + zeros((31 - j) as nat));
            lemma_crc_burst(j as nat, ej, ej1, (31 - j) as nat);
            assert(false);
        }
    }
}

/// Every valid ed25519 public-key strkey starts with `G`, the character the
/// version byte encodes to.
pub proof fn law_account_ids_start_with_g(s: Seq<u8>)
    requires
        is_ed25519_public_key_strkey(s),
    ensures
        s[0] == 71,
{
    lemma_strkey_bytes_formula(s);
    assert(strkey_bytes(s)[5 * 0int + 0int] == strkey_block_byte(s, 0, 0));
    let d0 = digit_value(s[0]);
    let d1 = digit_value(s[1]);
    lemma_digit_small(s[0]);
    lemma_digit_small(s[1]);
    assert(d0 == 6) by (bit_vector)
        requires
            d0 < 32,
            d1 < 32,
            (d0 << 3u8) | (d1 >> 2u8) == 48u8,
    ;
    assert(base32_digit(s[0]) is Some);
}

// ─── Base32 encoding ──────────────────────────────────────────────────────────

/// The base32 alphabet character for the 5-bit value `v`.
pub open spec fn base32_char(v: u8) -> u8 {
    if v < 26 {
        (65 + v) as u8
    } else {
        (24 + v) as u8
    }
}

/// The `len` low base32 digits of `n`, most significant first, as alphabet
/// characters.
pub open spec fn base32_digits(n: nat, len: nat) -> Seq<u8>
    decreases len,
{
    if len == 0 {
        Seq::empty()
    } else {
        base32_digits(n / 32, (len - 1) as nat).push(base32_char((n % 32) as u8))
    }
}

/// The unpadded base32 encoding of 35 bytes: the 56 digits of the 280-bit
/// number they spell.
pub open spec fn base32_encode_strkey(d: Seq<u8>) -> Seq<u8> {
    base32_digits(bytes_number(d), 56)
}

proof fn lemma_pow_pos(k: nat)
    ensures
        pow32(k) > 0,
        pow256(k) > 0,
    decreases k,
{
    if k > 0 {
        lemma_pow_pos((k - 1) as nat);
    }
}

proof fn lemma_pow_blocks(m: nat)
    ensures
        pow32(8 * m) == pow256(5 * m),
    decreases m,
{
    if m > 0 {
        let k = (m - 1) as nat;
        lemma_pow_blocks(k);
        let x = pow32(8 * k);
        let y = pow256(5 * k);
        assert(pow32(8 * k + 8) == 32 * (32 * (32 * (32 * (32 * (32 * (32 * (32 * x)))))))) by {
            reveal_with_fuel(pow32, 9);
        }
        assert(pow256(5 * k + 5) == 256 * (256 * (256 * (256 * (256 * y))))) by {
            reveal_with_fuel(pow256, 6);
        }
        assert(8 * m == 8 * k + 8 && 5 * m == 5 * k + 5);
    }
}

proof fn lemma_pow_280()
    ensures
        pow32(56) == pow256(35),
{
    lemma_pow_blocks(7);
}

proof fn lemma_digits_number(n: nat, len: nat)
    ensures
        base32_digits(n, len).len() == len,
        all_base32(base32_digits(n, len)),
        base32_number(base32_digits(n, len)) == n % pow32(len),
    decreases len,
{
    if len > 0 {
        let m = (len - 1) as nat;
        lemma_digits_number(n / 32, m);
        let t = base32_digits(n / 32, m);
        let v = (n % 32) as u8;
        let s = t.push(base32_char(v));
        assert(s.drop_last() =~= t);
        assert forall|i: int| 0 <= i < s.len() implies (#[trigger] base32_digit(s[i])) is Some by {
            if i < m {
                assert(s[i] == t[i]);
            }
        }
        lemma_pow_pos(m);
        lemma_breakdown(n as int, 32, pow32(m) as int);
        assert(pow32(len) == 32 * pow32(m));
    }
}

proof fn lemma_number_digits(s: Seq<u8>)
    requires
        all_base32(s),
    ensures
        base32_digits(base32_number(s), s.len()) == s,
    decreases s.len(),
{
    if s.len() > 0 {
        let t = s.drop_last();
        assert forall|i: int| 0 <= i < t.len() implies (#[trigger] base32_digit(t[i])) is Some by {
            assert(t[i] == s[i]);
        }
        lemma_number_digits(t);
        assert(base32_digit(s[s.len() - 1]) is Some);
        let v = digit_value(s.last());
        lemma_digit_small(s.last());
        let n = base32_number(s);
        assert(n == base32_number(t) * 32 + v);
        assert(n / 32 == base32_number(t) && n % 32 == v);
        assert(base32_digits(n, s.len()) =~= s);
    }
}

proof fn lemma_number_bound(s: Seq<u8>)
    ensures
        base32_number(s) < pow32(s.len()),
    decreases s.len(),
{
    if s.len() > 0 {
        lemma_number_bound(s.drop_last());
        lemma_digit_small(s.last());
    }
}

proof fn lemma_bytes_bound(b: Seq<u8>)
    ensures
        bytes_number(b) < pow256(b.len()),
    decreases b.len(),
{
    if b.len() > 0 {
        lemma_bytes_bound(b.drop_last());
    }
}

proof fn lemma_bytes_of_be(n: nat, len: nat)
    ensures
        bytes_number(be_bytes(n, len)) == n % pow256(len),
    decreases len,
{
    lemma_be_bytes_len(n, len);
    if len > 0 {
        let m = (len - 1) as nat;
        lemma_bytes_of_be(n / 256, m);
        assert(be_bytes(n, len).drop_last() =~= be_bytes(n / 256, m));
        lemma_pow_pos(m);
        lemma_breakdown(n as int, 256, pow256(m) as int);
        assert(pow256(len) == 256 * pow256(m));
    }
}

/// Every 35 bytes have an unpadded base32 encoding of 56 alphabet
/// characters, and decoding it gives the 35 bytes back.
pub proof fn law_strkey_encoding_round_trip(d: Seq<u8>)
    requires
        d.len() == 35,
    ensures
        base32_encode_strkey(d).len() == 56,
        all_base32(base32_encode_strkey(d)),
        strkey_bytes(base32_encode_strkey(d)) == d,
{
    let n = bytes_number(d);
    lemma_digits_number(n, 56);
    lemma_bytes_bound(d);
    lemma_pow_280();
    lemma_pow_pos(56);
    lemma_small_mod(n, pow32(56));
    lemma_be_bytes_of_number(d);
}

/// Every 56-character base32 string is the encoding of the 35 bytes it
/// decodes to, so two strings that decode to the same bytes are equal.
pub proof fn law_strkey_decoding_injective(s: Seq<u8>, t: Seq<u8>)
    requires
        s.len() == 56,
        all_base32(s),
        t.len() == 56,
        all_base32(t),
    ensures
        s == base32_encode_strkey(strkey_bytes(s)),
        strkey_bytes(s) == strkey_bytes(t) ==> s == t,
{
    lemma_strkey_is_encoding(s);
    lemma_strkey_is_encoding(t);
}

proof fn lemma_strkey_is_encoding(s: Seq<u8>)
    requires
        s.len() == 56,
        all_base32(s),
    ensures
        s == base32_encode_strkey(strkey_bytes(s)),
{
    let n = base32_number(s);
    lemma_number_bound(s);
    lemma_pow_280();
    lemma_pow_pos(35);
    lemma_bytes_of_be(n, 35);
    lemma_small_mod(n, pow256(35));
    lemma_number_digits(s);
}

// ─── Checksum laws ────────────────────────────────────────────────────────────

/// CRC16-XModem is linear over XOR: for two messages of equal length, the
/// checksum of their byte-wise XOR is the XOR of their checksums.
pub proof fn law_crc_linear(a: Seq<u8>, b: Seq<u8>)
    requires
        a.len() == b.len(),
    ensures
        crc16_spec(xor_bytes(a, b)) == crc16_spec(a) ^ crc16_spec(b),
{
    lemma_crc16_from_zero(a);
    lemma_crc16_from_zero(b);
    lemma_crc16_from_zero(xor_bytes(a, b));
    lemma_crc_linear(0, a, 0, b);
    assert(0u16 ^ 0u16 == 0u16) by (bit_vector);
}

/// A message of zero bytes, of any length, has checksum zero.
pub proof fn law_crc_of_zeros(n: nat)
    ensures
        crc16_spec(zeros(n)) == 0,
{
    lemma_crc16_from_zero(zeros(n));
    lemma_crc_zeros(0, n);
}

/// Appending a message's CRC16-XModem, high byte first, gives a message whose
/// checksum is zero.
pub proof fn law_crc_residue_zero(data: Seq<u8>)
    ensures
        crc16_spec(
            data + seq![(crc16_spec(data) >> 8u16) as u8, (crc16_spec(data) & 0xffu16) as u8],
        ) == 0,
{
    let c = crc16_spec(data);
    let hi = (c >> 8u16) as u8;
    let lo = (c & 0xffu16) as u8;
    let m = data + seq![hi, lo];
    assert(m.drop_last() =~= data.push(hi));
    assert(data.push(hi).drop_last() =~= data);
    let v0: u16 = c ^ ((hi as u16) << 8u16);
    lemma_shift_8(v0);
    let v1 = crc_shift(v0);
    let v2 = crc_shift(v1);
    let v3 = crc_shift(v2);
    let v4 = crc_shift(v3);
    let v5 = crc_shift(v4);
    let v6 = crc_shift(v5);
    let v7 = crc_shift(v6);
    let v8 = crc_shift(v7);
    assert(v8 ^ ((lo as u16) << 8u16) == 0) by (bit_vector)
        requires
            hi == (c >> 8u16) as u8,
            lo == (c & 0xffu16) as u8,
            v0 == c ^ ((hi as u16) << 8u16),
            v1 == crc_shift(v0),
            v2 == crc_shift(v1),
            v3 == crc_shift(v2),
            v4 == crc_shift(v3),
            v5 == crc_shift(v4),
            v6 == crc_shift(v5),
            v7 == crc_shift(v6),
            v8 == crc_shift(v7),
    ;
    assert(crc16_spec(data.push(hi)) == v8);
    lemma_shift_n_zero(8);
}

// ─── Canonical account ids ────────────────────────────────────────────────────

/// The SEP-23 ed25519 public-key strkey of a 32-byte key: the base32
/// encoding of the version byte, the key, and the little-endian CRC16-XModem
/// of those 33 bytes.
pub open spec fn canonical_strkey(key: Seq<u8>) -> Seq<u8> {
    let payload = seq![VERSION_ED25519_PUBLIC_KEY] + key;
    let crc = crc16_spec(payload);
    base32_encode_strkey(payload + seq![(crc & 0xffu16) as u8, (crc >> 8u16) as u8])
}

/// The strkey of every 32-byte key passes the check, and decodes back to the
/// key, so distinct keys have distinct strkeys.
pub proof fn law_canonical_strkey_accepted(key: Seq<u8>)
    requires
        key.len() == 32,
    ensures
        is_ed25519_public_key_strkey(canonical_strkey(key)),
        strkey_bytes(canonical_strkey(key)).subrange(1, 33) == key,
{
    let payload = seq![VERSION_ED25519_PUBLIC_KEY] + key;
    let c = crc16_spec(payload);
    let lo = (c & 0xffu16) as u8;
    let hi = (c >> 8u16) as u8;
    let d = payload + seq![lo, hi];
    law_strkey_encoding_round_trip(d);
    assert(d.take(33) =~= payload);
    assert(d.subrange(1, 33) =~= key);
    assert(c == (lo as u16) + 256 * (hi as u16)) by (bit_vector)
        requires
            lo == (c & 0xffu16) as u8,
            hi == (c >> 8u16) as u8,
    ;
}

/// Every strkey the check accepts is the canonical strkey of the 32 key
/// bytes it carries.
pub proof fn law_accepted_strkey_is_canonical(s: Seq<u8>)
    requires
        is_ed25519_public_key_strkey(s),
    ensures
        s == canonical_strkey(strkey_bytes(s).subrange(1, 33)),
{
    let d = strkey_bytes(s);
    lemma_be_bytes_len(base32_number(s), 35);
    lemma_strkey_is_encoding(s);
    let key = d.subrange(1, 33);
    let payload = seq![VERSION_ED25519_PUBLIC_KEY] + key;
    assert(d.take(33) =~= payload);
    let c = crc16_spec(payload);
    let a = d[33];
    let b = d[34];
    assert(c == (a as u16) + 256 * (b as u16));
    assert(a == (c & 0xffu16) as u8 && b == (c >> 8u16) as u8) by (bit_vector)
        requires
            c == (a as u16) + 256 * (b as u16),
    ;
    assert(d =~= payload + seq![(c & 0xffu16) as u8, (c >> 8u16) as u8]);
}

/// The strkeys the check accepts are exactly the canonical strkeys of 32-byte
/// keys.
pub proof fn law_accepted_strkeys_are_exactly_canonical(s: Seq<u8>)
    ensures
        is_ed25519_public_key_strkey(s) <==> exists|key: Seq<u8>|
            key.len() == 32 && s == #[trigger] canonical_strkey(key),
{
    if is_ed25519_public_key_strkey(s) {
        law_accepted_strkey_is_canonical(s);
        lemma_be_bytes_len(base32_number(s), 35);
        let key = strkey_bytes(s).subrange(1, 33);
        assert(key.len() == 32 && s == canonical_strkey(key));
    }
    if exists|key: Seq<u8>| key.len() == 32 && s == #[trigger] canonical_strkey(key) {
        let key = choose|key: Seq<u8>| key.len() == 32 && s == #[trigger] canonical_strkey(key);
        law_canonical_strkey_accepted(key);
    }
}

} // verus!
