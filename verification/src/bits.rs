//! Bit-level helper lemmas shared by the packing, round and key-schedule
//! proofs.  Cells carry 9 significant bits; bytes carry 8; the bitsliced
//! substitution works on 32-lane words.
use vstd::prelude::*;

verus! {

/// Bit `d` of a 16-bit word, as 0 or 1.
pub open spec fn bit16(v: u16, d: u16) -> u16 {
    (v >> d) & 1
}

/// Bit `d` of a byte, as 0 or 1.
pub open spec fn bit8(v: u8, d: u8) -> u8 {
    (v >> d) & 1
}

/// Bit `l` of a 32-bit word, as 0 or 1.
pub open spec fn bit32(v: u32, l: u32) -> u32 {
    (v >> l) & 1
}

pub proof fn lemma_xor_comm(a: u16, b: u16)
    by (bit_vector)
    ensures
        a ^ b == b ^ a,
{
}

pub proof fn lemma_xor_assoc(a: u16, b: u16, c: u16)
    by (bit_vector)
    ensures
        (a ^ b) ^ c == a ^ (b ^ c),
{
}

pub proof fn lemma_xor_zero(a: u16)
    by (bit_vector)
    ensures
        a ^ 0 == a,
        0 ^ a == a,
        a ^ a == 0,
{
}

pub proof fn lemma_xor_cancel(a: u16, m: u16)
    by (bit_vector)
    ensures
        (a ^ m) ^ m == a,
{
}

pub proof fn lemma_xor_cancel8(a: u8, b: u8)
    by (bit_vector)
    ensures
        (a ^ b) ^ b == a,
{
}

pub proof fn lemma_xor_bound(a: u16, b: u16)
    by (bit_vector)
    requires
        a < 512,
        b < 512,
    ensures
        a ^ b < 512,
{
}

/// Cancelling a sum of eight terms pair by pair: used to collapse the
/// column-wise diffusion composition one source cell at a time.
pub proof fn lemma_xor8_cancel(
    a0: u16, a1: u16, a2: u16, a3: u16,
    b0: u16, b1: u16, b2: u16, b3: u16,
    x0: u16, x1: u16, x2: u16, x3: u16,
)
    by (bit_vector)
    requires
        a0 ^ b0 == x0,
        a1 ^ b1 == x1,
        a2 ^ b2 == x2,
        a3 ^ b3 == x3,
    ensures
        (((a0 ^ a1) ^ a2) ^ a3) ^ (((b0 ^ b1) ^ b2) ^ b3) == ((x0 ^ x1) ^ x2) ^ x3,
{
}

/// Folding zeros out of a four-term sum with one live term.
pub proof fn lemma_xor_fold_positions(y: u16)
    by (bit_vector)
    ensures
        ((y ^ 0u16) ^ 0u16) ^ 0u16 == y,
        ((0u16 ^ y) ^ 0u16) ^ 0u16 == y,
        ((0u16 ^ 0u16) ^ y) ^ 0u16 == y,
        ((0u16 ^ 0u16) ^ 0u16) ^ y == y,
{
}

/// Appending one bit at position `k` to a partial value below `1 << k`.
pub proof fn lemma_bit_append16(x: u16, v: u16, k: u16, d: u16)
    by (bit_vector)
    requires
        k < 9,
        d < 9,
        v <= 1,
        x < (1u16 << k),
    ensures
        bit16(x | (v << k), d) == (if d == k {
            v
        } else if d < k {
            bit16(x, d)
        } else {
            0u16
        }),
        x | (v << k) < (1u16 << ((k + 1) as u16)),
{
}

pub proof fn lemma_bit_append8(x: u8, v: u8, k: u8, d: u8)
    by (bit_vector)
    requires
        k < 8,
        d < 8,
        v <= 1,
        x < (1u8 << k),
    ensures
        bit8(x | (v << k), d) == (if d == k {
            v
        } else if d < k {
            bit8(x, d)
        } else {
            0u8
        }),
        k < 7 ==> x | (v << k) < (1u8 << ((k + 1) as u8)),
{
}

pub proof fn lemma_bit_append32(x: u32, v: u32, k: u32, d: u32)
    by (bit_vector)
    requires
        k < 32,
        d < 32,
        v <= 1,
        k < 31 ==> x < (1u32 << k),
        k == 31 ==> x < 0x8000_0000,
    ensures
        bit32(x | (v << k), d) == (if d == k {
            v
        } else if d < k {
            bit32(x, d)
        } else {
            0u32
        }),
        k < 31 ==> x | (v << k) < (1u32 << ((k + 1) as u32)),
{
}

/// A single extracted bit never exceeds one, at any width.
pub proof fn lemma_bit_le1(a: u8, b: u16, c: u32, da: u8, db: u16, dc: u32)
    by (bit_vector)
    ensures
        bit8(a, da) <= 1,
        bit16(b, db) <= 1,
        bit32(c, dc) <= 1,
{
}

/// Two 9-bit values agreeing on all nine bits are equal.
pub proof fn lemma_bits_eq9(x: u16, y: u16)
    by (bit_vector)
    requires
        x < 512,
        y < 512,
        bit16(x, 0) == bit16(y, 0),
        bit16(x, 1) == bit16(y, 1),
        bit16(x, 2) == bit16(y, 2),
        bit16(x, 3) == bit16(y, 3),
        bit16(x, 4) == bit16(y, 4),
        bit16(x, 5) == bit16(y, 5),
        bit16(x, 6) == bit16(y, 6),
        bit16(x, 7) == bit16(y, 7),
        bit16(x, 8) == bit16(y, 8),
    ensures
        x == y,
{
}

/// Two bytes agreeing on all eight bits are equal.
pub proof fn lemma_bits_eq8(x: u8, y: u8)
    by (bit_vector)
    requires
        bit8(x, 0) == bit8(y, 0),
        bit8(x, 1) == bit8(y, 1),
        bit8(x, 2) == bit8(y, 2),
        bit8(x, 3) == bit8(y, 3),
        bit8(x, 4) == bit8(y, 4),
        bit8(x, 5) == bit8(y, 5),
        bit8(x, 6) == bit8(y, 6),
        bit8(x, 7) == bit8(y, 7),
    ensures
        x == y,
{
}

pub proof fn lemma_bit_or32(x: u32, y: u32, l: u32)
    by (bit_vector)
    requires
        l < 32,
    ensures
        bit32(x | y, l) == (if bit32(x, l) == 1 || bit32(y, l) == 1 {
            1u32
        } else {
            0u32
        }),
        bit32(x, l) <= 1,
        bit32(y, l) <= 1,
{
}

pub proof fn lemma_bit_and32(x: u32, y: u32, l: u32)
    by (bit_vector)
    requires
        l < 32,
    ensures
        bit32(x & y, l) == (if bit32(x, l) == 1 && bit32(y, l) == 1 {
            1u32
        } else {
            0u32
        }),
        bit32(x, l) <= 1,
        bit32(y, l) <= 1,
{
}

pub proof fn lemma_bit_not32(x: u32, l: u32)
    by (bit_vector)
    requires
        l < 32,
    ensures
        bit32(!x, l) == (if bit32(x, l) == 0 {
            1u32
        } else {
            0u32
        }),
        bit32(x, l) <= 1,
{
}

pub proof fn lemma_bit_onehot32(k: u32, l: u32)
    by (bit_vector)
    requires
        k < 32,
        l < 32,
    ensures
        bit32(1u32 << k, l) == (if l == k {
            1u32
        } else {
            0u32
        }),
{
}

pub proof fn lemma_bit_of_zero32(l: u32)
    by (bit_vector)
    requires
        l < 32,
    ensures
        bit32(0, l) == 0,
{
}

pub proof fn lemma_bit_of_zero16(d: u16)
    by (bit_vector)
    requires
        d < 16,
    ensures
        bit16(0, d) == 0,
{
}

/// The 9-bit left rotation and its right inverse.
pub proof fn lemma_rot9_inverse(v: u16)
    by (bit_vector)
    requires
        v < 512,
    ensures
        ((v << 1) | (v >> 8)) & 0x1ff < 512,
        ((((v << 1) | (v >> 8)) & 0x1ff) >> 1 | ((((v << 1) | (v >> 8)) & 0x1ff) << 8)) & 0x1ff
            == v,
{
}

pub proof fn lemma_inv_rot9_bound(v: u16)
    by (bit_vector)
    requires
        v < 512,
    ensures
        ((v >> 1) | (v << 8)) & 0x1ff < 512,
{
}

/// Torus index arithmetic: stepping forward then backward by the same
/// offset returns to the start, modulo the row count.
pub proof fn lemma_mod_roundtrip4(r: int, s: int)
    requires
        0 <= r < 4,
        0 <= s < 4,
    ensures
        (((r + s) % 4) + 4 - s) % 4 == r,
        (((r + 4 - s) % 4) + s) % 4 == r,
{
}

pub proof fn lemma_mod_roundtrip8(c: int, s: int)
    requires
        0 <= c < 8,
        0 <= s < 8,
    ensures
        (((c + s) % 8) + 8 - s) % 8 == c,
        (((c + 8 - s) % 8) + s) % 8 == c,
{
}

} // verus!
