//! Arithmetic in GF(2^9) with reduction polynomial x^9 + x^4 + 1, written as
//! a bit-serial multiply.  The diffusion layer never multiplies directly: it
//! reads tables built from `gf_mul`, so the lemmas here (zero, bound,
//! linearity in the second operand) are what the table well-formedness rests
//! on.
use vstd::prelude::*;

use crate::bits::lemma_xor_bound;

verus! {

/// One doubling step: multiply by x and reduce by 0x11 when bit 8 carries out.
pub open spec fn gf_shift(a: u16) -> u16 {
    if a & 0x100 != 0 {
        ((a << 1) & 0x1ff) ^ 0x11
    } else {
        (a << 1) & 0x1ff
    }
}

/// `n` remaining steps of the bit-serial product accumulation.
pub open spec fn gf_step(a: u16, b: u16, n: nat) -> u16
    decreases n,
{
    if n == 0 {
        0u16
    } else {
        let rest = gf_step(gf_shift(a), b >> 1, (n - 1) as nat);
        if b & 1 == 1 {
            a ^ rest
        } else {
            rest
        }
    }
}

/// The 9-bit field product of `a` and `b`.
pub open spec fn gf_mul(a: u16, b: u16) -> u16 {
    gf_step(a, b, 9)
}

proof fn lemma_gf_shift_bound(a: u16)
    by (bit_vector)
    requires
        a < 512,
    ensures
        gf_shift(a) < 512,
{
}

pub proof fn lemma_gf_step_bound(a: u16, b: u16, n: nat)
    requires
        a < 512,
    ensures
        gf_step(a, b, n) < 512,
    decreases n,
{
    if n == 0 {
    } else {
        lemma_gf_shift_bound(a);
        lemma_gf_step_bound(gf_shift(a), b >> 1, (n - 1) as nat);
        if b & 1 == 1 {
            lemma_xor_bound(a, gf_step(gf_shift(a), b >> 1, (n - 1) as nat));
        }
    }
}

pub proof fn lemma_gf_mul_bound(a: u16, b: u16)
    requires
        a < 512,
    ensures
        gf_mul(a, b) < 512,
{
    lemma_gf_step_bound(a, b, 9);
}

proof fn lemma_zero_bit_facts()
    by (bit_vector)
    ensures
        0u16 >> 1u16 == 0u16,
        0u16 & 1u16 == 0u16,
{
}

pub proof fn lemma_gf_step_zero(a: u16, n: nat)
    ensures
        gf_step(a, 0, n) == 0,
    decreases n,
{
    if n == 0 {
    } else {
        lemma_zero_bit_facts();
        lemma_gf_step_zero(gf_shift(a), (n - 1) as nat);
    }
}

/// Multiplying zero gives zero: the diffusion decomposition leans on this.
pub proof fn lemma_gf_mul_zero(a: u16)
    ensures
        gf_mul(a, 0) == 0,
{
    lemma_gf_step_zero(a, 9);
}

proof fn lemma_xor_bit_split(b1: u16, b2: u16)
    by (bit_vector)
    ensures
        (b1 ^ b2) >> 1u16 == (b1 >> 1u16) ^ (b2 >> 1u16),
        (b1 ^ b2) & 1 == (b1 & 1) ^ (b2 & 1),
        (b1 & 1) <= 1,
        (b2 & 1) <= 1,
        ((b1 & 1) ^ (b2 & 1)) == 1 <==> ((b1 & 1 == 1) != (b2 & 1 == 1)),
{
}

proof fn lemma_xor_pair_shuffle(a: u16, r1: u16, r2: u16)
    by (bit_vector)
    ensures
        (a ^ r1) ^ (a ^ r2) == r1 ^ r2,
        (a ^ r1) ^ r2 == a ^ (r1 ^ r2),
        r1 ^ (a ^ r2) == a ^ (r1 ^ r2),
{
}

/// The bit-serial product is linear in its second operand.
pub proof fn lemma_gf_step_linear(a: u16, b1: u16, b2: u16, n: nat)
    ensures
        gf_step(a, b1 ^ b2, n) == gf_step(a, b1, n) ^ gf_step(a, b2, n),
    decreases n,
{
    if n == 0 {
        assert(0u16 ^ 0u16 == 0u16) by (bit_vector);
    } else {
        let m = (n - 1) as nat;
        lemma_xor_bit_split(b1, b2);
        lemma_gf_step_linear(gf_shift(a), b1 >> 1, b2 >> 1, m);
        let r1 = gf_step(gf_shift(a), b1 >> 1, m);
        let r2 = gf_step(gf_shift(a), b2 >> 1, m);
        lemma_xor_pair_shuffle(a, r1, r2);
    }
}

/// Linearity of the field product in its second operand.
pub proof fn lemma_gf_mul_linear(a: u16, b1: u16, b2: u16)
    ensures
        gf_mul(a, b1 ^ b2) == gf_mul(a, b1) ^ gf_mul(a, b2),
{
    lemma_gf_step_linear(a, b1, b2, 9);
}

/// Bit-serial multiply in GF(2^9): the executable form of `gf_mul`.
pub fn gf_mul_exec(a: u16, b: u16) -> (r: u16)
    requires
        a < 512,
    ensures
        r == gf_mul(a, b),
        r < 512,
{
    let mut res: u16 = 0;
    let mut aa: u16 = a;
    let mut bb: u16 = b;
    proof {
        lemma_gf_mul_bound(a, b);
        crate::bits::lemma_xor_zero(gf_step(a, b, 9));
    }
    for i in 0..9u16
        invariant
            aa < 512,
            res < 512,
            gf_mul(a, b) == res ^ gf_step(aa, bb, (9 - i) as nat),
            gf_mul(a, b) < 512,
    {
        proof {
            assert(bb & 1 <= 1) by (bit_vector);
            lemma_gf_shift_bound(aa);
            lemma_gf_step_bound(gf_shift(aa), bb >> 1, (8 - i) as nat);
            let rest = gf_step(gf_shift(aa), bb >> 1, (8 - i) as nat);
            assert(gf_step(aa, bb, (9 - i) as nat) == if bb & 1 == 1 {
                aa ^ rest
            } else {
                rest
            });
            if bb & 1 == 1 {
                crate::bits::lemma_xor_assoc(res, aa, rest);
                lemma_xor_bound(res, aa);
            }
        }
        if bb & 1 != 0 {
            res = res ^ aa;
        }
        let carry: u16 = aa & 0x100;
        let aa_next: u16 = if carry != 0 {
            ((aa << 1) & 0x1ff) ^ 0x11
        } else {
            (aa << 1) & 0x1ff
        };
        proof {
            assert(aa_next == gf_shift(aa));
        }
        aa = aa_next;
        bb = bb >> 1;
    }
    assert(gf_mul(a, b) == res ^ gf_step(aa, bb, 0));
    assert(res ^ 0 == res) by (bit_vector);
    res
}

} // verus!
