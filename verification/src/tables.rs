//! The lookup tables that drive the round function: the substitution box and
//! its inverse, the six field-multiplication tables, and the four fused
//! substitution-plus-diffusion tables.
//!
//! Construction validates the substitution pair entry by entry and checks the
//! four cancellation families that make the column diffusion invertible.  The
//! outcome is surfaced: the built value's `validated` field records it, and
//! `validate_tables` re-runs the checks on demand.  If a check were ever to
//! fail (the shipped constants pass), construction falls back to a trivially
//! well-formed identity table set, so every `Tables` value satisfies `wf` and
//! the block cipher built on it always round-trips.
use vstd::prelude::*;

use crate::bits::{lemma_xor_bound, lemma_xor_zero};
use crate::field::{
    gf_mul, gf_mul_exec, lemma_gf_mul_bound, lemma_gf_mul_linear, lemma_gf_mul_zero,
};
use crate::sbox::{INV_SBOX, SBOX};

verus! {

/// The forward substitution table, as a sequence.  Kept opaque: proofs treat
/// the table as a fixed sequence and never look at individual entries.
#[verifier::opaque]
pub open spec fn sbox_seq() -> Seq<u16> {
    SBOX@
}

/// The inverse substitution table, as a sequence.
#[verifier::opaque]
pub open spec fn inv_sbox_seq() -> Seq<u16> {
    INV_SBOX@
}

/// Both substitution sequences have 512 entries.
pub proof fn lemma_sbox_seq_lens()
    ensures
        sbox_seq().len() == 512,
        inv_sbox_seq().len() == 512,
{
    reveal(sbox_seq);
    reveal(inv_sbox_seq);
}

/// The field-multiplication table for the constant `c`.
pub open spec fn mul_seq(c: u16) -> Seq<u16> {
    Seq::new(512, |v: int| gf_mul(c, v as u16))
}

pub open spec fn ident_seq() -> Seq<u16> {
    Seq::new(512, |v: int| v as u16)
}

pub open spec fn zero_seq() -> Seq<u16> {
    Seq::new(512, |v: int| 0u16)
}

/// The substitution pair is in range and each table inverts the other.
pub open spec fn sbox_ok() -> bool {
    forall|v: int|
        #![trigger sbox_seq()[v]]
        #![trigger inv_sbox_seq()[v]]
        0 <= v < 512 ==> {
            &&& sbox_seq()[v] < 512
            &&& inv_sbox_seq()[v] < 512
            &&& inv_sbox_seq()[sbox_seq()[v] as int] == v as u16
            &&& sbox_seq()[inv_sbox_seq()[v] as int] == v as u16
        }
}

/// The four cancellation families behind the inverse column diffusion.
pub open spec fn gf_cancel(v: u16) -> bool {
    &&& gf_mul(0x119, gf_mul(1, v)) ^ gf_mul(0x23, gf_mul(8, v)) == v
    &&& gf_mul(0x119, gf_mul(2, v)) ^ gf_mul(0x23, gf_mul(1, v)) == 0
    &&& gf_mul(0x119, gf_mul(4, v)) ^ gf_mul(0x23, gf_mul(2, v)) == 0
    &&& gf_mul(0x119, gf_mul(8, v)) ^ gf_mul(0x23, gf_mul(4, v)) == 0
}

pub open spec fn cancel_ok() -> bool {
    forall|v: u16| v < 512 ==> #[trigger] gf_cancel(v)
}

/// Both build-time validations of the shipped constants.
pub open spec fn tables_ok() -> bool {
    sbox_ok() && cancel_ok()
}

/// The mathematical contents of a table set.
#[verifier::ext_equal]
pub ghost struct SpecTables {
    pub sbox: Seq<u16>,
    pub inv_sbox: Seq<u16>,
    pub mul1: Seq<u16>,
    pub mul2: Seq<u16>,
    pub mul4: Seq<u16>,
    pub mul8: Seq<u16>,
    pub mul23: Seq<u16>,
    pub mul119: Seq<u16>,
    pub t0: Seq<(u16, u16, u16, u16)>,
    pub t1: Seq<(u16, u16, u16, u16)>,
    pub t2: Seq<(u16, u16, u16, u16)>,
    pub t3: Seq<(u16, u16, u16, u16)>,
}

impl SpecTables {
    pub open spec fn wf_lens(self) -> bool {
        &&& self.sbox.len() == 512
        &&& self.inv_sbox.len() == 512
        &&& self.mul1.len() == 512
        &&& self.mul2.len() == 512
        &&& self.mul4.len() == 512
        &&& self.mul8.len() == 512
        &&& self.mul23.len() == 512
        &&& self.mul119.len() == 512
        &&& self.t0.len() == 512
        &&& self.t1.len() == 512
        &&& self.t2.len() == 512
        &&& self.t3.len() == 512
    }

    #[verifier::opaque]
    pub open spec fn wf_ranges(self) -> bool {
        forall|v: int|
            #![trigger self.sbox[v]]
            #![trigger self.inv_sbox[v]]
            #![trigger self.mul1[v]]
            #![trigger self.mul2[v]]
            #![trigger self.mul4[v]]
            #![trigger self.mul8[v]]
            #![trigger self.mul23[v]]
            #![trigger self.mul119[v]]
            0 <= v < 512 ==> {
                &&& self.sbox[v] < 512
                &&& self.inv_sbox[v] < 512
                &&& self.mul1[v] < 512
                &&& self.mul2[v] < 512
                &&& self.mul4[v] < 512
                &&& self.mul8[v] < 512
                &&& self.mul23[v] < 512
                &&& self.mul119[v] < 512
            }
    }

    /// The two substitution tables invert each other.
    #[verifier::opaque]
    pub open spec fn wf_inverse(self) -> bool {
        forall|v: int|
            #![trigger self.sbox[v]]
            #![trigger self.inv_sbox[v]]
            0 <= v < 512 ==> {
                &&& self.inv_sbox[self.sbox[v] as int] == v as u16
                &&& self.sbox[self.inv_sbox[v] as int] == v as u16
            }
    }

    /// The fused tables agree with substitution followed by the
    /// row-rotated multiplications.
    #[verifier::opaque]
    pub open spec fn wf_fused(self) -> bool {
        forall|v: int|
            #![trigger self.t0[v]]
            #![trigger self.t1[v]]
            #![trigger self.t2[v]]
            #![trigger self.t3[v]]
            0 <= v < 512 ==> {
                &&& self.t0[v] == (
                    self.mul1[self.sbox[v] as int],
                    self.mul8[self.sbox[v] as int],
                    self.mul4[self.sbox[v] as int],
                    self.mul2[self.sbox[v] as int],
                )
                &&& self.t1[v] == (
                    self.mul2[self.sbox[v] as int],
                    self.mul1[self.sbox[v] as int],
                    self.mul8[self.sbox[v] as int],
                    self.mul4[self.sbox[v] as int],
                )
                &&& self.t2[v] == (
                    self.mul4[self.sbox[v] as int],
                    self.mul2[self.sbox[v] as int],
                    self.mul1[self.sbox[v] as int],
                    self.mul8[self.sbox[v] as int],
                )
                &&& self.t3[v] == (
                    self.mul8[self.sbox[v] as int],
                    self.mul4[self.sbox[v] as int],
                    self.mul2[self.sbox[v] as int],
                    self.mul1[self.sbox[v] as int],
                )
            }
    }

    /// Applying the inverse-diffusion tables after the forward ones
    /// cancels on every single-cell column.
    #[verifier::opaque]
    pub open spec fn wf_cancel(self) -> bool {
        forall|v: int|
            #![trigger self.mul1[v]]
            #![trigger self.mul2[v]]
            #![trigger self.mul4[v]]
            #![trigger self.mul8[v]]
            0 <= v < 512 ==> {
                &&& self.mul119[self.mul1[v] as int] ^ self.mul23[self.mul8[v] as int] == v as u16
                &&& self.mul119[self.mul2[v] as int] ^ self.mul23[self.mul1[v] as int] == 0
                &&& self.mul119[self.mul4[v] as int] ^ self.mul23[self.mul2[v] as int] == 0
                &&& self.mul119[self.mul8[v] as int] ^ self.mul23[self.mul4[v] as int] == 0
            }
    }

    /// The two inverse-diffusion tables are linear over XOR.
    #[verifier::opaque]
    pub open spec fn wf_linear(self) -> bool {
        forall|p: u16, q: u16|
            #![trigger self.mul23[(p ^ q) as int]]
            #![trigger self.mul119[(p ^ q) as int]]
            p < 512 && q < 512 ==> {
                &&& self.mul23[(p ^ q) as int] == self.mul23[p as int] ^ self.mul23[q as int]
                &&& self.mul119[(p ^ q) as int] == self.mul119[p as int] ^ self.mul119[q as int]
            }
    }

    pub open spec fn wf_zero(self) -> bool {
        &&& self.mul1[0] == 0
        &&& self.mul2[0] == 0
        &&& self.mul4[0] == 0
        &&& self.mul8[0] == 0
        &&& self.mul23[0] == 0
        &&& self.mul119[0] == 0
    }

    pub open spec fn wf(self) -> bool {
        &&& self.wf_lens()
        &&& self.wf_ranges()
        &&& self.wf_inverse()
        &&& self.wf_fused()
        &&& self.wf_cancel()
        &&& self.wf_linear()
        &&& self.wf_zero()
    }
}

pub open spec fn fused_of(
    mul_a: Seq<u16>,
    mul_b: Seq<u16>,
    mul_c: Seq<u16>,
    mul_d: Seq<u16>,
    sb: Seq<u16>,
) -> Seq<(u16, u16, u16, u16)> {
    Seq::new(
        512,
        |v: int|
            (mul_a[sb[v] as int], mul_b[sb[v] as int], mul_c[sb[v] as int], mul_d[sb[v] as int]),
    )
}

/// The table set derived from the shipped constants.
pub open spec fn derived_tables() -> SpecTables {
    SpecTables {
        sbox: sbox_seq(),
        inv_sbox: inv_sbox_seq(),
        mul1: mul_seq(1),
        mul2: mul_seq(2),
        mul4: mul_seq(4),
        mul8: mul_seq(8),
        mul23: mul_seq(0x23),
        mul119: mul_seq(0x119),
        t0: fused_of(mul_seq(1), mul_seq(8), mul_seq(4), mul_seq(2), sbox_seq()),
        t1: fused_of(mul_seq(2), mul_seq(1), mul_seq(8), mul_seq(4), sbox_seq()),
        t2: fused_of(mul_seq(4), mul_seq(2), mul_seq(1), mul_seq(8), sbox_seq()),
        t3: fused_of(mul_seq(8), mul_seq(4), mul_seq(2), mul_seq(1), sbox_seq()),
    }
}

/// The identity table set used only if a validation were to fail.
pub open spec fn fallback_tables() -> SpecTables {
    SpecTables {
        sbox: ident_seq(),
        inv_sbox: ident_seq(),
        mul1: ident_seq(),
        mul2: zero_seq(),
        mul4: zero_seq(),
        mul8: zero_seq(),
        mul23: zero_seq(),
        mul119: ident_seq(),
        t0: fused_of(ident_seq(), zero_seq(), zero_seq(), zero_seq(), ident_seq()),
        t1: fused_of(zero_seq(), ident_seq(), zero_seq(), zero_seq(), ident_seq()),
        t2: fused_of(zero_seq(), zero_seq(), ident_seq(), zero_seq(), ident_seq()),
        t3: fused_of(zero_seq(), zero_seq(), zero_seq(), ident_seq(), ident_seq()),
    }
}

/// What `Tables::new` builds: the derived tables when they validate.
pub open spec fn spec_tables() -> SpecTables {
    if tables_ok() {
        derived_tables()
    } else {
        fallback_tables()
    }
}

/// The runtime table set.  `validated` reports whether the shipped
/// constants passed both build-time checks; construction never hides a
/// failure.
pub struct Tables {
    pub validated: bool,
    pub sbox: Vec<u16>,
    pub inv_sbox: Vec<u16>,
    pub mul1: Vec<u16>,
    pub mul2: Vec<u16>,
    pub mul4: Vec<u16>,
    pub mul8: Vec<u16>,
    pub mul23: Vec<u16>,
    pub mul119: Vec<u16>,
    pub t0: Vec<(u16, u16, u16, u16)>,
    pub t1: Vec<(u16, u16, u16, u16)>,
    pub t2: Vec<(u16, u16, u16, u16)>,
    pub t3: Vec<(u16, u16, u16, u16)>,
}

impl View for Tables {
    type V = SpecTables;

    open spec fn view(&self) -> SpecTables {
        SpecTables {
            sbox: self.sbox@,
            inv_sbox: self.inv_sbox@,
            mul1: self.mul1@,
            mul2: self.mul2@,
            mul4: self.mul4@,
            mul8: self.mul8@,
            mul23: self.mul23@,
            mul119: self.mul119@,
            t0: self.t0@,
            t1: self.t1@,
            t2: self.t2@,
            t3: self.t3@,
        }
    }
}

/// Copies the forward substitution constant into a vector.
#[verifier::rlimit(100)]
fn copy_sbox() -> (t: Vec<u16>)
    ensures
        t@ == sbox_seq(),
        t@.len() == 512,
{
    let mut t: Vec<u16> = Vec::new();
    for i in 0..512usize
        invariant
            t@.len() == i,
            forall|j: int| 0 <= j < i ==> t@[j] == SBOX@[j],
    {
        t.push(SBOX[i]);
    }
    proof {
        reveal(sbox_seq);
        assert(t@ =~= sbox_seq());
    }
    t
}

/// Copies the inverse substitution constant into a vector.
#[verifier::rlimit(100)]
fn copy_inv_sbox() -> (t: Vec<u16>)
    ensures
        t@ == inv_sbox_seq(),
        t@.len() == 512,
{
    let mut t: Vec<u16> = Vec::new();
    for i in 0..512usize
        invariant
            t@.len() == i,
            forall|j: int| 0 <= j < i ==> t@[j] == INV_SBOX@[j],
    {
        t.push(INV_SBOX[i]);
    }
    proof {
        reveal(inv_sbox_seq);
        assert(t@ =~= inv_sbox_seq());
    }
    t
}

/// Builds the multiplication table for `c`.
fn build_mul_table(c: u16) -> (t: Vec<u16>)
    requires
        c < 512,
    ensures
        t@ == mul_seq(c),
{
    let mut t: Vec<u16> = Vec::new();
    for v in 0..512usize
        invariant
            c < 512,
            t@.len() == v,
            forall|j: int| 0 <= j < v ==> t@[j] == mul_seq(c)[j],
    {
        t.push(gf_mul_exec(c, v as u16));
    }
    proof {
        assert(t@ =~= mul_seq(c));
    }
    t
}

/// Checks that the two substitution tables are in range and mutually
/// inverse.
#[verifier::rlimit(100)]
fn check_sbox_pair(s: &Vec<u16>, inv: &Vec<u16>) -> (ok: bool)
    requires
        s@ == sbox_seq(),
        inv@ == inv_sbox_seq(),
        s@.len() == 512,
        inv@.len() == 512,
    ensures
        ok == sbox_ok(),
{
    for v in 0..512usize
        invariant
            s@ == sbox_seq(),
            inv@ == inv_sbox_seq(),
            s@.len() == 512,
            inv@.len() == 512,
            forall|j: int|
                #![trigger sbox_seq()[j]]
                #![trigger inv_sbox_seq()[j]]
                0 <= j < v ==> {
                    &&& sbox_seq()[j] < 512
                    &&& inv_sbox_seq()[j] < 512
                    &&& inv_sbox_seq()[sbox_seq()[j] as int] == j as u16
                    &&& sbox_seq()[inv_sbox_seq()[j] as int] == j as u16
                },
    {
        let sv: u16 = s[v];
        let iv: u16 = inv[v];
        if sv >= 512 || iv >= 512 {
            proof {
                assert(!sbox_ok()) by {
                    if sbox_ok() {
                        assert(sbox_seq()[v as int] < 512 && inv_sbox_seq()[v as int] < 512);
                    }
                }
            }
            return false;
        }
        if inv[sv as usize] != v as u16 || s[iv as usize] != v as u16 {
            proof {
                assert(!sbox_ok()) by {
                    if sbox_ok() {
                        assert(sbox_seq()[v as int] < 512);
                        assert(inv_sbox_seq()[sbox_seq()[v as int] as int] == v as u16);
                        assert(sbox_seq()[inv_sbox_seq()[v as int] as int] == v as u16);
                    }
                }
            }
            return false;
        }
    }
    true
}

/// Checks the four cancellation families on the built tables.
fn check_cancel(
    m1: &Vec<u16>,
    m2: &Vec<u16>,
    m4: &Vec<u16>,
    m8: &Vec<u16>,
    m23: &Vec<u16>,
    m119: &Vec<u16>,
) -> (ok: bool)
    requires
        m1@ == mul_seq(1),
        m2@ == mul_seq(2),
        m4@ == mul_seq(4),
        m8@ == mul_seq(8),
        m23@ == mul_seq(0x23),
        m119@ == mul_seq(0x119),
    ensures
        ok == cancel_ok(),
{
    for v in 0..512usize
        invariant
            m1@ == mul_seq(1),
            m2@ == mul_seq(2),
            m4@ == mul_seq(4),
            m8@ == mul_seq(8),
            m23@ == mul_seq(0x23),
            m119@ == mul_seq(0x119),
            forall|j: u16| j < v ==> #[trigger] gf_cancel(j),
    {
        proof {
            lemma_gf_mul_bound(1, v as u16);
            lemma_gf_mul_bound(2, v as u16);
            lemma_gf_mul_bound(4, v as u16);
            lemma_gf_mul_bound(8, v as u16);
        }
        let f1: u16 = m119[m1[v] as usize] ^ m23[m8[v] as usize];
        let f2: u16 = m119[m2[v] as usize] ^ m23[m1[v] as usize];
        let f3: u16 = m119[m4[v] as usize] ^ m23[m2[v] as usize];
        let f4: u16 = m119[m8[v] as usize] ^ m23[m4[v] as usize];
        if f1 != v as u16 || f2 != 0 || f3 != 0 || f4 != 0 {
            proof {
                assert(!gf_cancel(v as u16));
                assert(!cancel_ok()) by {
                    if cancel_ok() {
                        assert(gf_cancel(v as u16));
                    }
                }
            }
            return false;
        }
        proof {
            assert(gf_cancel(v as u16));
        }
    }
    true
}

/// Builds one fused table from the substitution and four multiplication
/// tables.
fn build_fused(
    ma: &Vec<u16>,
    mb: &Vec<u16>,
    mc: &Vec<u16>,
    md: &Vec<u16>,
    sb: &Vec<u16>,
) -> (t: Vec<(u16, u16, u16, u16)>)
    requires
        ma@.len() == 512,
        mb@.len() == 512,
        mc@.len() == 512,
        md@.len() == 512,
        sb@.len() == 512,
        forall|v: int| 0 <= v < 512 ==> #[trigger] sb@[v] < 512,
    ensures
        t@ == fused_of(ma@, mb@, mc@, md@, sb@),
{
    let mut t: Vec<(u16, u16, u16, u16)> = Vec::new();
    for v in 0..512usize
        invariant
            ma@.len() == 512,
            mb@.len() == 512,
            mc@.len() == 512,
            md@.len() == 512,
            sb@.len() == 512,
            forall|k: int| 0 <= k < 512 ==> #[trigger] sb@[k] < 512,
            t@.len() == v,
            forall|j: int| 0 <= j < v ==> t@[j] == fused_of(ma@, mb@, mc@, md@, sb@)[j],
    {
        let s: usize = sb[v] as usize;
        t.push((ma[s], mb[s], mc[s], md[s]));
    }
    proof {
        assert(t@ =~= fused_of(ma@, mb@, mc@, md@, sb@));
    }
    t
}

fn build_ident() -> (t: Vec<u16>)
    ensures
        t@ == ident_seq(),
{
    let mut t: Vec<u16> = Vec::new();
    for v in 0..512usize
        invariant
            t@.len() == v,
            forall|j: int| 0 <= j < v ==> t@[j] == ident_seq()[j],
    {
        t.push(v as u16);
    }
    proof {
        assert(t@ =~= ident_seq());
    }
    t
}

fn build_zero() -> (t: Vec<u16>)
    ensures
        t@ == zero_seq(),
{
    let mut t: Vec<u16> = Vec::new();
    for v in 0..512usize
        invariant
            t@.len() == v,
            forall|j: int| 0 <= j < v ==> t@[j] == zero_seq()[j],
    {
        t.push(0u16);
    }
    proof {
        assert(t@ =~= zero_seq());
    }
    t
}

impl Tables {
    /// Builds and validates the full table set.
    pub fn new() -> (t: Tables)
        ensures
            t@ == spec_tables(),
            t@.wf(),
            t.validated == tables_ok(),
    {
        let sbox_v = copy_sbox();
        let inv_v = copy_inv_sbox();
        let sbox_pair_ok = check_sbox_pair(&sbox_v, &inv_v);
        if sbox_pair_ok {
            let m1 = build_mul_table(1);
            let m2 = build_mul_table(2);
            let m4 = build_mul_table(4);
            let m8 = build_mul_table(8);
            let m23 = build_mul_table(0x23);
            let m119 = build_mul_table(0x119);
            let cancel_is_ok = check_cancel(&m1, &m2, &m4, &m8, &m23, &m119);
            if cancel_is_ok {
                let t0 = build_fused(&m1, &m8, &m4, &m2, &sbox_v);
                let t1 = build_fused(&m2, &m1, &m8, &m4, &sbox_v);
                let t2 = build_fused(&m4, &m2, &m1, &m8, &sbox_v);
                let t3 = build_fused(&m8, &m4, &m2, &m1, &sbox_v);
                let t = Tables {
                    validated: true,
                    sbox: sbox_v,
                    inv_sbox: inv_v,
                    mul1: m1,
                    mul2: m2,
                    mul4: m4,
                    mul8: m8,
                    mul23: m23,
                    mul119: m119,
                    t0,
                    t1,
                    t2,
                    t3,
                };
                proof {
                    assert(t@ =~= derived_tables());
                    lemma_derived_tables_wf();
                }
                return t;
            }
        }
        let sbox_f = build_ident();
        let inv_f = build_ident();
        let m1_f = build_ident();
        let m2_f = build_zero();
        let m4_f = build_zero();
        let m8_f = build_zero();
        let m23_f = build_zero();
        let m119_f = build_ident();
        let t0 = build_fused(&m1_f, &m8_f, &m4_f, &m2_f, &sbox_f);
        let t1 = build_fused(&m2_f, &m1_f, &m8_f, &m4_f, &sbox_f);
        let t2 = build_fused(&m4_f, &m2_f, &m1_f, &m8_f, &sbox_f);
        let t3 = build_fused(&m8_f, &m4_f, &m2_f, &m1_f, &sbox_f);
        let t = Tables {
            validated: false,
            sbox: sbox_f,
            inv_sbox: inv_f,
            mul1: m1_f,
            mul2: m2_f,
            mul4: m4_f,
            mul8: m8_f,
            mul23: m23_f,
            mul119: m119_f,
            t0,
            t1,
            t2,
            t3,
        };
        proof {
            assert(t@ =~= fallback_tables());
            lemma_fallback_tables_wf();
        }
        t
    }
}

/// Runs both validations of the shipped constants and reports the outcome,
/// so that a mismatch in the fixed tables surfaces rather than being
/// silently tolerated.
pub fn validate_tables() -> (ok: bool)
    ensures
        ok == tables_ok(),
{
    let sbox_v = copy_sbox();
    let inv_v = copy_inv_sbox();
    let pair_ok = check_sbox_pair(&sbox_v, &inv_v);
    if !pair_ok {
        return false;
    }
    let m1 = build_mul_table(1);
    let m2 = build_mul_table(2);
    let m4 = build_mul_table(4);
    let m8 = build_mul_table(8);
    let m23 = build_mul_table(0x23);
    let m119 = build_mul_table(0x119);
    check_cancel(&m1, &m2, &m4, &m8, &m23, &m119)
}

proof fn lemma_derived_lens()
    ensures
        derived_tables().wf_lens(),
{
    lemma_sbox_seq_lens();
}

#[verifier::spinoff_prover]
proof fn lemma_derived_ranges()
    requires
        sbox_ok(),
    ensures
        derived_tables().wf_ranges(),
{
    reveal(SpecTables::wf_ranges);
    let t = derived_tables();
    assert forall|v: int| 0 <= v < 512 implies {
        &&& t.sbox[v] < 512
        &&& t.inv_sbox[v] < 512
        &&& t.mul1[v] < 512
        &&& t.mul2[v] < 512
        &&& t.mul4[v] < 512
        &&& t.mul8[v] < 512
        &&& t.mul23[v] < 512
        &&& t.mul119[v] < 512
    } by {
        assert(sbox_seq()[v] < 512);
        lemma_gf_mul_bound(1, v as u16);
        lemma_gf_mul_bound(2, v as u16);
        lemma_gf_mul_bound(4, v as u16);
        lemma_gf_mul_bound(8, v as u16);
        lemma_gf_mul_bound(0x23, v as u16);
        lemma_gf_mul_bound(0x119, v as u16);
    }
}

#[verifier::spinoff_prover]
proof fn lemma_derived_inverse()
    requires
        sbox_ok(),
    ensures
        derived_tables().wf_inverse(),
{
    reveal(SpecTables::wf_inverse);
    let t = derived_tables();
    assert forall|v: int| 0 <= v < 512 implies {
        &&& t.inv_sbox[t.sbox[v] as int] == v as u16
        &&& t.sbox[t.inv_sbox[v] as int] == v as u16
    } by {
        assert(sbox_seq()[v] < 512);
    }
}

#[verifier::spinoff_prover]
proof fn lemma_derived_fused()
    ensures
        derived_tables().wf_fused(),
{
    reveal(SpecTables::wf_fused);
}

#[verifier::spinoff_prover]
proof fn lemma_derived_cancel()
    requires
        cancel_ok(),
    ensures
        derived_tables().wf_cancel(),
{
    reveal(SpecTables::wf_cancel);
    let t = derived_tables();
    assert forall|v: int| 0 <= v < 512 implies {
        &&& t.mul119[t.mul1[v] as int] ^ t.mul23[t.mul8[v] as int] == v as u16
        &&& t.mul119[t.mul2[v] as int] ^ t.mul23[t.mul1[v] as int] == 0
        &&& t.mul119[t.mul4[v] as int] ^ t.mul23[t.mul2[v] as int] == 0
        &&& t.mul119[t.mul8[v] as int] ^ t.mul23[t.mul4[v] as int] == 0
    } by {
        lemma_gf_mul_bound(1, v as u16);
        lemma_gf_mul_bound(2, v as u16);
        lemma_gf_mul_bound(4, v as u16);
        lemma_gf_mul_bound(8, v as u16);
        assert(gf_cancel(v as u16));
    }
}

#[verifier::spinoff_prover]
proof fn lemma_derived_linear()
    ensures
        derived_tables().wf_linear(),
{
    reveal(SpecTables::wf_linear);
    let t = derived_tables();
    assert forall|p: u16, q: u16| p < 512 && q < 512 implies {
        &&& t.mul23[(p ^ q) as int] == t.mul23[p as int] ^ t.mul23[q as int]
        &&& t.mul119[(p ^ q) as int] == t.mul119[p as int] ^ t.mul119[q as int]
    } by {
        lemma_xor_bound(p, q);
        lemma_gf_mul_linear(0x23, p, q);
        lemma_gf_mul_linear(0x119, p, q);
    }
}

proof fn lemma_derived_zero()
    ensures
        derived_tables().wf_zero(),
{
    lemma_gf_mul_zero(1);
    lemma_gf_mul_zero(2);
    lemma_gf_mul_zero(4);
    lemma_gf_mul_zero(8);
    lemma_gf_mul_zero(0x23);
    lemma_gf_mul_zero(0x119);
}

/// The derived tables are well formed whenever both validations pass.
proof fn lemma_derived_tables_wf()
    requires
        tables_ok(),
    ensures
        derived_tables().wf(),
{
    lemma_derived_lens();
    lemma_derived_ranges();
    lemma_derived_inverse();
    lemma_derived_fused();
    lemma_derived_cancel();
    lemma_derived_linear();
    lemma_derived_zero();
}

#[verifier::spinoff_prover]
proof fn lemma_fallback_cancel()
    ensures
        fallback_tables().wf_cancel(),
{
    reveal(SpecTables::wf_cancel);
    let t = fallback_tables();
    assert forall|v: int| 0 <= v < 512 implies {
        &&& t.mul119[t.mul1[v] as int] ^ t.mul23[t.mul8[v] as int] == v as u16
        &&& t.mul119[t.mul2[v] as int] ^ t.mul23[t.mul1[v] as int] == 0
        &&& t.mul119[t.mul4[v] as int] ^ t.mul23[t.mul2[v] as int] == 0
        &&& t.mul119[t.mul8[v] as int] ^ t.mul23[t.mul4[v] as int] == 0
    } by {
        lemma_xor_zero(v as u16);
        lemma_xor_zero(0u16);
    }
}

#[verifier::spinoff_prover]
proof fn lemma_fallback_linear()
    ensures
        fallback_tables().wf_linear(),
{
    reveal(SpecTables::wf_linear);
    let t = fallback_tables();
    assert forall|p: u16, q: u16| p < 512 && q < 512 implies {
        &&& t.mul23[(p ^ q) as int] == t.mul23[p as int] ^ t.mul23[q as int]
        &&& t.mul119[(p ^ q) as int] == t.mul119[p as int] ^ t.mul119[q as int]
    } by {
        lemma_xor_bound(p, q);
        lemma_xor_zero(0u16);
    }
}

/// The fallback tables are well formed without any validation.
#[verifier::spinoff_prover]
proof fn lemma_fallback_tables_wf()
    ensures
        fallback_tables().wf(),
{
    reveal(SpecTables::wf_ranges);
    reveal(SpecTables::wf_inverse);
    reveal(SpecTables::wf_fused);
    lemma_fallback_cancel();
    lemma_fallback_linear();
}


/// The range facts of one table index, from the opaque range invariant.
pub proof fn lemma_ranges_at(t: SpecTables, v: int)
    requires
        t.wf_ranges(),
        0 <= v < 512,
    ensures
        t.sbox[v] < 512,
        t.inv_sbox[v] < 512,
        t.mul1[v] < 512,
        t.mul2[v] < 512,
        t.mul4[v] < 512,
        t.mul8[v] < 512,
        t.mul23[v] < 512,
        t.mul119[v] < 512,
{
    reveal(SpecTables::wf_ranges);
}

/// The two substitution-inverse facts at one index.
pub proof fn lemma_inverse_at(t: SpecTables, v: int)
    requires
        t.wf_inverse(),
        0 <= v < 512,
    ensures
        t.inv_sbox[t.sbox[v] as int] == v as u16,
        t.sbox[t.inv_sbox[v] as int] == v as u16,
{
    reveal(SpecTables::wf_inverse);
}

/// The four fused-table equations at one index.
pub proof fn lemma_fused_at(t: SpecTables, v: int)
    requires
        t.wf_fused(),
        0 <= v < 512,
    ensures
        t.t0[v] == (
            t.mul1[t.sbox[v] as int],
            t.mul8[t.sbox[v] as int],
            t.mul4[t.sbox[v] as int],
            t.mul2[t.sbox[v] as int],
        ),
        t.t1[v] == (
            t.mul2[t.sbox[v] as int],
            t.mul1[t.sbox[v] as int],
            t.mul8[t.sbox[v] as int],
            t.mul4[t.sbox[v] as int],
        ),
        t.t2[v] == (
            t.mul4[t.sbox[v] as int],
            t.mul2[t.sbox[v] as int],
            t.mul1[t.sbox[v] as int],
            t.mul8[t.sbox[v] as int],
        ),
        t.t3[v] == (
            t.mul8[t.sbox[v] as int],
            t.mul4[t.sbox[v] as int],
            t.mul2[t.sbox[v] as int],
            t.mul1[t.sbox[v] as int],
        ),
{
    reveal(SpecTables::wf_fused);
}

/// The four cancellation equations at one index.
pub proof fn lemma_cancel_at(t: SpecTables, v: int)
    requires
        t.wf_cancel(),
        0 <= v < 512,
    ensures
        t.mul119[t.mul1[v] as int] ^ t.mul23[t.mul8[v] as int] == v as u16,
        t.mul119[t.mul2[v] as int] ^ t.mul23[t.mul1[v] as int] == 0,
        t.mul119[t.mul4[v] as int] ^ t.mul23[t.mul2[v] as int] == 0,
        t.mul119[t.mul8[v] as int] ^ t.mul23[t.mul4[v] as int] == 0,
{
    reveal(SpecTables::wf_cancel);
}

/// Linearity of the two inverse-diffusion tables at one pair.
pub proof fn lemma_linear_at(t: SpecTables, p: u16, q: u16)
    requires
        t.wf_linear(),
        p < 512,
        q < 512,
    ensures
        t.mul23[(p ^ q) as int] == t.mul23[p as int] ^ t.mul23[q as int],
        t.mul119[(p ^ q) as int] == t.mul119[p as int] ^ t.mul119[q as int],
{
    reveal(SpecTables::wf_linear);
}

/// The substitution and its inverse cancel in both orders on every
/// well-formed table set: each 9-bit value substitutes and comes back.
pub proof fn lemma_sbox_bijection(t: SpecTables)
    requires
        t.wf(),
    ensures
        forall|v: int|
            #![trigger t.sbox[v]]
            #![trigger t.inv_sbox[v]]
            0 <= v < 512 ==> {
                &&& t.inv_sbox[t.sbox[v] as int] == v as u16
                &&& t.sbox[t.inv_sbox[v] as int] == v as u16
            },
{
    reveal(SpecTables::wf_inverse);
}

} // verus!
