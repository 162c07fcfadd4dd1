//! The round function and its inverse: round-key addition, fused
//! substitution and column diffusion, the 9-bit cell rotation, the
//! directional bit-lane stream step, and the vortex translation.
use vstd::prelude::*;

use crate::bits::{
    bit16, lemma_bit_append16, lemma_bit_le1, lemma_bits_eq9, lemma_inv_rot9_bound,
    lemma_mod_roundtrip4, lemma_mod_roundtrip8, lemma_rot9_inverse, lemma_xor_bound,
    lemma_xor_cancel, lemma_xor_comm, lemma_xor_fold_positions, lemma_xor8_cancel,
};
use crate::keysched::{RoundKey, SpecRoundKey};
use crate::state::{lemma_pos_div_mod, state_wf};
use crate::tables::{
    lemma_cancel_at, lemma_fused_at, lemma_inverse_at, lemma_linear_at, lemma_ranges_at,
    SpecTables, Tables,
};

verus! {

/// Adds (XOR) the round-key mask cell by cell.
pub open spec fn xor_mask_spec(s: Seq<u16>, m: Seq<u16>) -> Seq<u16> {
    Seq::new(32, |i: int| s[i] ^ m[i])
}

/// Substitutes every cell through the forward table.
pub open spec fn sub_spec(tb: SpecTables, s: Seq<u16>) -> Seq<u16> {
    Seq::new(32, |i: int| tb.sbox[s[i] as int])
}

/// Substitutes every cell through the inverse table.
pub open spec fn inv_sub_spec(tb: SpecTables, s: Seq<u16>) -> Seq<u16> {
    Seq::new(32, |i: int| tb.inv_sbox[s[i] as int])
}

/// Component `r` of a fused-table entry.
pub open spec fn tup(t: (u16, u16, u16, u16), r: int) -> u16 {
    if r == 0 {
        t.0
    } else if r == 1 {
        t.1
    } else if r == 2 {
        t.2
    } else {
        t.3
    }
}

/// Output cell (r, c) of the fused substitution-plus-diffusion step.
pub open spec fn sub_mds_cell(tb: SpecTables, s: Seq<u16>, r: int, c: int) -> u16 {
    ((tup(tb.t0[s[c] as int], r) ^ tup(tb.t1[s[8 + c] as int], r)) ^ tup(
        tb.t2[s[16 + c] as int],
        r,
    )) ^ tup(tb.t3[s[24 + c] as int], r)
}

pub open spec fn sub_mds_spec(tb: SpecTables, s: Seq<u16>) -> Seq<u16> {
    Seq::new(32, |i: int| sub_mds_cell(tb, s, i / 8, i % 8))
}

/// Output cell (r, c) of the forward column diffusion alone.
pub open spec fn mds_fwd_cell(tb: SpecTables, s: Seq<u16>, r: int, c: int) -> u16 {
    if r == 0 {
        ((tb.mul1[s[c] as int] ^ tb.mul2[s[8 + c] as int]) ^ tb.mul4[s[16 + c] as int])
            ^ tb.mul8[s[24 + c] as int]
    } else if r == 1 {
        ((tb.mul8[s[c] as int] ^ tb.mul1[s[8 + c] as int]) ^ tb.mul2[s[16 + c] as int])
            ^ tb.mul4[s[24 + c] as int]
    } else if r == 2 {
        ((tb.mul4[s[c] as int] ^ tb.mul8[s[8 + c] as int]) ^ tb.mul1[s[16 + c] as int])
            ^ tb.mul2[s[24 + c] as int]
    } else {
        ((tb.mul2[s[c] as int] ^ tb.mul4[s[8 + c] as int]) ^ tb.mul8[s[16 + c] as int])
            ^ tb.mul1[s[24 + c] as int]
    }
}

pub open spec fn mds_fwd_spec(tb: SpecTables, s: Seq<u16>) -> Seq<u16> {
    Seq::new(32, |i: int| mds_fwd_cell(tb, s, i / 8, i % 8))
}

/// Output cell (r, c) of the inverse column diffusion.
pub open spec fn mds_inv_cell(tb: SpecTables, s: Seq<u16>, r: int, c: int) -> u16 {
    if r == 0 {
        tb.mul119[s[c] as int] ^ tb.mul23[s[8 + c] as int]
    } else if r == 1 {
        tb.mul119[s[8 + c] as int] ^ tb.mul23[s[16 + c] as int]
    } else if r == 2 {
        tb.mul119[s[16 + c] as int] ^ tb.mul23[s[24 + c] as int]
    } else {
        tb.mul23[s[c] as int] ^ tb.mul119[s[24 + c] as int]
    }
}

pub open spec fn mds_inv_spec(tb: SpecTables, s: Seq<u16>) -> Seq<u16> {
    Seq::new(32, |i: int| mds_inv_cell(tb, s, i / 8, i % 8))
}

/// The 9-bit left rotation by one.
pub open spec fn rot9(v: u16) -> u16 {
    ((v << 1u16) | (v >> 8u16)) & 0x1ff
}

/// The 9-bit right rotation by one.
pub open spec fn inv_rot9(v: u16) -> u16 {
    ((v >> 1u16) | (v << 8u16)) & 0x1ff
}

pub open spec fn rot_spec(s: Seq<u16>) -> Seq<u16> {
    Seq::new(32, |i: int| rot9(s[i]))
}

pub open spec fn inv_rot_spec(s: Seq<u16>) -> Seq<u16> {
    Seq::new(32, |i: int| inv_rot9(s[i]))
}

/// Row offset of direction `j`, reduced modulo the 4 rows.
pub open spec fn dir_dr(j: int) -> int {
    if j == 0 {
        0
    } else if j == 1 {
        0
    } else if j == 2 {
        0
    } else if j == 3 {
        1
    } else if j == 4 {
        3
    } else if j == 5 {
        1
    } else if j == 6 {
        1
    } else if j == 7 {
        3
    } else {
        3
    }
}

/// Column offset of direction `j`, reduced modulo the 8 columns.
pub open spec fn dir_dc(j: int) -> int {
    if j == 0 {
        0
    } else if j == 1 {
        1
    } else if j == 2 {
        7
    } else if j == 3 {
        0
    } else if j == 4 {
        0
    } else if j == 5 {
        1
    } else if j == 6 {
        7
    } else if j == 7 {
        1
    } else {
        7
    }
}

/// The source cell whose bit `d` lands in cell `i` under the forward
/// stream step.
pub open spec fn stream_src(perm: Seq<u8>, i: int, d: int) -> int {
    let r = i / 8;
    let c = i % 8;
    let j = perm[d] as int;
    ((r + 4 - dir_dr(j)) % 4) * 8 + ((c + 8 - dir_dc(j)) % 8)
}

/// The source cell whose bit `d` lands in cell `i` under the inverse
/// stream step.
pub open spec fn inv_stream_src(perm: Seq<u8>, i: int, d: int) -> int {
    let r = i / 8;
    let c = i % 8;
    let j = perm[d] as int;
    ((r + dir_dr(j)) % 4) * 8 + ((c + dir_dc(j)) % 8)
}

pub open spec fn stream_cell_rec(s: Seq<u16>, perm: Seq<u8>, i: int, k: nat) -> u16
    decreases k,
{
    if k == 0 {
        0u16
    } else {
        stream_cell_rec(s, perm, i, (k - 1) as nat) | (bit16(
            s[stream_src(perm, i, k - 1)],
            (k - 1) as u16,
        ) << ((k - 1) as u16))
    }
}

/// The forward stream step: each bit lane migrates by its permuted
/// direction vector.
pub open spec fn stream_fwd_spec(s: Seq<u16>, perm: Seq<u8>) -> Seq<u16> {
    Seq::new(32, |i: int| stream_cell_rec(s, perm, i, 9))
}

pub open spec fn inv_stream_cell_rec(s: Seq<u16>, perm: Seq<u8>, i: int, k: nat) -> u16
    decreases k,
{
    if k == 0 {
        0u16
    } else {
        inv_stream_cell_rec(s, perm, i, (k - 1) as nat) | (bit16(
            s[inv_stream_src(perm, i, k - 1)],
            (k - 1) as u16,
        ) << ((k - 1) as u16))
    }
}

pub open spec fn inv_stream_spec(s: Seq<u16>, perm: Seq<u8>) -> Seq<u16> {
    Seq::new(32, |i: int| inv_stream_cell_rec(s, perm, i, 9))
}

/// The source cell of cell `i` under the forward vortex translation.
pub open spec fn vtx_src(i: int, sh: u16) -> int {
    let r = i / 8;
    let c = i % 8;
    ((r + 4 - (sh as int % 4)) % 4) * 8 + ((c + 8 - (sh as int % 8)) % 8)
}

pub open spec fn inv_vtx_src(i: int, sh: u16) -> int {
    let r = i / 8;
    let c = i % 8;
    ((r + (sh as int % 4)) % 4) * 8 + ((c + (sh as int % 8)) % 8)
}

pub open spec fn vtx_spec(s: Seq<u16>, sh: u16) -> Seq<u16> {
    Seq::new(32, |i: int| s[vtx_src(i, sh)])
}

pub open spec fn inv_vtx_spec(s: Seq<u16>, sh: u16) -> Seq<u16> {
    Seq::new(32, |i: int| s[inv_vtx_src(i, sh)])
}

/// One forward round.
pub open spec fn round_spec(tb: SpecTables, rk: SpecRoundKey, s: Seq<u16>) -> Seq<u16> {
    vtx_spec(
        stream_fwd_spec(rot_spec(sub_mds_spec(tb, xor_mask_spec(s, rk.mask))), rk.perm),
        rk.shift,
    )
}

/// One inverse round.
pub open spec fn inv_round_spec(tb: SpecTables, rk: SpecRoundKey, s: Seq<u16>) -> Seq<u16> {
    xor_mask_spec(
        inv_sub_spec(
            tb,
            mds_inv_spec(tb, inv_rot_spec(inv_stream_spec(inv_vtx_spec(s, rk.shift), rk.perm))),
        ),
        rk.mask,
    )
}

/// The state after the first `n` forward rounds.
pub open spec fn enc_rec(tb: SpecTables, keys: Seq<SpecRoundKey>, s: Seq<u16>, n: nat) -> Seq<u16>
    decreases n,
{
    if n == 0 {
        s
    } else {
        round_spec(tb, keys[n - 1], enc_rec(tb, keys, s, (n - 1) as nat))
    }
}

/// The state after undoing the last `n` forward rounds.
pub open spec fn dec_rec(tb: SpecTables, keys: Seq<SpecRoundKey>, s: Seq<u16>, n: nat) -> Seq<u16>
    decreases n,
{
    if n == 0 {
        s
    } else {
        dec_rec(tb, keys, inv_round_spec(tb, keys[n - 1], s), (n - 1) as nat)
    }
}

/// Decomposing a grid index into its row and column.
pub proof fn lemma_grid_index(a: int, b: int)
    requires
        0 <= a < 4,
        0 <= b < 8,
    ensures
        (8 * a + b) / 8 == a,
        (8 * a + b) % 8 == b,
        0 <= 8 * a + b < 32,
{
    lemma_pos_div_mod(8 * a + b, 8);
}

/// Row and column of a cell index are in range.
pub proof fn lemma_cell_rc(i: int)
    requires
        0 <= i < 32,
    ensures
        0 <= i / 8 < 4,
        0 <= i % 8 < 8,
        8 * (i / 8) + i % 8 == i,
{
    lemma_pos_div_mod(i, 8);
}


/// Offsets of direction `j` as grid steps modulo the 4 rows and 8 columns.
fn dir_delta(j: usize) -> (d: (usize, usize))
    requires
        j < 9,
    ensures
        d.0 == dir_dr(j as int),
        d.1 == dir_dc(j as int),
        d.0 < 4,
        d.1 < 8,
{
    if j == 0 {
        (0, 0)
    } else if j == 1 {
        (0, 1)
    } else if j == 2 {
        (0, 7)
    } else if j == 3 {
        (1, 0)
    } else if j == 4 {
        (3, 0)
    } else if j == 5 {
        (1, 1)
    } else if j == 6 {
        (1, 7)
    } else if j == 7 {
        (3, 1)
    } else {
        (3, 7)
    }
}

/// Adds the round-key mask into the state.
pub fn xor_mask(cells: &mut Vec<u16>, mask: &Vec<u16>)
    requires
        old(cells)@.len() == 32,
        mask@.len() == 32,
    ensures
        final(cells)@ == xor_mask_spec(old(cells)@, mask@),
{
    for i in 0..32usize
        invariant
            cells@.len() == 32,
            mask@.len() == 32,
            forall|j: int| 0 <= j < i ==> cells@[j] == old(cells)@[j] ^ mask@[j],
            forall|j: int| i <= j < 32 ==> cells@[j] == old(cells)@[j],
    {
        let v: u16 = cells[i] ^ mask[i];
        cells.set(i, v);
    }
    proof {
        assert(cells@ =~= xor_mask_spec(old(cells)@, mask@));
    }
}

/// Table-mode substitution of all 32 cells.
pub fn subcells_32(t: &Tables, cells: &mut Vec<u16>)
    requires
        t@.sbox.len() == 512,
        state_wf(old(cells)@),
    ensures
        final(cells)@ == sub_spec(t@, old(cells)@),
{
    for i in 0..32usize
        invariant
            t@.sbox.len() == 512,
            cells@.len() == 32,
            forall|j: int| 0 <= j < i ==> cells@[j] == sub_spec(t@, old(cells)@)[j],
            forall|j: int| i <= j < 32 ==> cells@[j] == old(cells)@[j] && old(cells)@[j] < 512,
    {
        let v: u16 = cells[i];
        let sv: u16 = t.sbox[v as usize];
        cells.set(i, sv);
    }
    proof {
        assert(cells@ =~= sub_spec(t@, old(cells)@));
    }
}

/// Table-mode inverse substitution of all 32 cells.
pub fn inv_subcells_32(t: &Tables, cells: &mut Vec<u16>)
    requires
        t@.inv_sbox.len() == 512,
        state_wf(old(cells)@),
    ensures
        final(cells)@ == inv_sub_spec(t@, old(cells)@),
{
    for i in 0..32usize
        invariant
            t@.inv_sbox.len() == 512,
            cells@.len() == 32,
            forall|j: int| 0 <= j < i ==> cells@[j] == inv_sub_spec(t@, old(cells)@)[j],
            forall|j: int| i <= j < 32 ==> cells@[j] == old(cells)@[j] && old(cells)@[j] < 512,
    {
        let v: u16 = cells[i];
        let sv: u16 = t.inv_sbox[v as usize];
        cells.set(i, sv);
    }
    proof {
        assert(cells@ =~= inv_sub_spec(t@, old(cells)@));
    }
}

/// The fused substitution and forward diffusion, one table read per input
/// cell and column.
pub fn apply_sub_mds_fused(t: &Tables, cells: &Vec<u16>) -> (out: Vec<u16>)
    requires
        t@.t0.len() == 512,
        t@.t1.len() == 512,
        t@.t2.len() == 512,
        t@.t3.len() == 512,
        state_wf(cells@),
    ensures
        out@ == sub_mds_spec(t@, cells@),
{
    let mut out: Vec<u16> = Vec::new();
    for i in 0..32usize
        invariant
            t@.t0.len() == 512,
            t@.t1.len() == 512,
            t@.t2.len() == 512,
            t@.t3.len() == 512,
            state_wf(cells@),
            out@.len() == i,
            forall|x: int| 0 <= x < i ==> out@[x] == sub_mds_spec(t@, cells@)[x],
    {
        let r: usize = i / 8;
        let c: usize = i % 8;
        proof {
            lemma_cell_rc(i as int);
        }
        let i0: u16 = cells[c];
        let i1: u16 = cells[8 + c];
        let i2: u16 = cells[16 + c];
        let i3: u16 = cells[24 + c];
        let e0: (u16, u16, u16, u16) = t.t0[i0 as usize];
        let e1: (u16, u16, u16, u16) = t.t1[i1 as usize];
        let e2: (u16, u16, u16, u16) = t.t2[i2 as usize];
        let e3: (u16, u16, u16, u16) = t.t3[i3 as usize];
        let v: u16 = if r == 0 {
            ((e0.0 ^ e1.0) ^ e2.0) ^ e3.0
        } else if r == 1 {
            ((e0.1 ^ e1.1) ^ e2.1) ^ e3.1
        } else if r == 2 {
            ((e0.2 ^ e1.2) ^ e2.2) ^ e3.2
        } else {
            ((e0.3 ^ e1.3) ^ e2.3) ^ e3.3
        };
        proof {
            assert(v == sub_mds_cell(t@, cells@, r as int, c as int));
        }
        out.push(v);
    }
    proof {
        assert(out@ =~= sub_mds_spec(t@, cells@));
    }
    out
}

/// The forward column diffusion from the multiplication tables.
pub fn apply_mds_lookup(t: &Tables, cells: &Vec<u16>) -> (out: Vec<u16>)
    requires
        t@.mul1.len() == 512,
        t@.mul2.len() == 512,
        t@.mul4.len() == 512,
        t@.mul8.len() == 512,
        state_wf(cells@),
    ensures
        out@ == mds_fwd_spec(t@, cells@),
{
    let mut out: Vec<u16> = Vec::new();
    for i in 0..32usize
        invariant
            t@.mul1.len() == 512,
            t@.mul2.len() == 512,
            t@.mul4.len() == 512,
            t@.mul8.len() == 512,
            state_wf(cells@),
            out@.len() == i,
            forall|x: int| 0 <= x < i ==> out@[x] == mds_fwd_spec(t@, cells@)[x],
    {
        let r: usize = i / 8;
        let c: usize = i % 8;
        proof {
            lemma_cell_rc(i as int);
        }
        let a: usize = cells[c] as usize;
        let b: usize = cells[8 + c] as usize;
        let d: usize = cells[16 + c] as usize;
        let e: usize = cells[24 + c] as usize;
        let v: u16 = if r == 0 {
            ((t.mul1[a] ^ t.mul2[b]) ^ t.mul4[d]) ^ t.mul8[e]
        } else if r == 1 {
            ((t.mul8[a] ^ t.mul1[b]) ^ t.mul2[d]) ^ t.mul4[e]
        } else if r == 2 {
            ((t.mul4[a] ^ t.mul8[b]) ^ t.mul1[d]) ^ t.mul2[e]
        } else {
            ((t.mul2[a] ^ t.mul4[b]) ^ t.mul8[d]) ^ t.mul1[e]
        };
        out.push(v);
    }
    proof {
        assert(out@ =~= mds_fwd_spec(t@, cells@));
    }
    out
}

/// The inverse column diffusion from the two inverse multiplication tables.
pub fn apply_inv_mds_lookup(t: &Tables, cells: &Vec<u16>) -> (out: Vec<u16>)
    requires
        t@.mul23.len() == 512,
        t@.mul119.len() == 512,
        state_wf(cells@),
    ensures
        out@ == mds_inv_spec(t@, cells@),
{
    let mut out: Vec<u16> = Vec::new();
    for i in 0..32usize
        invariant
            t@.mul23.len() == 512,
            t@.mul119.len() == 512,
            state_wf(cells@),
            out@.len() == i,
            forall|x: int| 0 <= x < i ==> out@[x] == mds_inv_spec(t@, cells@)[x],
    {
        let r: usize = i / 8;
        let c: usize = i % 8;
        proof {
            lemma_cell_rc(i as int);
        }
        let a: usize = cells[c] as usize;
        let b: usize = cells[8 + c] as usize;
        let d: usize = cells[16 + c] as usize;
        let e: usize = cells[24 + c] as usize;
        let v: u16 = if r == 0 {
            t.mul119[a] ^ t.mul23[b]
        } else if r == 1 {
            t.mul119[b] ^ t.mul23[d]
        } else if r == 2 {
            t.mul119[d] ^ t.mul23[e]
        } else {
            t.mul23[a] ^ t.mul119[e]
        };
        out.push(v);
    }
    proof {
        assert(out@ =~= mds_inv_spec(t@, cells@));
    }
    out
}

/// Rotates every cell left by one within its 9 bits.
pub fn rotate_cells(cells: &mut Vec<u16>)
    requires
        old(cells)@.len() == 32,
    ensures
        final(cells)@ == rot_spec(old(cells)@),
{
    for i in 0..32usize
        invariant
            cells@.len() == 32,
            forall|j: int| 0 <= j < i ==> cells@[j] == rot9(old(cells)@[j]),
            forall|j: int| i <= j < 32 ==> cells@[j] == old(cells)@[j],
    {
        let v: u16 = cells[i];
        cells.set(i, ((v << 1u16) | (v >> 8u16)) & 0x1ff);
    }
    proof {
        assert(cells@ =~= rot_spec(old(cells)@));
    }
}

/// Rotates every cell right by one within its 9 bits.
pub fn inv_rotate_cells(cells: &mut Vec<u16>)
    requires
        old(cells)@.len() == 32,
    ensures
        final(cells)@ == inv_rot_spec(old(cells)@),
{
    for i in 0..32usize
        invariant
            cells@.len() == 32,
            forall|j: int| 0 <= j < i ==> cells@[j] == inv_rot9(old(cells)@[j]),
            forall|j: int| i <= j < 32 ==> cells@[j] == old(cells)@[j],
    {
        let v: u16 = cells[i];
        cells.set(i, ((v >> 1u16) | (v << 8u16)) & 0x1ff);
    }
    proof {
        assert(cells@ =~= inv_rot_spec(old(cells)@));
    }
}

/// Gathers the nine migrated bit lanes of one destination cell.
#[verifier::rlimit(100)]
#[verifier::spinoff_prover]
fn stream_gather(cells: &Vec<u16>, perm: &Vec<u8>, i: usize, inverse: bool) -> (val: u16)
    requires
        cells@.len() == 32,
        perm@.len() == 9,
        forall|d: int| 0 <= d < 9 ==> #[trigger] perm@[d] < 9,
        i < 32,
    ensures
        !inverse ==> val == stream_cell_rec(cells@, perm@, i as int, 9),
        inverse ==> val == inv_stream_cell_rec(cells@, perm@, i as int, 9),
{
    let r: usize = i / 8;
    let c: usize = i % 8;
    proof {
        lemma_cell_rc(i as int);
    }
    let mut val: u16 = 0;
    for d in 0..9usize
        invariant
            cells@.len() == 32,
            perm@.len() == 9,
            forall|e: int| 0 <= e < 9 ==> #[trigger] perm@[e] < 9,
            i < 32,
            r == i as int / 8,
            c == i as int % 8,
            r < 4,
            c < 8,
            !inverse ==> val == stream_cell_rec(cells@, perm@, i as int, d as nat),
            inverse ==> val == inv_stream_cell_rec(cells@, perm@, i as int, d as nat),
    {
        let j: usize = perm[d] as usize;
        let delta: (usize, usize) = dir_delta(j);
        let src: usize = if inverse {
            ((r + delta.0) % 4) * 8 + ((c + delta.1) % 8)
        } else {
            ((r + 4 - delta.0) % 4) * 8 + ((c + 8 - delta.1) % 8)
        };
        proof {
            if inverse {
                assert(src == inv_stream_src(perm@, i as int, d as int));
            } else {
                assert(src == stream_src(perm@, i as int, d as int));
            }
        }
        let bit: u16 = (cells[src] >> (d as u16)) & 1;
        val = val | (bit << (d as u16));
    }
    val
}

/// The forward stream step: each bit lane migrates by its permuted
/// direction vector.
pub fn stream_fwd(cells: &Vec<u16>, perm: &Vec<u8>) -> (out: Vec<u16>)
    requires
        cells@.len() == 32,
        perm@.len() == 9,
        forall|d: int| 0 <= d < 9 ==> #[trigger] perm@[d] < 9,
    ensures
        out@ == stream_fwd_spec(cells@, perm@),
{
    let mut out: Vec<u16> = Vec::new();
    for i in 0..32usize
        invariant
            cells@.len() == 32,
            perm@.len() == 9,
            forall|d: int| 0 <= d < 9 ==> #[trigger] perm@[d] < 9,
            out@.len() == i,
            forall|x: int| 0 <= x < i ==> out@[x] == stream_fwd_spec(cells@, perm@)[x],
    {
        let val: u16 = stream_gather(cells, perm, i, false);
        out.push(val);
    }
    proof {
        assert(out@ =~= stream_fwd_spec(cells@, perm@));
    }
    out
}

/// The inverse stream step: each bit lane moves back by its direction.
pub fn inv_stream_fwd(cells: &Vec<u16>, perm: &Vec<u8>) -> (out: Vec<u16>)
    requires
        cells@.len() == 32,
        perm@.len() == 9,
        forall|d: int| 0 <= d < 9 ==> #[trigger] perm@[d] < 9,
    ensures
        out@ == inv_stream_spec(cells@, perm@),
{
    let mut out: Vec<u16> = Vec::new();
    for i in 0..32usize
        invariant
            cells@.len() == 32,
            perm@.len() == 9,
            forall|d: int| 0 <= d < 9 ==> #[trigger] perm@[d] < 9,
            out@.len() == i,
            forall|x: int| 0 <= x < i ==> out@[x] == inv_stream_spec(cells@, perm@)[x],
    {
        let val: u16 = stream_gather(cells, perm, i, true);
        out.push(val);
    }
    proof {
        assert(out@ =~= inv_stream_spec(cells@, perm@));
    }
    out
}

/// The forward vortex translation by (shift, shift) on the torus.
pub fn vtx_shuffle(cells: &Vec<u16>, sh: u16) -> (out: Vec<u16>)
    requires
        cells@.len() == 32,
    ensures
        out@ == vtx_spec(cells@, sh),
{
    let s4: usize = (sh as usize) % 4;
    let s8: usize = (sh as usize) % 8;
    let mut out: Vec<u16> = Vec::new();
    for i in 0..32usize
        invariant
            cells@.len() == 32,
            s4 == sh as int % 4,
            s8 == sh as int % 8,
            s4 < 4,
            s8 < 8,
            out@.len() == i,
            forall|x: int| 0 <= x < i ==> out@[x] == vtx_spec(cells@, sh)[x],
    {
        let r: usize = i / 8;
        let c: usize = i % 8;
        proof {
            lemma_cell_rc(i as int);
        }
        let src: usize = ((r + 4 - s4) % 4) * 8 + ((c + 8 - s8) % 8);
        proof {
            assert(src == vtx_src(i as int, sh));
        }
        out.push(cells[src]);
    }
    proof {
        assert(out@ =~= vtx_spec(cells@, sh));
    }
    out
}

/// The inverse vortex translation.
pub fn inv_vtx_shuffle(cells: &Vec<u16>, sh: u16) -> (out: Vec<u16>)
    requires
        cells@.len() == 32,
    ensures
        out@ == inv_vtx_spec(cells@, sh),
{
    let s4: usize = (sh as usize) % 4;
    let s8: usize = (sh as usize) % 8;
    let mut out: Vec<u16> = Vec::new();
    for i in 0..32usize
        invariant
            cells@.len() == 32,
            s4 == sh as int % 4,
            s8 == sh as int % 8,
            s4 < 4,
            s8 < 8,
            out@.len() == i,
            forall|x: int| 0 <= x < i ==> out@[x] == inv_vtx_spec(cells@, sh)[x],
    {
        let r: usize = i / 8;
        let c: usize = i % 8;
        proof {
            lemma_cell_rc(i as int);
        }
        let src: usize = ((r + s4) % 4) * 8 + ((c + s8) % 8);
        proof {
            assert(src == inv_vtx_src(i as int, sh));
        }
        out.push(cells[src]);
    }
    proof {
        assert(out@ =~= inv_vtx_spec(cells@, sh));
    }
    out
}


/// One round applied in place: key addition, fused substitution and
/// diffusion, cell rotation, stream step, vortex translation.
pub fn encrypt_round_ctx(t: &Tables, cells: &mut Vec<u16>, rk: &RoundKey)
    requires
        t@.wf_lens(),
        t@.wf_ranges(),
        t@.wf_fused(),
        state_wf(old(cells)@),
        rk@.wf(),
    ensures
        final(cells)@ == round_spec(t@, rk@, old(cells)@),
        state_wf(final(cells)@),
{
    proof {
        lemma_xor_mask_wf(old(cells)@, rk@.mask);
    }
    xor_mask(cells, &rk.mask);
    proof {
        lemma_sub_mds_wf(t@, cells@);
    }
    let fused: Vec<u16> = apply_sub_mds_fused(t, cells);
    proof {
        lemma_rot_wf(fused@);
    }
    let mut work: Vec<u16> = fused;
    rotate_cells(&mut work);
    proof {
        lemma_stream_wf(work@, rk@.perm);
    }
    let streamed: Vec<u16> = stream_fwd(&work, &rk.perm);
    proof {
        lemma_vtx_wf(streamed@, rk@.shift);
    }
    let moved: Vec<u16> = vtx_shuffle(&streamed, rk.shift);
    *cells = moved;
}

/// One inverse round applied in place.
pub fn decrypt_round_ctx(t: &Tables, cells: &mut Vec<u16>, rk: &RoundKey)
    requires
        t@.wf_lens(),
        t@.wf_ranges(),
        state_wf(old(cells)@),
        rk@.wf(),
    ensures
        final(cells)@ == inv_round_spec(t@, rk@, old(cells)@),
        state_wf(final(cells)@),
{
    proof {
        lemma_inv_vtx_wf(old(cells)@, rk@.shift);
    }
    let unmoved: Vec<u16> = inv_vtx_shuffle(cells, rk.shift);
    proof {
        lemma_inv_stream_wf(unmoved@, rk@.perm);
    }
    let unstreamed: Vec<u16> = inv_stream_fwd(&unmoved, &rk.perm);
    let mut work: Vec<u16> = unstreamed;
    proof {
        lemma_inv_rot_wf(work@);
    }
    inv_rotate_cells(&mut work);
    proof {
        lemma_mds_inv_wf(t@, work@);
    }
    let undiffused: Vec<u16> = apply_inv_mds_lookup(t, &work);
    let mut work2: Vec<u16> = undiffused;
    proof {
        lemma_inv_sub_wf(t@, work2@);
    }
    inv_subcells_32(t, &mut work2);
    proof {
        lemma_xor_mask_wf(work2@, rk@.mask);
    }
    xor_mask(&mut work2, &rk.mask);
    *cells = work2;
}

/// Key addition keeps the state well formed.
pub proof fn lemma_xor_mask_wf(s: Seq<u16>, m: Seq<u16>)
    requires
        state_wf(s),
        m.len() == 32,
        forall|i: int| 0 <= i < 32 ==> #[trigger] m[i] < 512,
    ensures
        state_wf(xor_mask_spec(s, m)),
{
    assert forall|i: int| 0 <= i < 32 implies #[trigger] xor_mask_spec(s, m)[i] < 512 by {
        lemma_xor_bound(s[i], m[i]);
    }
}

/// The fused step keeps the state well formed.
pub proof fn lemma_sub_mds_wf(tb: SpecTables, s: Seq<u16>)
    requires
        tb.wf_lens(),
        tb.wf_ranges(),
        tb.wf_fused(),
        state_wf(s),
    ensures
        state_wf(sub_mds_spec(tb, s)),
{
    reveal(SpecTables::wf_ranges);
    reveal(SpecTables::wf_fused);
    assert forall|i: int| 0 <= i < 32 implies #[trigger] sub_mds_spec(tb, s)[i] < 512 by {
        lemma_cell_rc(i);
        let r = i / 8;
        let c = i % 8;
        let a0 = tup(tb.t0[s[c] as int], r);
        let a1 = tup(tb.t1[s[8 + c] as int], r);
        let a2 = tup(tb.t2[s[16 + c] as int], r);
        let a3 = tup(tb.t3[s[24 + c] as int], r);
        assert(a0 < 512 && a1 < 512 && a2 < 512 && a3 < 512);
        lemma_xor_bound(a0, a1);
        lemma_xor_bound(a0 ^ a1, a2);
        lemma_xor_bound((a0 ^ a1) ^ a2, a3);
    }
}

/// The inverse diffusion keeps the state well formed.
pub proof fn lemma_mds_inv_wf(tb: SpecTables, s: Seq<u16>)
    requires
        tb.wf_lens(),
        tb.wf_ranges(),
        state_wf(s),
    ensures
        state_wf(mds_inv_spec(tb, s)),
{
    reveal(SpecTables::wf_ranges);
    assert forall|i: int| 0 <= i < 32 implies #[trigger] mds_inv_spec(tb, s)[i] < 512 by {
        lemma_cell_rc(i);
        let r = i / 8;
        let c = i % 8;
        assert(s[c] < 512 && s[8 + c] < 512 && s[16 + c] < 512 && s[24 + c] < 512);
        if r == 0 {
            lemma_xor_bound(tb.mul119[s[c] as int], tb.mul23[s[8 + c] as int]);
        } else if r == 1 {
            lemma_xor_bound(tb.mul119[s[8 + c] as int], tb.mul23[s[16 + c] as int]);
        } else if r == 2 {
            lemma_xor_bound(tb.mul119[s[16 + c] as int], tb.mul23[s[24 + c] as int]);
        } else {
            lemma_xor_bound(tb.mul23[s[c] as int], tb.mul119[s[24 + c] as int]);
        }
    }
}

pub proof fn lemma_inv_sub_wf(tb: SpecTables, s: Seq<u16>)
    requires
        tb.wf_lens(),
        tb.wf_ranges(),
        state_wf(s),
    ensures
        state_wf(inv_sub_spec(tb, s)),
{
    reveal(SpecTables::wf_ranges);
}

pub proof fn lemma_rot_wf(s: Seq<u16>)
    requires
        state_wf(s),
    ensures
        state_wf(rot_spec(s)),
{
    assert forall|i: int| 0 <= i < 32 implies #[trigger] rot_spec(s)[i] < 512 by {
        lemma_rot9_inverse(s[i]);
    }
}

pub proof fn lemma_inv_rot_wf(s: Seq<u16>)
    requires
        state_wf(s),
    ensures
        state_wf(inv_rot_spec(s)),
{
    assert forall|i: int| 0 <= i < 32 implies #[trigger] inv_rot_spec(s)[i] < 512 by {
        lemma_inv_rot9_bound(s[i]);
    }
}

/// The stream sources stay on the grid.
proof fn lemma_stream_src_range(perm: Seq<u8>, i: int, d: int)
    requires
        perm.len() == 9,
        forall|e: int| 0 <= e < 9 ==> #[trigger] perm[e] < 9,
        0 <= i < 32,
        0 <= d < 9,
    ensures
        0 <= stream_src(perm, i, d) < 32,
        0 <= inv_stream_src(perm, i, d) < 32,
{
    lemma_cell_rc(i);
}

/// Bits of the accumulated stream cell.
proof fn lemma_stream_cell_rec_bits(s: Seq<u16>, perm: Seq<u8>, i: int, k: nat, d: u16)
    requires
        k <= 9,
        d < 9,
    ensures
        stream_cell_rec(s, perm, i, k) < (1u16 << (k as u16)),
        bit16(stream_cell_rec(s, perm, i, k), d) == (if d < k {
            bit16(s[stream_src(perm, i, d as int)], d)
        } else {
            0u16
        }),
        inv_stream_cell_rec(s, perm, i, k) < (1u16 << (k as u16)),
        bit16(inv_stream_cell_rec(s, perm, i, k), d) == (if d < k {
            bit16(s[inv_stream_src(perm, i, d as int)], d)
        } else {
            0u16
        }),
    decreases k,
{
    if k == 0 {
        assert(bit16(0u16, d) == 0 && 0u16 < (1u16 << 0u16)) by (bit_vector);
    } else {
        let km1 = (k - 1) as nat;
        lemma_stream_cell_rec_bits(s, perm, i, km1, d);
        lemma_stream_cell_rec_bits(s, perm, i, km1, km1 as u16);
        lemma_bit_le1(0u8, s[stream_src(perm, i, k - 1)], 0u32, 0u8, (k - 1) as u16, 0u32);
        lemma_bit_le1(0u8, s[inv_stream_src(perm, i, k - 1)], 0u32, 0u8, (k - 1) as u16, 0u32);
        lemma_bit_append16(
            stream_cell_rec(s, perm, i, km1),
            bit16(s[stream_src(perm, i, k - 1)], (k - 1) as u16),
            (k - 1) as u16,
            d,
        );
        lemma_bit_append16(
            inv_stream_cell_rec(s, perm, i, km1),
            bit16(s[inv_stream_src(perm, i, k - 1)], (k - 1) as u16),
            (k - 1) as u16,
            d,
        );
    }
}

pub proof fn lemma_stream_wf(s: Seq<u16>, perm: Seq<u8>)
    requires
        state_wf(s),
    ensures
        state_wf(stream_fwd_spec(s, perm)),
{
    assert forall|i: int| 0 <= i < 32 implies #[trigger] stream_fwd_spec(s, perm)[i] < 512 by {
        lemma_stream_cell_rec_bits(s, perm, i, 9, 0);
        assert((1u16 << 9u16) == 512) by (bit_vector);
    }
}

pub proof fn lemma_inv_stream_wf(s: Seq<u16>, perm: Seq<u8>)
    requires
        state_wf(s),
    ensures
        state_wf(inv_stream_spec(s, perm)),
{
    assert forall|i: int| 0 <= i < 32 implies #[trigger] inv_stream_spec(s, perm)[i] < 512 by {
        lemma_stream_cell_rec_bits(s, perm, i, 9, 0);
        assert((1u16 << 9u16) == 512) by (bit_vector);
    }
}

pub proof fn lemma_vtx_wf(s: Seq<u16>, sh: u16)
    requires
        state_wf(s),
    ensures
        state_wf(vtx_spec(s, sh)),
{
    assert forall|i: int| 0 <= i < 32 implies #[trigger] vtx_spec(s, sh)[i] < 512 by {
        lemma_cell_rc(i);
        lemma_grid_index((i / 8 + 4 - (sh as int % 4)) % 4, (i % 8 + 8 - (sh as int % 8)) % 8);
    }
}

pub proof fn lemma_inv_vtx_wf(s: Seq<u16>, sh: u16)
    requires
        state_wf(s),
    ensures
        state_wf(inv_vtx_spec(s, sh)),
{
    assert forall|i: int| 0 <= i < 32 implies #[trigger] inv_vtx_spec(s, sh)[i] < 512 by {
        lemma_cell_rc(i);
        lemma_grid_index((i / 8 + (sh as int % 4)) % 4, (i % 8 + (sh as int % 8)) % 8);
    }
}

/// Undoing the vortex translation restores the state.
pub proof fn lemma_vtx_roundtrip(s: Seq<u16>, sh: u16)
    requires
        s.len() == 32,
    ensures
        inv_vtx_spec(vtx_spec(s, sh), sh) =~= s,
{
    let mid = vtx_spec(s, sh);
    assert forall|i: int| 0 <= i < 32 implies inv_vtx_spec(mid, sh)[i] == s[i] by {
        lemma_cell_rc(i);
        let r = i / 8;
        let c = i % 8;
        let s4 = sh as int % 4;
        let s8 = sh as int % 8;
        let a = (r + s4) % 4;
        let b = (c + s8) % 8;
        lemma_grid_index(a, b);
        let j = 8 * a + b;
        assert(inv_vtx_spec(mid, sh)[i] == mid[j]);
        assert(mid[j] == s[vtx_src(j, sh)]);
        lemma_mod_roundtrip4(r, s4);
        lemma_mod_roundtrip8(c, s8);
        assert(vtx_src(j, sh) == i);
    }
}

/// Undoing the stream step restores the state.
pub proof fn lemma_stream_roundtrip(s: Seq<u16>, perm: Seq<u8>)
    requires
        state_wf(s),
        perm.len() == 9,
        forall|e: int| 0 <= e < 9 ==> #[trigger] perm[e] < 9,
    ensures
        inv_stream_spec(stream_fwd_spec(s, perm), perm) =~= s,
{
    let mid = stream_fwd_spec(s, perm);
    let fin = inv_stream_spec(mid, perm);
    assert forall|i: int| 0 <= i < 32 implies fin[i] == s[i] by {
        lemma_stream_cell_rec_bits(mid, perm, i, 9, 0);
        assert((1u16 << 9u16) == 512) by (bit_vector);
        assert forall|d: u16| d < 9 implies #[trigger] bit16(fin[i], d) == bit16(s[i], d) by {
            lemma_stream_cell_rec_bits(mid, perm, i, 9, d);
            let j = inv_stream_src(perm, i, d as int);
            lemma_stream_src_range(perm, i, d as int);
            assert(bit16(fin[i], d) == bit16(mid[j], d));
            lemma_stream_cell_rec_bits(s, perm, j, 9, d);
            assert(bit16(mid[j], d) == bit16(s[stream_src(perm, j, d as int)], d));
            lemma_cell_rc(i);
            let r = i / 8;
            let c = i % 8;
            let dj = perm[d as int] as int;
            let a = (r + dir_dr(dj)) % 4;
            let b = (c + dir_dc(dj)) % 8;
            lemma_grid_index(a, b);
            assert(j == 8 * a + b);
            lemma_mod_roundtrip4(r, dir_dr(dj));
            lemma_mod_roundtrip8(c, dir_dc(dj));
            assert(stream_src(perm, j, d as int) == i);
        }
        lemma_bits_eq9(fin[i], s[i]);
    }
}

/// Undoing the cell rotation restores the state.
pub proof fn lemma_rot_roundtrip(s: Seq<u16>)
    requires
        state_wf(s),
    ensures
        inv_rot_spec(rot_spec(s)) =~= s,
{
    assert forall|i: int| 0 <= i < 32 implies inv_rot_spec(rot_spec(s))[i] == s[i] by {
        lemma_rot9_inverse(s[i]);
    }
}


/// One column of the inverse diffusion undoes the forward diffusion.
proof fn lemma_mds_column(tb: SpecTables, s: Seq<u16>, c: int)
    requires
        tb.wf_lens(),
        tb.wf_ranges(),
        tb.wf_cancel(),
        tb.wf_linear(),
        state_wf(s),
        0 <= c < 8,
    ensures
        forall|k: int|
            0 <= k < 4 ==> #[trigger] mds_inv_spec(tb, mds_fwd_spec(tb, s))[8 * k + c] == s[8 * k
                + c],
{
    let mid = mds_fwd_spec(tb, s);
    let fin = mds_inv_spec(tb, mid);
    let x0 = s[c];
    let x1 = s[8 + c];
    let x2 = s[16 + c];
    let x3 = s[24 + c];
    assert(x0 < 512 && x1 < 512 && x2 < 512 && x3 < 512);
    lemma_grid_index(0, c);
    lemma_grid_index(1, c);
    lemma_grid_index(2, c);
    lemma_grid_index(3, c);
    assert(mid[c] == mds_fwd_cell(tb, s, 0, c));
    assert(mid[8 + c] == mds_fwd_cell(tb, s, 1, c));
    assert(mid[16 + c] == mds_fwd_cell(tb, s, 2, c));
    assert(mid[24 + c] == mds_fwd_cell(tb, s, 3, c));
    assert(mds_fwd_cell(tb, s, 0, c) == fwd_row(tb, 0, x0, x1, x2, x3));
    assert(mds_fwd_cell(tb, s, 1, c) == fwd_row(tb, 1, x0, x1, x2, x3));
    assert(mds_fwd_cell(tb, s, 2, c) == fwd_row(tb, 2, x0, x1, x2, x3));
    assert(mds_fwd_cell(tb, s, 3, c) == fwd_row(tb, 3, x0, x1, x2, x3));
    lemma_column_cancel(tb, x0, x1, x2, x3);
    assert(fin[c] == mds_inv_cell(tb, mid, 0, c));
    assert(fin[8 + c] == mds_inv_cell(tb, mid, 1, c));
    assert(fin[16 + c] == mds_inv_cell(tb, mid, 2, c));
    assert(fin[24 + c] == mds_inv_cell(tb, mid, 3, c));
    assert forall|k: int| 0 <= k < 4 implies #[trigger] fin[8 * k + c] == s[8 * k + c] by {
        if k == 0 {
        } else if k == 1 {
        } else if k == 2 {
        } else {
        }
    }
}

/// The inverse column diffusion undoes the forward column diffusion on
/// every well-formed state.
pub proof fn lemma_mds_roundtrip(tb: SpecTables, s: Seq<u16>)
    requires
        tb.wf(),
        state_wf(s),
    ensures
        mds_inv_spec(tb, mds_fwd_spec(tb, s)) =~= s,
{
    let fin = mds_inv_spec(tb, mds_fwd_spec(tb, s));
    assert forall|i: int| 0 <= i < 32 implies fin[i] == s[i] by {
        lemma_cell_rc(i);
        lemma_mds_column(tb, s, i % 8);
        assert(fin[8 * (i / 8) + i % 8] == s[8 * (i / 8) + i % 8]);
    }
}

/// Undoing the key addition restores the state.
pub proof fn lemma_xor_mask_roundtrip(s: Seq<u16>, m: Seq<u16>)
    requires
        s.len() == 32,
    ensures
        xor_mask_spec(xor_mask_spec(s, m), m) =~= s,
{
    assert forall|i: int| 0 <= i < 32 implies xor_mask_spec(xor_mask_spec(s, m), m)[i] == s[i] by {
        lemma_xor_cancel(s[i], m[i]);
    }
}


/// Row `r` of the forward diffusion written over column values.
pub open spec fn fwd_row(tb: SpecTables, r: int, y0: u16, y1: u16, y2: u16, y3: u16) -> u16 {
    if r == 0 {
        ((tb.mul1[y0 as int] ^ tb.mul2[y1 as int]) ^ tb.mul4[y2 as int]) ^ tb.mul8[y3 as int]
    } else if r == 1 {
        ((tb.mul8[y0 as int] ^ tb.mul1[y1 as int]) ^ tb.mul2[y2 as int]) ^ tb.mul4[y3 as int]
    } else if r == 2 {
        ((tb.mul4[y0 as int] ^ tb.mul8[y1 as int]) ^ tb.mul1[y2 as int]) ^ tb.mul2[y3 as int]
    } else {
        ((tb.mul2[y0 as int] ^ tb.mul4[y1 as int]) ^ tb.mul8[y2 as int]) ^ tb.mul1[y3 as int]
    }
}

/// Expands one inverse-diffusion table over a four-term sum.
proof fn lemma_expand_linear(tb: SpecTables, a0: u16, a1: u16, a2: u16, a3: u16)
    requires
        tb.wf_linear(),
        a0 < 512,
        a1 < 512,
        a2 < 512,
        a3 < 512,
    ensures
        tb.mul119[(((a0 ^ a1) ^ a2) ^ a3) as int] == ((tb.mul119[a0 as int] ^ tb.mul119[a1 as int])
            ^ tb.mul119[a2 as int]) ^ tb.mul119[a3 as int],
        tb.mul23[(((a0 ^ a1) ^ a2) ^ a3) as int] == ((tb.mul23[a0 as int] ^ tb.mul23[a1 as int])
            ^ tb.mul23[a2 as int]) ^ tb.mul23[a3 as int],
{
    lemma_xor_bound(a0, a1);
    lemma_xor_bound(a0 ^ a1, a2);
    lemma_linear_at(tb, a0, a1);
    lemma_linear_at(tb, a0 ^ a1, a2);
    lemma_linear_at(tb, (a0 ^ a1) ^ a2, a3);
}

/// The inverse diffusion cancels the forward diffusion on column values.
proof fn lemma_column_cancel(tb: SpecTables, y0: u16, y1: u16, y2: u16, y3: u16)
    requires
        tb.wf_lens(),
        tb.wf_ranges(),
        tb.wf_cancel(),
        tb.wf_linear(),
        y0 < 512,
        y1 < 512,
        y2 < 512,
        y3 < 512,
    ensures
        tb.mul119[fwd_row(tb, 0, y0, y1, y2, y3) as int] ^ tb.mul23[fwd_row(
            tb,
            1,
            y0,
            y1,
            y2,
            y3,
        ) as int] == y0,
        tb.mul119[fwd_row(tb, 1, y0, y1, y2, y3) as int] ^ tb.mul23[fwd_row(
            tb,
            2,
            y0,
            y1,
            y2,
            y3,
        ) as int] == y1,
        tb.mul119[fwd_row(tb, 2, y0, y1, y2, y3) as int] ^ tb.mul23[fwd_row(
            tb,
            3,
            y0,
            y1,
            y2,
            y3,
        ) as int] == y2,
        tb.mul23[fwd_row(tb, 0, y0, y1, y2, y3) as int] ^ tb.mul119[fwd_row(
            tb,
            3,
            y0,
            y1,
            y2,
            y3,
        ) as int] == y3,
{
    lemma_ranges_at(tb, y0 as int);
    lemma_ranges_at(tb, y1 as int);
    lemma_ranges_at(tb, y2 as int);
    lemma_ranges_at(tb, y3 as int);
    let m1y0 = tb.mul1[y0 as int];
    let m2y1 = tb.mul2[y1 as int];
    let m4y2 = tb.mul4[y2 as int];
    let m8y3 = tb.mul8[y3 as int];
    let m8y0 = tb.mul8[y0 as int];
    let m1y1 = tb.mul1[y1 as int];
    let m2y2 = tb.mul2[y2 as int];
    let m4y3 = tb.mul4[y3 as int];
    let m4y0 = tb.mul4[y0 as int];
    let m8y1 = tb.mul8[y1 as int];
    let m1y2 = tb.mul1[y2 as int];
    let m2y3 = tb.mul2[y3 as int];
    let m2y0 = tb.mul2[y0 as int];
    let m4y1 = tb.mul4[y1 as int];
    let m8y2 = tb.mul8[y2 as int];
    let m1y3 = tb.mul1[y3 as int];
    lemma_expand_linear(tb, m1y0, m2y1, m4y2, m8y3);
    lemma_expand_linear(tb, m8y0, m1y1, m2y2, m4y3);
    lemma_expand_linear(tb, m4y0, m8y1, m1y2, m2y3);
    lemma_expand_linear(tb, m2y0, m4y1, m8y2, m1y3);
    lemma_cancel_at(tb, y0 as int);
    lemma_cancel_at(tb, y1 as int);
    lemma_cancel_at(tb, y2 as int);
    lemma_cancel_at(tb, y3 as int);
    lemma_xor8_cancel(
        tb.mul119[m1y0 as int],
        tb.mul119[m2y1 as int],
        tb.mul119[m4y2 as int],
        tb.mul119[m8y3 as int],
        tb.mul23[m8y0 as int],
        tb.mul23[m1y1 as int],
        tb.mul23[m2y2 as int],
        tb.mul23[m4y3 as int],
        y0,
        0,
        0,
        0,
    );
    lemma_xor8_cancel(
        tb.mul119[m8y0 as int],
        tb.mul119[m1y1 as int],
        tb.mul119[m2y2 as int],
        tb.mul119[m4y3 as int],
        tb.mul23[m4y0 as int],
        tb.mul23[m8y1 as int],
        tb.mul23[m1y2 as int],
        tb.mul23[m2y3 as int],
        0,
        y1,
        0,
        0,
    );
    lemma_xor8_cancel(
        tb.mul119[m4y0 as int],
        tb.mul119[m8y1 as int],
        tb.mul119[m1y2 as int],
        tb.mul119[m2y3 as int],
        tb.mul23[m2y0 as int],
        tb.mul23[m4y1 as int],
        tb.mul23[m8y2 as int],
        tb.mul23[m1y3 as int],
        0,
        0,
        y2,
        0,
    );
    lemma_xor_comm(tb.mul23[m1y0 as int], tb.mul119[m2y0 as int]);
    lemma_xor_comm(tb.mul23[m2y1 as int], tb.mul119[m4y1 as int]);
    lemma_xor_comm(tb.mul23[m4y2 as int], tb.mul119[m8y2 as int]);
    lemma_xor_comm(tb.mul23[m8y3 as int], tb.mul119[m1y3 as int]);
    lemma_xor8_cancel(
        tb.mul23[m1y0 as int],
        tb.mul23[m2y1 as int],
        tb.mul23[m4y2 as int],
        tb.mul23[m8y3 as int],
        tb.mul119[m2y0 as int],
        tb.mul119[m4y1 as int],
        tb.mul119[m8y2 as int],
        tb.mul119[m1y3 as int],
        0,
        0,
        0,
        y3,
    );
    lemma_xor_fold_positions(y0);
    lemma_xor_fold_positions(y1);
    lemma_xor_fold_positions(y2);
    lemma_xor_fold_positions(y3);
}

/// The fused step, then inverse diffusion, then inverse substitution
/// restore one whole column.
proof fn lemma_sub_mds_column(tb: SpecTables, s: Seq<u16>, c: int)
    requires
        tb.wf_lens(),
        tb.wf_ranges(),
        tb.wf_inverse(),
        tb.wf_fused(),
        tb.wf_cancel(),
        tb.wf_linear(),
        state_wf(s),
        0 <= c < 8,
    ensures
        forall|k: int|
            0 <= k < 4 ==> #[trigger] inv_sub_spec(tb, mds_inv_spec(tb, sub_mds_spec(tb, s)))[8 * k
                + c] == s[8 * k + c],
{
    let mid = sub_mds_spec(tb, s);
    let unmixed = mds_inv_spec(tb, mid);
    let fin = inv_sub_spec(tb, unmixed);
    let x0 = s[c];
    let x1 = s[8 + c];
    let x2 = s[16 + c];
    let x3 = s[24 + c];
    assert(x0 < 512 && x1 < 512 && x2 < 512 && x3 < 512);
    let y0 = tb.sbox[x0 as int];
    let y1 = tb.sbox[x1 as int];
    let y2 = tb.sbox[x2 as int];
    let y3 = tb.sbox[x3 as int];
    lemma_ranges_at(tb, x0 as int);
    lemma_ranges_at(tb, x1 as int);
    lemma_ranges_at(tb, x2 as int);
    lemma_ranges_at(tb, x3 as int);
    lemma_fused_at(tb, x0 as int);
    lemma_fused_at(tb, x1 as int);
    lemma_fused_at(tb, x2 as int);
    lemma_fused_at(tb, x3 as int);
    lemma_grid_index(0, c);
    lemma_grid_index(1, c);
    lemma_grid_index(2, c);
    lemma_grid_index(3, c);
    assert(mid[c] == sub_mds_cell(tb, s, 0, c));
    assert(mid[8 + c] == sub_mds_cell(tb, s, 1, c));
    assert(mid[16 + c] == sub_mds_cell(tb, s, 2, c));
    assert(mid[24 + c] == sub_mds_cell(tb, s, 3, c));
    assert(sub_mds_cell(tb, s, 0, c) == fwd_row(tb, 0, y0, y1, y2, y3));
    assert(sub_mds_cell(tb, s, 1, c) == fwd_row(tb, 1, y0, y1, y2, y3));
    assert(sub_mds_cell(tb, s, 2, c) == fwd_row(tb, 2, y0, y1, y2, y3));
    assert(sub_mds_cell(tb, s, 3, c) == fwd_row(tb, 3, y0, y1, y2, y3));
    lemma_column_cancel(tb, y0, y1, y2, y3);
    assert(unmixed[c] == mds_inv_cell(tb, mid, 0, c));
    assert(unmixed[8 + c] == mds_inv_cell(tb, mid, 1, c));
    assert(unmixed[16 + c] == mds_inv_cell(tb, mid, 2, c));
    assert(unmixed[24 + c] == mds_inv_cell(tb, mid, 3, c));
    assert(unmixed[c] == y0);
    assert(unmixed[8 + c] == y1);
    assert(unmixed[16 + c] == y2);
    assert(unmixed[24 + c] == y3);
    lemma_inverse_at(tb, x0 as int);
    lemma_inverse_at(tb, x1 as int);
    lemma_inverse_at(tb, x2 as int);
    lemma_inverse_at(tb, x3 as int);
    assert(fin[c] == tb.inv_sbox[y0 as int]);
    assert(fin[8 + c] == tb.inv_sbox[y1 as int]);
    assert(fin[16 + c] == tb.inv_sbox[y2 as int]);
    assert(fin[24 + c] == tb.inv_sbox[y3 as int]);
    assert forall|k: int| 0 <= k < 4 implies #[trigger] fin[8 * k + c] == s[8 * k + c] by {
        if k == 0 {
        } else if k == 1 {
        } else if k == 2 {
        } else {
        }
    }
}

/// The inverse substitution and diffusion undo the fused forward step.
pub proof fn lemma_sub_mds_roundtrip(tb: SpecTables, s: Seq<u16>)
    requires
        tb.wf(),
        state_wf(s),
    ensures
        inv_sub_spec(tb, mds_inv_spec(tb, sub_mds_spec(tb, s))) =~= s,
{
    let fin = inv_sub_spec(tb, mds_inv_spec(tb, sub_mds_spec(tb, s)));
    assert forall|i: int| 0 <= i < 32 implies fin[i] == s[i] by {
        lemma_cell_rc(i);
        lemma_sub_mds_column(tb, s, i % 8);
        assert(fin[8 * (i / 8) + i % 8] == s[8 * (i / 8) + i % 8]);
    }
}

/// One inverse round undoes one forward round, and a forward round keeps
/// the state well formed.
pub proof fn lemma_round_roundtrip(tb: SpecTables, rk: SpecRoundKey, s: Seq<u16>)
    requires
        tb.wf(),
        rk.wf(),
        state_wf(s),
    ensures
        state_wf(round_spec(tb, rk, s)),
        inv_round_spec(tb, rk, round_spec(tb, rk, s)) =~= s,
{
    let m1 = xor_mask_spec(s, rk.mask);
    lemma_xor_mask_wf(s, rk.mask);
    let m2 = sub_mds_spec(tb, m1);
    lemma_sub_mds_wf(tb, m1);
    let m3 = rot_spec(m2);
    lemma_rot_wf(m2);
    let m4 = stream_fwd_spec(m3, rk.perm);
    lemma_stream_wf(m3, rk.perm);
    let m5 = vtx_spec(m4, rk.shift);
    lemma_vtx_wf(m4, rk.shift);
    assert(round_spec(tb, rk, s) == m5);
    lemma_vtx_roundtrip(m4, rk.shift);
    lemma_stream_roundtrip(m3, rk.perm);
    lemma_rot_roundtrip(m2);
    lemma_sub_mds_roundtrip(tb, m1);
    lemma_xor_mask_roundtrip(s, rk.mask);
    assert(inv_vtx_spec(m5, rk.shift) == m4);
    assert(inv_stream_spec(m4, rk.perm) == m3);
    assert(inv_rot_spec(m3) == m2);
    assert(inv_sub_spec(tb, mds_inv_spec(tb, m2)) == m1);
    assert(xor_mask_spec(m1, rk.mask) =~= s);
}

/// Undoing `n` forward rounds in reverse order restores the state.
pub proof fn lemma_cipher_roundtrip(tb: SpecTables, keys: Seq<SpecRoundKey>, s: Seq<u16>, n: nat)
    requires
        tb.wf(),
        n <= keys.len(),
        forall|k: int| 0 <= k < keys.len() ==> (#[trigger] keys[k]).wf(),
        state_wf(s),
    ensures
        state_wf(enc_rec(tb, keys, s, n)),
        dec_rec(tb, keys, enc_rec(tb, keys, s, n), n) =~= s,
    decreases n,
{
    if n == 0 {
    } else {
        lemma_cipher_roundtrip(tb, keys, s, (n - 1) as nat);
        let prev = enc_rec(tb, keys, s, (n - 1) as nat);
        lemma_round_roundtrip(tb, keys[n - 1], prev);
        assert(inv_round_spec(tb, keys[n - 1], round_spec(tb, keys[n - 1], prev)) =~= prev);
    }
}
} // verus!
