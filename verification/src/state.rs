//! The cipher state: 32 cells of 9 bits each, interchangeable with 36 packed
//! bytes through an LSB-first bit stream, plus the loading of a 32-byte
//! plaintext into the first 256 bit positions and its extraction.
use vstd::prelude::*;

use crate::bits::{
    bit16, bit8, lemma_bit_append16, lemma_bit_append8, lemma_bit_le1, lemma_bits_eq8,
    lemma_bits_eq9,
};
use vstd::arithmetic::div_mod::{
    lemma_div_pos_is_pos, lemma_fundamental_div_mod, lemma_mod_division_less_than_divisor,
};

verus! {

/// A well-formed state: 32 cells, each below 2^9.
pub open spec fn state_wf(s: Seq<u16>) -> bool {
    &&& s.len() == 32
    &&& forall|i: int| 0 <= i < 32 ==> #[trigger] s[i] < 512
}

/// Bit `p` of the 288-bit stream formed by the cells, LSB-first.
pub open spec fn cell_bit(s: Seq<u16>, p: int) -> u16 {
    bit16(s[p / 9], (p % 9) as u16)
}

/// Bit `p` of the stream formed by a byte sequence, LSB-first.
pub open spec fn byte_bit(b: Seq<u8>, p: int) -> u8 {
    bit8(b[p / 8], (p % 8) as u8)
}

/// Bit `p` of the plaintext stream: its 256 bits, then zeros.
pub open spec fn pt_bit(b: Seq<u8>, p: int) -> u16 {
    if p < 256 {
        byte_bit(b, p) as u16
    } else {
        0u16
    }
}

/// The low `k` bits of packed byte `j`, accumulated LSB-first.
pub open spec fn pack_byte_rec(s: Seq<u16>, j: int, k: nat) -> u8
    decreases k,
{
    if k == 0 {
        0u8
    } else {
        pack_byte_rec(s, j, (k - 1) as nat) | ((cell_bit(s, 8 * j + k - 1) as u8) << ((k - 1) as u8))
    }
}

/// Byte `j` of the packed form of a state.
pub open spec fn pack_byte(s: Seq<u16>, j: int) -> u8 {
    pack_byte_rec(s, j, 8)
}

/// The 36-byte packed form of a state.
pub open spec fn pack_spec(s: Seq<u16>) -> Seq<u8> {
    Seq::new(36, |j: int| pack_byte(s, j))
}

/// The low `k` bits of cell `i` recovered from a byte stream.
pub open spec fn unpack_cell_rec(b: Seq<u8>, i: int, k: nat) -> u16
    decreases k,
{
    if k == 0 {
        0u16
    } else {
        unpack_cell_rec(b, i, (k - 1) as nat) | ((byte_bit(b, 9 * i + k - 1) as u16) << ((k
            - 1) as u16))
    }
}

/// Cell `i` of the unpacked form of 36 bytes.
pub open spec fn unpack_cell(b: Seq<u8>, i: int) -> u16 {
    unpack_cell_rec(b, i, 9)
}

/// The 32-cell state recovered from 36 packed bytes.
pub open spec fn unpack_spec(b: Seq<u8>) -> Seq<u16> {
    Seq::new(32, |i: int| unpack_cell(b, i))
}

/// The low `k` bits of cell `i` when loading a 32-byte plaintext.
pub open spec fn load_cell_rec(b: Seq<u8>, i: int, k: nat) -> u16
    decreases k,
{
    if k == 0 {
        0u16
    } else {
        load_cell_rec(b, i, (k - 1) as nat) | (pt_bit(b, 9 * i + k - 1) << ((k - 1) as u16))
    }
}

pub open spec fn load_cell(b: Seq<u8>, i: int) -> u16 {
    load_cell_rec(b, i, 9)
}

/// The state holding a 32-byte plaintext in its first 256 bit positions.
pub open spec fn load_pt_spec(b: Seq<u8>) -> Seq<u16> {
    Seq::new(32, |i: int| load_cell(b, i))
}

/// The low `k` bits of plaintext byte `j` read back from a state.
pub open spec fn extract_byte_rec(s: Seq<u16>, j: int, k: nat) -> u8
    decreases k,
{
    if k == 0 {
        0u8
    } else {
        extract_byte_rec(s, j, (k - 1) as nat) | ((cell_bit(s, 8 * j + k - 1) as u8) << ((k
            - 1) as u8))
    }
}

pub open spec fn extract_byte(s: Seq<u16>, j: int) -> u8 {
    extract_byte_rec(s, j, 8)
}

/// The 32 plaintext bytes read from the first 256 bits of a state.
pub open spec fn extract_pt_spec(s: Seq<u16>) -> Seq<u8> {
    Seq::new(32, |j: int| extract_byte(s, j))
}


/// Division and remainder facts for a nonnegative dividend.
pub proof fn lemma_pos_div_mod(p: int, d: int)
    requires
        0 <= p,
        0 < d,
    ensures
        p == d * (p / d) + p % d,
        0 <= p % d < d,
        0 <= p / d,
{
    lemma_fundamental_div_mod(p, d);
    lemma_mod_division_less_than_divisor(p, d);
    lemma_div_pos_is_pos(p, d);
}

/// Bits of the accumulated packed byte.
proof fn lemma_pack_byte_rec_bits(s: Seq<u16>, j: int, k: nat, d: u8)
    requires
        k <= 8,
        d < 8,
    ensures
        k < 8 ==> pack_byte_rec(s, j, k) < (1u8 << (k as u8)),
        bit8(pack_byte_rec(s, j, k), d) == (if d < k {
            cell_bit(s, 8 * j + d) as u8
        } else {
            0u8
        }),
    decreases k,
{
    if k == 0 {
        assert(bit8(0u8, d) == 0 && 0u8 < (1u8 << 0u8)) by (bit_vector);
    } else {
        let km1 = (k - 1) as nat;
        lemma_pack_byte_rec_bits(s, j, km1, d);
        if km1 < 8 {
            lemma_pack_byte_rec_bits(s, j, km1, km1 as u8);
        }
        let x = pack_byte_rec(s, j, km1);
        let v = cell_bit(s, 8 * j + k - 1) as u8;
        lemma_bit_le1(0u8, s[(8 * j + k - 1) / 9], 0u32, 0u8, ((8 * j + k - 1) % 9) as u16, 0u32);
        lemma_bit_append8(x, v, (k - 1) as u8, d);
    }
}

/// Bits of the accumulated unpacked cell.
proof fn lemma_unpack_cell_rec_bits(b: Seq<u8>, i: int, k: nat, d: u16)
    requires
        k <= 9,
        d < 9,
    ensures
        unpack_cell_rec(b, i, k) < (1u16 << (k as u16)),
        bit16(unpack_cell_rec(b, i, k), d) == (if d < k {
            byte_bit(b, 9 * i + d) as u16
        } else {
            0u16
        }),
    decreases k,
{
    if k == 0 {
        assert(bit16(0u16, d) == 0 && 0u16 < (1u16 << 0u16)) by (bit_vector);
    } else {
        let km1 = (k - 1) as nat;
        lemma_unpack_cell_rec_bits(b, i, km1, d);
        lemma_unpack_cell_rec_bits(b, i, km1, km1 as u16);
        let x = unpack_cell_rec(b, i, km1);
        let v = byte_bit(b, 9 * i + k - 1) as u16;
        lemma_bit_le1(b[(9 * i + k - 1) / 8], 0u16, 0u32, ((9 * i + k - 1) % 8) as u8, 0u16, 0u32);
        lemma_bit_append16(x, v, (k - 1) as u16, d);
    }
}

/// The unpacked cell is a 9-bit value.
pub proof fn lemma_unpack_cell_bound(b: Seq<u8>, i: int)
    ensures
        unpack_cell(b, i) < 512,
{
    lemma_unpack_cell_rec_bits(b, i, 9, 0);
    assert((1u16 << 9u16) == 512) by (bit_vector);
}

pub proof fn lemma_unpack_cell_bit(b: Seq<u8>, i: int, d: u16)
    requires
        d < 9,
    ensures
        bit16(unpack_cell(b, i), d) == byte_bit(b, 9 * i + d) as u16,
{
    lemma_unpack_cell_rec_bits(b, i, 9, d);
}

/// Bits of the accumulated loaded cell.
proof fn lemma_load_cell_rec_bits(b: Seq<u8>, i: int, k: nat, d: u16)
    requires
        k <= 9,
        d < 9,
    ensures
        load_cell_rec(b, i, k) < (1u16 << (k as u16)),
        bit16(load_cell_rec(b, i, k), d) == (if d < k {
            pt_bit(b, 9 * i + d)
        } else {
            0u16
        }),
    decreases k,
{
    if k == 0 {
        assert(bit16(0u16, d) == 0 && 0u16 < (1u16 << 0u16)) by (bit_vector);
    } else {
        let km1 = (k - 1) as nat;
        lemma_load_cell_rec_bits(b, i, km1, d);
        lemma_load_cell_rec_bits(b, i, km1, km1 as u16);
        let x = load_cell_rec(b, i, km1);
        let v = pt_bit(b, 9 * i + k - 1);
        lemma_bit_le1(b[(9 * i + k - 1) / 8], 0u16, 0u32, ((9 * i + k - 1) % 8) as u8, 0u16, 0u32);
        lemma_bit_append16(x, v, (k - 1) as u16, d);
    }
}

pub proof fn lemma_load_cell_bound(b: Seq<u8>, i: int)
    ensures
        load_cell(b, i) < 512,
{
    lemma_load_cell_rec_bits(b, i, 9, 0);
    assert((1u16 << 9u16) == 512) by (bit_vector);
}

pub proof fn lemma_load_cell_bit(b: Seq<u8>, i: int, d: u16)
    requires
        d < 9,
    ensures
        bit16(load_cell(b, i), d) == pt_bit(b, 9 * i + d),
{
    lemma_load_cell_rec_bits(b, i, 9, d);
}

/// Bits of the accumulated extracted byte.
proof fn lemma_extract_byte_rec_bits(s: Seq<u16>, j: int, k: nat, d: u8)
    requires
        k <= 8,
        d < 8,
    ensures
        k < 8 ==> extract_byte_rec(s, j, k) < (1u8 << (k as u8)),
        bit8(extract_byte_rec(s, j, k), d) == (if d < k {
            cell_bit(s, 8 * j + d) as u8
        } else {
            0u8
        }),
    decreases k,
{
    if k == 0 {
        assert(bit8(0u8, d) == 0 && 0u8 < (1u8 << 0u8)) by (bit_vector);
    } else {
        let km1 = (k - 1) as nat;
        lemma_extract_byte_rec_bits(s, j, km1, d);
        if km1 < 8 {
            lemma_extract_byte_rec_bits(s, j, km1, km1 as u8);
        }
        let x = extract_byte_rec(s, j, km1);
        let v = cell_bit(s, 8 * j + k - 1) as u8;
        lemma_bit_le1(0u8, s[(8 * j + k - 1) / 9], 0u32, 0u8, ((8 * j + k - 1) % 9) as u16, 0u32);
        lemma_bit_append8(x, v, (k - 1) as u8, d);
    }
}

pub proof fn lemma_pack_byte_bit(s: Seq<u16>, j: int, d: u8)
    requires
        d < 8,
    ensures
        bit8(pack_byte(s, j), d) == cell_bit(s, 8 * j + d) as u8,
{
    lemma_pack_byte_rec_bits(s, j, 8, d);
}

pub proof fn lemma_extract_byte_bit(s: Seq<u16>, j: int, d: u8)
    requires
        d < 8,
    ensures
        bit8(extract_byte(s, j), d) == cell_bit(s, 8 * j + d) as u8,
{
    lemma_extract_byte_rec_bits(s, j, 8, d);
}

/// Unpacking a packed state gives the state back.
pub proof fn lemma_unpack_pack(s: Seq<u16>)
    requires
        state_wf(s),
    ensures
        unpack_spec(pack_spec(s)) =~= s,
{
    let b = pack_spec(s);
    assert forall|i: int| 0 <= i < 32 implies unpack_spec(b)[i] == s[i] by {
        lemma_unpack_cell_bound(b, i);
        assert forall|d: u16| d < 9 implies #[trigger] bit16(unpack_cell(b, i), d) == bit16(
            s[i],
            d,
        ) by {
            let p = 9 * i + d;
            lemma_unpack_cell_bit(b, i, d);
            lemma_pos_div_mod(p, 8);
            let j = p / 8;
            let e = (p % 8) as u8;
            lemma_pack_byte_bit(s, j, e);
            lemma_bit_le1(0u8, s[p / 9], 0u32, 0u8, (p % 9) as u16, 0u32);
            assert(byte_bit(b, p) == bit8(pack_byte(s, j), e));
            assert(8 * j + e == p);
            lemma_pos_div_mod(p, 9);
            assert(p / 9 == i && p % 9 == d);
            assert(cell_bit(s, p) == bit16(s[i], d));
        }
        lemma_bits_eq9(unpack_cell(b, i), s[i]);
    }
}

/// Packing an unpacked byte stream gives the bytes back.
pub proof fn lemma_pack_unpack(b: Seq<u8>)
    requires
        b.len() == 36,
    ensures
        pack_spec(unpack_spec(b)) =~= b,
{
    let s = unpack_spec(b);
    assert forall|j: int| 0 <= j < 36 implies pack_spec(s)[j] == b[j] by {
        assert forall|d: u8| d < 8 implies #[trigger] bit8(pack_byte(s, j), d) == bit8(
            b[j],
            d,
        ) by {
            let p = 8 * j + d;
            lemma_pack_byte_bit(s, j, d);
            lemma_pos_div_mod(p, 9);
            let i = p / 9;
            let e = (p % 9) as u16;
            assert(cell_bit(s, p) == bit16(unpack_cell(b, i), e));
            lemma_unpack_cell_bit(b, i, e);
            assert(9 * i + e == p);
            lemma_pos_div_mod(p, 8);
            assert(p / 8 == j && p % 8 == d);
            assert(byte_bit(b, p) == bit8(b[j], d));
        }
        lemma_bits_eq8(pack_byte(s, j), b[j]);
    }
}

/// The loaded state is well formed.
pub proof fn lemma_load_pt_wf(b: Seq<u8>)
    ensures
        state_wf(load_pt_spec(b)),
{
    assert forall|i: int| 0 <= i < 32 implies #[trigger] load_pt_spec(b)[i] < 512 by {
        lemma_load_cell_bound(b, i);
    }
}

/// Extracting from a loaded plaintext gives the plaintext back.
pub proof fn lemma_extract_load(b: Seq<u8>)
    requires
        b.len() == 32,
    ensures
        extract_pt_spec(load_pt_spec(b)) =~= b,
{
    let s = load_pt_spec(b);
    assert forall|j: int| 0 <= j < 32 implies extract_pt_spec(s)[j] == b[j] by {
        assert forall|d: u8| d < 8 implies #[trigger] bit8(extract_byte(s, j), d) == bit8(
            b[j],
            d,
        ) by {
            let p = 8 * j + d;
            lemma_extract_byte_bit(s, j, d);
            lemma_pos_div_mod(p, 9);
            let i = p / 9;
            let e = (p % 9) as u16;
            assert(cell_bit(s, p) == bit16(load_cell(b, i), e));
            lemma_load_cell_bit(b, i, e);
            assert(9 * i + e == p);
            assert(p < 256);
            lemma_pos_div_mod(p, 8);
            assert(p / 8 == j && p % 8 == d);
            assert(pt_bit(b, p) == bit8(b[j], d) as u16);
        }
        lemma_bits_eq8(extract_byte(s, j), b[j]);
    }
}

/// Packs 32 cells into 36 bytes, cell bits written LSB-first in index order.
pub fn pack_state(cells: &Vec<u16>) -> (out: Vec<u8>)
    requires
        cells@.len() == 32,
    ensures
        out@ == pack_spec(cells@),
{
    let mut out: Vec<u8> = Vec::new();
    for j in 0..36usize
        invariant
            cells@.len() == 32,
            out@.len() == j,
            forall|x: int| 0 <= x < j ==> out@[x] == pack_spec(cells@)[x],
    {
        let mut val: u8 = 0;
        for d in 0..8usize
            invariant
                cells@.len() == 32,
                j < 36,
                val == pack_byte_rec(cells@, j as int, d as nat),
        {
            let p: usize = 8 * j + d;
            proof {
                lemma_pos_div_mod(p as int, 9);
            }
            let bit: u8 = ((cells[p / 9] >> ((p % 9) as u16)) & 1) as u8;
            proof {
                assert(bit == cell_bit(cells@, 8 * (j as int) + (d as int)) as u8) by {
                    assert(((cells@[p as int / 9] >> ((p as int % 9) as u16)) & 1) as u8 == (bit16(
                        cells@[p as int / 9],
                        (p as int % 9) as u16,
                    )) as u8);
                }
            }
            val = val | (bit << (d as u8));
        }
        out.push(val);
    }
    proof {
        assert(out@ =~= pack_spec(cells@));
    }
    out
}

/// Unpacks 36 bytes into 32 cells; every produced cell is below 2^9.
pub fn unpack_state(ct: &Vec<u8>) -> (cells: Vec<u16>)
    requires
        ct@.len() == 36,
    ensures
        cells@ == unpack_spec(ct@),
        state_wf(cells@),
{
    let mut cells: Vec<u16> = Vec::new();
    for i in 0..32usize
        invariant
            ct@.len() == 36,
            cells@.len() == i,
            forall|x: int| 0 <= x < i ==> cells@[x] == unpack_spec(ct@)[x],
    {
        let mut val: u16 = 0;
        for d in 0..9usize
            invariant
                ct@.len() == 36,
                i < 32,
                val == unpack_cell_rec(ct@, i as int, d as nat),
        {
            let p: usize = 9 * i + d;
            proof {
                lemma_pos_div_mod(p as int, 8);
            }
            let bit: u16 = ((ct[p / 8] >> ((p % 8) as u8)) & 1) as u16;
            val = val | (bit << (d as u16));
        }
        cells.push(val);
    }
    proof {
        assert(cells@ =~= unpack_spec(ct@));
        assert forall|x: int| 0 <= x < 32 implies #[trigger] cells@[x] < 512 by {
            lemma_unpack_cell_bound(ct@, x);
        }
    }
    cells
}

/// Loads a 32-byte plaintext into the first 256 bit positions of a state;
/// the remaining cell bits stay zero.
pub fn load_plaintext(pt: &[u8]) -> (cells: Vec<u16>)
    requires
        pt@.len() == 32,
    ensures
        cells@ == load_pt_spec(pt@),
        state_wf(cells@),
{
    let mut cells: Vec<u16> = Vec::new();
    for i in 0..32usize
        invariant
            pt@.len() == 32,
            cells@.len() == i,
            forall|x: int| 0 <= x < i ==> cells@[x] == load_pt_spec(pt@)[x],
    {
        let mut val: u16 = 0;
        for d in 0..9usize
            invariant
                pt@.len() == 32,
                i < 32,
                val == load_cell_rec(pt@, i as int, d as nat),
        {
            let p: usize = 9 * i + d;
            let bit: u16 = if p < 256 {
                proof {
                    lemma_pos_div_mod(p as int, 8);
                }
                ((pt[p / 8] >> ((p % 8) as u8)) & 1) as u16
            } else {
                0u16
            };
            val = val | (bit << (d as u16));
        }
        cells.push(val);
    }
    proof {
        assert(cells@ =~= load_pt_spec(pt@));
        assert forall|x: int| 0 <= x < 32 implies #[trigger] cells@[x] < 512 by {
            lemma_load_cell_bound(pt@, x);
        }
    }
    cells
}

/// Reads the 32 plaintext bytes back from the first 256 bits of a state.
pub fn extract_plaintext(cells: &Vec<u16>) -> (pt: Vec<u8>)
    requires
        cells@.len() == 32,
    ensures
        pt@ == extract_pt_spec(cells@),
{
    let mut pt: Vec<u8> = Vec::new();
    for j in 0..32usize
        invariant
            cells@.len() == 32,
            pt@.len() == j,
            forall|x: int| 0 <= x < j ==> pt@[x] == extract_pt_spec(cells@)[x],
    {
        let mut val: u8 = 0;
        for d in 0..8usize
            invariant
                cells@.len() == 32,
                j < 32,
                val == extract_byte_rec(cells@, j as int, d as nat),
        {
            let p: usize = 8 * j + d;
            proof {
                lemma_pos_div_mod(p as int, 9);
            }
            let bit: u8 = ((cells[p / 9] >> ((p % 9) as u16)) & 1) as u8;
            val = val | (bit << (d as u8));
        }
        pt.push(val);
    }
    proof {
        assert(pt@ =~= extract_pt_spec(cells@));
    }
    pt
}

} // verus!
