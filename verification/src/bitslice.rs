//! The constant-time substitution path: the 32 cells are decomposed into
//! nine 32-lane bit planes, every candidate value contributes through an
//! equality mask, and the planes are recomposed.  Functionally identical to
//! the table lookups in `rounds`; the difference is the memory access
//! pattern.
use vstd::prelude::*;

use crate::bits::{
    bit16, bit32, lemma_bit_and32, lemma_bit_append16, lemma_bit_le1, lemma_bit_not32,
    lemma_bit_of_zero32, lemma_bit_onehot32, lemma_bit_or32, lemma_bits_eq9,
};
use crate::rounds::{inv_sub_spec, sub_spec};
use crate::state::state_wf;
use crate::tables::Tables;

verus! {

/// The low `k` bits of `x` and `y` agree.
pub open spec fn matches_low(x: u16, y: u16, k: nat) -> bool
    decreases k,
{
    k == 0 || (matches_low(x, y, (k - 1) as nat) && bit16(x, (k - 1) as u16) == bit16(
        y,
        (k - 1) as u16,
    ))
}

proof fn lemma_matches_low_refl(x: u16, k: nat)
    ensures
        matches_low(x, x, k),
    decreases k,
{
    if k > 0 {
        lemma_matches_low_refl(x, (k - 1) as nat);
    }
}

/// Two 9-bit values agreeing on their low nine bits are equal.
proof fn lemma_matches_low_eq(x: u16, y: u16)
    requires
        x < 512,
        y < 512,
        matches_low(x, y, 9),
    ensures
        x == y,
{
    assert(matches_low(x, y, 8) && bit16(x, 8) == bit16(y, 8));
    assert(matches_low(x, y, 7) && bit16(x, 7) == bit16(y, 7));
    assert(matches_low(x, y, 6) && bit16(x, 6) == bit16(y, 6));
    assert(matches_low(x, y, 5) && bit16(x, 5) == bit16(y, 5));
    assert(matches_low(x, y, 4) && bit16(x, 4) == bit16(y, 4));
    assert(matches_low(x, y, 3) && bit16(x, 3) == bit16(y, 3));
    assert(matches_low(x, y, 2) && bit16(x, 2) == bit16(y, 2));
    assert(matches_low(x, y, 1) && bit16(x, 1) == bit16(y, 1));
    assert(bit16(x, 0) == bit16(y, 0));
    lemma_bits_eq9(x, y);
}

proof fn lemma_allones_bit(l: u32)
    by (bit_vector)
    requires
        l < 32,
    ensures
        bit32(0xffff_ffffu32, l) == 1,
{
}

/// Applies a 512-entry table to all 32 cells through nine bit planes.
#[verifier::rlimit(100)]
#[verifier::spinoff_prover]
fn bitslice_apply(table: &Vec<u16>, cells: &mut Vec<u16>)
    requires
        table@.len() == 512,
        forall|v: int| 0 <= v < 512 ==> #[trigger] table@[v] < 512,
        state_wf(old(cells)@),
    ensures
        final(cells)@ =~= Seq::new(32, |i: int| table@[old(cells)@[i] as int]),
{
    let ghost cells0 = old(cells)@;
    // decompose into input bit planes
    let mut in_planes: Vec<u32> = Vec::new();
    for b in 0..9usize
        invariant
            in_planes@.len() == b,
            forall|x: int| 0 <= x < b ==> in_planes@[x] == 0u32,
    {
        in_planes.push(0u32);
    }
    proof {
        assert forall|b: int, l: u32| 0 <= b < 9 && l < 32 implies bit32(
            in_planes@[b],
            l,
        ) == 0u32 by {
            lemma_bit_of_zero32(l);
        }
    }
    for lane in 0..32usize
        invariant
            cells@ == cells0,
            state_wf(cells0),
            in_planes@.len() == 9,
            forall|b: int, l: u32|
                0 <= b < 9 && l < 32 ==> #[trigger] bit32(in_planes@[b], l) == (if (l as int)
                    < lane {
                    bit16(cells0[l as int], b as u16) as u32
                } else {
                    0u32
                }),
    {
        let v: u16 = cells[lane];
        for b in 0..9usize
            invariant
                cells@ == cells0,
                state_wf(cells0),
                lane < 32,
                v == cells0[lane as int],
                in_planes@.len() == 9,
                forall|x: int, l: u32|
                    0 <= x < 9 && l < 32 ==> #[trigger] bit32(in_planes@[x], l) == (if (x as int)
                        < b {
                        if (l as int) < lane + 1 {
                            bit16(cells0[l as int], x as u16) as u32
                        } else {
                            0u32
                        }
                    } else {
                        if (l as int) < lane {
                            bit16(cells0[l as int], x as u16) as u32
                        } else {
                            0u32
                        }
                    }),
        {
            let ghost plane_before = in_planes@[b as int];
            if (v >> (b as u16)) & 1 != 0 {
                let updated: u32 = in_planes[b] | (1u32 << (lane as u32));
                in_planes.set(b, updated);
                proof {
                    lemma_bit_le1(0u8, v, 0u32, 0u8, b as u16, 0u32);
                    assert(bit16(cells0[lane as int], b as u16) == 1);
                    assert forall|l: u32| l < 32 implies bit32(updated, l) == (if (l as int) < lane
                        + 1 {
                        bit16(cells0[l as int], b as u16) as u32
                    } else {
                        0u32
                    }) by {
                        lemma_bit_or32(plane_before, 1u32 << (lane as u32), l);
                        lemma_bit_onehot32(lane as u32, l);
                    }
                }
            } else {
                proof {
                    lemma_bit_le1(0u8, v, 0u32, 0u8, b as u16, 0u32);
                    assert(bit16(cells0[lane as int], b as u16) == 0);
                    assert forall|l: u32| l < 32 implies bit32(plane_before, l) == (if (l as int)
                        < lane + 1 {
                        bit16(cells0[l as int], b as u16) as u32
                    } else {
                        0u32
                    }) by {
                    }
                }
            }
        }
    }
    // accumulate the output planes over every candidate value
    let mut out_planes: Vec<u32> = Vec::new();
    for b in 0..9usize
        invariant
            out_planes@.len() == b,
            forall|x: int| 0 <= x < b ==> out_planes@[x] == 0u32,
    {
        out_planes.push(0u32);
    }
    proof {
        assert forall|b: int, l: u32| 0 <= b < 9 && l < 32 implies bit32(
            out_planes@[b],
            l,
        ) == 0u32 by {
            lemma_bit_of_zero32(l);
        }
    }
    for v in 0..512usize
        invariant
            cells@ == cells0,
            state_wf(cells0),
            table@.len() == 512,
            forall|x: int| 0 <= x < 512 ==> #[trigger] table@[x] < 512,
            in_planes@.len() == 9,
            out_planes@.len() == 9,
            forall|b: int, l: u32|
                0 <= b < 9 && l < 32 ==> #[trigger] bit32(in_planes@[b], l) == bit16(
                    cells0[l as int],
                    b as u16,
                ) as u32,
            forall|b: int, l: u32|
                0 <= b < 9 && l < 32 ==> #[trigger] bit32(out_planes@[b], l) == (if (
                cells0[l as int] as int) < v {
                    bit16(table@[cells0[l as int] as int], b as u16) as u32
                } else {
                    0u32
                }),
    {
        let vv: u16 = v as u16;
        let mut mask: u32 = 0xffff_ffff;
        proof {
            assert forall|l: u32| l < 32 implies bit32(mask, l) == (if matches_low(
                cells0[l as int],
                vv,
                0,
            ) {
                1u32
            } else {
                0u32
            }) by {
                lemma_allones_bit(l);
            }
        }
        for b in 0..9usize
            invariant
                cells@ == cells0,
                state_wf(cells0),
                vv == v as u16,
                in_planes@.len() == 9,
                forall|x: int, l: u32|
                    0 <= x < 9 && l < 32 ==> #[trigger] bit32(in_planes@[x], l) == bit16(
                        cells0[l as int],
                        x as u16,
                    ) as u32,
                forall|l: u32|
                    l < 32 ==> #[trigger] bit32(mask, l) == (if matches_low(
                        cells0[l as int],
                        vv,
                        b as nat,
                    ) {
                        1u32
                    } else {
                        0u32
                    }),
        {
            let ghost mask_before = mask;
            let bit_is_one: bool = (vv >> (b as u16)) & 1 != 0;
            if bit_is_one {
                mask = mask & in_planes[b];
            } else {
                mask = mask & !in_planes[b];
            }
            proof {
                assert forall|l: u32| l < 32 implies bit32(mask, l) == (if matches_low(
                    cells0[l as int],
                    vv,
                    (b + 1) as nat,
                ) {
                    1u32
                } else {
                    0u32
                }) by {
                    lemma_bit_le1(0u8, cells0[l as int], 0u32, 0u8, b as u16, 0u32);
                    lemma_bit_le1(0u8, vv, 0u32, 0u8, b as u16, 0u32);
                    assert(matches_low(cells0[l as int], vv, (b + 1) as nat) == (matches_low(
                        cells0[l as int],
                        vv,
                        b as nat,
                    ) && bit16(cells0[l as int], b as u16) == bit16(vv, b as u16)));
                    if bit_is_one {
                        lemma_bit_and32(mask_before, in_planes@[b as int], l);
                        assert(bit16(vv, b as u16) == 1);
                    } else {
                        lemma_bit_and32(mask_before, !in_planes@[b as int], l);
                        lemma_bit_not32(in_planes@[b as int], l);
                        assert(bit16(vv, b as u16) == 0);
                    }
                }
            }
        }
        proof {
            assert forall|l: u32| l < 32 implies bit32(mask, l) == (if cells0[l as int] == vv {
                1u32
            } else {
                0u32
            }) by {
                if cells0[l as int] == vv {
                    lemma_matches_low_refl(vv, 9);
                } else {
                    if matches_low(cells0[l as int], vv, 9) {
                        lemma_matches_low_eq(cells0[l as int], vv);
                    }
                }
            }
        }
        if mask != 0 {
            let s: u16 = table[v];
            for b in 0..9usize
                invariant
                    cells@ == cells0,
                    state_wf(cells0),
                    v < 512,
                    vv == v as u16,
                    s == table@[v as int],
                    table@.len() == 512,
                    forall|x: int| 0 <= x < 512 ==> #[trigger] table@[x] < 512,
                    out_planes@.len() == 9,
                    forall|l: u32|
                        l < 32 ==> #[trigger] bit32(mask, l) == (if cells0[l as int] == vv {
                            1u32
                        } else {
                            0u32
                        }),
                    forall|x: int, l: u32|
                        0 <= x < 9 && l < 32 ==> #[trigger] bit32(out_planes@[x], l) == (if (
                        x as int) < b {
                            if (cells0[l as int] as int) < v + 1 {
                                bit16(table@[cells0[l as int] as int], x as u16) as u32
                            } else {
                                0u32
                            }
                        } else {
                            if (cells0[l as int] as int) < v {
                                bit16(table@[cells0[l as int] as int], x as u16) as u32
                            } else {
                                0u32
                            }
                        }),
            {
                let ghost plane_before = out_planes@[b as int];
                if (s >> (b as u16)) & 1 != 0 {
                    let updated: u32 = out_planes[b] | mask;
                    out_planes.set(b, updated);
                    proof {
                        assert forall|l: u32| l < 32 implies bit32(updated, l) == (if (
                        cells0[l as int] as int) < v + 1 {
                            bit16(table@[cells0[l as int] as int], b as u16) as u32
                        } else {
                            0u32
                        }) by {
                            lemma_bit_or32(plane_before, mask, l);
                            lemma_bit_le1(0u8, s, 0u32, 0u8, b as u16, 0u32);
                            if cells0[l as int] == vv {
                                assert(cells0[l as int] as int == v);
                                assert(bit16(s, b as u16) == 1);
                            }
                        }
                    }
                } else {
                    proof {
                        assert forall|l: u32| l < 32 implies bit32(plane_before, l) == (if (
                        cells0[l as int] as int) < v + 1 {
                            bit16(table@[cells0[l as int] as int], b as u16) as u32
                        } else {
                            0u32
                        }) by {
                            lemma_bit_le1(0u8, s, 0u32, 0u8, b as u16, 0u32);
                            if cells0[l as int] == vv {
                                assert(cells0[l as int] as int == v);
                                assert(bit16(s, b as u16) == 0);
                            }
                        }
                    }
                }
            }
        } else {
            proof {
                assert forall|b: int, l: u32| 0 <= b < 9 && l < 32 implies bit32(
                    out_planes@[b],
                    l,
                ) == (if (cells0[l as int] as int) < v + 1 {
                    bit16(table@[cells0[l as int] as int], b as u16) as u32
                } else {
                    0u32
                }) by {
                    lemma_bit_of_zero32(l);
                    if cells0[l as int] == vv {
                        assert(bit32(mask, l) == 1u32);
                        assert(false);
                    }
                }
            }
        }
    }
    // recompose the cells from the output planes
    for lane in 0..32usize
        invariant
            cells@.len() == 32,
            state_wf(cells0),
            table@.len() == 512,
            forall|x: int| 0 <= x < 512 ==> #[trigger] table@[x] < 512,
            out_planes@.len() == 9,
            forall|b: int, l: u32|
                0 <= b < 9 && l < 32 ==> #[trigger] bit32(out_planes@[b], l) == bit16(
                    table@[cells0[l as int] as int],
                    b as u16,
                ) as u32,
            forall|j: int| 0 <= j < lane ==> cells@[j] == table@[cells0[j] as int],
            forall|j: int| lane <= j < 32 ==> cells@[j] == cells0[j],
    {
        let mut val: u16 = 0;
        proof {
            assert(0u16 < (1u16 << 0u16)) by (bit_vector);
            assert forall|d: u16| d < 9 implies #[trigger] bit16(0u16, d) == 0u16 by {
                crate::bits::lemma_bit_of_zero16(d);
            }
        }
        for b in 0..9usize
            invariant
                lane < 32,
                out_planes@.len() == 9,
                b < 9 ==> val < (1u16 << (b as u16)),
                b == 9 ==> val < 512,
                forall|d: u16|
                    d < 9 ==> #[trigger] bit16(val, d) == (if (d as int) < b {
                        bit32(out_planes@[d as int], lane as u32) as u16
                    } else {
                        0u16
                    }),
        {
            let ghost val_before = val;
            let bit: u16 = ((out_planes[b] >> (lane as u32)) & 1) as u16;
            val = val | (bit << (b as u16));
            proof {
                lemma_bit_le1(0u8, 0u16, out_planes@[b as int], 0u8, 0u16, lane as u32);
                assert forall|d: u16| d < 9 implies #[trigger] bit16(val, d) == (if (d as int) < b
                    + 1 {
                    bit32(out_planes@[d as int], lane as u32) as u16
                } else {
                    0u16
                }) by {
                    lemma_bit_append16(val_before, bit, b as u16, d);
                }
                lemma_bit_append16(val_before, bit, b as u16, 0);
                assert((1u16 << 9u16) == 512) by (bit_vector);
            }
        }
        proof {
            let expected = table@[cells0[lane as int] as int];
            assert forall|d: u16| d < 9 implies #[trigger] bit16(val, d) == bit16(
                expected,
                d,
            ) by {
                assert(bit16(val, d) == bit32(out_planes@[d as int], lane as u32) as u16);
            }
            lemma_bits_eq9(val, expected);
        }
        cells.set(lane, val);
    }
}

/// Constant-time substitution of all 32 cells: identical output to the
/// table-mode `subcells_32`.
pub fn subcells_bitslice_32(t: &Tables, cells: &mut Vec<u16>)
    requires
        t@.wf_lens(),
        t@.wf_ranges(),
        state_wf(old(cells)@),
    ensures
        final(cells)@ == sub_spec(t@, old(cells)@),
{
    proof {
        crate::tables::lemma_ranges_at(t@, 0);
        assert forall|v: int| 0 <= v < 512 implies #[trigger] t.sbox@[v] < 512 by {
            crate::tables::lemma_ranges_at(t@, v);
        }
    }
    bitslice_apply(&t.sbox, cells);
    proof {
        assert(cells@ =~= sub_spec(t@, old(cells)@));
    }
}

/// Constant-time inverse substitution of all 32 cells: identical output to
/// the table-mode `inv_subcells_32`.
pub fn inv_subcells_bitslice_32(t: &Tables, cells: &mut Vec<u16>)
    requires
        t@.wf_lens(),
        t@.wf_ranges(),
        state_wf(old(cells)@),
    ensures
        final(cells)@ == inv_sub_spec(t@, old(cells)@),
{
    proof {
        assert forall|v: int| 0 <= v < 512 implies #[trigger] t.inv_sbox@[v] < 512 by {
            crate::tables::lemma_ranges_at(t@, v);
        }
    }
    bitslice_apply(&t.inv_sbox, cells);
    proof {
        assert(cells@ =~= inv_sub_spec(t@, old(cells)@));
    }
}

} // verus!
