//! The key schedule: a 320-bit ASCON-style sponge absorbs the 256-bit master
//! key and emits 24 round keys, each a 288-bit mask, a permutation of the
//! nine direction indices, and a 3-bit vortex shift.
use vstd::prelude::*;

use crate::state::{unpack_spec, unpack_state};
use vstd::wrapping::u64_specs;

verus! {

/// Round constants of the sponge permutation.
pub const RC: [u64; 12] = [0xF0, 0xE1, 0xD2, 0xC3, 0xB4, 0xA5, 0x96, 0x87, 0x78, 0x69, 0x5A, 0x4B];

/// The sponge initialization constant.
pub const SPONGE_IV: u64 = 0x80400c0600000000;

/// Right rotation of a 64-bit lane by a fixed amount.
pub open spec fn rotr64(x: u64, n: u64) -> u64 {
    (x >> n) | (x << ((64 - n) as u64))
}

/// One sponge round: constant addition, the 5-lane substitution, and the
/// per-lane linear diffusion.
pub open spec fn ascon_round_spec(s: Seq<u64>, rc: u64) -> Seq<u64> {
    let a2 = s[2] ^ rc;
    let b0 = s[0] ^ s[4];
    let b4 = s[4] ^ s[3];
    let b2 = a2 ^ s[1];
    let t0 = b0 ^ (!s[1] & b2);
    let t1 = s[1] ^ (!b2 & s[3]);
    let t2 = b2 ^ (!s[3] & b4);
    let t3 = s[3] ^ (!b4 & b0);
    let t4 = b4 ^ (!b0 & s[1]);
    let c1 = t1 ^ t0;
    let c0 = t0 ^ t4;
    let c3 = t3 ^ t2;
    let c2 = !t2;
    let d0 = c0 ^ (rotr64(c0, 19) ^ rotr64(c0, 28));
    let d1 = c1 ^ (rotr64(c1, 61) ^ rotr64(c1, 39));
    let d2 = c2 ^ (rotr64(c2, 1) ^ rotr64(c2, 6));
    let d3 = c3 ^ (rotr64(c3, 10) ^ rotr64(c3, 17));
    let c4 = t4;
    let d4 = c4 ^ (rotr64(c4, 7) ^ rotr64(c4, 41));
    seq![d0, d1, d2, d3, d4]
}

/// `n` trailing rounds of the 12-round permutation.
pub open spec fn ascon_p_spec(s: Seq<u64>, n: nat) -> Seq<u64>
    decreases n,
{
    if n == 0 {
        s
    } else {
        ascon_p_spec(ascon_round_spec(s, RC@[12 - n]), (n - 1) as nat)
    }
}

/// One update of the shuffle hash.
pub open spec fn perm_hash_step(h: u64) -> u64 {
    u64_specs::wrapping_mul(h, 0x517cc1b727220a95) ^ (h >> 31)
}

/// The seeded downward Fisher-Yates shuffle over the nine directions.
pub open spec fn gp_rec(p: Seq<u8>, h: u64, i: nat) -> Seq<u8>
    decreases i,
{
    if i == 0 {
        p
    } else {
        let h2 = perm_hash_step(h);
        let j = (h2 % ((i + 1) as u64)) as int;
        gp_rec(p.update(i as int, p[j]).update(j, p[i as int]), h2, (i - 1) as nat)
    }
}

pub open spec fn ident_perm() -> Seq<u8> {
    seq![0u8, 1u8, 2u8, 3u8, 4u8, 5u8, 6u8, 7u8, 8u8]
}

/// The direction permutation derived from a 64-bit seed.
pub open spec fn generate_perm_spec(seed: u64) -> Seq<u8> {
    gp_rec(ident_perm(), seed, 8)
}

/// Byte `j` of a little-endian serialized lane.
pub open spec fn lane_byte(x: u64, j: int) -> u8 {
    if j == 0 {
        (x & 0xff) as u8
    } else if j == 1 {
        ((x >> 8u64) & 0xff) as u8
    } else if j == 2 {
        ((x >> 16u64) & 0xff) as u8
    } else if j == 3 {
        ((x >> 24u64) & 0xff) as u8
    } else if j == 4 {
        ((x >> 32u64) & 0xff) as u8
    } else if j == 5 {
        ((x >> 40u64) & 0xff) as u8
    } else if j == 6 {
        ((x >> 48u64) & 0xff) as u8
    } else {
        ((x >> 56u64) & 0xff) as u8
    }
}

/// A 64-bit lane read little-endian from 8 bytes at `off`.
pub open spec fn lane_from_le(b: Seq<u8>, off: int) -> u64 {
    (b[off] + b[off + 1] * 0x100 + b[off + 2] * 0x1_0000 + b[off + 3] * 0x100_0000 + b[off + 4]
        * 0x1_0000_0000 + b[off + 5] * 0x100_0000_0000 + b[off + 6] * 0x1_0000_0000_0000 + b[off
        + 7] * 0x100_0000_0000_0000) as u64
}

/// The sponge state seeded with the master key.
pub open spec fn sponge_init(key: Seq<u8>) -> Seq<u64> {
    seq![
        SPONGE_IV,
        lane_from_le(key, 0),
        lane_from_le(key, 8),
        lane_from_le(key, 16),
        lane_from_le(key, 24),
    ]
}

/// The sponge state after the initial permutation and `k` further ones.
pub open spec fn ks_state(key: Seq<u8>, k: nat) -> Seq<u64>
    decreases k,
{
    if k == 0 {
        ascon_p_spec(sponge_init(key), 12)
    } else {
        ascon_p_spec(ks_state(key, (k - 1) as nat), 12)
    }
}

/// The first 36 bytes of the serialized sponge state.
pub open spec fn mask_bytes(s: Seq<u64>) -> Seq<u8> {
    Seq::new(36, |j: int| lane_byte(s[j / 8], j % 8))
}

/// The mathematical contents of one round key.
#[verifier::ext_equal]
pub ghost struct SpecRoundKey {
    pub mask: Seq<u16>,
    pub perm: Seq<u8>,
    pub shift: u16,
}

impl SpecRoundKey {
    pub open spec fn wf(self) -> bool {
        &&& self.mask.len() == 32
        &&& forall|i: int| 0 <= i < 32 ==> #[trigger] self.mask[i] < 512
        &&& self.perm.len() == 9
        &&& forall|d: int| 0 <= d < 9 ==> #[trigger] self.perm[d] < 9
        &&& self.shift < 8
    }
}

/// Round key `r` derived from the master key.
pub open spec fn round_key_spec(key: Seq<u8>, r: int) -> SpecRoundKey {
    let s = ks_state(key, (r + 1) as nat);
    SpecRoundKey {
        mask: unpack_spec(mask_bytes(s)),
        perm: generate_perm_spec(s[0] ^ s[1]),
        shift: (s[0] & 7) as u16,
    }
}

/// The full ordered schedule of 24 round keys.
pub open spec fn key_schedule_spec(key: Seq<u8>) -> Seq<SpecRoundKey> {
    Seq::new(24, |r: int| round_key_spec(key, r))
}

/// One round key: the 288-bit mask as 32 cells, the direction permutation,
/// and the vortex shift.
pub struct RoundKey {
    pub mask: Vec<u16>,
    pub perm: Vec<u8>,
    pub shift: u16,
}

impl View for RoundKey {
    type V = SpecRoundKey;

    open spec fn view(&self) -> SpecRoundKey {
        SpecRoundKey { mask: self.mask@, perm: self.perm@, shift: self.shift }
    }
}

/// One sponge round over the five lanes.
fn ascon_round(s: &mut Vec<u64>, rc: u64)
    requires
        old(s)@.len() == 5,
    ensures
        final(s)@.len() == 5,
        final(s)@ == ascon_round_spec(old(s)@, rc),
{
    let s0: u64 = s[0];
    let s1: u64 = s[1];
    let s2: u64 = s[2];
    let s3: u64 = s[3];
    let s4: u64 = s[4];
    let a2: u64 = s2 ^ rc;
    let b0: u64 = s0 ^ s4;
    let b4: u64 = s4 ^ s3;
    let b2: u64 = a2 ^ s1;
    let t0: u64 = b0 ^ (!s1 & b2);
    let t1: u64 = s1 ^ (!b2 & s3);
    let t2: u64 = b2 ^ (!s3 & b4);
    let t3: u64 = s3 ^ (!b4 & b0);
    let t4: u64 = b4 ^ (!b0 & s1);
    let c1: u64 = t1 ^ t0;
    let c0: u64 = t0 ^ t4;
    let c3: u64 = t3 ^ t2;
    let c2: u64 = !t2;
    let c4: u64 = t4;
    let d0: u64 = c0 ^ (((c0 >> 19u64) | (c0 << 45u64)) ^ ((c0 >> 28u64) | (c0 << 36u64)));
    let d1: u64 = c1 ^ (((c1 >> 61u64) | (c1 << 3u64)) ^ ((c1 >> 39u64) | (c1 << 25u64)));
    let d2: u64 = c2 ^ (((c2 >> 1u64) | (c2 << 63u64)) ^ ((c2 >> 6u64) | (c2 << 58u64)));
    let d3: u64 = c3 ^ (((c3 >> 10u64) | (c3 << 54u64)) ^ ((c3 >> 17u64) | (c3 << 47u64)));
    let d4: u64 = c4 ^ (((c4 >> 7u64) | (c4 << 57u64)) ^ ((c4 >> 41u64) | (c4 << 23u64)));
    s.set(0, d0);
    s.set(1, d1);
    s.set(2, d2);
    s.set(3, d3);
    s.set(4, d4);
    proof {
        assert(s@ =~= ascon_round_spec(old(s)@, rc));
    }
}

/// The trailing `rnds` rounds of the 12-round sponge permutation.
fn ascon_p(state: &mut Vec<u64>, rnds: usize)
    requires
        old(state)@.len() == 5,
        rnds <= 12,
    ensures
        final(state)@.len() == 5,
        final(state)@ == ascon_p_spec(old(state)@, rnds as nat),
{
    let start: usize = 12 - rnds;
    for i in start..12usize
        invariant
            state@.len() == 5,
            12 - rnds == start,
            ascon_p_spec(old(state)@, rnds as nat) == ascon_p_spec(state@, (12 - i) as nat),
    {
        ascon_round(state, RC[i]);
    }
}

/// The seeded shuffle of the nine direction indices.
pub fn generate_perm(seed: u64) -> (p: Vec<u8>)
    ensures
        p@ == generate_perm_spec(seed),
        p@.len() == 9,
        forall|d: int| 0 <= d < 9 ==> #[trigger] p@[d] < 9,
{
    let mut p: Vec<u8> = Vec::new();
    p.push(0);
    p.push(1);
    p.push(2);
    p.push(3);
    p.push(4);
    p.push(5);
    p.push(6);
    p.push(7);
    p.push(8);
    proof {
        assert(p@ =~= ident_perm());
    }
    let mut hash: u64 = seed;
    let mut i: usize = 8;
    while i >= 1
        invariant
            p@.len() == 9,
            i <= 8,
            forall|d: int| 0 <= d < 9 ==> #[trigger] p@[d] < 9,
            generate_perm_spec(seed) == gp_rec(p@, hash, i as nat),
        decreases i,
    {
        let ghost old_p = p@;
        let ghost old_hash = hash;
        let h2: u64 = hash.wrapping_mul(0x517cc1b727220a95) ^ (hash >> 31);
        let j: usize = (h2 % ((i + 1) as u64)) as usize;
        proof {
            assert(h2 % ((i + 1) as u64) < (i + 1) as u64);
        }
        let pi: u8 = p[i];
        let pj: u8 = p[j];
        p.set(i, pj);
        p.set(j, pi);
        hash = h2;
        proof {
            assert(h2 == perm_hash_step(old_hash));
            assert(p@ == old_p.update(i as int, old_p[j as int]).update(j as int, old_p[i as int]));
            assert(gp_rec(old_p, old_hash, i as nat) == gp_rec(p@, h2, (i - 1) as nat));
        }
        i = i - 1;
    }
    p
}

/// Derives the 24 round keys from a 32-byte master key.
pub fn key_schedule(master_key: &[u8]) -> (keys: Vec<RoundKey>)
    requires
        master_key@.len() == 32,
    ensures
        keys@.len() == 24,
        forall|r: int| 0 <= r < 24 ==> #[trigger] keys@[r]@ == key_schedule_spec(master_key@)[r],
        forall|r: int| 0 <= r < 24 ==> (#[trigger] keys@[r]@).wf(),
{
    let k0: u64 = read_lane(master_key, 0);
    let k1: u64 = read_lane(master_key, 8);
    let k2: u64 = read_lane(master_key, 16);
    let k3: u64 = read_lane(master_key, 24);
    let mut s: Vec<u64> = Vec::new();
    s.push(SPONGE_IV);
    s.push(k0);
    s.push(k1);
    s.push(k2);
    s.push(k3);
    proof {
        assert(s@ =~= sponge_init(master_key@));
    }
    ascon_p(&mut s, 12);
    proof {
        assert(s@ == ks_state(master_key@, 0));
    }
    let mut keys: Vec<RoundKey> = Vec::new();
    for r in 0..24usize
        invariant
            s@.len() == 5,
            master_key@.len() == 32,
            s@ == ks_state(master_key@, r as nat),
            keys@.len() == r,
            forall|x: int| 0 <= x < r ==> #[trigger] keys@[x]@ == round_key_spec(master_key@, x),
            forall|x: int| 0 <= x < r ==> (#[trigger] keys@[x]@).wf(),
    {
        ascon_p(&mut s, 12);
        proof {
            assert(s@ == ks_state(master_key@, (r + 1) as nat));
        }
        let s0val: u64 = s[0];
        let shift: u16 = (s0val & 0x7) as u16;
        proof {
            assert(s0val & 0x7 < 8) by (bit_vector);
        }
        let perm = generate_perm(s[0] ^ s[1]);
        let mut mask_b: Vec<u8> = Vec::new();
        for j in 0..36usize
            invariant
                s@.len() == 5,
                mask_b@.len() == j,
                forall|x: int| 0 <= x < j ==> mask_b@[x] == mask_bytes(s@)[x],
        {
            proof {
                crate::state::lemma_pos_div_mod(j as int, 8);
            }
            let lane: u64 = s[j / 8];
            let sh: usize = 8 * (j % 8);
            let byte: u8 = ((lane >> (sh as u64)) & 0xff) as u8;
            proof {
                lemma_lane_byte_shift(lane, (j % 8) as int);
            }
            mask_b.push(byte);
        }
        proof {
            assert(mask_b@ =~= mask_bytes(s@));
        }
        let mask = unpack_state(&mask_b);
        let rk = RoundKey { mask, perm, shift };
        proof {
            assert(rk@ =~= round_key_spec(master_key@, r as int));
        }
        keys.push(rk);
    }
    proof {
        assert forall|r: int| 0 <= r < 24 implies #[trigger] keys@[r]@ == key_schedule_spec(
            master_key@,
        )[r] by {
        }
    }
    keys
}

/// The generic shifted byte agrees with the per-index serialization spec.
proof fn lemma_lane_byte_shift(x: u64, j: int)
    requires
        0 <= j < 8,
    ensures
        ((x >> ((8 * j) as u64)) & 0xff) as u8 == lane_byte(x, j),
{
    if j == 0 {
        assert(((x >> 0u64) & 0xff) == (x & 0xff)) by (bit_vector);
    }
}

/// Reads a 64-bit little-endian lane from 8 bytes at `off`.
fn read_lane(b: &[u8], off: usize) -> (x: u64)
    requires
        off + 8 <= b@.len(),
    ensures
        x == lane_from_le(b@, off as int),
{
    (b[off] as u64) + (b[off + 1] as u64) * 0x100 + (b[off + 2] as u64) * 0x1_0000 + (b[off
        + 3] as u64) * 0x100_0000 + (b[off + 4] as u64) * 0x1_0000_0000 + (b[off + 5] as u64)
        * 0x100_0000_0000 + (b[off + 6] as u64) * 0x1_0000_0000_0000 + (b[off + 7] as u64)
        * 0x100_0000_0000_0000
}

} // verus!
