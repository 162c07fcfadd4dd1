//! Measurement helpers for the avalanche and diffusion analyses: Hamming
//! distance between byte strings, a hex rendering, and the per-message
//! avalanche sweep that flips each plaintext bit and measures the ciphertext
//! distance.
use vstd::prelude::*;

use crate::bits::bit8;
use crate::ctx::{encrypt_block_ctx, encrypt_block_spec, CipherCtx};
use vstd::string::StringExecFns;

verus! {

/// The number of set bits among the low `k` bits of a byte.
pub open spec fn popcount8(v: u8, k: nat) -> nat
    decreases k,
{
    if k == 0 {
        0nat
    } else {
        popcount8(v, (k - 1) as nat) + (bit8(v, (k - 1) as u8) as nat)
    }
}

/// The Hamming distance over the first `n` byte pairs.
pub open spec fn hamming_rec(a: Seq<u8>, b: Seq<u8>, n: nat) -> nat
    decreases n,
{
    if n == 0 {
        0nat
    } else {
        hamming_rec(a, b, (n - 1) as nat) + popcount8(a[n - 1] ^ b[n - 1], 8)
    }
}

/// The number of byte pairs two strings are compared over: the shorter
/// length; bytes of the longer string beyond it are ignored.
pub open spec fn common_len(a: Seq<u8>, b: Seq<u8>) -> nat {
    if a.len() <= b.len() {
        a.len()
    } else {
        b.len()
    }
}

/// Counts the bit positions at which two byte strings differ, over their
/// common prefix.
pub fn hamming_distance(a: &[u8], b: &[u8]) -> (r: u32)
    requires
        common_len(a@, b@) <= 0x0800_0000,
    ensures
        r == hamming_rec(a@, b@, common_len(a@, b@)),
{
    let mut cnt: u32 = 0;
    let n: usize = if a.len() <= b.len() {
        a.len()
    } else {
        b.len()
    };
    for i in 0..n
        invariant
            n == common_len(a@, b@),
            n <= a@.len(),
            n <= b@.len(),
            n <= 0x0800_0000,
            cnt == hamming_rec(a@, b@, i as nat),
            cnt <= 8 * i,
    {
        let x: u8 = a[i] ^ b[i];
        let mut c: u32 = 0;
        for k in 0..8usize
            invariant
                c == popcount8(x, k as nat),
                c <= k,
        {
            proof {
                crate::bits::lemma_bit_le1(x, 0u16, 0u32, k as u8, 0u16, 0u32);
            }
            c = c + (((x >> (k as u8)) & 1) as u32);
        }
        cnt = cnt + c;
    }
    cnt
}

/// The lower-case hex digit for a nibble.
pub open spec fn hex_digit(n: int) -> char {
    if n == 0 {
        '0'
    } else if n == 1 {
        '1'
    } else if n == 2 {
        '2'
    } else if n == 3 {
        '3'
    } else if n == 4 {
        '4'
    } else if n == 5 {
        '5'
    } else if n == 6 {
        '6'
    } else if n == 7 {
        '7'
    } else if n == 8 {
        '8'
    } else if n == 9 {
        '9'
    } else if n == 10 {
        'a'
    } else if n == 11 {
        'b'
    } else if n == 12 {
        'c'
    } else if n == 13 {
        'd'
    } else if n == 14 {
        'e'
    } else {
        'f'
    }
}

/// The space-separated hex rendering of the first `n` bytes.
pub open spec fn hex_chars(b: Seq<u8>, n: nat) -> Seq<char>
    decreases n,
{
    if n == 0 {
        Seq::empty()
    } else {
        let prev = hex_chars(b, (n - 1) as nat);
        let sep: Seq<char> = if n == 1 {
            Seq::empty()
        } else {
            seq![' ']
        };
        prev + sep + seq![
            hex_digit((b[n - 1] >> 4u8) as int),
            hex_digit((b[n - 1] & 0xf) as int),
        ]
    }
}

/// The hex digit as a one-character string slice.
fn hex_digit_str(n: u8) -> (r: &'static str)
    requires
        n < 16,
    ensures
        r@ =~= seq![hex_digit(n as int)],
{
    proof {
        reveal_strlit("0");
        reveal_strlit("1");
        reveal_strlit("2");
        reveal_strlit("3");
        reveal_strlit("4");
        reveal_strlit("5");
        reveal_strlit("6");
        reveal_strlit("7");
        reveal_strlit("8");
        reveal_strlit("9");
        reveal_strlit("a");
        reveal_strlit("b");
        reveal_strlit("c");
        reveal_strlit("d");
        reveal_strlit("e");
        reveal_strlit("f");
    }
    if n == 0 {
        "0"
    } else if n == 1 {
        "1"
    } else if n == 2 {
        "2"
    } else if n == 3 {
        "3"
    } else if n == 4 {
        "4"
    } else if n == 5 {
        "5"
    } else if n == 6 {
        "6"
    } else if n == 7 {
        "7"
    } else if n == 8 {
        "8"
    } else if n == 9 {
        "9"
    } else if n == 10 {
        "a"
    } else if n == 11 {
        "b"
    } else if n == 12 {
        "c"
    } else if n == 13 {
        "d"
    } else if n == 14 {
        "e"
    } else {
        "f"
    }
}

/// Renders bytes as space-separated lower-case hex pairs.
pub fn bytes_to_hex(bytes: &[u8]) -> (r: String)
    ensures
        r@ == hex_chars(bytes@, bytes@.len()),
{
    let mut s: String = String::new();
    let n: usize = bytes.len();
    proof {
        reveal_strlit(" ");
    }
    for i in 0..n
        invariant
            n == bytes@.len(),
            s@ == hex_chars(bytes@, i as nat),
    {
        proof {
            reveal_strlit(" ");
        }
        if i > 0 {
            s.append(" ");
        }
        let bv: u8 = bytes[i];
        let hi: u8 = bv >> 4;
        let lo: u8 = bv & 0xf;
        proof {
            assert(hi < 16 && lo < 16) by (bit_vector)
                requires
                    hi == bv >> 4u8 && lo == bv & 0xf,
            ;
        }
        s.append(hex_digit_str(hi));
        s.append(hex_digit_str(lo));
        proof {
            assert(s@ =~= hex_chars(bytes@, (i + 1) as nat));
        }
    }
    s
}


/// The message with bit `k` of its bit stream flipped.
pub open spec fn flip_bit_spec(msg: Seq<u8>, k: int) -> Seq<u8> {
    msg.update(k / 8, msg[k / 8] ^ (1u8 << ((k % 8) as u8)))
}

/// How many of the first `n` distances are zero.
pub open spec fn zero_count(dists: Seq<u32>, n: nat) -> nat
    decreases n,
{
    if n == 0 {
        0nat
    } else {
        zero_count(dists, (n - 1) as nat) + (if dists[n - 1] == 0 {
            1nat
        } else {
            0nat
        })
    }
}

/// Flips every one of the 256 plaintext bits in turn, encrypts, and
/// reports the ciphertext Hamming distance for each flip, together with a
/// hex-rendered record of every zero-distance case.
pub fn run_avalanche_for_message(ctx: &CipherCtx, msg: &[u8]) -> (r: (
    Vec<u32>,
    Vec<(usize, String, String, String, String)>,
))
    requires
        ctx.wf(),
        msg@.len() == 32,
    ensures
        r.0@.len() == 256,
        forall|k: int|
            0 <= k < 256 ==> r.0@[k] == hamming_rec(
                encrypt_block_spec(ctx.tables@, ctx.keys(), msg@),
                encrypt_block_spec(ctx.tables@, ctx.keys(), flip_bit_spec(msg@, k)),
                36,
            ),
        r.1@.len() == zero_count(r.0@, 256),
        forall|e: int|
            0 <= e < r.1@.len() ==> {
                let entry = #[trigger] r.1@[e];
                &&& entry.0 < 256
                &&& r.0@[entry.0 as int] == 0
                &&& entry.1@ == hex_chars(msg@, 32)
                &&& entry.2@ == hex_chars(flip_bit_spec(msg@, entry.0 as int), 32)
                &&& entry.3@ == hex_chars(
                    encrypt_block_spec(ctx.tables@, ctx.keys(), msg@),
                    36,
                )
                &&& entry.4@ == hex_chars(
                    encrypt_block_spec(ctx.tables@, ctx.keys(), flip_bit_spec(msg@, entry.0 as int)),
                    36,
                )
            },
{
    let ghost tb = ctx.tables@;
    let ghost keys = ctx.keys();
    let base_ct = encrypt_block_ctx(ctx, msg);
    let pt_hex = bytes_to_hex(msg);
    let base_hex = bytes_to_hex(base_ct.as_slice());
    let mut dists: Vec<u32> = Vec::new();
    let mut zero_cases: Vec<(usize, String, String, String, String)> = Vec::new();
    for k in 0..256usize
        invariant
            ctx.wf(),
            tb == ctx.tables@,
            keys == ctx.keys(),
            msg@.len() == 32,
            base_ct@ == encrypt_block_spec(tb, keys, msg@),
            base_ct@.len() == 36,
            pt_hex@ == hex_chars(msg@, 32),
            base_hex@ == hex_chars(base_ct@, 36),
            dists@.len() == k,
            forall|j: int|
                0 <= j < k ==> dists@[j] == hamming_rec(
                    encrypt_block_spec(tb, keys, msg@),
                    encrypt_block_spec(tb, keys, flip_bit_spec(msg@, j)),
                    36,
                ),
            zero_cases@.len() == zero_count(dists@, k as nat),
            forall|e: int|
                0 <= e < zero_cases@.len() ==> {
                    let entry = #[trigger] zero_cases@[e];
                    &&& entry.0 < k
                    &&& dists@[entry.0 as int] == 0
                    &&& entry.1@ == hex_chars(msg@, 32)
                    &&& entry.2@ == hex_chars(flip_bit_spec(msg@, entry.0 as int), 32)
                    &&& entry.3@ == hex_chars(encrypt_block_spec(tb, keys, msg@), 36)
                    &&& entry.4@ == hex_chars(
                        encrypt_block_spec(tb, keys, flip_bit_spec(msg@, entry.0 as int)),
                        36,
                    )
                },
    {
        let mut flipped: Vec<u8> = Vec::new();
        for i in 0..32usize
            invariant
                msg@.len() == 32,
                flipped@.len() == i,
                forall|j: int| 0 <= j < i ==> flipped@[j] == msg@[j],
        {
            flipped.push(msg[i]);
        }
        let byte_idx: usize = k / 8;
        let bit_idx: usize = k % 8;
        proof {
            crate::state::lemma_pos_div_mod(k as int, 8);
        }
        let fv: u8 = flipped[byte_idx] ^ (1u8 << (bit_idx as u8));
        flipped.set(byte_idx, fv);
        proof {
            assert(flipped@ =~= flip_bit_spec(msg@, k as int));
        }
        let flip_ct = encrypt_block_ctx(ctx, flipped.as_slice());
        let dist: u32 = hamming_distance(base_ct.as_slice(), flip_ct.as_slice());
        proof {
            assert(common_len(base_ct@, flip_ct@) == 36);
        }
        let ghost dists_before = dists@;
        dists.push(dist);
        proof {
            lemma_zero_count_prefix(dists_before, dists@, k as nat);
            assert(zero_count(dists@, (k + 1) as nat) == zero_count(dists@, k as nat) + (
            if dists@[k as int] == 0 {
                1nat
            } else {
                0nat
            }));
        }
        if dist == 0 {
            let flip_pt_hex = bytes_to_hex(flipped.as_slice());
            let flip_ct_hex = bytes_to_hex(flip_ct.as_slice());
            zero_cases.push(
                (k, pt_hex.clone(), flip_pt_hex, base_hex.clone(), flip_ct_hex),
            );
        }
    }
    (dists, zero_cases)
}

/// Prefix agreement keeps the zero count unchanged.
proof fn lemma_zero_count_prefix(a: Seq<u32>, b: Seq<u32>, n: nat)
    requires
        n <= a.len(),
        n <= b.len(),
        forall|j: int| 0 <= j < n ==> a[j] == b[j],
    ensures
        zero_count(a, n) == zero_count(b, n),
    decreases n,
{
    if n > 0 {
        lemma_zero_count_prefix(a, b, (n - 1) as nat);
    }
}
} // verus!
