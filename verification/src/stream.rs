//! The streaming layer: PKCS#7-style padding with a mandatory full padding
//! block, ciphertext-block chaining from a random IV, the on-wire framing
//! (salt, IV, 36-byte ciphertext frames), and padding validation on decrypt.
//!
//! Randomness and the password-based key derivation are the only outside
//! calls; both sit behind small trusted wrappers at the end of this file.
use vstd::prelude::*;

use crate::bits::lemma_xor_cancel8;
use crate::ctx::{
    decrypt_block_ctx, decrypt_block_spec, encrypt_block_ctx, encrypt_block_spec,
    lemma_block_roundtrip, CipherCtx,
};
use crate::keysched::{key_schedule_spec, SpecRoundKey};
use crate::state::lemma_pos_div_mod;
use crate::tables::{spec_tables, SpecTables};
use pbkdf2::pbkdf2_hmac;
use rand::RngCore;
use sha2::Sha256;

verus! {

/// Stream-layer failures: a frame, salt or IV cut short, or a padding
/// block that does not validate.  A wrong password surfaces as invalid
/// padding; the format carries no authentication tag.
#[derive(Clone, Copy, Debug, PartialEq, Eq, Structural)]
pub enum CipherError {
    Truncated,
    InvalidPadding,
}

/// How many padding bytes a plaintext of length `l` receives: always
/// between 1 and 32, and a full block when `l` is a multiple of 32.
pub open spec fn pad_len_spec(l: nat) -> nat {
    (32 - l % 32) as nat
}

/// The padded plaintext: the input followed by `pad_len` copies of the
/// pad byte.
pub open spec fn pad_spec(pt: Seq<u8>) -> Seq<u8> {
    pt + Seq::new(pad_len_spec(pt.len()), |i: int| pad_len_spec(pt.len()) as u8)
}

/// The number of 32-byte blocks an `l`-byte plaintext encrypts to.
pub open spec fn nblocks_spec(l: nat) -> nat {
    l / 32 + 1
}

/// Block `k` of the padded plaintext.
pub open spec fn blk(padded: Seq<u8>, k: int) -> Seq<u8> {
    padded.subrange(32 * k, 32 * k + 32)
}

/// Byte-wise XOR of two 32-byte blocks.
pub open spec fn xor32(a: Seq<u8>, b: Seq<u8>) -> Seq<u8> {
    Seq::new(32, |i: int| a[i] ^ b[i])
}

/// The chaining value in force before block `k` is encrypted: the IV for
/// the first block, then the first 32 bytes of each ciphertext block.
pub open spec fn cbc_prev(
    tb: SpecTables,
    keys: Seq<SpecRoundKey>,
    iv: Seq<u8>,
    padded: Seq<u8>,
    k: nat,
) -> Seq<u8>
    decreases k,
{
    if k == 0 {
        iv
    } else {
        encrypt_block_spec(
            tb,
            keys,
            xor32(blk(padded, k - 1), cbc_prev(tb, keys, iv, padded, (k - 1) as nat)),
        ).subrange(0, 32)
    }
}

/// Ciphertext block `k` of the chain.
pub open spec fn cbc_ct_block(
    tb: SpecTables,
    keys: Seq<SpecRoundKey>,
    iv: Seq<u8>,
    padded: Seq<u8>,
    k: int,
) -> Seq<u8> {
    encrypt_block_spec(tb, keys, xor32(blk(padded, k), cbc_prev(tb, keys, iv, padded, k as nat)))
}

/// The first `k` ciphertext blocks, concatenated.
pub open spec fn cbc_stream(
    tb: SpecTables,
    keys: Seq<SpecRoundKey>,
    iv: Seq<u8>,
    padded: Seq<u8>,
    k: nat,
) -> Seq<u8>
    decreases k,
{
    if k == 0 {
        Seq::empty()
    } else {
        cbc_stream(tb, keys, iv, padded, (k - 1) as nat) + cbc_ct_block(
            tb,
            keys,
            iv,
            padded,
            k - 1,
        )
    }
}

/// The whole context-level stream: IV, then the chained ciphertext blocks
/// of the padded plaintext.
pub open spec fn enc_stream_body_spec(
    tb: SpecTables,
    keys: Seq<SpecRoundKey>,
    iv: Seq<u8>,
    pt: Seq<u8>,
) -> Seq<u8> {
    iv + cbc_stream(tb, keys, iv, pad_spec(pt), nblocks_spec(pt.len()))
}

/// Ciphertext frame `k` of a context-level stream body.
pub open spec fn frame(data: Seq<u8>, k: int) -> Seq<u8> {
    data.subrange(32 + 36 * k, 32 + 36 * k + 36)
}

/// The chaining value in force when frame `k` is decrypted.
pub open spec fn dec_prev(data: Seq<u8>, k: int) -> Seq<u8> {
    if k == 0 {
        data.subrange(0, 32)
    } else {
        frame(data, k - 1).subrange(0, 32)
    }
}

/// Plaintext block `k` recovered from a stream body.
pub open spec fn plain_block(
    tb: SpecTables,
    keys: Seq<SpecRoundKey>,
    data: Seq<u8>,
    k: int,
) -> Seq<u8> {
    xor32(decrypt_block_spec(tb, keys, frame(data, k)), dec_prev(data, k))
}

/// The first `k` recovered plaintext blocks, concatenated.
pub open spec fn plain_stream(
    tb: SpecTables,
    keys: Seq<SpecRoundKey>,
    data: Seq<u8>,
    k: nat,
) -> Seq<u8>
    decreases k,
{
    if k == 0 {
        Seq::empty()
    } else {
        plain_stream(tb, keys, data, (k - 1) as nat) + plain_block(tb, keys, data, k - 1)
    }
}

/// Whether the final recovered block carries valid padding.
pub open spec fn padding_valid(last: Seq<u8>) -> bool {
    let p = last[31];
    &&& p != 0
    &&& p <= 32
    &&& forall|i: int| 32 - p <= i < 32 ==> #[trigger] last[i] == p
}

/// The full deterministic decryption of a context-level stream body:
/// every error case is pinned to exactly the inputs that produce it.  A
/// frame cut short mid-way is a truncation error; a body holding only the
/// IV (which the encoder never produces, since it always emits at least
/// one block) is accepted and decrypts to the empty plaintext.
pub open spec fn dec_stream_body_spec(
    tb: SpecTables,
    keys: Seq<SpecRoundKey>,
    data: Seq<u8>,
) -> Result<Seq<u8>, CipherError> {
    if data.len() < 32 || (data.len() - 32) % 36 != 0 {
        Result::Err(CipherError::Truncated)
    } else {
        let n = ((data.len() - 32) / 36) as nat;
        if n == 0 {
            Result::Ok(Seq::empty())
        } else {
            let last = plain_block(tb, keys, data, n - 1);
            if padding_valid(last) {
                Result::Ok(
                    plain_stream(tb, keys, data, (n - 1) as nat) + last.subrange(
                        0,
                        32 - last[31] as int,
                    ),
                )
            } else {
                Result::Err(CipherError::InvalidPadding)
            }
        }
    }
}

/// The password-level decryption: salt, key derivation, then the body.
pub open spec fn dec_stream_pw_spec(pw: Seq<u8>, data: Seq<u8>) -> Result<Seq<u8>, CipherError> {
    if data.len() < 16 {
        Result::Err(CipherError::Truncated)
    } else {
        dec_stream_body_spec(
            spec_tables(),
            key_schedule_spec(pbkdf2_sha256_100k(pw, data.subrange(0, 16))),
            data.skip(16),
        )
    }
}

/// Padding facts: the pad run is nonempty, at most a block, fills the
/// padded text up to a block multiple, and consists of the pad byte; a
/// block-aligned plaintext gets one full block of the byte 32.
pub proof fn lemma_padding_law(pt: Seq<u8>)
    ensures
        1 <= pad_len_spec(pt.len()) <= 32,
        pt.len() % 32 == 0 ==> pad_len_spec(pt.len()) == 32,
        pt.len() % 32 != 0 ==> pad_len_spec(pt.len()) == 32 - pt.len() % 32,
        pad_spec(pt).len() == 32 * nblocks_spec(pt.len()),
        forall|i: int|
            pt.len() <= i < pad_spec(pt).len() ==> #[trigger] pad_spec(pt)[i] == pad_len_spec(
                pt.len(),
            ) as u8,
        forall|i: int| 0 <= i < pt.len() ==> #[trigger] pad_spec(pt)[i] == pt[i],
{
    lemma_pos_div_mod(pt.len() as int, 32);
}

/// Each ciphertext block is 36 bytes, so `k` blocks are `36 k` bytes.
pub proof fn lemma_cbc_stream_len(
    tb: SpecTables,
    keys: Seq<SpecRoundKey>,
    iv: Seq<u8>,
    padded: Seq<u8>,
    k: nat,
)
    ensures
        cbc_stream(tb, keys, iv, padded, k).len() == 36 * k,
    decreases k,
{
    if k > 0 {
        lemma_cbc_stream_len(tb, keys, iv, padded, (k - 1) as nat);
    }
}

/// The ciphertext length law: a stream body for an `l`-byte plaintext is
/// exactly `32 + 36 * (l / 32 + 1)` bytes (the password-level stream adds
/// its 16-byte salt in front).
pub proof fn lemma_stream_length_law(
    tb: SpecTables,
    keys: Seq<SpecRoundKey>,
    iv: Seq<u8>,
    pt: Seq<u8>,
)
    requires
        iv.len() == 32,
    ensures
        enc_stream_body_spec(tb, keys, iv, pt).len() == 32 + 36 * nblocks_spec(pt.len()),
{
    lemma_cbc_stream_len(tb, keys, iv, pad_spec(pt), nblocks_spec(pt.len()));
}

/// Frame `k` of the assembled stream is ciphertext block `k`.
proof fn lemma_cbc_frame(
    tb: SpecTables,
    keys: Seq<SpecRoundKey>,
    iv: Seq<u8>,
    padded: Seq<u8>,
    m: nat,
    k: int,
)
    requires
        iv.len() == 32,
        0 <= k < m,
    ensures
        frame(iv + cbc_stream(tb, keys, iv, padded, m), k) =~= cbc_ct_block(
            tb,
            keys,
            iv,
            padded,
            k,
        ),
    decreases m,
{
    lemma_cbc_stream_len(tb, keys, iv, padded, m);
    lemma_cbc_stream_len(tb, keys, iv, padded, (m - 1) as nat);
    if k == m - 1 {
    } else {
        lemma_cbc_frame(tb, keys, iv, padded, (m - 1) as nat, k);
    }
}

/// XOR with the same block twice gives the block back.
proof fn lemma_xor32_cancel(a: Seq<u8>, b: Seq<u8>)
    requires
        a.len() == 32,
    ensures
        xor32(xor32(a, b), b) =~= a,
{
    assert forall|i: int| 0 <= i < 32 implies xor32(xor32(a, b), b)[i] == a[i] by {
        lemma_xor_cancel8(a[i], b[i]);
    }
}

/// Stream round-trip: decrypting an assembled stream body recovers the
/// plaintext exactly, for every well-formed table set and key schedule,
/// every 32-byte IV and every plaintext.
pub proof fn lemma_stream_roundtrip(
    tb: SpecTables,
    keys: Seq<SpecRoundKey>,
    iv: Seq<u8>,
    pt: Seq<u8>,
)
    requires
        tb.wf(),
        keys.len() == 24,
        forall|k: int| 0 <= k < 24 ==> (#[trigger] keys[k]).wf(),
        iv.len() == 32,
    ensures
        dec_stream_body_spec(tb, keys, enc_stream_body_spec(tb, keys, iv, pt)) == Result::<
            Seq<u8>,
            CipherError,
        >::Ok(pt),
{
    let l = pt.len();
    let padded = pad_spec(pt);
    let nb = nblocks_spec(l);
    let pl = pad_len_spec(l);
    let data = enc_stream_body_spec(tb, keys, iv, pt);
    lemma_padding_law(pt);
    lemma_stream_length_law(tb, keys, iv, pt);
    assert(data.len() == 32 + 36 * nb);
    lemma_pos_div_mod(36 * nb as int, 36);
    assert((data.len() - 32) % 36 == 0 && (data.len() - 32) / 36 == nb) by {
        assert(36 * (nb as int) == 36 * nb);
        crate::state::lemma_pos_div_mod(36 * nb as int, 36);
        vstd::arithmetic::div_mod::lemma_fundamental_div_mod_converse(
            36 * nb as int,
            36,
            nb as int,
            0,
        );
    }
    assert(nb >= 1);
    // each recovered block is the corresponding padded block
    assert forall|k: int| 0 <= k < nb implies plain_block(tb, keys, data, k) =~= blk(
        padded,
        k,
    ) by {
        lemma_cbc_frame(tb, keys, iv, padded, nb, k);
        let x = xor32(blk(padded, k), cbc_prev(tb, keys, iv, padded, k as nat));
        lemma_block_roundtrip(tb, keys, x);
        assert(frame(data, k) == cbc_ct_block(tb, keys, iv, padded, k));
        assert(decrypt_block_spec(tb, keys, frame(data, k)) =~= x);
        if k == 0 {
            assert(dec_prev(data, k) =~= iv);
        } else {
            lemma_cbc_frame(tb, keys, iv, padded, nb, k - 1);
            assert(dec_prev(data, k) =~= cbc_prev(tb, keys, iv, padded, k as nat));
        }
        lemma_xor32_cancel(blk(padded, k), cbc_prev(tb, keys, iv, padded, k as nat));
    }
    // the prefix blocks reassemble the padded prefix
    assert forall|k: nat| k <= nb implies plain_stream(tb, keys, data, k) =~= padded.subrange(
        0,
        32 * k as int,
    ) by {
        lemma_plain_prefix(tb, keys, data, padded, nb, k);
    }
    let last = plain_block(tb, keys, data, nb - 1);
    assert(last =~= blk(padded, nb - 1));
    assert(last[31] == padded[32 * (nb - 1) + 31]);
    assert(32 * (nb - 1) + 31 >= l);
    assert(last[31] == pl as u8);
    assert forall|i: int| 32 - pl <= i < 32 implies #[trigger] last[i] == pl as u8 by {
        assert(last[i] == padded[32 * (nb - 1) + i]);
        assert(32 * (nb - 1) + i >= l);
    }
    assert(padding_valid(last));
    let rebuilt = plain_stream(tb, keys, data, (nb - 1) as nat) + last.subrange(0, 32 - pl as int);
    assert(rebuilt =~= pt) by {
        assert(plain_stream(tb, keys, data, (nb - 1) as nat) =~= padded.subrange(
            0,
            32 * (nb - 1) as int,
        ));
        assert forall|i: int| 0 <= i < rebuilt.len() implies rebuilt[i] == pt[i] by {
            if i < 32 * (nb - 1) {
            } else {
                assert(last.subrange(0, 32 - pl as int)[i - 32 * (nb - 1)] == padded[i]);
            }
        }
    }
    assert(dec_stream_body_spec(tb, keys, data) == Result::<Seq<u8>, CipherError>::Ok(rebuilt));
}

/// The first `k` recovered blocks equal the first `32 k` padded bytes.
proof fn lemma_plain_prefix(
    tb: SpecTables,
    keys: Seq<SpecRoundKey>,
    data: Seq<u8>,
    padded: Seq<u8>,
    nb: nat,
    k: nat,
)
    requires
        k <= nb,
        32 * nb == padded.len(),
        forall|j: int| 0 <= j < nb ==> plain_block(tb, keys, data, j) =~= blk(padded, j),
    ensures
        plain_stream(tb, keys, data, k) =~= padded.subrange(0, 32 * k as int),
    decreases k,
{
    if k > 0 {
        lemma_plain_prefix(tb, keys, data, padded, nb, (k - 1) as nat);
        assert(plain_block(tb, keys, data, k - 1) =~= blk(padded, k - 1));
    }
}

/// XOR of two 32-byte blocks.
fn xor_block(a: &Vec<u8>, b: &Vec<u8>) -> (out: Vec<u8>)
    requires
        a@.len() == 32,
        b@.len() == 32,
    ensures
        out@ == xor32(a@, b@),
{
    let mut out: Vec<u8> = Vec::new();
    for i in 0..32usize
        invariant
            a@.len() == 32,
            b@.len() == 32,
            out@.len() == i,
            forall|j: int| 0 <= j < i ==> out@[j] == a@[j] ^ b@[j],
    {
        out.push(a[i] ^ b[i]);
    }
    proof {
        assert(out@ =~= xor32(a@, b@));
    }
    out
}

/// The deterministic core of stream encryption: pads the plaintext, chains
/// each block with the previous ciphertext starting from the given IV, and
/// emits the IV followed by the 36-byte ciphertext frames.
pub fn encrypt_stream_core(ctx: &CipherCtx, iv: &[u8], pt: &[u8]) -> (out: Vec<u8>)
    requires
        ctx.wf(),
        iv@.len() == 32,
        pt@.len() < 0x1000_0000_0000,
    ensures
        out@ == enc_stream_body_spec(ctx.tables@, ctx.keys(), iv@, pt@),
        out@.len() == 32 + 36 * nblocks_spec(pt@.len()),
{
    let ghost tb = ctx.tables@;
    let ghost keys = ctx.keys();
    let ghost padded = pad_spec(pt@);
    proof {
        lemma_padding_law(pt@);
    }
    let l: usize = pt.len();
    let nb: usize = l / 32 + 1;
    let pad: u8 = (32 - (l % 32)) as u8;
    proof {
        lemma_pos_div_mod(l as int, 32);
    }
    let mut out: Vec<u8> = Vec::new();
    let mut prev: Vec<u8> = Vec::new();
    for i in 0..32usize
        invariant
            iv@.len() == 32,
            out@.len() == i,
            prev@.len() == i,
            forall|j: int| 0 <= j < i ==> out@[j] == iv@[j] && prev@[j] == iv@[j],
    {
        out.push(iv[i]);
        prev.push(iv[i]);
    }
    proof {
        assert(out@ =~= iv@);
        assert(prev@ =~= iv@);
        assert(out@ =~= iv@ + cbc_stream(tb, keys, iv@, padded, 0));
    }
    for k in 0..nb
        invariant
            ctx.wf(),
            tb == ctx.tables@,
            keys == ctx.keys(),
            padded == pad_spec(pt@),
            l == pt@.len(),
            l < 0x1000_0000_0000,
            nb == nblocks_spec(l as nat),
            pad == pad_len_spec(l as nat) as u8,
            padded.len() == 32 * nb,
            prev@.len() == 32,
            prev@ == cbc_prev(tb, keys, iv@, padded, k as nat),
            out@ == iv@ + cbc_stream(tb, keys, iv@, padded, k as nat),
            iv@.len() == 32,
    {
        let mut block: Vec<u8> = Vec::new();
        for i in 0..32usize
            invariant
                l == pt@.len(),
                padded == pad_spec(pt@),
                pad == pad_len_spec(l as nat) as u8,
                k < nb,
                padded.len() == 32 * nb,
                block@.len() == i,
                forall|j: int| 0 <= j < i ==> block@[j] == padded[32 * k + j],
        {
            let idx: usize = 32 * k + i;
            if idx < l {
                block.push(pt[idx]);
            } else {
                block.push(pad);
            }
        }
        proof {
            assert(block@ =~= blk(padded, k as int));
        }
        let x = xor_block(&block, &prev);
        let ct = encrypt_block_ctx(ctx, x.as_slice());
        proof {
            assert(x@ == xor32(blk(padded, k as int), cbc_prev(tb, keys, iv@, padded, k as nat)));
            assert(ct@ == cbc_ct_block(tb, keys, iv@, padded, k as int));
        }
        let ghost out_before = out@;
        for i in 0..36usize
            invariant
                ct@.len() == 36,
                out@.len() == out_before.len() + i,
                out@ == out_before + ct@.subrange(0, i as int),
        {
            out.push(ct[i]);
            proof {
                assert(out@ =~= out_before + ct@.subrange(0, (i + 1) as int));
            }
        }
        let mut new_prev: Vec<u8> = Vec::new();
        for i in 0..32usize
            invariant
                ct@.len() == 36,
                new_prev@.len() == i,
                forall|j: int| 0 <= j < i ==> new_prev@[j] == ct@[j],
        {
            new_prev.push(ct[i]);
        }
        prev = new_prev;
        proof {
            assert(ct@.subrange(0, 36) =~= ct@);
            assert(out@ =~= (iv@ + cbc_stream(tb, keys, iv@, padded, k as nat)) + ct@);
            assert((iv@ + cbc_stream(tb, keys, iv@, padded, k as nat)) + ct@ =~= iv@ + (cbc_stream(
                tb,
                keys,
                iv@,
                padded,
                k as nat,
            ) + ct@));
            assert(prev@ =~= cbc_ct_block(tb, keys, iv@, padded, k as int).subrange(0, 32));
        }
    }
    proof {
        lemma_cbc_stream_len(tb, keys, iv@, padded, nb as nat);
    }
    out
}

/// Encrypts with a fresh random 32-byte IV; the IV leads the output.
pub fn encrypt_stream_with_ctx(ctx: &CipherCtx, pt: &[u8]) -> (out: Vec<u8>)
    requires
        ctx.wf(),
        pt@.len() < 0x1000_0000_0000,
    ensures
        out@.len() == 32 + 36 * nblocks_spec(pt@.len()),
        out@ == enc_stream_body_spec(ctx.tables@, ctx.keys(), out@.subrange(0, 32), pt@),
{
    let iv = random_bytes(32);
    let out = encrypt_stream_core(ctx, iv.as_slice(), pt);
    proof {
        assert(out@.subrange(0, 32) =~= iv@);
    }
    out
}

/// Encrypts under a password: a random 16-byte salt leads the output,
/// the key is derived from password and salt, and a random IV follows.
pub fn encrypt_stream(pt: &[u8], password: &[u8]) -> (out: Vec<u8>)
    requires
        pt@.len() < 0x1000_0000_0000,
    ensures
        out@.len() == 16 + 32 + 36 * nblocks_spec(pt@.len()),
        out@.skip(16) == enc_stream_body_spec(
            spec_tables(),
            key_schedule_spec(pbkdf2_sha256_100k(password@, out@.subrange(0, 16))),
            out@.subrange(16, 48),
            pt@,
        ),
{
    let salt = random_bytes(16);
    let key = derive_key_from_password(password, salt.as_slice());
    let ctx = CipherCtx::new(key.as_slice());
    let body = encrypt_stream_with_ctx(&ctx, pt);
    let mut out: Vec<u8> = Vec::new();
    for i in 0..16usize
        invariant
            salt@.len() == 16,
            out@.len() == i,
            forall|j: int| 0 <= j < i ==> out@[j] == salt@[j],
    {
        out.push(salt[i]);
    }
    let ghost head = out@;
    let blen: usize = body.len();
    for i in 0..blen
        invariant
            blen == body@.len(),
            out@.len() == head.len() + i,
            out@ == head + body@.subrange(0, i as int),
    {
        out.push(body[i]);
        proof {
            assert(out@ =~= head + body@.subrange(0, (i + 1) as int));
        }
    }
    proof {
        assert(head =~= salt@);
        assert(body@.subrange(0, blen as int) =~= body@);
        assert(out@.skip(16) =~= body@);
        assert(out@.subrange(0, 16) =~= salt@);
        assert(out@.subrange(16, 48) =~= body@.subrange(0, 32));
        assert(ctx.keys() =~= key_schedule_spec(pbkdf2_sha256_100k(password@, salt@)));
        assert(body@.subrange(0, 32) =~= body@.subrange(0, 32));
    }
    out
}

/// Decrypts a context-level stream body; the result is exactly what the
/// deterministic decryption spec gives, errors included.
pub fn decrypt_stream_with_ctx(ctx: &CipherCtx, data: &[u8]) -> (r: Result<Vec<u8>, CipherError>)
    requires
        ctx.wf(),
    ensures
        (match r {
            Result::Ok(v) => dec_stream_body_spec(ctx.tables@, ctx.keys(), data@) == Result::<
                Seq<u8>,
                CipherError,
            >::Ok(v@),
            Result::Err(e) => dec_stream_body_spec(ctx.tables@, ctx.keys(), data@) == Result::<
                Seq<u8>,
                CipherError,
            >::Err(e),
        }),
{
    let ghost tb = ctx.tables@;
    let ghost keys = ctx.keys();
    let dlen: usize = data.len();
    if dlen < 32 {
        return Result::Err(CipherError::Truncated);
    }
    if (dlen - 32) % 36 != 0 {
        return Result::Err(CipherError::Truncated);
    }
    let n: usize = (dlen - 32) / 36;
    proof {
        lemma_pos_div_mod((dlen - 32) as int, 36);
    }
    if n == 0 {
        let empty: Vec<u8> = Vec::new();
        return Result::Ok(empty);
    }
    let mut prev: Vec<u8> = Vec::new();
    for i in 0..32usize
        invariant
            data@.len() == dlen,
            dlen >= 32,
            prev@.len() == i,
            forall|j: int| 0 <= j < i ==> prev@[j] == data@[j],
    {
        prev.push(data[i]);
    }
    proof {
        assert(prev@ =~= dec_prev(data@, 0));
    }
    let mut out: Vec<u8> = Vec::new();
    let mut last: Vec<u8> = Vec::new();
    for k in 0..n
        invariant
            ctx.wf(),
            tb == ctx.tables@,
            keys == ctx.keys(),
            data@.len() == dlen,
            dlen >= 32,
            n == (dlen - 32) / 36,
            (dlen - 32) % 36 == 0,
            n >= 1,
            prev@.len() == 32,
            prev@ == dec_prev(data@, k as int),
            out@ == plain_stream(
                tb,
                keys,
                data@,
                (if k == 0 {
                    0int
                } else {
                    k as int - 1
                }) as nat,
            ),
            k > 0 ==> last@ == plain_block(tb, keys, data@, k as int - 1),
    {
        proof {
            lemma_pos_div_mod((dlen - 32) as int, 36);
            assert(32 + 36 * (k + 1) <= dlen);
        }
        let mut fr: Vec<u8> = Vec::new();
        for i in 0..36usize
            invariant
                data@.len() == dlen,
                k < n,
                32 + 36 * (k + 1) <= dlen,
                fr@.len() == i,
                forall|j: int| 0 <= j < i ==> fr@[j] == data@[32 + 36 * k + j],
        {
            fr.push(data[32 + 36 * k + i]);
        }
        proof {
            assert(fr@ =~= frame(data@, k as int));
        }
        let dec = decrypt_block_ctx(ctx, fr.as_slice());
        let plain = xor_block(&dec, &prev);
        proof {
            assert(plain@ == plain_block(tb, keys, data@, k as int));
        }
        if k > 0 {
            let ghost out_before = out@;
            let mut idx: usize = 0;
            while idx < 32
                invariant
                    last@.len() == 32,
                    idx <= 32,
                    out@.len() == out_before.len() + idx,
                    out@ == out_before + last@.subrange(0, idx as int),
                decreases 32 - idx,
            {
                out.push(last[idx]);
                proof {
                    assert(out@ =~= out_before + last@.subrange(0, (idx + 1) as int));
                }
                idx = idx + 1;
            }
            proof {
                assert(last@.subrange(0, 32) =~= last@);
                assert(out@ == plain_stream(tb, keys, data@, (k - 1) as nat) + plain_block(
                    tb,
                    keys,
                    data@,
                    k as int - 1,
                ));
                assert(out@ == plain_stream(tb, keys, data@, k as nat));
            }
        }
        last = plain;
        let mut new_prev: Vec<u8> = Vec::new();
        for i in 0..32usize
            invariant
                fr@.len() == 36,
                new_prev@.len() == i,
                forall|j: int| 0 <= j < i ==> new_prev@[j] == fr@[j],
        {
            new_prev.push(fr[i]);
        }
        prev = new_prev;
        proof {
            assert(prev@ =~= dec_prev(data@, k as int + 1));
        }
    }
    // validate and strip the padding of the final block
    let p: u8 = last[31];
    if p == 0 || p > 32 {
        proof {
            assert(!padding_valid(plain_block(tb, keys, data@, n as int - 1)));
        }
        return Result::Err(CipherError::InvalidPadding);
    }
    let start: usize = 32 - p as usize;
    let mut i: usize = start;
    while i < 32
        invariant
            tb == ctx.tables@,
            keys == ctx.keys(),
            data@.len() == dlen,
            dlen >= 32,
            (dlen - 32) % 36 == 0,
            n == (dlen - 32) / 36,
            n >= 1,
            last@ == plain_block(tb, keys, data@, n as int - 1),
            last@.len() == 32,
            p == last@[31],
            p != 0,
            p <= 32,
            start == 32 - p as int,
            start <= i <= 32,
            forall|j: int| start <= j < i ==> #[trigger] last@[j] == p,
        decreases 32 - i,
    {
        if last[i] != p {
            proof {
                assert(!padding_valid(plain_block(tb, keys, data@, n as int - 1)));
            }
            return Result::Err(CipherError::InvalidPadding);
        }
        i = i + 1;
    }
    proof {
        assert(padding_valid(plain_block(tb, keys, data@, n as int - 1)));
    }
    let ghost out_before = out@;
    let mut idx: usize = 0;
    while idx < start
        invariant
            tb == ctx.tables@,
            keys == ctx.keys(),
            data@.len() == dlen,
            dlen >= 32,
            (dlen - 32) % 36 == 0,
            n == (dlen - 32) / 36,
            n >= 1,
            last@ == plain_block(tb, keys, data@, n as int - 1),
            last@.len() == 32,
            p == last@[31],
            p != 0,
            p <= 32,
            start == 32 - p as int,
            padding_valid(last@),
            out_before == plain_stream(tb, keys, data@, (n - 1) as nat),
            start <= 32,
            idx <= start,
            out@.len() == out_before.len() + idx,
            out@ == out_before + last@.subrange(0, idx as int),
        decreases start - idx,
    {
        out.push(last[idx]);
        proof {
            assert(out@ =~= out_before + last@.subrange(0, (idx + 1) as int));
        }
        idx = idx + 1;
    }
    proof {
        assert(out@ == plain_stream(tb, keys, data@, (n - 1) as nat) + plain_block(
            tb,
            keys,
            data@,
            n as int - 1,
        ).subrange(0, 32 - p as int));
    }
    Result::Ok(out)
}

/// Decrypts a password-level stream: the leading 16 bytes are the salt.
pub fn decrypt_stream(data: &[u8], password: &[u8]) -> (r: Result<Vec<u8>, CipherError>)
    ensures
        (match r {
            Result::Ok(v) => dec_stream_pw_spec(password@, data@) == Result::<
                Seq<u8>,
                CipherError,
            >::Ok(v@),
            Result::Err(e) => dec_stream_pw_spec(password@, data@) == Result::<
                Seq<u8>,
                CipherError,
            >::Err(e),
        }),
{
    let dlen: usize = data.len();
    if dlen < 16 {
        return Result::Err(CipherError::Truncated);
    }
    let mut salt: Vec<u8> = Vec::new();
    for i in 0..16usize
        invariant
            data@.len() == dlen,
            dlen >= 16,
            salt@.len() == i,
            forall|j: int| 0 <= j < i ==> salt@[j] == data@[j],
    {
        salt.push(data[i]);
    }
    let mut body: Vec<u8> = Vec::new();
    for i in 16..dlen
        invariant
            data@.len() == dlen,
            dlen >= 16,
            body@.len() == i - 16,
            forall|j: int| 0 <= j < i - 16 ==> body@[j] == data@[16 + j],
    {
        body.push(data[i]);
    }
    proof {
        assert(salt@ =~= data@.subrange(0, 16));
        assert(body@ =~= data@.skip(16));
    }
    let key = derive_key_from_password(password, salt.as_slice());
    let ctx = CipherCtx::new(key.as_slice());
    proof {
        assert(ctx.keys() =~= key_schedule_spec(pbkdf2_sha256_100k(password@, data@.subrange(0, 16))));
    }
    decrypt_stream_with_ctx(&ctx, body.as_slice())
}

/// The 32-byte key that PBKDF2-HMAC-SHA256 derives from a password and
/// salt with 100000 iterations; a pure function of its two arguments.
pub uninterp spec fn pbkdf2_sha256_100k(pw: Seq<u8>, salt: Seq<u8>) -> Seq<u8>;

/// Relies on pbkdf2::pbkdf2_hmac with sha2::Sha256: fills the whole
/// 32-byte buffer with the PBKDF2-HMAC-SHA256 output for 100000 rounds,
/// a deterministic function of password and salt alone.
#[verifier::external_body]
pub fn derive_key_from_password(password: &[u8], salt: &[u8]) -> (key: Vec<u8>)
    ensures
        key@ == pbkdf2_sha256_100k(password@, salt@),
        key@.len() == 32,
{
    let mut key = [0u8; 32];
    pbkdf2_hmac::<Sha256>(password, salt, 100_000, &mut key);
    key.to_vec()
}

/// Relies on rand::thread_rng and rand::RngCore::fill_bytes: fills the
/// buffer completely with random bytes.  Nothing is assumed about the
/// values, only the length.
#[verifier::external_body]
fn random_bytes(n: usize) -> (r: Vec<u8>)
    ensures
        r@.len() == n,
{
    let mut buf = vec![0u8; n];
    rand::thread_rng().fill_bytes(&mut buf);
    buf
}

} // verus!
