//! The cipher context: the validated table set together with the 24 round
//! keys derived from a 256-bit master key, and the block interface built
//! on them.
use vstd::prelude::*;

use crate::keysched::{key_schedule, key_schedule_spec, RoundKey, SpecRoundKey};
use crate::rounds::{
    dec_rec, decrypt_round_ctx, enc_rec, encrypt_round_ctx, lemma_cipher_roundtrip,
};
use crate::state::{
    extract_plaintext, extract_pt_spec, lemma_extract_load, lemma_load_pt_wf, lemma_unpack_pack,
    load_plaintext, load_pt_spec, pack_spec, pack_state, state_wf, unpack_spec, unpack_state,
};
use crate::tables::{spec_tables, SpecTables, Tables};

verus! {

/// A keyed cipher instance: immutable after construction, freely shared.
pub struct CipherCtx {
    pub tables: Tables,
    pub rounds: Vec<RoundKey>,
}

impl CipherCtx {
    /// The round keys as mathematical values.
    pub open spec fn keys(&self) -> Seq<SpecRoundKey> {
        Seq::new(self.rounds@.len(), |i: int| self.rounds@[i]@)
    }

    pub open spec fn wf(&self) -> bool {
        &&& self.tables@.wf()
        &&& self.rounds@.len() == 24
        &&& forall|r: int| 0 <= r < 24 ==> (#[trigger] self.rounds@[r]@).wf()
    }

    /// Derives the full schedule from a 32-byte master key; the lookup
    /// tables are validated during construction and `tables.validated`
    /// reports the outcome.
    pub fn new(master_key: &[u8]) -> (ctx: CipherCtx)
        requires
            master_key@.len() == 32,
        ensures
            ctx.wf(),
            ctx.tables@ == spec_tables(),
            ctx.tables.validated == crate::tables::tables_ok(),
            ctx.keys() =~= key_schedule_spec(master_key@),
    {
        let tables = Tables::new();
        let rounds = key_schedule(master_key);
        CipherCtx { tables, rounds }
    }
}

/// The ciphertext block as a function of tables, keys and plaintext.
pub open spec fn encrypt_block_spec(tb: SpecTables, keys: Seq<SpecRoundKey>, pt: Seq<u8>) -> Seq<
    u8,
> {
    pack_spec(enc_rec(tb, keys, load_pt_spec(pt), 24))
}

/// The plaintext block as a function of tables, keys and ciphertext.
pub open spec fn decrypt_block_spec(tb: SpecTables, keys: Seq<SpecRoundKey>, ct: Seq<u8>) -> Seq<
    u8,
> {
    extract_pt_spec(dec_rec(tb, keys, unpack_spec(ct), 24))
}

/// Decrypting an encrypted block restores the plaintext, for every
/// well-formed table set and key schedule and every 32-byte block.
pub proof fn lemma_block_roundtrip(tb: SpecTables, keys: Seq<SpecRoundKey>, pt: Seq<u8>)
    requires
        tb.wf(),
        keys.len() == 24,
        forall|k: int| 0 <= k < 24 ==> (#[trigger] keys[k]).wf(),
        pt.len() == 32,
    ensures
        decrypt_block_spec(tb, keys, encrypt_block_spec(tb, keys, pt)) =~= pt,
{
    let s0 = load_pt_spec(pt);
    lemma_load_pt_wf(pt);
    lemma_cipher_roundtrip(tb, keys, s0, 24);
    let sn = enc_rec(tb, keys, s0, 24);
    lemma_unpack_pack(sn);
    assert(unpack_spec(pack_spec(sn)) == sn);
    assert(dec_rec(tb, keys, sn, 24) == s0);
    lemma_extract_load(pt);
}

/// Encrypts one 32-byte block into 36 ciphertext bytes.
pub fn encrypt_block_ctx(ctx: &CipherCtx, pt: &[u8]) -> (ct: Vec<u8>)
    requires
        ctx.wf(),
        pt@.len() == 32,
    ensures
        ct@ == encrypt_block_spec(ctx.tables@, ctx.keys(), pt@),
        ct@.len() == 36,
{
    let mut cells = load_plaintext(pt);
    proof {
        lemma_load_pt_wf(pt@);
    }
    for r in 0..24usize
        invariant
            ctx.tables@.wf_lens(),
            ctx.tables@.wf_ranges(),
            ctx.tables@.wf_fused(),
            ctx.rounds@.len() == 24,
            forall|x: int| 0 <= x < 24 ==> (#[trigger] ctx.rounds@[x]@).wf(),
            cells@.len() == 32,
            state_wf(cells@),
            cells@ == enc_rec(ctx.tables@, ctx.keys(), load_pt_spec(pt@), r as nat),
    {
        encrypt_round_ctx(&ctx.tables, &mut cells, &ctx.rounds[r]);
        proof {
            assert(ctx.keys()[r as int] == ctx.rounds@[r as int]@);
        }
    }
    pack_state(&cells)
}

/// Decrypts one 36-byte ciphertext block into its 32 plaintext bytes.
pub fn decrypt_block_ctx(ctx: &CipherCtx, ct: &[u8]) -> (pt: Vec<u8>)
    requires
        ctx.wf(),
        ct@.len() == 36,
    ensures
        pt@ == decrypt_block_spec(ctx.tables@, ctx.keys(), ct@),
        pt@.len() == 32,
{
    let mut ct_v: Vec<u8> = Vec::new();
    for k in 0..36usize
        invariant
            ct@.len() == 36,
            ct_v@.len() == k,
            forall|x: int| 0 <= x < k ==> ct_v@[x] == ct@[x],
    {
        ct_v.push(ct[k]);
    }
    proof {
        assert(ct_v@ =~= ct@);
    }
    let mut cells = unpack_state(&ct_v);
    let ghost s0 = unpack_spec(ct@);
    let mut r: usize = 24;
    while r > 0
        invariant
            ctx.tables@.wf_lens(),
            ctx.tables@.wf_ranges(),
            ctx.rounds@.len() == 24,
            forall|x: int| 0 <= x < 24 ==> (#[trigger] ctx.rounds@[x]@).wf(),
            r <= 24,
            cells@.len() == 32,
            state_wf(cells@),
            dec_rec(ctx.tables@, ctx.keys(), cells@, r as nat) == dec_rec(
                ctx.tables@,
                ctx.keys(),
                s0,
                24,
            ),
        decreases r,
    {
        decrypt_round_ctx(&ctx.tables, &mut cells, &ctx.rounds[r - 1]);
        proof {
            assert(ctx.keys()[r - 1] == ctx.rounds@[r - 1]@);
        }
        r = r - 1;
    }
    extract_plaintext(&cells)
}

/// Encrypts one block with a transient context built from the key.
pub fn encrypt_block(pt: &[u8], master_key: &[u8]) -> (ct: Vec<u8>)
    requires
        pt@.len() == 32,
        master_key@.len() == 32,
    ensures
        ct@ == encrypt_block_spec(spec_tables(), key_schedule_spec(master_key@), pt@),
        ct@.len() == 36,
{
    let ctx = CipherCtx::new(master_key);
    encrypt_block_ctx(&ctx, pt)
}

/// Decrypts one block with a transient context built from the key.
pub fn decrypt_block(ct: &[u8], master_key: &[u8]) -> (pt: Vec<u8>)
    requires
        ct@.len() == 36,
        master_key@.len() == 32,
    ensures
        pt@ == decrypt_block_spec(spec_tables(), key_schedule_spec(master_key@), ct@),
        pt@.len() == 32,
{
    let ctx = CipherCtx::new(master_key);
    decrypt_block_ctx(&ctx, ct)
}

} // verus!
