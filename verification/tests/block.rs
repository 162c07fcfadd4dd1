use wave_vortex::rounds::{apply_inv_mds_lookup, apply_mds_lookup};
use wave_vortex::tables::{validate_tables, Tables};
use wave_vortex::{decrypt_block, decrypt_block_ctx, encrypt_block, encrypt_block_ctx, CipherCtx};

#[test]
fn tables_validate() {
    assert!(validate_tables());
    let t = Tables::new();
    assert!(t.validated);
}

#[test]
fn sbox_entries_and_inverse() {
    let t = Tables::new();
    assert_eq!(t.sbox[0], 0xb5);
    assert_eq!(t.inv_sbox[0xb5], 0);
    assert_eq!(t.sbox[511], 0x1e1);
    assert_eq!(t.inv_sbox[0x1e1], 511);
    for v in 0..512usize {
        assert_eq!(t.inv_sbox[t.sbox[v] as usize], v as u16);
        assert_eq!(t.sbox[t.inv_sbox[v] as usize], v as u16);
    }
}

#[test]
fn mds_forward_then_inverse_is_identity() {
    let t = Tables::new();
    let cells: Vec<u16> = (0..32u16).map(|i| (i * 41 + 5) % 512).collect();
    let mixed = apply_mds_lookup(&t, &cells);
    let unmixed = apply_inv_mds_lookup(&t, &mixed);
    assert_eq!(cells, unmixed);
}

#[test]
fn block_roundtrip_zero_plaintext() {
    let key = [0x42u8; 32];
    let pt = [0u8; 32];
    let ct = encrypt_block(&pt, &key);
    assert_eq!(ct.len(), 36);
    let back = decrypt_block(&ct, &key);
    assert_eq!(back, pt.to_vec());
}

#[test]
fn block_roundtrip_ascii_plaintext() {
    let key = [0x42u8; 32];
    let pt = *b"This is a 32-byte test string!!!";
    let ct = encrypt_block(&pt, &key);
    let back = decrypt_block(&ct, &key);
    assert_eq!(back, pt.to_vec());
}

#[test]
fn block_ctx_matches_transient() {
    let key = [0x37u8; 32];
    let ctx = CipherCtx::new(&key);
    let pt: Vec<u8> = (0..32u8).collect();
    let ct_a = encrypt_block_ctx(&ctx, &pt);
    let ct_b = encrypt_block(&pt, &key);
    assert_eq!(ct_a, ct_b);
    let back = decrypt_block_ctx(&ctx, &ct_a);
    assert_eq!(back, pt);
}

#[test]
fn block_ciphertext_is_deterministic_and_key_sensitive() {
    let pt = [0xaau8; 32];
    let ct1 = encrypt_block(&pt, &[1u8; 32]);
    let ct2 = encrypt_block(&pt, &[1u8; 32]);
    let ct3 = encrypt_block(&pt, &[2u8; 32]);
    assert_eq!(ct1, ct2);
    assert_ne!(ct1, ct3);
}
