use wave_vortex::bitslice::{inv_subcells_bitslice_32, subcells_bitslice_32};
use wave_vortex::rounds::{inv_subcells_32, subcells_32};
use wave_vortex::tables::Tables;
use wave_vortex::{
    bytes_to_hex, encrypt_block_ctx, hamming_distance, run_avalanche_for_message, CipherCtx,
};

#[test]
fn hamming_distance_values() {
    assert_eq!(hamming_distance(&[0x00], &[0x01]), 1);
    assert_eq!(hamming_distance(&[0xff], &[0x00]), 8);
    assert_eq!(hamming_distance(&[0x0f, 0xf0], &[0xf0, 0x0f]), 16);
    assert_eq!(hamming_distance(&[], &[]), 0);
    // bytes of the longer input beyond the shorter are ignored
    assert_eq!(hamming_distance(&[0xff, 0xff], &[0xff]), 0);
    assert_eq!(hamming_distance(&[0x01], &[0x00, 0xff]), 1);
}

#[test]
fn bytes_to_hex_values() {
    assert_eq!(bytes_to_hex(&[]), "");
    assert_eq!(bytes_to_hex(&[0x0f]), "0f");
    assert_eq!(bytes_to_hex(&[0x0f, 0xa0, 0x00]), "0f a0 00");
    assert_eq!(bytes_to_hex(&[0xde, 0xad, 0xbe, 0xef]), "de ad be ef");
}

#[test]
fn bitslice_matches_table_mode() {
    let t = Tables::new();
    let cells: Vec<u16> = (0..32u16).map(|i| (i * 97 + 13) % 512).collect();
    let mut a = cells.clone();
    let mut b = cells.clone();
    subcells_32(&t, &mut a);
    subcells_bitslice_32(&t, &mut b);
    assert_eq!(a, b);
    let mut c = cells.clone();
    let mut d = cells;
    inv_subcells_32(&t, &mut c);
    inv_subcells_bitslice_32(&t, &mut d);
    assert_eq!(c, d);
}

#[test]
fn avalanche_sweep_reports_distances() {
    let ctx = CipherCtx::new(&[0x42u8; 32]);
    let msg = [0u8; 32];
    let (dists, zero_cases) = run_avalanche_for_message(&ctx, &msg);
    assert_eq!(dists.len(), 256);
    let zeros = dists.iter().filter(|&&d| d == 0).count();
    assert_eq!(zero_cases.len(), zeros);
    // spot-check one distance against a direct computation
    let base = encrypt_block_ctx(&ctx, &msg);
    let mut flipped = msg;
    flipped[0] ^= 1;
    let flip_ct = encrypt_block_ctx(&ctx, &flipped);
    assert_eq!(dists[0], hamming_distance(&base, &flip_ct));
}
