use wave_vortex::field::gf_mul_exec;
use wave_vortex::keysched::key_schedule;
use wave_vortex::state::{extract_plaintext, load_plaintext, pack_state, unpack_state};
use wave_vortex::rounds::{decrypt_round_ctx, encrypt_round_ctx};
use wave_vortex::tables::Tables;

#[test]
fn gf_mul_samples() {
    // x * x^8 = x^9 = x^4 + 1 under the reduction polynomial
    assert_eq!(gf_mul_exec(2, 0x100), 0x11);
    assert_eq!(gf_mul_exec(1, 0x1ab), 0x1ab);
    assert_eq!(gf_mul_exec(0x23, 0), 0);
}

#[test]
fn mds_cancellation_on_tables() {
    let t = Tables::new();
    for v in 0..512usize {
        let f1 = t.mul119[t.mul1[v] as usize] ^ t.mul23[t.mul8[v] as usize];
        let f2 = t.mul119[t.mul2[v] as usize] ^ t.mul23[t.mul1[v] as usize];
        assert_eq!(f1, v as u16);
        assert_eq!(f2, 0);
    }
}

#[test]
fn pack_unpack_roundtrip() {
    let cells: Vec<u16> = (0..32u16).map(|i| (i * 37 + 11) % 512).collect();
    let packed = pack_state(&cells);
    assert_eq!(packed.len(), 36);
    let cells2 = unpack_state(&packed);
    assert_eq!(cells, cells2);
}

#[test]
fn load_extract_roundtrip() {
    let pt: Vec<u8> = (0..32u8).map(|i| i.wrapping_mul(7).wrapping_add(3)).collect();
    let cells = load_plaintext(&pt);
    let pt2 = extract_plaintext(&cells);
    assert_eq!(pt, pt2);
}

#[test]
fn single_round_inverts() {
    let key = [0x42u8; 32];
    let t = Tables::new();
    let keys = key_schedule(&key);
    assert_eq!(keys.len(), 24);
    let cells: Vec<u16> = (0..32u16).map(|i| (i * 91 + 17) % 512).collect();
    let mut work = cells.clone();
    encrypt_round_ctx(&t, &mut work, &keys[0]);
    decrypt_round_ctx(&t, &mut work, &keys[0]);
    assert_eq!(work, cells);
}

#[test]
fn full_round_sequence_inverts() {
    let key = [0x42u8; 32];
    let t = Tables::new();
    let keys = key_schedule(&key);
    let pt: Vec<u8> = vec![0u8; 32];
    let mut cells = load_plaintext(&pt);
    for r in 0..24 {
        encrypt_round_ctx(&t, &mut cells, &keys[r]);
    }
    let ct = pack_state(&cells);
    let mut cells2 = unpack_state(&ct);
    for r in (0..24).rev() {
        decrypt_round_ctx(&t, &mut cells2, &keys[r]);
    }
    let pt2 = extract_plaintext(&cells2);
    assert_eq!(pt, pt2);
}
