//! Wave-Vortex: a symmetric block cipher over a 4x8 grid of 9-bit cells,
//! together with a password-based streaming layer (salt, PBKDF2-derived key,
//! random IV, ciphertext-chained blocks, PKCS#7-style padding).
use vstd::prelude::*;

pub mod bits;
pub mod bitslice;
pub mod field;
pub mod sbox;
pub mod state;
pub mod keysched;
pub mod rounds;
pub mod analysis;
pub mod ctx;
pub mod stream;
pub mod tables;

pub use analysis::{bytes_to_hex, hamming_distance, run_avalanche_for_message};
pub use ctx::{decrypt_block, decrypt_block_ctx, encrypt_block, encrypt_block_ctx, CipherCtx};
pub use sbox::{INV_SBOX, SBOX};
pub use stream::{
    decrypt_stream, decrypt_stream_with_ctx, derive_key_from_password, encrypt_stream,
    encrypt_stream_core, encrypt_stream_with_ctx, CipherError,
};
