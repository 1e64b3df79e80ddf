//! Bitcoin transaction records as the Blockstream Esplora API returns them,
//! their serialization into the Bitcoin wire format (as hexadecimal text),
//! the identifiers and signature hashes computed from it, and a few helpers
//! of the Solana wallet.

pub mod error;
pub mod text;
pub mod hex_text;
pub mod encoding;
pub mod model;
pub mod wire;
pub mod transaction;
pub mod ids;
pub mod utxo;
pub mod words;
pub mod input_type;
pub mod status;
pub mod solana;
pub mod ordering;
pub mod overview;
pub mod numbers;
pub mod blockstream;
pub mod display;
pub mod fee;
pub mod address;
pub mod laws;
