//! Schnorr identification over secp256k1 with replay protection, a
//! length-delimited frame codec, and the wire messages of the bank verifier.

pub mod authentication;
pub mod clock;
pub mod codec;
pub mod curve;
pub mod encoding;
pub mod hex;
pub mod polling;
pub mod protocol;
pub mod replay;
pub mod text;
pub mod wire;
pub mod zkp_core_engine;
