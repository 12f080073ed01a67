//! Chip-authenticated token lifecycle engine.
//!
//! Tokens are bound to physical secp256k1 chips: every ownership-changing
//! operation must be co-signed by the chip, with replay protection through a
//! strictly increasing per-chip nonce.  Token ids are dense sequential
//! integers, assigned at mint in strict order and bijectively mapped to chip
//! public keys.  The lifecycle is mint -> claim -> transfer* with an
//! administrative clawback into a quarantined state that no transition leaves.

pub mod account;
pub mod bytes;
pub mod codec;
pub mod collection;
pub mod crypto;
pub mod errors;
pub mod events;
pub mod laws;
pub mod model;
pub mod token;
