//! The cryptographic boundary: SHA-256 digests and secp256k1 public-key
//! recovery, provided by outside implementations and specified here through
//! named results.
//!
//! The digest that a chip signs binds the raw message bytes, the host
//! serialization of the signer identity, and the host serialization of the
//! nonce, so a signature is valid for exactly one (signer, nonce) pair.

use vstd::prelude::*;
use sha2::Digest;
use crate::bytes::push_all;
use crate::codec::{xdr_u32, xdr_u32_spec};

verus! {

/// The SHA-256 digest of a byte sequence.
pub uninterp spec fn sha256_of(bytes: Seq<u8>) -> Seq<u8>;

/// The public key that secp256k1 recovery yields from a 32-byte digest, a
/// 64-byte signature and a recovery id, in uncompressed 65-byte form, or
/// `None` where recovery fails.
pub uninterp spec fn recover_of(digest: Seq<u8>, signature: Seq<u8>, recovery_id: u8) -> Option<
    Seq<u8>,
>;

/// Relies on sha2's `Sha256`: the 32-byte digest is a function of the input
/// bytes alone.
#[verifier::external_body]
fn sha256(bytes: &Vec<u8>) -> (r: Vec<u8>)
    ensures
        r@ == sha256_of(bytes@),
        r@.len() == 32,
{
    sha2::Sha256::digest(bytes.as_slice()).to_vec()
}

/// Relies on k256's `VerifyingKey::recover_from_prehash` (the same routine
/// the host ledger uses): recovery is a function of digest, signature and
/// recovery id alone, and a recovered key is a 65-byte uncompressed point.
#[verifier::external_body]
fn secp256k1_recover(digest: &Vec<u8>, signature: &Vec<u8>, recovery_id: u8) -> (r: Option<
    Vec<u8>,
>)
    ensures
        r matches Some(k) ==> recover_of(digest@, signature@, recovery_id) == Some(k@)
            && k@.len() == 65,
        r is None ==> recover_of(digest@, signature@, recovery_id) is None,
{
    let sig = match k256::ecdsa::Signature::from_slice(signature.as_slice()) {
        Ok(sig) => sig,
        Err(_) => return None,
    };
    let rid = match k256::ecdsa::RecoveryId::from_byte(recovery_id) {
        Some(rid) => rid,
        None => return None,
    };
    match k256::ecdsa::VerifyingKey::recover_from_prehash(digest.as_slice(), &sig, rid) {
        Ok(key) => Some(key.to_encoded_point(false).as_bytes().to_vec()),
        Err(_) => None,
    }
}

/// The bytes whose SHA-256 digest a chip must sign: the raw message, the
/// host-serialized signer identity, and the host-serialized nonce.
pub open spec fn digest_input(message: Seq<u8>, signer: Seq<u8>, nonce: u32) -> Seq<u8> {
    message + signer + xdr_u32_spec(nonce)
}

/// The digest a chip must sign for (message, signer, nonce).
pub open spec fn chip_digest(message: Seq<u8>, signer: Seq<u8>, nonce: u32) -> Seq<u8> {
    sha256_of(digest_input(message, signer, nonce))
}

/// Compute the digest a chip must sign for (message, signer, nonce).
pub fn compute_chip_digest(message: &Vec<u8>, signer: &Vec<u8>, nonce: u32) -> (r: Vec<u8>)
    ensures
        r@ == chip_digest(message@, signer@, nonce),
        r@.len() == 32,
{
    let mut input: Vec<u8> = Vec::new();
    push_all(&mut input, message);
    push_all(&mut input, signer);
    let nonce_bytes = xdr_u32(nonce);
    push_all(&mut input, &nonce_bytes);
    proof {
        assert(input@ =~= digest_input(message@, signer@, nonce));
    }
    sha256(&input)
}

/// Recover the chip public key for a digest, signature and recovery id, in
/// uncompressed 65-byte form, or `None` where recovery fails.
pub fn recover_chip_key(digest: &Vec<u8>, signature: &Vec<u8>, recovery_id: u8) -> (r: Option<
    Vec<u8>,
>)
    ensures
        r matches Some(k) ==> recover_of(digest@, signature@, recovery_id) == Some(k@)
            && k@.len() == 65,
        r is None ==> recover_of(digest@, signature@, recovery_id) is None,
{
    secp256k1_recover(digest, signature, recovery_id)
}

} // verus!
