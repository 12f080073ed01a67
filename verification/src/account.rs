//! Identities at the boundary of the engine.
//!
//! An [`AccountId`] holds the host ledger's deterministic serialization of an
//! address; the engine never interprets it, it only compares it byte for byte
//! and binds it into signed digests.  A [`PublicKey`] holds a claimed chip
//! public key, an uncompressed 65-byte secp256k1 point, likewise compared by
//! exact byte equality.

use vstd::prelude::*;
use crate::bytes::{bytes_eq, copy_bytes};

verus! {

/// The host-serialized identity of an account (an address), compared by
/// exact byte equality.
#[derive(Debug, PartialEq, Eq)]
pub struct AccountId {
    bytes: Vec<u8>,
}

impl View for AccountId {
    type V = Seq<u8>;

    closed spec fn view(&self) -> Seq<u8> {
        self.bytes@
    }
}

impl Clone for AccountId {
    fn clone(&self) -> (r: Self)
        ensures
            r@ == self@,
    {
        AccountId { bytes: copy_bytes(&self.bytes) }
    }
}

impl AccountId {
    /// Wrap a host-serialized address.
    pub fn new(bytes: Vec<u8>) -> (r: Self)
        ensures
            r@ == bytes@,
    {
        AccountId { bytes }
    }

    /// The serialized form, as bound into signed digests.
    pub fn as_bytes(&self) -> (r: &Vec<u8>)
        ensures
            r@ == self@,
    {
        &self.bytes
    }

    /// Whether two identities are the same, byte for byte.
    pub fn is_same(&self, other: &AccountId) -> (r: bool)
        ensures
            r <==> self@ == other@,
    {
        bytes_eq(&self.bytes, &other.bytes)
    }
}

/// A claimed chip public key: an uncompressed secp256k1 point of 65 bytes,
/// compared by exact byte equality.
#[derive(Debug, PartialEq, Eq)]
pub struct PublicKey {
    bytes: Vec<u8>,
}

impl View for PublicKey {
    type V = Seq<u8>;

    closed spec fn view(&self) -> Seq<u8> {
        self.bytes@
    }
}

impl Clone for PublicKey {
    fn clone(&self) -> (r: Self)
        ensures
            r@ == self@,
    {
        PublicKey { bytes: copy_bytes(&self.bytes) }
    }
}

impl PublicKey {
    /// Wrap a claimed chip public key.
    pub fn new(bytes: Vec<u8>) -> (r: Self)
        ensures
            r@ == bytes@,
    {
        PublicKey { bytes }
    }

    /// The raw key bytes.
    pub fn as_bytes(&self) -> (r: &Vec<u8>)
        ensures
            r@ == self@,
    {
        &self.bytes
    }

    /// Whether two keys are the same, byte for byte.
    pub fn is_same(&self, other: &PublicKey) -> (r: bool)
        ensures
            r <==> self@ == other@,
    {
        bytes_eq(&self.bytes, &other.bytes)
    }
}

} // verus!
