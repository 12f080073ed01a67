//! Decimal encoding of token ids, and the host's deterministic XDR encoding
//! of a 32-bit unsigned integer, used when binding a nonce into a signed
//! digest.

use vstd::prelude::*;

verus! {

/// The ASCII decimal digits of `n`, most significant first: a single `'0'`
/// for zero, and no leading zero otherwise.
pub open spec fn dec_bytes(n: nat) -> Seq<u8>
    decreases n,
{
    if n < 10 {
        seq![(48 + n) as u8]
    } else {
        dec_bytes(n / 10).push((48 + n % 10) as u8)
    }
}

/// The numeric value of a sequence of ASCII decimal digits, most significant
/// first.
pub open spec fn dec_val(s: Seq<u8>) -> nat
    decreases s.len(),
{
    if s.len() == 0 {
        0
    } else {
        dec_val(s.drop_last()) * 10 + (s.last() - 48) as nat
    }
}

/// Every byte of `dec_bytes(n)` is an ASCII digit, the sequence is nonempty,
/// and only the encoding of zero starts with `'0'`.
pub proof fn lemma_dec_bytes_digits(n: nat)
    ensures
        dec_bytes(n).len() >= 1,
        forall|i: int| 0 <= i < dec_bytes(n).len() ==> 48 <= #[trigger] dec_bytes(n)[i] <= 57,
        n > 0 ==> dec_bytes(n)[0] != 48,
    decreases n,
{
    if n < 10 {
    } else {
        lemma_dec_bytes_digits(n / 10);
        assert(dec_bytes(n) == dec_bytes(n / 10).push((48 + n % 10) as u8));
    }
}

/// Decimal encoding round-trips: reading the digits of `n` back yields `n`.
pub proof fn lemma_dec_roundtrip(n: nat)
    ensures
        dec_val(dec_bytes(n)) == n,
    decreases n,
{
    if n < 10 {
        let s = dec_bytes(n);
        assert(s == seq![(48 + n) as u8]);
        assert(s.drop_last() =~= Seq::<u8>::empty());
        assert(dec_val(s.drop_last()) == 0);
        assert(dec_val(s) == (s.last() - 48) as nat);
    } else {
        lemma_dec_roundtrip(n / 10);
        assert(dec_bytes(n) == dec_bytes(n / 10).push((48 + n % 10) as u8));
        assert(dec_bytes(n).len() > 0);
        assert(dec_bytes(n).drop_last() == dec_bytes(n / 10));
        assert(dec_bytes(n).last() == (48 + n % 10) as u8);
        assert(dec_val(dec_bytes(n)) == dec_val(dec_bytes(n / 10)) * 10 + ((48 + n % 10) as u8
            - 48) as nat);
        assert(n == (n / 10) * 10 + n % 10) by {
            vstd::arithmetic::div_mod::lemma_fundamental_div_mod(n as int, 10);
        };
    }
}

/// Encode `value` as ASCII decimal digits, most significant first.
pub fn u32_to_decimal_bytes(value: u32) -> (r: Vec<u8>)
    ensures
        r@ == dec_bytes(value as nat),
    decreases value,
{
    if value < 10 {
        let mut r: Vec<u8> = Vec::new();
        r.push(48 + value as u8);
        assert(r@ == dec_bytes(value as nat));
        r
    } else {
        let mut r = u32_to_decimal_bytes(value / 10);
        r.push(48 + (value % 10) as u8);
        r
    }
}

/// The host's XDR serialization of a 32-bit unsigned value: a four-byte type
/// tag for an unsigned 32-bit scalar followed by the value in big-endian
/// order.
pub open spec fn xdr_u32_spec(n: u32) -> Seq<u8> {
    seq![
        0u8,
        0u8,
        0u8,
        3u8,
        (n >> 24) as u8,
        ((n >> 16) & 0xff) as u8,
        ((n >> 8) & 0xff) as u8,
        (n & 0xff) as u8,
    ]
}

/// Serialize `n` exactly as the host ledger serializes an unsigned 32-bit
/// value, so that a nonce bound into a digest here matches one bound by the
/// host.
pub fn xdr_u32(n: u32) -> (r: Vec<u8>)
    ensures
        r@ == xdr_u32_spec(n),
{
    let mut r: Vec<u8> = Vec::new();
    r.push(0u8);
    r.push(0u8);
    r.push(0u8);
    r.push(3u8);
    r.push((n >> 24) as u8);
    r.push(((n >> 16) & 0xff) as u8);
    r.push(((n >> 8) & 0xff) as u8);
    r.push((n & 0xff) as u8);
    assert(r@ =~= xdr_u32_spec(n));
    r
}

} // verus!
