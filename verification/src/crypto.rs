//! The trusted boundary to the outside cryptographic crates: double SHA-256
//! from `sha2`, and deterministic ECDSA over secp256k1 from `k256`.
//!
//! Each digest or signature is named by an uninterpreted spec function of the
//! call's arguments alone; the verified code above this layer reasons only
//! through those names.

use sha2::Digest;
use vstd::prelude::*;

verus! {

/// The double SHA-256 digest (`SHA256(SHA256(data))`) of a byte sequence.
pub uninterp spec fn sha256d_of(data: Seq<u8>) -> Seq<u8>;

/// Whether a byte sequence is a valid 64-byte compact ECDSA signature
/// (`r || s`, both non-zero scalars of the secp256k1 group order).
pub uninterp spec fn compact_sig_valid(bytes: Seq<u8>) -> bool;

/// Whether a byte sequence is a valid SEC 1 encoding of a secp256k1 point.
pub uninterp spec fn public_key_valid(bytes: Seq<u8>) -> bool;

/// Whether a byte sequence is a valid secp256k1 private key: bytes that
/// decode to a non-zero scalar below the group order (a slice shorter than
/// 32 bytes, but no shorter than the library's minimum, is zero-padded at
/// the front; anything else is rejected).
pub uninterp spec fn priv_key_valid(key: Seq<u8>) -> bool;

/// Whether deterministic ECDSA signing of `digest` under `key` succeeds.
/// RFC 6979 derives the nonce from key and digest alone, so success too is
/// a function of the two; it fails only on the degenerate curve points the
/// signer rejects.
pub uninterp spec fn sign_ok_of(key: Seq<u8>, digest: Seq<u8>) -> bool;

/// The DER encoding of the deterministic (RFC 6979, low-s normalized) ECDSA
/// signature of `digest` under `key`.
pub uninterp spec fn der_sig_of(key: Seq<u8>, digest: Seq<u8>) -> Seq<u8>;

/// Relies on `sha2::Sha256::digest`: SHA-256 is a pure function of its input
/// and its digest is exactly 32 bytes; this applies it twice.
#[verifier::external_body]
pub fn sha256d(data: &[u8]) -> (r: Vec<u8>)
    ensures
        r@ == sha256d_of(data@),
        r@.len() == 32,
{
    let first = sha2::Sha256::digest(data);
    let second = sha2::Sha256::digest(&first);
    second.to_vec()
}

/// Relies on `k256::ecdsa::Signature::from_slice`: it succeeds exactly on a
/// 64-byte `r || s` pair whose halves are non-zero canonical scalars, a
/// property of the bytes alone.
#[verifier::external_body]
pub fn is_compact_signature(bytes: &[u8]) -> (r: bool)
    ensures
        r == compact_sig_valid(bytes@),
{
    k256::ecdsa::Signature::from_slice(bytes).is_ok()
}

/// Relies on `k256::PublicKey::from_sec1_bytes`: it succeeds exactly on a
/// valid SEC 1 point encoding, a property of the bytes alone.
#[verifier::external_body]
pub fn is_public_key(bytes: &[u8]) -> (r: bool)
    ensures
        r == public_key_valid(bytes@),
{
    k256::PublicKey::from_sec1_bytes(bytes).is_ok()
}

/// Relies on `k256::ecdsa::SigningKey::from_slice` (succeeds exactly on a
/// valid private key) and `PrehashSigner::sign_prehash` (RFC 6979
/// deterministic ECDSA, low-s normalized by `k256`), serialized with
/// `to_der`.  Both steps are deterministic in (key, digest), so success is
/// the named predicate `sign_ok_of` and a returned signature is the DER
/// encoding the two determine.
#[verifier::external_body]
pub fn ecdsa_sign_der(key: &[u8], digest: &[u8]) -> (r: Option<Vec<u8>>)
    ensures
        r is Some <==> (priv_key_valid(key@) && sign_ok_of(key@, digest@)),
        r matches Some(s) ==> s@ == der_sig_of(key@, digest@),
{
    let signing_key = match k256::ecdsa::SigningKey::from_slice(key) {
        Ok(k) => k,
        Err(_) => return None,
    };
    let sig: k256::ecdsa::Signature =
        match k256::ecdsa::signature::hazmat::PrehashSigner::sign_prehash(&signing_key, digest) {
            Ok(s) => s,
            Err(_) => return None,
        };
    Some(sig.to_der().as_bytes().to_vec())
}

} // verus!
