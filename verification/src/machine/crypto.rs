//! Hash functions and signature checks, computed by `cryptoxide` and
//! `secp256k1`.

use cryptoxide::blake2b::Blake2b;
use cryptoxide::digest::Digest;
use cryptoxide::ripemd160::Ripemd160;
use cryptoxide::sha2::Sha256;
use cryptoxide::sha3::{Keccak256, Sha3_256};
use secp256k1::{ecdsa, schnorr, Message, PublicKey, Secp256k1, XOnlyPublicKey};
use vstd::prelude::*;

verus! {

/// The SHA2-256 digest of `data`.
pub uninterp spec fn sha2_256_of(data: Seq<u8>) -> Seq<u8>;

/// The SHA3-256 digest of `data`.
pub uninterp spec fn sha3_256_of(data: Seq<u8>) -> Seq<u8>;

/// The BLAKE2b digest of `data` with a 32-byte output.
pub uninterp spec fn blake2b_256_of(data: Seq<u8>) -> Seq<u8>;

/// The Keccak-256 digest of `data`.
pub uninterp spec fn keccak_256_of(data: Seq<u8>) -> Seq<u8>;

/// The BLAKE2b digest of `data` with a 28-byte output.
pub uninterp spec fn blake2b_224_of(data: Seq<u8>) -> Seq<u8>;

/// The RIPEMD-160 digest of `data`.
pub uninterp spec fn ripemd_160_of(data: Seq<u8>) -> Seq<u8>;

/// `cryptoxide::ripemd160::Ripemd160`: the 20-byte digest, named
/// `ripemd_160_of`.
#[verifier::external_body]
pub(crate) fn ripemd_160(data: &[u8]) -> (r: Vec<u8>)
    ensures
        r@ == ripemd_160_of(data@),
        r@.len() == 20,
{
    let mut hasher = Ripemd160::new();
    hasher.input(data);
    let mut out = vec![0u8; hasher.output_bytes()];
    hasher.result(&mut out);
    out
}

/// Whether `signature` is a valid Ed25519 signature of `message` by
/// `public_key`.
pub uninterp spec fn ed25519_valid(message: Seq<u8>, public_key: Seq<u8>, signature: Seq<u8>) -> bool;

/// `cryptoxide::sha2::Sha256`: the 32-byte digest, named `sha2_256_of`.
#[verifier::external_body]
pub(crate) fn sha2_256(data: &[u8]) -> (r: Vec<u8>)
    ensures
        r@ == sha2_256_of(data@),
        r@.len() == 32,
{
    let mut hasher = Sha256::new();
    hasher.input(data);
    let mut out = vec![0u8; hasher.output_bytes()];
    hasher.result(&mut out);
    out
}

/// `cryptoxide::sha3::Sha3_256`: the 32-byte digest, named `sha3_256_of`.
#[verifier::external_body]
pub(crate) fn sha3_256(data: &[u8]) -> (r: Vec<u8>)
    ensures
        r@ == sha3_256_of(data@),
        r@.len() == 32,
{
    let mut hasher = Sha3_256::new();
    hasher.input(data);
    let mut out = vec![0u8; hasher.output_bytes()];
    hasher.result(&mut out);
    out
}

/// `cryptoxide::blake2b::Blake2b` with a 32-byte output, named
/// `blake2b_256_of`.
#[verifier::external_body]
pub(crate) fn blake2b_256(data: &[u8]) -> (r: Vec<u8>)
    ensures
        r@ == blake2b_256_of(data@),
        r@.len() == 32,
{
    let mut hasher = Blake2b::new(32);
    hasher.input(data);
    let mut out = vec![0u8; hasher.output_bytes()];
    hasher.result(&mut out);
    out
}

/// `cryptoxide::sha3::Keccak256`: the 32-byte digest, named
/// `keccak_256_of`.
#[verifier::external_body]
pub(crate) fn keccak_256(data: &[u8]) -> (r: Vec<u8>)
    ensures
        r@ == keccak_256_of(data@),
        r@.len() == 32,
{
    let mut hasher = Keccak256::new();
    hasher.input(data);
    let mut out = vec![0u8; hasher.output_bytes()];
    hasher.result(&mut out);
    out
}

/// `cryptoxide::blake2b::Blake2b` with a 28-byte output, named
/// `blake2b_224_of`.
#[verifier::external_body]
pub(crate) fn blake2b_224(data: &[u8]) -> (r: Vec<u8>)
    ensures
        r@ == blake2b_224_of(data@),
        r@.len() == 28,
{
    let mut hasher = Blake2b::new(28);
    hasher.input(data);
    let mut out = vec![0u8; hasher.output_bytes()];
    hasher.result(&mut out);
    out
}

/// `cryptoxide::ed25519::verify` on a 32-byte key and a 64-byte signature,
/// named `ed25519_valid`.
#[verifier::external_body]
pub(crate) fn ed25519_verify(message: &[u8], public_key: &[u8], signature: &[u8]) -> (r: bool)
    requires
        public_key@.len() == 32,
        signature@.len() == 64,
    ensures
        r == ed25519_valid(message@, public_key@, signature@),
{
    let pk: [u8; 32] = public_key.try_into().unwrap();
    let sig: [u8; 64] = signature.try_into().unwrap();
    cryptoxide::ed25519::verify(message, &pk, &sig)
}

/// What checking an ECDSA signature over secp256k1 gives: whether
/// `signature` (64 bytes, compact) signs the 32-byte digest `message` for
/// `public_key` (33 or 65 bytes), or `None` when one of them is refused.
pub uninterp spec fn ecdsa_secp256k1_outcome(public_key: Seq<u8>, message: Seq<u8>, signature: Seq<u8>) -> Option<bool>;

/// What checking a Schnorr signature over secp256k1 gives: whether
/// `signature` (64 bytes) signs `message` for the x-only `public_key` (32
/// bytes), or `None` when the key or the signature is refused.
pub uninterp spec fn schnorr_secp256k1_outcome(public_key: Seq<u8>, message: Seq<u8>, signature: Seq<u8>) -> Option<bool>;

/// `secp256k1`: `PublicKey::from_slice`, `ecdsa::Signature::from_compact`
/// and `Message::from_digest_slice` read the arguments, `verify_ecdsa`
/// checks them; named `ecdsa_secp256k1_outcome`. A key of other than 33 or
/// 65 bytes, a signature of other than 64 bytes or a digest of other than
/// 32 bytes is refused; which keys and signatures of those lengths are
/// refused, and which signatures hold, is left to the name.
#[verifier::external_body]
pub(crate) fn verify_ecdsa_secp256k1(public_key: &[u8], message: &[u8], signature: &[u8]) -> (r: Option<bool>)
    ensures
        r == ecdsa_secp256k1_outcome(public_key@, message@, signature@),
        (public_key@.len() != 33 && public_key@.len() != 65) || signature@.len() != 64 || message@.len() != 32 ==> r is None,
{
    let pk = match PublicKey::from_slice(public_key) { Ok(x) => x, Err(_) => return None };
    let sig = match ecdsa::Signature::from_compact(signature) { Ok(x) => x, Err(_) => return None };
    #[allow(deprecated)]
    let msg = match Message::from_digest_slice(message) { Ok(x) => x, Err(_) => return None };
    Some(Secp256k1::verification_only().verify_ecdsa(&msg, &sig, &pk).is_ok())
}

/// `secp256k1`: `XOnlyPublicKey::from_slice` and `schnorr::Signature::from_slice`
/// read the key and the signature, `verify_schnorr` checks them; named
/// `schnorr_secp256k1_outcome`. A key of other than 32 bytes or a signature
/// of other than 64 bytes is refused; which keys of 32 bytes are refused,
/// and which signatures hold, is left to the name.
#[verifier::external_body]
pub(crate) fn verify_schnorr_secp256k1(public_key: &[u8], message: &[u8], signature: &[u8]) -> (r: Option<bool>)
    ensures
        r == schnorr_secp256k1_outcome(public_key@, message@, signature@),
        public_key@.len() != 32 || signature@.len() != 64 ==> r is None,
{
    let pk = match XOnlyPublicKey::from_slice(public_key) { Ok(x) => x, Err(_) => return None };
    let sig = match schnorr::Signature::from_slice(signature) { Ok(x) => x, Err(_) => return None };
    Some(Secp256k1::verification_only().verify_schnorr(&sig, message, &pk).is_ok())
}

} // verus!
