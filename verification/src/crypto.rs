//! The trusted boundary to the elliptic-curve and hashing collaborators.
//!
//! Every cryptographic result used by the verification engine is a pure
//! function of its byte-level arguments.  Each such result is given an
//! uninterpreted name here, and one trusted wrapper per collaborator
//! capability promises that the call returns exactly that named value.
//! Nothing else in the crate is trusted.

use vstd::prelude::*;

use blake2::Blake2s256;
use blake2::Digest;
use secp256k1::ecdsa::RecoverableSignature;
use secp256k1::ecdsa::RecoveryId;
use secp256k1::Message;
use secp256k1::PublicKey;

verus! {

/// The 32-byte digest used for transaction ids, Merkle leaves and Merkle
/// nodes (BLAKE2s-256 of the input bytes).
pub uninterp spec fn digest_of(data: Seq<u8>) -> Seq<u8>;

/// The 32-byte Keccak-256 digest, used only for redeem-address derivation.
pub uninterp spec fn keccak_of(data: Seq<u8>) -> Seq<u8>;

/// Whether the bytes encode a point on the curve.
pub uninterp spec fn pubkey_ok(data: Seq<u8>) -> bool;

/// Whether the 64 bytes are a well-formed compact ECDSA signature.
pub uninterp spec fn recoverable_sig_ok(data: Seq<u8>) -> bool;

/// The 65-byte uncompressed form of a valid public-key encoding.
pub uninterp spec fn uncompressed_of(pk: Seq<u8>) -> Seq<u8>;

/// The compressed public key recovered from a message digest, a compact
/// ECDSA signature and a recovery indicator; `None` when recovery fails.
pub uninterp spec fn recover_spec(msg: Seq<u8>, sig: Seq<u8>, rid: u8) -> Option<Seq<u8>>;

/// Whether the compact ECDSA signature verifies the message digest under
/// the public key.
pub uninterp spec fn ecdsa_ok(msg: Seq<u8>, sig: Seq<u8>, pk: Seq<u8>) -> bool;

/// Whether the 64-byte Schnorr signature verifies the message digest under
/// the x-coordinate of the public key.
pub uninterp spec fn schnorr_ok(msg: Seq<u8>, sig: Seq<u8>, pk: Seq<u8>) -> bool;

/// Relies on blake2::Blake2s256 (via digest::Digest::digest): a 32-byte
/// digest that depends on the input bytes alone.
#[verifier::external_body]
pub fn hash256(data: &[u8]) -> (r: Vec<u8>)
    ensures
        r@ == digest_of(data@),
        r@.len() == 32,
{
    Blake2s256::digest(data).to_vec()
}

/// Relies on sha3::Keccak256 (via digest::Digest::digest): a 32-byte
/// digest that depends on the input bytes alone.
#[verifier::external_body]
pub fn keccak256(data: &[u8]) -> (r: Vec<u8>)
    ensures
        r@ == keccak_of(data@),
        r@.len() == 32,
{
    sha3::Keccak256::digest(data).to_vec()
}

/// Relies on secp256k1::PublicKey::from_slice: succeeds exactly when the
/// bytes encode a curve point.
#[verifier::external_body]
pub fn check_pubkey(data: &[u8]) -> (r: bool)
    ensures
        r == pubkey_ok(data@),
{
    PublicKey::from_slice(data).is_ok()
}

/// Relies on secp256k1::ecdsa::RecoverableSignature::from_compact:
/// succeeds exactly when the 64 bytes are a well-formed compact signature
/// (the recovery indicator does not influence byte validity).
#[verifier::external_body]
pub fn check_recoverable_sig(data: &[u8]) -> (r: bool)
    ensures
        r == recoverable_sig_ok(data@),
{
    RecoverableSignature::from_compact(data, RecoveryId::Zero).is_ok()
}

/// Relies on secp256k1::PublicKey::serialize_uncompressed (the argument is
/// converted with PublicKey::from_slice, which cannot fail on a valid
/// encoding): the 65-byte uncompressed form of the key.
#[verifier::external_body]
pub fn uncompressed_pubkey(pk: &[u8]) -> (r: Vec<u8>)
    requires
        pubkey_ok(pk@),
    ensures
        r@ == uncompressed_of(pk@),
        r@.len() == 65,
{
    PublicKey::from_slice(pk).unwrap().serialize_uncompressed().to_vec()
}

/// Relies on secp256k1::ecdsa::RecoverableSignature::recover_ecdsa (the
/// arguments are converted with Message::from_digest,
/// RecoveryId::try_from and RecoverableSignature::from_compact, the result
/// with PublicKey::serialize): the recovered key depends on the arguments
/// alone, and its compressed serialization is a valid 33-byte encoding.
#[verifier::external_body]
pub fn recover_pubkey(msg: &[u8], sig: &[u8], rid: u8) -> (r: Option<Vec<u8>>)
    ensures
        match recover_spec(msg@, sig@, rid) {
            Some(pk) => {
                &&& r matches Some(v)
                &&& v@ == pk
                &&& pk.len() == 33
                &&& pubkey_ok(pk)
            },
            None => r is None,
        },
{
    let digest: [u8; 32] = msg.try_into().ok()?;
    let message = Message::from_digest(digest);
    let recid = RecoveryId::try_from(rid as i32).ok()?;
    let rsig = RecoverableSignature::from_compact(sig, recid).ok()?;
    let pk = rsig.recover_ecdsa(message).ok()?;
    Some(pk.serialize().to_vec())
}

/// Relies on secp256k1::ecdsa::verify (the arguments are converted with
/// Message::from_digest, ecdsa::Signature::from_compact and
/// PublicKey::from_slice; any conversion failure counts as a failed
/// verification): the verdict depends on the arguments alone.
#[verifier::external_body]
pub fn ecdsa_verify(msg: &[u8], sig: &[u8], pk: &[u8]) -> (r: bool)
    ensures
        r == ecdsa_ok(msg@, sig@, pk@),
{
    let verdict = || -> Option<()> {
        let digest: [u8; 32] = msg.try_into().ok()?;
        let signature = secp256k1::ecdsa::Signature::from_compact(sig).ok()?;
        let key = PublicKey::from_slice(pk).ok()?;
        secp256k1::ecdsa::verify(&signature, Message::from_digest(digest), &key).ok()
    };
    verdict().is_some()
}

/// Relies on secp256k1::schnorr::verify (the arguments are converted with
/// schnorr::Signature::from_byte_array and PublicKey::from_slice followed by
/// x_only_public_key; any conversion failure counts as a failed
/// verification): the verdict depends on the arguments alone.
#[verifier::external_body]
pub fn schnorr_verify(msg: &[u8], sig: &[u8], pk: &[u8]) -> (r: bool)
    ensures
        r == schnorr_ok(msg@, sig@, pk@),
{
    let verdict = || -> Option<()> {
        let raw: [u8; 64] = sig.try_into().ok()?;
        let signature = secp256k1::schnorr::Signature::from_byte_array(raw);
        let key = PublicKey::from_slice(pk).ok()?.x_only_public_key().0;
        secp256k1::schnorr::verify(&signature, msg, &key).ok()
    };
    verdict().is_some()
}

} // verus!
