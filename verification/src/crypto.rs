//! Cryptographic primitives: content hashing, public-key import and signature
//! verification.
//!
//! The outside calls stand behind trusted wrappers.  Their results are
//! deterministic functions of the input bytes alone, so each is given a name
//! ([`digest_of`], [`key_decodes`], [`sig_valid`]) that the rest of the
//! library's contracts speak of; nothing else is assumed of them.

use vstd::prelude::*;

use rsa::pkcs1::FromRsaPublicKey;
use sha3::Digest;

use crate::RelayError;

verus! {

/// Width of a content digest.
pub const DIGEST_LEN: usize = 64;

/// The SHA3-512 digest of a byte sequence.
pub uninterp spec fn digest_of(bytes: Seq<u8>) -> Seq<u8>;

/// Whether a byte sequence is a well-formed PKCS#1 DER public-key encoding.
pub uninterp spec fn key_decodes(der: Seq<u8>) -> bool;

/// Whether `signature` is a valid PKCS#1 v1.5 signature, over the SHA3-512
/// digest of `message`, under the public key encoded by `der`.
pub uninterp spec fn sig_valid(der: Seq<u8>, message: Seq<u8>, signature: Seq<u8>) -> bool;

#[verifier::external_type_specification]
#[verifier::external_body]
pub struct ExRsaPublicKey(rsa::RsaPublicKey);

/// Return the content hash of the input.
///
/// Relies on `sha3::Sha3_512` through the `Digest` trait: the digest is a
/// deterministic function of the input bytes and is always 64 bytes wide.
#[verifier::external_body]
pub fn hash(text: &Vec<u8>) -> (r: Vec<u8>)
    ensures
        r@ == digest_of(text@),
        r@.len() == DIGEST_LEN,
{
    let mut hasher = sha3::Sha3_512::new();
    hasher.update(text.as_slice());
    hasher.finalize().to_vec()
}

/// Check a signature for a message against a binary-encoded public key.
///
/// Relies on `rsa::RsaPublicKey::from_pkcs1_der` and `rsa::PublicKey::verify`
/// with PKCS#1 v1.5 padding over the SHA3-512 digest of `message`: the
/// outcome is a deterministic function of the key encoding, the message and
/// the signature, and a key encoding that does not decode verifies nothing.
#[verifier::external_body]
pub fn verify(public_key: &Vec<u8>, message: &Vec<u8>, signature: &Vec<u8>) -> (r: bool)
    ensures
        r == sig_valid(public_key@, message@, signature@),
        !key_decodes(public_key@) ==> r == false,
{
    let key = match rsa::RsaPublicKey::from_pkcs1_der(public_key.as_slice()) {
        Ok(key) => key,
        Err(_) => return false,
    };
    let padding = rsa::PaddingScheme::new_pkcs1v15_sign(Some(rsa::Hash::SHA3_512));
    let digest = hash(message);
    rsa::PublicKey::verify(&key, padding, digest.as_slice(), signature.as_slice()).is_ok()
}

/// Decode a public key from its binary form.
///
/// Relies on `rsa::RsaPublicKey::from_pkcs1_der`: decoding succeeds or fails
/// on the key bytes alone.
#[verifier::external_body]
pub fn import_keypair_from_binary(public_key_binary: &Vec<u8>) -> (r: Result<
    rsa::RsaPublicKey,
    RelayError,
>)
    ensures
        r is Ok <==> key_decodes(public_key_binary@),
{
    match rsa::RsaPublicKey::from_pkcs1_der(public_key_binary.as_slice()) {
        Ok(key) => Ok(key),
        Err(_) => Err(RelayError::KeyImport),
    }
}

} // verus!
