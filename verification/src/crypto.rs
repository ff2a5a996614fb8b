//! Cryptographic primitives taken from their crates: SHA-256 (`sha2`),
//! Argon2id key derivation (`argon2`), AES-256-GCM (`aes-gcm`) and random
//! version-4 UUIDs (`uuid`). Nothing here is proved: each item states what
//! its crate's source and documentation show, and the rest of the library is
//! proved against those statements.
use vstd::prelude::*;

use aes_gcm::aead::{Aead, KeyInit};
use aes_gcm::{Aes256Gcm, Nonce};
use argon2::Argon2;
use sha2::Digest;

verus! {

/// The SHA-256 digest of `data`.
pub uninterp spec fn sha256_digest(data: Seq<u8>) -> Seq<u8>;

/// The 32-byte key that Argon2id with the crate's default parameters
/// (19 MiB, 2 passes, 1 lane, version 0x13) derives from `password` and `salt`.
pub uninterp spec fn argon2id_default_key(password: Seq<u8>, salt: Seq<u8>) -> Seq<u8>;

/// AES-256-GCM encryption of `plain` under `key` and `nonce` with no
/// associated data: the ciphertext followed by the 16-byte tag.
pub uninterp spec fn aes256gcm_seal(key: Seq<u8>, nonce: Seq<u8>, plain: Seq<u8>) -> Seq<u8>;

/// AES-256-GCM decryption of `sealed` (ciphertext then tag) under `key` and
/// `nonce` with no associated data; `None` when the tag does not verify.
pub uninterp spec fn aes256gcm_open(key: Seq<u8>, nonce: Seq<u8>, sealed: Seq<u8>) -> Option<Seq<u8>>;

/// The largest plaintext AES-GCM accepts, 2^36 bytes.
pub open spec fn aes_gcm_max_plain() -> int {
    0x10_0000_0000
}

#[verifier::external_type_specification]
#[verifier::external_body]
pub struct ExAeadError(aes_gcm::Error);

#[verifier::external_type_specification]
#[verifier::external_body]
pub struct ExArgon2Error(argon2::Error);

/// `sha2::Sha256::digest`: the SHA-256 digest of `data`, 32 bytes long.
#[verifier::external_body]
pub(crate) fn sha256(data: &[u8]) -> (d: Vec<u8>)
    ensures
        d@ == sha256_digest(data@),
        d@.len() == 32,
{
    sha2::Sha256::digest(data).to_vec()
}

/// `argon2::Argon2::default().hash_password_into` with a 32-byte output.
/// The crate returns an error exactly when the password is longer than
/// `0xFFFF_FFFF` bytes or the salt is shorter than 8 or longer than
/// `0xFFFF_FFFF` bytes; otherwise the output is the derived key.
#[verifier::external_body]
pub(crate) fn argon2id_derive(password: &[u8], salt: &[u8]) -> (r: Result<Vec<u8>, argon2::Error>)
    ensures
        r is Ok <==> (password@.len() <= 0xFFFF_FFFF && 8 <= salt@.len() <= 0xFFFF_FFFF),
        r matches Ok(k) ==> k@ == argon2id_default_key(password@, salt@) && k@.len() == 32,
{
    let mut key = vec![0u8; 32];
    match Argon2::default().hash_password_into(password, salt, &mut key) {
        Ok(()) => Ok(key),
        Err(e) => Err(e),
    }
}

/// The text of an `argon2::Error` (its `Display`). Nothing is promised of it.
#[verifier::external_body]
pub(crate) fn argon2_error_text(e: &argon2::Error) -> String {
    e.to_string()
}

/// `Aead::encrypt` of `aes_gcm::Aes256Gcm` (built with `KeyInit::new` from the
/// 32-byte key) with a 12-byte nonce and an empty associated data.
/// The crate refuses a plaintext longer than 2^36 bytes and otherwise returns
/// the ciphertext followed by the 16-byte tag. As for every AEAD, decrypting
/// that output under the same key and nonce gives the plaintext back.
#[verifier::external_body]
pub(crate) fn aes256gcm_encrypt(key: &[u8], nonce: &[u8], plain: &[u8]) -> (r: Result<
    Vec<u8>,
    aes_gcm::Error,
>)
    requires
        key@.len() == 32,
        nonce@.len() == 12,
    ensures
        r is Ok <==> plain@.len() <= aes_gcm_max_plain(),
        r matches Ok(c) ==> c@ == aes256gcm_seal(key@, nonce@, plain@),
        r matches Ok(c) ==> c@.len() == plain@.len() + 16,
        r matches Ok(c) ==> aes256gcm_open(key@, nonce@, c@) == Some(plain@),
{
    let cipher = Aes256Gcm::new(aes_gcm::Key::<Aes256Gcm>::from_slice(key));
    cipher.encrypt(Nonce::from_slice(nonce), plain)
}

/// `Aead::decrypt` of `aes_gcm::Aes256Gcm` (built with `KeyInit::new` from the
/// 32-byte key) with a 12-byte nonce and an empty associated data:
/// the plaintext when the tag verifies, an error otherwise.
#[verifier::external_body]
pub(crate) fn aes256gcm_decrypt(key: &[u8], nonce: &[u8], sealed: &[u8]) -> (r: Result<
    Vec<u8>,
    aes_gcm::Error,
>)
    requires
        key@.len() == 32,
        nonce@.len() == 12,
    ensures
        match r {
            Ok(p) => aes256gcm_open(key@, nonce@, sealed@) == Some(p@),
            Err(_) => aes256gcm_open(key@, nonce@, sealed@) is None,
        },
{
    let cipher = Aes256Gcm::new(aes_gcm::Key::<Aes256Gcm>::from_slice(key));
    cipher.decrypt(Nonce::from_slice(nonce), sealed)
}

/// `uuid::Uuid::new_v4`: the 16 bytes of a random version-4 UUID. The bytes
/// are random except for the marks the crate sets on every one: the version
/// (4, the high half of byte 6) and the variant (binary `10`, the two high
/// bits of byte 8).
#[verifier::external_body]
pub(crate) fn random_uuid_bytes() -> (b: [u8; 16])
    ensures
        b[6] / 16 == 4,
        b[8] / 64 == 2,
{
    uuid::Uuid::new_v4().into_bytes()
}

} // verus!
