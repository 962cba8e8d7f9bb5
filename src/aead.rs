//! AES-256-GCM-SIV sealing and opening, as the channels use them.
use vstd::prelude::*;
use aes_gcm_siv::aead::generic_array::GenericArray;
use aes_gcm_siv::aead::Aead;
use aes_gcm_siv::{Aes256GcmSiv, KeyInit};

verus! {

/// Longest plaintext that AES-GCM-SIV seals.
pub const PLAINTEXT_MAX: u64 = 0x10_0000_0000;

/// Bytes that sealing appends to a plaintext.
pub const TAG_LEN: usize = 16;

#[verifier::external_type_specification]
#[verifier::external_body]
pub struct ExAeadError(aes_gcm_siv::Error);

/// The ciphertext with appended tag that AES-256-GCM-SIV gives for `msg`
/// under `key` and `nonce`.
pub uninterp spec fn aead_seal(key: Seq<u8>, nonce: Seq<u8>, msg: Seq<u8>) -> Seq<u8>;

/// The plaintext that AES-256-GCM-SIV recovers from `ct` under `key` and
/// `nonce`, or `None` where the tag does not authenticate it.
pub uninterp spec fn aead_open(key: Seq<u8>, nonce: Seq<u8>, ct: Seq<u8>) -> Option<Seq<u8>>;

/// Relies on `Aes256GcmSiv::new` and `Aead::encrypt` (aes-gcm-siv): the
/// ciphertext is determined by key, nonce and plaintext, carries a 16-byte
/// tag, and encryption fails only for plaintexts over `P_MAX` (2^36 bytes).
#[verifier::external_body]
pub(crate) fn aead_encrypt(key: &[u8; 32], nonce: &[u8; 12], msg: &[u8]) -> (r: Result<
    Vec<u8>,
    aes_gcm_siv::Error,
>)
    ensures
        r is Ok <==> msg@.len() <= PLAINTEXT_MAX,
        r matches Ok(ct) ==> ct@ == aead_seal(key@, nonce@, msg@) && ct@.len() == msg@.len()
            + TAG_LEN,
{
    let cipher = Aes256GcmSiv::new(&GenericArray::from(*key));
    cipher.encrypt(&GenericArray::from(*nonce), msg)
}

/// Relies on `Aes256GcmSiv::new` and `Aead::decrypt` (aes-gcm-siv): the
/// outcome is determined by key, nonce and ciphertext, and a ciphertext
/// that encryption produced under the same key and nonce decrypts to its
/// plaintext.
#[verifier::external_body]
pub(crate) fn aead_decrypt(key: &[u8; 32], nonce: &[u8; 12], ct: &[u8]) -> (r: Result<
    Vec<u8>,
    aes_gcm_siv::Error,
>)
    ensures
        r is Err <==> aead_open(key@, nonce@, ct@) is None,
        r matches Ok(v) ==> aead_open(key@, nonce@, ct@) == Some(v@),
        r matches Ok(v) || !exists|m: Seq<u8>|
            m.len() <= PLAINTEXT_MAX && ct@ == #[trigger] aead_seal(key@, nonce@, m),
        r matches Ok(v) ==> forall|m: Seq<u8>|
            m.len() <= PLAINTEXT_MAX && ct@ == #[trigger] aead_seal(key@, nonce@, m) ==> v@ == m,
{
    let cipher = Aes256GcmSiv::new(&GenericArray::from(*key));
    cipher.decrypt(&GenericArray::from(*nonce), ct)
}

} // verus!
