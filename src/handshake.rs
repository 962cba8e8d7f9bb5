//! The key exchange run on each new connection: the server sends its RSA
//! public key, the client answers with fresh symmetric initializers
//! encrypted to that key, and each side builds its two channel ends.
use vstd::prelude::*;
use aes_gcm_siv::aead::OsRng;
use rsa::pkcs1::{DecodeRsaPublicKey, EncodeRsaPublicKey};
use rsa::traits::PublicKeyParts;
use rsa::{Pkcs1v15Encrypt, RsaPrivateKey, RsaPublicKey};
use crate::crypto::{
    pair_bytes, AES256GCMInitializerPair, AES256GCMMsgReceiver,
    AES256GCMMsgSender, ChannelModel, INITIALIZER_PAIR_LEN,
};
use crate::identity::{validate_step, ServerPublicKeyValidator};

verus! {

/// Failures of a key exchange's own steps; each ends only the attempt at
/// hand. Timeouts and transport failures belong to whoever moves the frames.
#[derive(Debug, PartialEq, Eq, Structural, Clone, Copy)]
pub enum EncChannelSetupError {
    /// The server presented a key other than the pinned one.
    ServerPublicKeyChanged,
    /// The server's key frame is not a PKCS#1 DER public key.
    InvalidPublicKey,
    /// The server's modulus is too short to carry the initializers.
    PublicKeyTooSmall,
    /// The server's public key could not be encoded.
    PublicKeyEncoding,
    /// The initializers could not be encrypted to the server's key.
    KeyEncryption,
    /// The client's frame did not decrypt under the server's private key.
    KeyDecryption,
    /// The decrypted initializers do not have the 88-byte layout.
    InvalidInitializer,
}

#[verifier::external_type_specification]
#[verifier::external_body]
pub struct ExRsaPublicKey(rsa::RsaPublicKey);

#[verifier::external_type_specification]
#[verifier::external_body]
pub struct ExRsaPrivateKey(rsa::RsaPrivateKey);

#[verifier::external_type_specification]
#[verifier::external_body]
pub struct ExRsaError(rsa::Error);

#[verifier::external_type_specification]
#[verifier::external_body]
pub struct ExPkcs1Error(rsa::pkcs1::Error);

/// The RSA public key that `der` holds as PKCS#1 DER, or `None` where it
/// does not parse or the key fails rsa's public-key checks.
pub uninterp spec fn public_key_from_der_of(der: Seq<u8>) -> Option<RsaPublicKey>;

/// Whether a public key passes rsa's `check_public`: odd modulus of at
/// most 4096 bits, odd exponent with `2 <= e < n`.
pub uninterp spec fn rsa_public_key_checked(key: RsaPublicKey) -> bool;

/// Length in bytes of a public key's modulus.
pub uninterp spec fn rsa_modulus_len(key: RsaPublicKey) -> nat;

/// The PKCS#1 DER encoding of a public key, or `None` where encoding fails.
pub uninterp spec fn public_key_der_of(key: RsaPublicKey) -> Option<Seq<u8>>;

/// The plaintext that PKCS#1 v1.5 decryption with `key` recovers from `ct`,
/// or `None` where it fails.
pub uninterp spec fn pkcs1_decrypt_of(key: RsaPrivateKey, ct: Seq<u8>) -> Option<Seq<u8>>;

/// The public half of a private key: its modulus and exponent.
pub uninterp spec fn rsa_public_of(key: RsaPrivateKey) -> RsaPublicKey;

/// Whether `ct` is one of the ciphertexts that PKCS#1 v1.5 encryption of
/// `msg` to `key` gives, one for each choice of random padding.
pub uninterp spec fn pkcs1_encryption_of(key: RsaPublicKey, msg: Seq<u8>, ct: Seq<u8>) -> bool;

/// PKCS#1 v1.5 padding takes 11 bytes of the modulus.
pub const PKCS1_PADDING_LEN: usize = 11;

/// Whether `der` holds a public key whose modulus carries the initializers.
pub open spec fn server_key_fits(der: Seq<u8>) -> bool {
    match public_key_from_der_of(der) {
        Some(k) => INITIALIZER_PAIR_LEN + PKCS1_PADDING_LEN <= rsa_modulus_len(k),
        None => false,
    }
}

/// Relies on `RsaPrivateKey::new` (rsa) with the operating system's random
/// source: it retries until the modulus, a product of two odd primes, has
/// exactly `bits` bits, and uses the exponent 65537; so the public half
/// passes `check_public` and its modulus takes `(bits + 7) / 8` bytes.
#[verifier::external_body]
fn generate_private_key(bits: usize) -> (r: Result<RsaPrivateKey, rsa::Error>)
    requires
        bits == RSA_BITS,
    ensures
        r matches Ok(k) ==> rsa_modulus_len(rsa_public_of(k)) == (bits + 7) / 8,
        r matches Ok(k) ==> rsa_public_key_checked(rsa_public_of(k)),
{
    RsaPrivateKey::new(&mut OsRng, bits)
}

/// Relies on `From<&RsaPrivateKey> for RsaPublicKey` (rsa): the public half
/// of a private key.
#[verifier::external_body]
fn public_key_of(private: &RsaPrivateKey) -> (r: RsaPublicKey)
    ensures
        r == rsa_public_of(*private),
{
    RsaPublicKey::from(private)
}

/// Relies on `EncodeRsaPublicKey::to_pkcs1_der` (rsa): the PKCS#1 DER
/// encoding of a public key, which depends on the key alone.
#[verifier::external_body]
fn public_key_to_der(key: &RsaPublicKey) -> (r: Result<Vec<u8>, rsa::pkcs1::Error>)
    ensures
        r is Ok <==> public_key_der_of(*key) is Some,
        r matches Ok(d) ==> public_key_der_of(*key) == Some(d@),
{
    Ok(key.to_pkcs1_der()?.as_bytes().to_vec())
}

/// Relies on `DecodeRsaPublicKey::from_pkcs1_der` (rsa): the key depends
/// on the bytes alone, and it is built through `RsaPublicKey::new`, which
/// refuses keys that fail `check_public`.
#[verifier::external_body]
fn public_key_from_der(der: &[u8]) -> (r: Result<RsaPublicKey, rsa::pkcs1::Error>)
    ensures
        r is Ok <==> public_key_from_der_of(der@) is Some,
        r matches Ok(k) ==> public_key_from_der_of(der@) == Some(k),
        r matches Ok(k) ==> rsa_public_key_checked(k),
{
    RsaPublicKey::from_pkcs1_der(der)
}

/// Relies on `PublicKeyParts::size` (rsa): the modulus length in bytes.
#[verifier::external_body]
fn public_key_size(key: &RsaPublicKey) -> (r: usize)
    ensures
        r as nat == rsa_modulus_len(*key),
{
    key.size()
}

/// Relies on `RsaPublicKey::encrypt` (rsa) with PKCS#1 v1.5 padding and the
/// operating system's random source: for a message that leaves 11 bytes of
/// the modulus for padding, it fails only where `check_public` does, and the
/// ciphertext is padded to the modulus length.
#[verifier::external_body]
fn rsa_encrypt(key: &RsaPublicKey, msg: &[u8]) -> (r: Result<Vec<u8>, rsa::Error>)
    requires
        msg@.len() + PKCS1_PADDING_LEN <= rsa_modulus_len(*key),
    ensures
        rsa_public_key_checked(*key) ==> r is Ok,
        r matches Ok(ct) ==> pkcs1_encryption_of(*key, msg@, ct@),
        r matches Ok(ct) ==> ct@.len() == rsa_modulus_len(*key),
{
    key.encrypt(&mut OsRng, Pkcs1v15Encrypt, msg)
}

/// Relies on `RsaPrivateKey::decrypt` (rsa) with PKCS#1 v1.5 padding: it
/// uses no random source, so the outcome depends on key and ciphertext alone.
#[verifier::external_body]
fn rsa_decrypt(key: &RsaPrivateKey, ct: &[u8]) -> (r: Result<Vec<u8>, rsa::Error>)
    ensures
        r is Ok <==> pkcs1_decrypt_of(*key, ct@) is Some,
        r matches Ok(v) ==> pkcs1_decrypt_of(*key, ct@) == Some(v@),
{
    key.decrypt(Pkcs1v15Encrypt, ct)
}

/// Modulus size of the server's key pair.
pub const RSA_BITS: usize = 2048;

/// The server's RSA key pair, made once and used for every connection.
pub struct RsaKeyPair {
    pub private: RsaPrivateKey,
    pub public: RsaPublicKey,
}

impl RsaKeyPair {
    /// A fresh 2048-bit key pair from the operating system's random source.
    pub fn generate() -> (r: Result<Self, ()>)
        ensures
            r matches Ok(kp) ==> kp.public == rsa_public_of(kp.private),
            r matches Ok(kp) ==> rsa_modulus_len(kp.public) == RSA_BITS / 8,
            r matches Ok(kp) ==> rsa_public_key_checked(kp.public),
    {
        match generate_private_key(RSA_BITS) {
            Ok(private) => {
                let public = public_key_of(&private);
                Ok(Self { private, public })
            },
            Err(_) => Err(()),
        }
    }
}

/// Server, first step: the frame that carries its public key.
pub fn server_hello(keypair: &RsaKeyPair) -> (r: Result<Vec<u8>, EncChannelSetupError>)
    ensures
        r is Ok <==> public_key_der_of(keypair.public) is Some,
        r matches Ok(d) ==> public_key_der_of(keypair.public) == Some(d@),
        r is Err ==> r == Err::<Vec<u8>, EncChannelSetupError>(
            EncChannelSetupError::PublicKeyEncoding,
        ),
{
    match public_key_to_der(&keypair.public) {
        Ok(der) => Ok(der),
        Err(_) => Err(EncChannelSetupError::PublicKeyEncoding),
    }
}

/// Server, reading the decrypted answer: the initializers it carries.
pub fn server_read_initializers(plain: &[u8]) -> (r: Result<
    AES256GCMInitializerPair,
    EncChannelSetupError,
>)
    ensures
        r is Ok <==> plain@.len() == INITIALIZER_PAIR_LEN,
        r matches Ok(p) ==> pair_bytes(p) == plain@,
        r is Err ==> r == Err::<AES256GCMInitializerPair, EncChannelSetupError>(
            EncChannelSetupError::InvalidInitializer,
        ),
{
    match AES256GCMInitializerPair::from_bytes(plain) {
        Some(p) => Ok(p),
        None => Err(EncChannelSetupError::InvalidInitializer),
    }
}

/// Whether `ct` is a PKCS#1 v1.5 encryption of `plain`, as long as the
/// modulus, to the key that `key_der` holds.
pub open spec fn answer_carries(key_der: Seq<u8>, plain: Seq<u8>, ct: Seq<u8>) -> bool {
    match public_key_from_der_of(key_der) {
        Some(k) => pkcs1_encryption_of(k, plain, ct) && ct.len() == rsa_modulus_len(k),
        None => false,
    }
}

/// What reading the initializers from decrypted bytes `plain` gives.
pub open spec fn server_accepts(
    plain: Seq<u8>,
    r: Result<AES256GCMInitializerPair, EncChannelSetupError>,
) -> bool {
    &&& r is Ok <==> plain.len() == INITIALIZER_PAIR_LEN
    &&& r matches Ok(p) ==> pair_bytes(p) == plain
    &&& r is Err ==> r == Err::<AES256GCMInitializerPair, EncChannelSetupError>(
        EncChannelSetupError::InvalidInitializer,
    )
}

/// Server, second step: decrypts the client's answer with the private key
/// and reads the initializers from it.
pub fn server_key_exchange(keypair: &RsaKeyPair, answer: &[u8]) -> (r: Result<
    AES256GCMInitializerPair,
    EncChannelSetupError,
>)
    ensures
        pkcs1_decrypt_of(keypair.private, answer@) is None ==> r == Err::<
            AES256GCMInitializerPair,
            EncChannelSetupError,
        >(EncChannelSetupError::KeyDecryption),
        pkcs1_decrypt_of(keypair.private, answer@) is Some ==> server_accepts(
            pkcs1_decrypt_of(keypair.private, answer@).unwrap(),
            r,
        ),
{
    match rsa_decrypt(&keypair.private, answer) {
        Ok(plain) => server_read_initializers(plain.as_slice()),
        Err(_) => Err(EncChannelSetupError::KeyDecryption),
    }
}

/// Client, on the server's key frame: checks that the key parses, checks it
/// against the pinned identity, checks that it can carry the initializers,
/// and only then pins it and encrypts the initializers to it. The answer is
/// the frame to send back.
pub fn client_key_exchange(
    key_frame: &[u8],
    pair: &AES256GCMInitializerPair,
    validator: &mut ServerPublicKeyValidator,
) -> (r: Result<Vec<u8>, EncChannelSetupError>)
    ensures
        public_key_from_der_of(key_frame@) is None ==> r == Err::<Vec<u8>, EncChannelSetupError>(
            EncChannelSetupError::InvalidPublicKey,
        ) && final(validator)@ == old(validator)@,
        public_key_from_der_of(key_frame@) is Some && !validate_step(old(validator)@, key_frame@).0
            ==> r == Err::<Vec<u8>, EncChannelSetupError>(
            EncChannelSetupError::ServerPublicKeyChanged,
        ) && final(validator)@ == old(validator)@,
        public_key_from_der_of(key_frame@) is Some && validate_step(old(validator)@, key_frame@).0
            && !server_key_fits(key_frame@) ==> r == Err::<Vec<u8>, EncChannelSetupError>(
            EncChannelSetupError::PublicKeyTooSmall,
        ) && final(validator)@ == old(validator)@,
        server_key_fits(key_frame@) && validate_step(old(validator)@, key_frame@).0 ==> r is Ok
            && final(validator)@ == validate_step(old(validator)@, key_frame@).1,
        r matches Ok(ct) ==> answer_carries(key_frame@, pair_bytes(*pair), ct@),
{
    let key = match public_key_from_der(key_frame) {
        Ok(k) => k,
        Err(_) => return Err(EncChannelSetupError::InvalidPublicKey),
    };
    if !validator.accepts(key_frame) {
        return Err(EncChannelSetupError::ServerPublicKeyChanged);
    }
    let size = public_key_size(&key);
    if size < INITIALIZER_PAIR_LEN + PKCS1_PADDING_LEN {
        return Err(EncChannelSetupError::PublicKeyTooSmall);
    }
    match validator.validate(key_frame) {
        Ok(()) => {},
        Err(e) => return Err(e),
    }
    let plain = pair.to_bytes();
    match rsa_encrypt(&key, plain.as_slice()) {
        Ok(ct) => Ok(ct),
        Err(_) => Err(EncChannelSetupError::KeyEncryption),
    }
}

/// The two channel ends of the client: it seals with the client-to-server
/// initializer and opens with the server-to-client one.
pub fn client_channels<S, R>(sender: S, receiver: R, pair: &AES256GCMInitializerPair) -> (r: (
    AES256GCMMsgSender<S>,
    AES256GCMMsgReceiver<R>,
))
    ensures
        r.0.sender == sender,
        r.1.receiver == receiver,
        r.0@ == (ChannelModel { key: pair.cts@.key, nonce: pair.cts@.nonce }),
        r.1@ == (ChannelModel { key: pair.stc@.key, nonce: pair.stc@.nonce }),
{
    (AES256GCMMsgSender::new(sender, &pair.cts), AES256GCMMsgReceiver::new(receiver, &pair.stc))
}

/// The two channel ends of the server: it seals with the server-to-client
/// initializer and opens with the client-to-server one.
pub fn server_channels<S, R>(sender: S, receiver: R, pair: &AES256GCMInitializerPair) -> (r: (
    AES256GCMMsgSender<S>,
    AES256GCMMsgReceiver<R>,
))
    ensures
        r.0.sender == sender,
        r.1.receiver == receiver,
        r.0@ == (ChannelModel { key: pair.stc@.key, nonce: pair.stc@.nonce }),
        r.1@ == (ChannelModel { key: pair.cts@.key, nonce: pair.cts@.nonce }),
{
    (AES256GCMMsgSender::new(sender, &pair.stc), AES256GCMMsgReceiver::new(receiver, &pair.cts))
}

/// Handshake pairing: when the server reads back the bytes of the client's
/// initializers, each side's sealing end holds the key and starting nonce
/// of the other side's opening end, in both directions.
pub proof fn lemma_handshake_pairs_channels(
    client: AES256GCMInitializerPair,
    server: AES256GCMInitializerPair,
)
    requires
        pair_bytes(server) == pair_bytes(client),
    ensures
        (ChannelModel { key: client.cts@.key, nonce: client.cts@.nonce }) == (ChannelModel {
            key: server.cts@.key,
            nonce: server.cts@.nonce,
        }),
        (ChannelModel { key: server.stc@.key, nonce: server.stc@.nonce }) == (ChannelModel {
            key: client.stc@.key,
            nonce: client.stc@.nonce,
        }),
{
    crate::crypto::lemma_pair_layout_round_trip(client, server);
}

} // verus!
