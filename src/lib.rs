//! Secure message channel: framing, a hybrid RSA / AES-256-GCM-SIV handshake
//! with trust-on-first-use server identity, per-direction authenticated
//! encryption driven by nonce counters, and a reconnecting client's
//! backoff state machine.
pub mod aead;
pub mod client;
pub mod crypto;
pub mod encaps;
pub mod handshake;
pub mod identity;
pub mod nonce;
pub mod timer;

pub use client::{ConnectionLoop, LinkAction, LinkEvent, LinkState};
pub use crypto::{
    AES256GCMInitializer, AES256GCMInitializerPair, AES256GCMMsgReceiver, AES256GCMMsgSender,
    ChannelError,
};
pub use encaps::{
    encode_frame, EncapsulatedReader, EncapsulatedWriter, FrameError, LenU64EncapsMsgReceiver,
    LenU64EncapsMsgSender,
};
pub use handshake::{
    client_channels, client_key_exchange, server_channels, server_hello, server_key_exchange,
    server_read_initializers, EncChannelSetupError, RsaKeyPair,
};
pub use identity::ServerPublicKeyValidator;
pub use nonce::{inc_multibyte, AESGCMNonceCounter};
pub use timer::DoublingTimer;
