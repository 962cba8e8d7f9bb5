//! Symmetric key material and the per-direction encrypted channels.
use vstd::prelude::*;
use aes_gcm_siv::aead::rand_core::RngCore;
use aes_gcm_siv::aead::OsRng;
use crate::aead::{aead_decrypt, aead_encrypt, aead_open, aead_seal, PLAINTEXT_MAX, TAG_LEN};
use crate::nonce::{is_increment_of, AESGCMNonceCounter};

verus! {

/// Bytes of one serialized initializer pair.
pub const INITIALIZER_PAIR_LEN: usize = 88;

/// Relies on `OsRng::fill_bytes` (rand_core, through aes-gcm-siv): fills the
/// array from the operating system's secure random source.
#[verifier::external_body]
fn random_bytes<const N: usize>() -> (r: [u8; N])
    ensures
        r@.len() == N,
{
    let mut bytes = [0u8; N];
    OsRng.fill_bytes(&mut bytes);
    bytes
}

/// Key and starting nonce for one direction of an encrypted channel.
#[derive(Debug, Clone, Copy)]
pub struct AES256GCMInitializer {
    pub key: [u8; 32],
    pub nonce: [u8; 12],
}

/// Key and starting nonce, as byte strings.
pub struct InitializerModel {
    pub key: Seq<u8>,
    pub nonce: Seq<u8>,
}

impl View for AES256GCMInitializer {
    type V = InitializerModel;

    open spec fn view(&self) -> InitializerModel {
        InitializerModel { key: self.key@, nonce: self.nonce@ }
    }
}

impl AES256GCMInitializer {
    /// A fresh key and nonce from the operating system's random source.
    pub fn new_rand() -> (r: Self)
        ensures
            r@.key.len() == 32,
            r@.nonce.len() == 12,
    {
        let key: [u8; 32] = random_bytes();
        let nonce: [u8; 12] = random_bytes();
        Self { key, nonce }
    }
}

/// Initializers for both directions of one connection.
#[derive(Debug, Clone, Copy)]
pub struct AES256GCMInitializerPair {
    /// Client to server.
    pub cts: AES256GCMInitializer,
    /// Server to client.
    pub stc: AES256GCMInitializer,
}

/// The 88-byte layout: client-to-server key and nonce, then
/// server-to-client key and nonce.
pub open spec fn pair_bytes(p: AES256GCMInitializerPair) -> Seq<u8> {
    p.cts.key@ + p.cts.nonce@ + p.stc.key@ + p.stc.nonce@
}

/// Copies `b[start..start + N]` into an array.
fn copy_array<const N: usize>(b: &[u8], start: usize) -> (r: [u8; N])
    requires
        start + N <= b@.len(),
    ensures
        r@ == b@.subrange(start as int, start + N),
{
    let mut out = [0u8; N];
    let mut i: usize = 0;
    let n = b.len();
    while i < N
        invariant
            i <= N,
            start + N <= n == b@.len(),
            out@.len() == N,
            forall|j: int| 0 <= j < i ==> out@[j] == b@[start + j],
        decreases N - i,
    {
        out[i] = b[start + i];
        i = i + 1;
    }
    assert(out@ =~= b@.subrange(start as int, start + N));
    out
}

/// Appends the bytes of `a` to `v`.
fn push_all(v: &mut Vec<u8>, a: &[u8])
    ensures
        final(v)@ == old(v)@ + a@,
{
    let mut i: usize = 0;
    while i < a.len()
        invariant
            i <= a@.len(),
            v@ == old(v)@ + a@.subrange(0, i as int),
        decreases a@.len() - i,
    {
        v.push(a[i]);
        i = i + 1;
        assert(v@ =~= old(v)@ + a@.subrange(0, i as int));
    }
    assert(a@.subrange(0, a@.len() as int) =~= a@);
}

impl AES256GCMInitializerPair {
    /// Fresh initializers for both directions.
    pub fn new_rand() -> (r: Self)
        ensures
            r.cts@.key.len() == 32,
            r.stc@.key.len() == 32,
    {
        Self { cts: AES256GCMInitializer::new_rand(), stc: AES256GCMInitializer::new_rand() }
    }

    /// The 88-byte wire layout of the pair.
    pub fn to_bytes(&self) -> (r: Vec<u8>)
        ensures
            r@ == pair_bytes(*self),
            r@.len() == INITIALIZER_PAIR_LEN,
    {
        let mut out: Vec<u8> = Vec::with_capacity(INITIALIZER_PAIR_LEN);
        push_all(&mut out, &self.cts.key);
        push_all(&mut out, &self.cts.nonce);
        push_all(&mut out, &self.stc.key);
        push_all(&mut out, &self.stc.nonce);
        out
    }

    /// Reads the 88-byte layout; `None` for any other length.
    pub fn from_bytes(b: &[u8]) -> (r: Option<Self>)
        ensures
            r is Some <==> b@.len() == INITIALIZER_PAIR_LEN,
            r matches Some(p) ==> pair_bytes(p) == b@,
    {
        if b.len() != INITIALIZER_PAIR_LEN {
            return None;
        }
        let cts = AES256GCMInitializer { key: copy_array(b, 0), nonce: copy_array(b, 32) };
        let stc = AES256GCMInitializer { key: copy_array(b, 44), nonce: copy_array(b, 76) };
        let p = Self { cts, stc };
        assert(pair_bytes(p) =~= b@);
        Some(p)
    }
}

/// The layout reads back: the bytes of a pair read as that same pair.
pub proof fn lemma_pair_layout_round_trip(p: AES256GCMInitializerPair, q: AES256GCMInitializerPair)
    requires
        pair_bytes(q) == pair_bytes(p),
    ensures
        q@ == p@,
        q.cts@ == p.cts@,
        q.stc@ == p.stc@,
{
    let b = pair_bytes(p);
    assert(q.cts.key@ =~= b.subrange(0, 32));
    assert(p.cts.key@ =~= b.subrange(0, 32));
    assert(q.cts.nonce@ =~= b.subrange(32, 44));
    assert(p.cts.nonce@ =~= b.subrange(32, 44));
    assert(q.stc.key@ =~= b.subrange(44, 76));
    assert(p.stc.key@ =~= b.subrange(44, 76));
    assert(q.stc.nonce@ =~= b.subrange(76, 88));
    assert(p.stc.nonce@ =~= b.subrange(76, 88));
}

impl View for AES256GCMInitializerPair {
    type V = (InitializerModel, InitializerModel);

    open spec fn view(&self) -> (InitializerModel, InitializerModel) {
        (self.cts@, self.stc@)
    }
}

/// Failures of an encrypted channel.
#[derive(Debug, PartialEq, Eq, Structural, Clone, Copy)]
pub enum ChannelError {
    /// The message is too long to seal.
    MessageTooLong,
    /// The frame did not authenticate: tampered, corrupted, or out of step.
    Decryption,
}

/// What one direction's channel end holds: its key and its next nonce.
pub struct ChannelModel {
    pub key: Seq<u8>,
    pub nonce: Seq<u8>,
}

/// Sealing end of one direction: encrypts each message under the next
/// nonce and hands the ciphertext to the inner sender.
pub struct AES256GCMMsgSender<S> {
    pub sender: S,
    pub key: [u8; 32],
    pub nonce: AESGCMNonceCounter,
}

impl<S> View for AES256GCMMsgSender<S> {
    type V = ChannelModel;

    open spec fn view(&self) -> ChannelModel {
        ChannelModel { key: self.key@, nonce: self.nonce@ }
    }
}

impl<S> AES256GCMMsgSender<S> {
    /// A sealing end over `sender`, keyed by `init`.
    pub fn new(sender: S, init: &AES256GCMInitializer) -> (r: Self)
        ensures
            r.sender == sender,
            r@ == (ChannelModel { key: init@.key, nonce: init@.nonce }),
    {
        Self { sender, key: init.key, nonce: AESGCMNonceCounter::new(init.nonce) }
    }

    /// Seals `msg` under the next nonce; the nonce is used up either way.
    pub fn seal(&mut self, msg: &[u8]) -> (r: Result<Vec<u8>, ChannelError>)
        ensures
            final(self).sender == old(self).sender,
            channel_advanced(final(self)@, old(self)@),
            r is Ok <==> msg@.len() <= PLAINTEXT_MAX,
            r matches Ok(ct) ==> ct@ == aead_seal(old(self)@.key, old(self)@.nonce, msg@)
                && ct@.len() == msg@.len() + TAG_LEN,
            r is Err ==> r == Err::<Vec<u8>, ChannelError>(ChannelError::MessageTooLong),
    {
        let nonce = self.nonce.next();
        match aead_encrypt(&self.key, &nonce, msg) {
            Ok(ct) => Ok(ct),
            Err(_) => Err(ChannelError::MessageTooLong),
        }
    }
}

/// Opening end of one direction: decrypts each frame under the next nonce.
pub struct AES256GCMMsgReceiver<R> {
    pub receiver: R,
    pub key: [u8; 32],
    pub nonce: AESGCMNonceCounter,
}

impl<R> View for AES256GCMMsgReceiver<R> {
    type V = ChannelModel;

    open spec fn view(&self) -> ChannelModel {
        ChannelModel { key: self.key@, nonce: self.nonce@ }
    }
}

impl<R> AES256GCMMsgReceiver<R> {
    /// An opening end over `receiver`, keyed by `init`.
    pub fn new(receiver: R, init: &AES256GCMInitializer) -> (r: Self)
        ensures
            r.receiver == receiver,
            r@ == (ChannelModel { key: init@.key, nonce: init@.nonce }),
    {
        Self { receiver, key: init.key, nonce: AESGCMNonceCounter::new(init.nonce) }
    }

    /// Opens one received frame under the next nonce; the nonce is used up
    /// either way, so a failure leaves the channel out of step for good.
    pub fn open(&mut self, ct: &[u8]) -> (r: Result<Vec<u8>, ChannelError>)
        ensures
            final(self).receiver == old(self).receiver,
            channel_advanced(final(self)@, old(self)@),
            r is Err <==> aead_open(old(self)@.key, old(self)@.nonce, ct@) is None,
            r is Err ==> r == Err::<Vec<u8>, ChannelError>(ChannelError::Decryption),
            r matches Ok(m) ==> aead_open(old(self)@.key, old(self)@.nonce, ct@) == Some(m@),
            forall|m: Seq<u8>|
                m.len() <= PLAINTEXT_MAX && ct@ == #[trigger] aead_seal(
                    old(self)@.key,
                    old(self)@.nonce,
                    m,
                ) ==> (r matches Ok(v) && v@ == m),
    {
        let nonce = self.nonce.next();
        match aead_decrypt(&self.key, &nonce, ct) {
            Ok(m) => Ok(m),
            Err(_) => Err(ChannelError::Decryption),
        }
    }
}

/// One frame's step of a channel end: same key, nonce incremented.
pub open spec fn channel_advanced(after: ChannelModel, before: ChannelModel) -> bool {
    after.key == before.key && is_increment_of(after.nonce, before.nonce)
}

/// Lock step: a sealing end and an opening end that start with the same key
/// and nonce hold the same key and nonce after each has handled the same
/// number of frames, so the `i`-th frame is opened under the very nonce it
/// was sealed under.
pub proof fn lemma_channel_lock_step(sends: Seq<ChannelModel>, recvs: Seq<ChannelModel>, i: int)
    requires
        sends.len() == recvs.len(),
        sends.len() > 0,
        sends[0] == recvs[0],
        forall|j: int| 0 <= j < sends.len() - 1 ==> channel_advanced(#[trigger] sends[j + 1], sends[j]),
        forall|j: int| 0 <= j < recvs.len() - 1 ==> channel_advanced(#[trigger] recvs[j + 1], recvs[j]),
        0 <= i < sends.len(),
    ensures
        sends[i] == recvs[i],
    decreases i,
{
    if i > 0 {
        lemma_channel_lock_step(sends, recvs, i - 1);
        assert(channel_advanced(sends[(i - 1) + 1], sends[i - 1]));
        assert(channel_advanced(recvs[(i - 1) + 1], recvs[i - 1]));
        crate::nonce::lemma_be_value_injective(sends[i].nonce, recvs[i].nonce);
    }
}

} // verus!
