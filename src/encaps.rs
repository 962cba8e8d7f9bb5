//! Length-prefixed framing: each message travels as an 8-byte big-endian
//! length followed by that many bytes.
use vstd::prelude::*;
use crate::nonce::{be_value, pow256, lemma_be_value_bound, lemma_pow256_positive};

verus! {

/// Width of the length prefix.
pub const HEADER_LEN: usize = 8;

/// The frame that carries `msg`.
pub open spec fn frame_of(msg: Seq<u8>) -> Seq<u8> {
    length_header(msg.len()) + msg
}

/// The eight bytes that spell `n`, most significant first.
pub open spec fn length_header(n: nat) -> Seq<u8> {
    Seq::new(8, |i: int| ((n / pow256((7 - i) as nat)) % 256) as u8)
}

/// The length that the first eight bytes of `p` declare.
pub open spec fn declared_len(p: Seq<u8>) -> nat {
    be_value(p.subrange(0, 8))
}

/// Splits the first complete frame off `p`: its payload and what follows it;
/// `None` while `p` holds no complete frame yet.
pub open spec fn parse_frame(p: Seq<u8>) -> Option<(Seq<u8>, Seq<u8>)> {
    if p.len() < 8 || p.len() - 8 < declared_len(p) {
        None
    } else {
        let end = 8 + declared_len(p);
        Some((p.subrange(8, end as int), p.subrange(end as int, p.len() as int)))
    }
}

/// Framing errors.
#[derive(Debug, PartialEq, Eq, Structural, Clone, Copy)]
pub enum FrameError {
    /// A peer declared a frame longer than the receiver's bound.
    TooLarge,
}

/// Prepending a byte adds it at the weight of the bytes that follow.
pub proof fn lemma_be_value_prepend(b: u8, s: Seq<u8>)
    ensures
        be_value(seq![b] + s) == b as nat * pow256(s.len()) + be_value(s),
    decreases s.len(),
{
    let t = seq![b] + s;
    if s.len() == 0 {
        assert(t.drop_last() =~= Seq::<u8>::empty());
        assert(pow256(0) == 1);
        assert(be_value(Seq::<u8>::empty()) == 0);
        assert(s =~= Seq::<u8>::empty());
        assert(t.len() == 1);
        assert(t.last() == b);
        assert(pow256(s.len()) == 1);
        assert(b as nat * pow256(s.len()) == b as nat) by (nonlinear_arith)
            requires
                pow256(s.len()) == 1,
        ;
        assert(be_value(t) == be_value(t.drop_last()) * 256 + t.last() as nat);
    } else {
        assert(t.drop_last() =~= seq![b] + s.drop_last());
        lemma_be_value_prepend(b, s.drop_last());
        let p = pow256((s.len() - 1) as nat);
        assert(pow256(s.len()) == 256 * p);
        let v = be_value(s.drop_last());
        assert((b as nat * p + v) * 256 == b as nat * (256 * p) + v * 256) by (nonlinear_arith);
        assert(t.last() == s.last());
        assert(be_value(t) == be_value(t.drop_last()) * 256 + t.last() as nat);
        assert(be_value(s) == be_value(s.drop_last()) * 256 + s.last() as nat);
        assert(be_value(t.drop_last()) == b as nat * p + v);
        assert(b as nat * pow256(s.len()) == b as nat * (256 * p));
    }
}

/// The header of a length below `2^64` spells that length.
pub proof fn lemma_length_header_value(n: nat)
    requires
        n < pow256(8),
    ensures
        length_header(n).len() == 8,
        be_value(length_header(n)) == n,
{
    lemma_header_suffix_value(n, 0);
    assert(length_header(n).subrange(0, 8) =~= length_header(n));
    vstd::arithmetic::div_mod::lemma_small_mod(n, pow256(8));
}

/// The last `8 - i` header bytes spell `n` modulo `256^(8 - i)`.
proof fn lemma_header_suffix_value(n: nat, i: int)
    requires
        0 <= i <= 8,
    ensures
        be_value(length_header(n).subrange(i, 8)) == n % pow256((8 - i) as nat),
    decreases 8 - i,
{
    let h = length_header(n);
    let k = (8 - i) as nat;
    lemma_pow256_positive(k);
    if i == 8 {
        assert(h.subrange(8, 8) =~= Seq::<u8>::empty());
        assert(be_value(Seq::<u8>::empty()) == 0);
        assert(pow256(0) == 1);
        vstd::arithmetic::div_mod::lemma_fundamental_div_mod_converse(n as int, 1, n as int, 0);
    } else {
        lemma_header_suffix_value(n, i + 1);
        assert(h.subrange(i, 8) =~= seq![h[i]] + h.subrange(i + 1, 8));
        lemma_be_value_prepend(h[i], h.subrange(i + 1, 8));
        let q = pow256((k - 1) as nat);
        lemma_pow256_positive((k - 1) as nat);
        assert(pow256(k) == 256 * q);
        // n % (256 q) == ((n / q) % 256) * q + n % q
        vstd::arithmetic::div_mod::lemma_breakdown(n as int, q as int, 256);
        assert(h[i] as nat == (n / q) % 256);
        assert(q * 256 == pow256(k));
        assert(be_value(h.subrange(i, 8)) == h[i] as nat * q + n % q);
        assert(n % (q * 256) == q * ((n / q) % 256) + n % q);
        assert(h[i] as nat * q == q * ((n / q) % 256)) by (nonlinear_arith)
            requires
                h[i] as nat == (n / q) % 256,
        ;
    }
}

/// Frames `msg`: its length as eight big-endian bytes, then its bytes.
pub fn encode_frame(msg: &[u8]) -> (r: Vec<u8>)
    requires
        msg@.len() + 8 <= usize::MAX,
    ensures
        r@ == frame_of(msg@),
{
    let len = msg.len() as u64;
    let mut header: [u8; 8] = [0u8; 8];
    let mut x: u64 = len;
    let mut i: usize = 8;
    assert((len as nat) / pow256(0) == len as nat) by {
        assert(pow256(0) == 1);
        vstd::arithmetic::div_mod::lemma_div_basics(len as int);
    }
    while i > 0
        invariant
            i <= 8,
            forall|j: int|
                i <= j < 8 ==> header@[j] == length_header(len as nat)[j],
            x as nat == len as nat / pow256((8 - i) as nat),
        decreases i,
    {
        let k = i - 1;
        header[k] = (x % 256) as u8;
        proof {
            lemma_pow256_positive((8 - i) as nat);
            vstd::arithmetic::div_mod::lemma_div_denominator(
                len as int,
                pow256((8 - i) as nat) as int,
                256,
            );
            assert(pow256((8 - k) as nat) == 256 * pow256((8 - i) as nat));
            assert(7 - k == 8 - i);
        }
        x = x / 256;
        i = k;
    }
    let mut r: Vec<u8> = Vec::with_capacity(8 + msg.len());
    let mut j: usize = 0;
    while j < 8
        invariant
            j <= 8,
            r@ =~= header@.subrange(0, j as int),
        decreases 8 - j,
    {
        r.push(header[j]);
        j = j + 1;
    }
    assert(r@ =~= length_header(msg@.len()));
    let mut j: usize = 0;
    while j < msg.len()
        invariant
            j <= msg@.len(),
            r@ =~= length_header(msg@.len()) + msg@.subrange(0, j as int),
        decreases msg@.len() - j,
    {
        r.push(msg[j]);
        j = j + 1;
    }
    assert(msg@.subrange(0, msg@.len() as int) =~= msg@);
    r
}

/// Frames read back: for any payload of representable length, a receiver
/// that holds its frame, whatever follows it, hands out the payload
/// unchanged and keeps what followed (under a bound, for payloads within it).
pub proof fn lemma_frame_round_trip(msg: Seq<u8>, rest: Seq<u8>, max_len: Option<u64>)
    requires
        msg.len() <= u64::MAX,
        !over_bound(msg.len(), max_len),
    ensures
        parse_frame(frame_of(msg) + rest) == Some((msg, rest)),
        take_outcome(frame_of(msg) + rest, max_len) == (
            Ok::<Option<Seq<u8>>, FrameError>(Some(msg)),
            rest,
        ),
{
    let p = frame_of(msg) + rest;
    reveal_with_fuel(pow256, 9);
    lemma_length_header_value(msg.len());
    assert(p.subrange(0, 8) =~= length_header(msg.len()));
    assert(p.subrange(8, 8 + msg.len() as int) =~= msg);
    assert(p.subrange(8 + msg.len() as int, p.len() as int) =~= rest);
}

/// Whether a declared length breaks the bound `max_len`, where there is one.
pub open spec fn over_bound(len: nat, max_len: Option<u64>) -> bool {
    match max_len {
        Some(m) => len > m,
        None => false,
    }
}

/// What taking a frame from pending bytes `p` gives, and the bytes left.
pub open spec fn take_outcome(p: Seq<u8>, max_len: Option<u64>) -> (
    Result<Option<Seq<u8>>, FrameError>,
    Seq<u8>,
) {
    if p.len() >= 8 && over_bound(declared_len(p), max_len) {
        (Err(FrameError::TooLarge), p)
    } else {
        match parse_frame(p) {
            None => (Ok(None), p),
            Some((m, rest)) => (Ok(Some(m)), rest),
        }
    }
}

/// The bytes of a received payload.
pub open spec fn frame_result_view(r: Result<Option<Vec<u8>>, FrameError>) -> Result<
    Option<Seq<u8>>,
    FrameError,
> {
    match r {
        Ok(Some(v)) => Ok(Some(v@)),
        Ok(None) => Ok(None),
        Err(e) => Err(e),
    }
}

/// Reads the length that the first eight bytes of `p` declare.
fn read_declared_len(p: &Vec<u8>) -> (r: u64)
    requires
        p@.len() >= 8,
    ensures
        r as nat == declared_len(p@),
{
    let mut acc: u64 = 0;
    let mut j: usize = 0;
    proof {
        reveal_with_fuel(pow256, 9);
        assert(p@.subrange(0, 0) =~= Seq::<u8>::empty());
    }
    while j < 8
        invariant
            j <= 8 <= p@.len(),
            acc as nat == be_value(p@.subrange(0, j as int)),
            pow256(8) == 0x1_0000_0000_0000_0000,
        decreases 8 - j,
    {
        proof {
            let next = p@.subrange(0, j + 1);
            assert(next.drop_last() =~= p@.subrange(0, j as int));
            lemma_be_value_bound(next);
            reveal_with_fuel(pow256, 9);
            lemma_pow256_grows(next.len(), 8);
        }
        acc = acc * 256 + p[j] as u64;
        j = j + 1;
    }
    acc
}

/// `256^a <= 256^b` for `a <= b`.
proof fn lemma_pow256_grows(a: nat, b: nat)
    requires
        a <= b,
    ensures
        pow256(a) <= pow256(b),
    decreases b,
{
    if a < b {
        lemma_pow256_grows(a, (b - 1) as nat);
        lemma_pow256_positive((b - 1) as nat);
    }
}

/// Sends length-prefixed frames over a writer.
pub struct LenU64EncapsMsgSender<W> {
    pub writer: W,
}

impl<W> LenU64EncapsMsgSender<W> {
    /// A sender that frames onto `writer`.
    pub fn new(writer: W) -> (r: Self)
        ensures
            r.writer == writer,
    {
        Self { writer }
    }

    /// The bytes to write for `msg`.
    pub fn frame(&self, msg: &[u8]) -> (r: Vec<u8>)
        requires
            msg@.len() + 8 <= usize::MAX,
        ensures
            r@ == frame_of(msg@),
    {
        encode_frame(msg)
    }
}

/// Receives length-prefixed frames from a reader: bytes read are fed in,
/// whole frames come out, one payload per frame, in order.
pub struct LenU64EncapsMsgReceiver<R> {
    pub reader: R,
    pub pending: Vec<u8>,
    pub max_len: Option<u64>,
}

impl<R> View for LenU64EncapsMsgReceiver<R> {
    type V = Seq<u8>;

    /// Bytes read and not yet handed out as frames.
    open spec fn view(&self) -> Seq<u8> {
        self.pending@
    }
}

impl<R> LenU64EncapsMsgReceiver<R> {
    /// A receiver over `reader` that takes frames of any length.
    pub fn new(reader: R) -> (r: Self)
        ensures
            r.reader == reader,
            r@ == Seq::<u8>::empty(),
            r.max_len == None::<u64>,
    {
        Self { reader, pending: Vec::new(), max_len: None }
    }

    /// A receiver over `reader` that refuses frames declaring more than
    /// `max_len` bytes, before it holds their payload.
    pub fn with_max_len(reader: R, max_len: u64) -> (r: Self)
        ensures
            r.reader == reader,
            r@ == Seq::<u8>::empty(),
            r.max_len == Some(max_len),
    {
        Self { reader, pending: Vec::new(), max_len: Some(max_len) }
    }

    /// Hands the receiver bytes read from the stream.
    pub fn feed(&mut self, bytes: &[u8])
        ensures
            final(self)@ == old(self)@ + bytes@,
            final(self).reader == old(self).reader,
            final(self).max_len == old(self).max_len,
    {
        let mut j: usize = 0;
        while j < bytes.len()
            invariant
                j <= bytes@.len(),
                self.pending@ == old(self).pending@ + bytes@.subrange(0, j as int),
                self.reader == old(self).reader,
                self.max_len == old(self).max_len,
            decreases bytes@.len() - j,
        {
            self.pending.push(bytes[j]);
            j = j + 1;
            assert(self.pending@ =~= old(self).pending@ + bytes@.subrange(0, j as int));
        }
        assert(bytes@.subrange(0, bytes@.len() as int) =~= bytes@);
    }

    /// The next whole frame's payload, or `None` while none is complete.
    /// A declared length over the bound is `TooLarge`, and nothing is consumed.
    pub fn take_frame(&mut self) -> (r: Result<Option<Vec<u8>>, FrameError>)
        ensures
            final(self).reader == old(self).reader,
            final(self).max_len == old(self).max_len,
            frame_result_view(r) == take_outcome(old(self)@, old(self).max_len).0,
            final(self)@ == take_outcome(old(self)@, old(self).max_len).1,
    {
        if self.pending.len() < HEADER_LEN {
            return Ok(None);
        }
        let len = read_declared_len(&self.pending);
        match self.max_len {
            Some(m) => {
                if len > m {
                    return Err(FrameError::TooLarge);
                }
            },
            None => {},
        }
        if ((self.pending.len() - HEADER_LEN) as u64) < len {
            return Ok(None);
        }
        let end = HEADER_LEN + len as usize;
        let ghost p = self.pending@;
        let rest = self.pending.split_off(end);
        let payload = self.pending.split_off(HEADER_LEN);
        self.pending = rest;
        assert(payload@ =~= p.subrange(8, end as int));
        assert(parse_frame(p) == Some((p.subrange(8, end as int), p.subrange(end as int, p.len() as int))));
        Ok(Some(payload))
    }
}

/// Another name for the framing sender.
pub type EncapsulatedWriter<W> = LenU64EncapsMsgSender<W>;

/// Another name for the framing receiver.
pub type EncapsulatedReader<R> = LenU64EncapsMsgReceiver<R>;

} // verus!
