//! Fixed-width big-endian counters that produce one fresh nonce per message.
use vstd::prelude::*;

verus! {

/// Width in bytes of an AES-GCM-SIV nonce.
pub const NONCE_LEN: usize = 12;

/// `256^n`.
pub open spec fn pow256(n: nat) -> nat
    decreases n,
{
    if n == 0 {
        1
    } else {
        256 * pow256((n - 1) as nat)
    }
}

/// The unsigned integer that the bytes of `s` spell, most significant byte first.
pub open spec fn be_value(s: Seq<u8>) -> nat
    decreases s.len(),
{
    if s.len() == 0 {
        0
    } else {
        be_value(s.drop_last()) * 256 + s.last() as nat
    }
}

/// The bytes after one increment: the same width, value plus one modulo `256^len`.
pub open spec fn is_increment_of(new: Seq<u8>, old: Seq<u8>) -> bool {
    &&& new.len() == old.len()
    &&& be_value(new) == (be_value(old) + 1) % pow256(old.len())
}

pub proof fn lemma_pow256_positive(n: nat)
    ensures
        pow256(n) >= 1,
    decreases n,
{
    if n > 0 {
        lemma_pow256_positive((n - 1) as nat);
    }
}

/// A big-endian value of `n` bytes is below `256^n`.
pub proof fn lemma_be_value_bound(s: Seq<u8>)
    ensures
        be_value(s) < pow256(s.len()),
    decreases s.len(),
{
    if s.len() > 0 {
        lemma_be_value_bound(s.drop_last());
        let p = pow256((s.len() - 1) as nat);
        let v = be_value(s.drop_last());
        assert(v * 256 + (s.last() as nat) < p * 256) by (nonlinear_arith)
            requires
                v < p,
                s.last() < 256,
        ;
    }
}

/// Overwriting byte `j` shifts the value by the change times that byte's weight.
pub proof fn lemma_be_value_update(s: Seq<u8>, j: int, x: u8)
    requires
        0 <= j < s.len(),
    ensures
        be_value(s.update(j, x)) as int == be_value(s) as int + (x as int - s[j] as int) * pow256(
            (s.len() - 1 - j) as nat,
        ) as int,
    decreases s.len(),
{
    let t = s.update(j, x);
    if j == s.len() - 1 {
        assert(t.drop_last() =~= s.drop_last());
        assert(pow256(0) == 1);
        assert(t.last() == x);
        assert(s.last() == s[j]);
        assert(be_value(t) == be_value(t.drop_last()) * 256 + t.last() as nat);
        assert(be_value(s) == be_value(s.drop_last()) * 256 + s.last() as nat);
        assert((s.len() - 1 - j) as nat == 0);
        assert((x as int - s[j] as int) * pow256(0) as int == x as int - s[j] as int);
    } else {
        assert(t.drop_last() =~= s.drop_last().update(j, x));
        assert(t.last() == s.last());
        assert(s.drop_last()[j] == s[j]);
        assert(be_value(t) == be_value(t.drop_last()) * 256 + t.last() as nat);
        assert(be_value(s) == be_value(s.drop_last()) * 256 + s.last() as nat);
        lemma_be_value_update(s.drop_last(), j, x);
        let d = (x as int - s[j] as int);
        let p = pow256((s.len() - 2 - j) as nat) as int;
        assert(pow256((s.len() - 1 - j) as nat) as int == 256 * p);
        let v = be_value(s.drop_last()) as int;
        assert((v + d * p) * 256 == v * 256 + d * (256 * p)) by (nonlinear_arith);
        assert(be_value(t.drop_last()) as int == v + d * p);
        assert(be_value(t) as int == (v + d * p) * 256 + s.last() as int);
    }
}

/// Interprets `num` as one big-endian unsigned integer and adds one to it,
/// wrapping to all zeros when every byte is `0xFF`.
pub fn inc_multibyte(num: &mut [u8])
    ensures
        is_increment_of(final(num)@, old(num)@),
{
    let n = num.len();
    let ghost orig = num@;
    let mut i: usize = n;
    let mut done = false;
    proof {
        lemma_pow256_positive(0);
    }
    while i > 0 && !done
        invariant
            n == num@.len() == orig.len(),
            i <= n,
            forall|j: int| 0 <= j < i ==> num@[j] == orig[j],
            done ==> be_value(num@) == be_value(orig) + 1,
            !done ==> be_value(num@) as int == be_value(orig) as int + 1 - pow256(
                (n - i) as nat,
            ) as int,
        decreases i,
    {
        let k = i - 1;
        let ghost before = num@;
        if num[k] == 255u8 {
            num[k] = 0;
            proof {
                assert(pow256((n - k) as nat) == 256 * pow256((n - i) as nat));
                assert(n - 1 - k == n - i);
                assert(before[k as int] == 255);
                let w = pow256((n - 1 - k) as nat) as int;
                assert((0 - 255) * w == -255 * w) by (nonlinear_arith);
                lemma_be_value_update(before, k as int, 0);
                assert(num@ == before.update(k as int, 0u8));
            }
        } else {
            num[k] = num[k] + 1;
            proof {
                lemma_be_value_update(before, k as int, (before[k as int] + 1) as u8);
                assert(num@ == before.update(k as int, (before[k as int] + 1) as u8));
                assert(n - 1 - k == n - i);
                assert(((before[k as int] + 1) as u8) as int - before[k as int] as int == 1);
                let d = ((before[k as int] + 1) as u8) as int - before[k as int] as int;
                let w = pow256((n - 1 - k) as nat) as int;
                assert(d * w == w) by (nonlinear_arith)
                    requires
                        d == 1,
                ;
            }
            done = true;
        }
        i = k;
    }
    proof {
        lemma_be_value_bound(num@);
        lemma_be_value_bound(orig);
        if done {
            vstd::arithmetic::div_mod::lemma_small_mod(
                be_value(orig) + 1,
                pow256(n as nat),
            );
        } else {
            assert(be_value(orig) + 1 == pow256(n as nat));
            vstd::arithmetic::div_mod::lemma_mod_self_0(pow256(n as nat) as int);
        }
    }
}

/// Two byte strings of one width with the same big-endian value are equal.
pub proof fn lemma_be_value_injective(a: Seq<u8>, b: Seq<u8>)
    requires
        a.len() == b.len(),
        be_value(a) == be_value(b),
    ensures
        a == b,
    decreases a.len(),
{
    if a.len() > 0 {
        let (x, y) = (be_value(a.drop_last()) as int, be_value(b.drop_last()) as int);
        vstd::arithmetic::div_mod::lemma_fundamental_div_mod_converse(
            be_value(a) as int,
            256,
            x,
            a.last() as int,
        );
        vstd::arithmetic::div_mod::lemma_fundamental_div_mod_converse(
            be_value(b) as int,
            256,
            y,
            b.last() as int,
        );
        lemma_be_value_injective(a.drop_last(), b.drop_last());
        assert(a =~= a.drop_last().push(a.last()));
        assert(b =~= b.drop_last().push(b.last()));
    }
}

/// Full period of the nonce counter: along any run of increments starting
/// from a 12-byte seed, step `k` holds the seed again exactly when `k` is a
/// multiple of `2^96`; so the seed comes back after `2^96` increments and
/// never earlier.
pub proof fn lemma_nonce_full_period(run: Seq<Seq<u8>>, k: int)
    requires
        run.len() > 0,
        run[0].len() == NONCE_LEN,
        forall|i: int| 0 <= i < run.len() - 1 ==> is_increment_of(#[trigger] run[i + 1], run[i]),
        0 <= k < run.len(),
    ensures
        pow256(NONCE_LEN as nat) == 0x1_0000_0000_0000_0000_0000_0000,
        run[k] == run[0] <==> k % pow256(NONCE_LEN as nat) as int == 0,
{
    let m = pow256(NONCE_LEN as nat) as int;
    reveal_with_fuel(pow256, 13);
    assert(pow256(NONCE_LEN as nat) == 0x1_0000_0000_0000_0000_0000_0000);
    let b = be_value(run[0]) as int;
    lemma_be_value_bound(run[0]);
    lemma_be_value_along_run(run, k);
    vstd::arithmetic::div_mod::lemma_add_mod_noop_right(b, k, m);
    vstd::arithmetic::div_mod::lemma_mod_bound(k, m);
    let r = k % m;
    if r == 0 {
        vstd::arithmetic::div_mod::lemma_small_mod(b as nat, m as nat);
        lemma_be_value_injective(run[k], run[0]);
    } else if b + r < m {
        vstd::arithmetic::div_mod::lemma_small_mod((b + r) as nat, m as nat);
    } else {
        vstd::arithmetic::div_mod::lemma_fundamental_div_mod_converse(b + r, m, 1, b + r - m);
    }
}

/// Along a run of increments, step `k` has the seed's width and the seed's
/// value plus `k`, modulo `256^width`.
pub proof fn lemma_be_value_along_run(run: Seq<Seq<u8>>, k: int)
    requires
        run.len() > 0,
        forall|i: int| 0 <= i < run.len() - 1 ==> is_increment_of(#[trigger] run[i + 1], run[i]),
        0 <= k < run.len(),
    ensures
        run[k].len() == run[0].len(),
        be_value(run[k]) as int == (be_value(run[0]) as int + k) % pow256(run[0].len()) as int,
    decreases k,
{
    let m = pow256(run[0].len()) as int;
    lemma_pow256_positive(run[0].len());
    lemma_be_value_bound(run[0]);
    if k == 0 {
        vstd::arithmetic::div_mod::lemma_small_mod(be_value(run[0]), m as nat);
    } else {
        lemma_be_value_along_run(run, k - 1);
        assert(is_increment_of(run[(k - 1) + 1], run[k - 1]));
        vstd::arithmetic::div_mod::lemma_add_mod_noop_right(1, be_value(run[0]) as int + k - 1, m);
    }
}

/// A counter over 12-byte nonces: each call of `next` hands out the current
/// value and advances it by one, big-endian, wrapping to zero.
pub struct AESGCMNonceCounter {
    nonce: [u8; 12],
}

impl View for AESGCMNonceCounter {
    type V = Seq<u8>;

    closed spec fn view(&self) -> Seq<u8> {
        self.nonce@
    }
}

impl AESGCMNonceCounter {
    /// A counter whose first nonce is `init`.
    pub fn new(init: [u8; 12]) -> (r: Self)
        ensures
            r@ == init@,
    {
        Self { nonce: init }
    }

    /// The current nonce; the counter then holds its increment.
    pub fn next(&mut self) -> (r: [u8; 12])
        ensures
            r@ == old(self)@,
            is_increment_of(final(self)@, old(self)@),
    {
        let val = self.nonce;
        inc_multibyte(&mut self.nonce);
        val
    }
}

} // verus!
