//! Reconnection delays: a flat run of equal delays, then doubling.
use vstd::prelude::*;

verus! {

/// What a `DoublingTimer` holds, in milliseconds.
pub struct TimerModel {
    /// Attempts at one delay before it doubles; zero never doubles.
    pub flat: nat,
    pub init_ms: nat,
    /// Largest delay handed out; doubling stops there.
    pub max_ms: nat,
    pub cur_ms: nat,
    /// Attempts left before the next doubling.
    pub rem: nat,
}

pub open spec fn min_nat(a: nat, b: nat) -> nat {
    if a <= b {
        a
    } else {
        b
    }
}

/// The state right after construction or `reset`.
pub open spec fn timer_start(flat: nat, init_ms: nat, max_ms: nat) -> TimerModel {
    TimerModel { flat, init_ms, max_ms, cur_ms: min_nat(init_ms, max_ms), rem: flat }
}

/// The state after one `next`.
pub open spec fn timer_step(t: TimerModel) -> TimerModel {
    if t.flat == 0 {
        t
    } else if t.rem <= 1 {
        TimerModel { cur_ms: min_nat(2 * t.cur_ms, t.max_ms), rem: t.flat, ..t }
    } else {
        TimerModel { rem: (t.rem - 1) as nat, ..t }
    }
}

/// `2^n`.
pub open spec fn pow2(n: nat) -> nat
    decreases n,
{
    if n == 0 {
        1
    } else {
        2 * pow2((n - 1) as nat)
    }
}

/// The delay that the `k`-th call of `next` (from zero) returns after a
/// reset: `flat` calls at each delay, each run twice the one before, held
/// at `max_ms`; with `flat == 0`, the initial delay for ever.
pub open spec fn scheduled_delay(flat: nat, init_ms: nat, max_ms: nat, k: nat) -> nat {
    if flat == 0 {
        min_nat(init_ms, max_ms)
    } else {
        min_nat(init_ms * pow2(k / flat), max_ms)
    }
}

/// Backoff schedule: along any run of `next` calls from the reset state,
/// the `k`-th call returns `scheduled_delay(flat, init_ms, max_ms, k)`.
/// With `flat = 2` and `init_ms = 1000` that is 1000, 1000, 2000, 2000,
/// 4000, ...; with `flat = 0` it never changes.
pub proof fn lemma_backoff_schedule(run: Seq<TimerModel>, k: int)
    requires
        run.len() > 0,
        run[0] == timer_start(run[0].flat, run[0].init_ms, run[0].max_ms),
        forall|i: int| 0 <= i < run.len() - 1 ==> #[trigger] run[i + 1] == timer_step(run[i]),
        0 <= k < run.len(),
    ensures
        run[k].cur_ms == scheduled_delay(run[0].flat, run[0].init_ms, run[0].max_ms, k as nat),
        run[k].flat == run[0].flat && run[k].init_ms == run[0].init_ms && run[k].max_ms
            == run[0].max_ms,
        run[0].flat > 0 ==> run[k].rem == run[0].flat - k % (run[0].flat as int),
    decreases k,
{
    let (f, a, m) = (run[0].flat, run[0].init_ms, run[0].max_ms);
    if k == 0 {
        if f > 0 {
            vstd::arithmetic::div_mod::lemma_fundamental_div_mod_converse(0, f as int, 0, 0);
            assert(pow2(0) == 1);
            assert(a * pow2(0) == a) by (nonlinear_arith)
                requires
                    pow2(0) == 1,
            ;
        }
    } else {
        lemma_backoff_schedule(run, k - 1);
        assert(run[(k - 1) + 1] == timer_step(run[k - 1]));
        if f > 0 {
            let q = (k - 1) / (f as int);
            let r = (k - 1) % (f as int);
            vstd::arithmetic::div_mod::lemma_fundamental_div_mod(k - 1, f as int);
            vstd::arithmetic::div_mod::lemma_mod_bound(k - 1, f as int);
            let c = a * pow2(q as nat);
            if r == f - 1 {
                assert(k == (q + 1) * (f as int) + 0) by (nonlinear_arith)
                    requires
                        k - 1 == (f as int) * q + r,
                        r == f - 1,
                ;
                vstd::arithmetic::div_mod::lemma_fundamental_div_mod_converse(k, f as int, q + 1, 0);
                assert(pow2((q + 1) as nat) == 2 * pow2(q as nat));
                assert(a * pow2((q + 1) as nat) == 2 * c) by (nonlinear_arith)
                    requires
                        pow2((q + 1) as nat) == 2 * pow2(q as nat),
                        c == a * pow2(q as nat),
                ;
            } else {
                assert(k == q * (f as int) + (r + 1)) by (nonlinear_arith)
                    requires
                        k - 1 == (f as int) * q + r,
                ;
                vstd::arithmetic::div_mod::lemma_fundamental_div_mod_converse(k, f as int, q, r + 1);
            }
        }
    }
}

/// Keeps track of the delay before the next reconnection attempt.
pub struct DoublingTimer {
    flat: u32,
    init_ms: u64,
    max_ms: u64,
    cur_ms: u64,
    rem: u32,
}

impl View for DoublingTimer {
    type V = TimerModel;

    closed spec fn view(&self) -> TimerModel {
        TimerModel {
            flat: self.flat as nat,
            init_ms: self.init_ms as nat,
            max_ms: self.max_ms as nat,
            cur_ms: self.cur_ms as nat,
            rem: self.rem as nat,
        }
    }
}

impl DoublingTimer {
    /// Both limits of the model fit the machine words, and the countdown is in range.
    pub closed spec fn wf(&self) -> bool {
        &&& self.cur_ms <= self.max_ms
        &&& if self.flat == 0 {
            self.rem == 0
        } else {
            1 <= self.rem <= self.flat
        }
    }

    /// A timer in its reset state: `flat` attempts at `init_ms`, then the
    /// delay doubles; `flat == 0` never doubles. Doubling saturates at the
    /// largest `u64`.
    pub fn new(flat: u32, init_ms: u64) -> (r: Self)
        ensures
            r.wf(),
            r@ == timer_start(flat as nat, init_ms as nat, u64::MAX as nat),
    {
        Self::with_max(flat, init_ms, u64::MAX)
    }

    /// As `new`, with every delay held at or below `max_ms`.
    pub fn with_max(flat: u32, init_ms: u64, max_ms: u64) -> (r: Self)
        ensures
            r.wf(),
            r@ == timer_start(flat as nat, init_ms as nat, max_ms as nat),
    {
        let cur_ms = if init_ms <= max_ms {
            init_ms
        } else {
            max_ms
        };
        Self { flat, init_ms, max_ms, cur_ms, rem: flat }
    }

    /// The delay for this attempt, in milliseconds; the timer then moves on
    /// to the delay for the following one.
    pub fn next(&mut self) -> (r: u64)
        requires
            old(self).wf(),
        ensures
            final(self).wf(),
            r == old(self)@.cur_ms,
            final(self)@ == timer_step(old(self)@),
            old(self)@.cur_ms <= final(self)@.cur_ms,
    {
        let res = self.cur_ms;
        if self.flat != 0 {
            self.rem = self.rem - 1;
            if self.rem == 0 {
                self.rem = self.flat;
                self.cur_ms = if self.cur_ms <= self.max_ms / 2 {
                    2 * self.cur_ms
                } else {
                    self.max_ms
                };
            }
        }
        res
    }

    /// Back to the state that `new` or `with_max` gave.
    pub fn reset(&mut self)
        requires
            old(self).wf(),
        ensures
            final(self).wf(),
            final(self)@ == timer_start(
                old(self)@.flat,
                old(self)@.init_ms,
                old(self)@.max_ms,
            ),
    {
        self.cur_ms = if self.init_ms <= self.max_ms {
            self.init_ms
        } else {
            self.max_ms
        };
        self.rem = self.flat;
    }
}

} // verus!
