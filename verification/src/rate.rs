//! The client half of the rate governor: a token bucket that refills
//! continuously and is brought up to date lazily, at each check.
//!
//! Time is a count of microseconds handed in by the caller. The level is
//! kept in units of one sixty-millionth of a token, so that one microsecond
//! adds exactly `rate` units and the arithmetic is exact.

use vstd::prelude::*;

verus! {

/// Units of level that make one token, and microseconds that make a minute.
pub const UNITS_PER_TOKEN: u64 = 60_000_000;

/// A bucket of `rate` tokens that refills at `rate` tokens per minute.
#[derive(Debug, Clone)]
pub struct TokenBucket {
    rate_per_min: u32,
    level: u64,
    last: u64,
}

/// What a bucket holds: its rate in tokens per minute, its level in units,
/// and the time of the last refill in microseconds.
pub struct BucketView {
    pub rate: nat,
    pub level: nat,
    pub last: nat,
}

/// The level of a full bucket, in units.
pub open spec fn full_level(rate: nat) -> nat {
    rate * UNITS_PER_TOKEN as nat
}

/// Microseconds from the bucket's last refill to `now`; none if the clock
/// went backwards.
pub open spec fn elapsed(b: BucketView, now: nat) -> nat {
    if now >= b.last {
        (now - b.last) as nat
    } else {
        0
    }
}

/// The bucket brought up to date at `now`: one unit per microsecond and
/// token of rate, capped at the full level.
pub open spec fn refilled(b: BucketView, now: nat) -> BucketView {
    let level = b.level + b.rate * elapsed(b, now);
    BucketView {
        rate: b.rate,
        level: if level <= full_level(b.rate) {
            level
        } else {
            full_level(b.rate)
        },
        last: now,
    }
}

/// Whether the bucket, brought up to date at `now`, holds `n` tokens.
pub open spec fn admits(b: BucketView, n: nat, now: nat) -> bool {
    refilled(b, now).level >= n * UNITS_PER_TOKEN as nat
}

/// The bucket after an attempt at `now` to take `n` tokens: refilled, and
/// lowered by the tokens if it held them.
pub open spec fn after_consume(b: BucketView, n: nat, now: nat) -> BucketView {
    let r = refilled(b, now);
    if admits(b, n, now) {
        BucketView { level: (r.level - n * UNITS_PER_TOKEN as nat) as nat, ..r }
    } else {
        r
    }
}

/// The bucket after `k` attempts at `now` to take one token each.
pub open spec fn after_sends(b: BucketView, k: nat, now: nat) -> BucketView
    decreases k,
{
    if k == 0 {
        b
    } else {
        after_consume(after_sends(b, (k - 1) as nat, now), 1, now)
    }
}

/// Whether each of `k` attempts at `now` to take one token succeeds.
pub open spec fn all_sends_admitted(b: BucketView, k: nat, now: nat) -> bool
    decreases k,
{
    k > 0 ==> all_sends_admitted(b, (k - 1) as nat, now) && admits(
        after_sends(b, (k - 1) as nat, now),
        1,
        now,
    )
}

impl View for TokenBucket {
    type V = BucketView;

    closed spec fn view(&self) -> BucketView {
        BucketView { rate: self.rate_per_min as nat, level: self.level as nat, last: self.last as nat }
    }
}

impl TokenBucket {
    /// The level never exceeds the full level.
    pub closed spec fn wf(&self) -> bool {
        self.level <= self.rate_per_min * UNITS_PER_TOKEN
    }

    /// A full bucket for `rate_per_min` messages per minute, created at `now`.
    pub fn new(rate_per_min: u32, now: u64) -> (b: TokenBucket)
        ensures
            b.wf(),
            b@ == (BucketView {
                rate: rate_per_min as nat,
                level: full_level(rate_per_min as nat),
                last: now as nat,
            }),
    {
        let level: u64 = rate_per_min as u64 * UNITS_PER_TOKEN;
        TokenBucket { rate_per_min, level, last: now }
    }

    fn refill(&mut self, now: u64)
        requires
            old(self).wf(),
        ensures
            final(self).wf(),
            final(self)@ == refilled(old(self)@, now as nat),
    {
        let dt: u64 = if now >= self.last {
            now - self.last
        } else {
            0
        };
        let full: u64 = self.rate_per_min as u64 * UNITS_PER_TOKEN;
        let rate: u64 = self.rate_per_min as u64;
        if dt >= UNITS_PER_TOKEN {
            assert(self.level + rate * dt >= full) by (nonlinear_arith)
                requires
                    dt >= UNITS_PER_TOKEN,
                    full == rate * UNITS_PER_TOKEN,
            ;
            self.level = full;
        } else {
            assert(rate * dt <= full) by (nonlinear_arith)
                requires
                    dt < UNITS_PER_TOKEN,
                    full == rate * UNITS_PER_TOKEN,
            ;
            let add: u64 = rate * dt;
            if add >= full - self.level {
                self.level = full;
            } else {
                self.level = self.level + add;
            }
        }
        self.last = now;
    }

    /// Refills the bucket up to `now`, then takes `n` tokens if it holds
    /// them. Nothing is taken when it does not.
    pub fn try_consume(&mut self, n: u32, now: u64) -> (ok: bool)
        requires
            old(self).wf(),
        ensures
            final(self).wf(),
            ok == admits(old(self)@, n as nat, now as nat),
            final(self)@ == after_consume(old(self)@, n as nat, now as nat),
    {
        self.refill(now);
        let need: u64 = n as u64 * UNITS_PER_TOKEN;
        if self.level >= need {
            self.level = self.level - need;
            true
        } else {
            false
        }
    }

    /// Refills the bucket up to `now` and returns how many whole tokens it
    /// holds.
    pub fn peek_tokens(&mut self, now: u64) -> (tokens: u32)
        requires
            old(self).wf(),
        ensures
            final(self).wf(),
            final(self)@ == refilled(old(self)@, now as nat),
            tokens as nat == final(self)@.level / UNITS_PER_TOKEN as nat,
    {
        self.refill(now);
        let whole: u64 = self.level / UNITS_PER_TOKEN;
        assert(whole <= self.rate_per_min) by (nonlinear_arith)
            requires
                self.level <= self.rate_per_min * UNITS_PER_TOKEN,
                whole == self.level / UNITS_PER_TOKEN,
        ;
        whole as u32
    }

    /// The most tokens the bucket can hold: the rate in messages per minute.
    pub fn capacity(&self) -> (cap: u32)
        ensures
            cap as nat == self@.rate,
    {
        self.rate_per_min
    }
}

/// Taking `k` tokens one by one from a full bucket, without time passing,
/// succeeds each time while `k` is at most the capacity, and leaves
/// `rate - k` tokens.
pub proof fn lemma_full_bucket_serves_capacity(rate: nat, now: nat, k: nat)
    requires
        k <= rate,
    ensures
        all_sends_admitted(BucketView { rate, level: full_level(rate), last: now }, k, now),
        after_sends(BucketView { rate, level: full_level(rate), last: now }, k, now) == (BucketView {
            rate,
            level: ((rate - k) * UNITS_PER_TOKEN) as nat,
            last: now,
        }),
    decreases k,
{
    let b = BucketView { rate, level: full_level(rate), last: now };
    if k > 0 {
        lemma_full_bucket_serves_capacity(rate, now, (k - 1) as nat);
        let prev = after_sends(b, (k - 1) as nat, now);
        assert(prev.level == (rate - (k - 1)) * UNITS_PER_TOKEN);
        assert((rate - (k - 1)) * UNITS_PER_TOKEN == (rate - k) * UNITS_PER_TOKEN
            + UNITS_PER_TOKEN) by (nonlinear_arith);
        assert((rate - k) * UNITS_PER_TOKEN >= 0) by (nonlinear_arith)
            requires
                k <= rate,
        ;
        assert(prev.level <= full_level(rate)) by (nonlinear_arith)
            requires
                prev.level == (rate - (k - 1)) * UNITS_PER_TOKEN,
                k >= 1,
        ;
        assert(prev.rate * elapsed(prev, now) == 0) by (nonlinear_arith)
            requires
                elapsed(prev, now) == 0,
        ;
        assert(refilled(prev, now) == prev);
    } else {
        assert(rate * UNITS_PER_TOKEN == (rate - 0) * UNITS_PER_TOKEN);
    }
}

/// Once a full bucket has served its whole capacity, the next attempt at the
/// same instant is refused.
pub proof fn lemma_drained_bucket_refuses(rate: nat, now: nat)
    ensures
        !admits(
            after_sends(BucketView { rate, level: full_level(rate), last: now }, rate, now),
            1,
            now,
        ),
{
    lemma_full_bucket_serves_capacity(rate, now, rate);
    let drained = BucketView { rate, level: 0, last: now };
    assert((rate - rate) * UNITS_PER_TOKEN == 0);
    assert(drained.rate * elapsed(drained, now) == 0) by (nonlinear_arith)
        requires
            elapsed(drained, now) == 0,
    ;
}

/// However empty a bucket is, once a minute's share of the rate has passed
/// since its last refill (`rate * waited >= 60_000_000` microseconds, that is
/// `60 / rate` seconds), it holds a token again.
pub proof fn lemma_token_after_wait(b: BucketView, now: nat)
    requires
        b.rate > 0,
        now >= b.last,
        b.rate * (now - b.last) >= UNITS_PER_TOKEN,
    ensures
        admits(b, 1, now),
{
    assert(full_level(b.rate) >= UNITS_PER_TOKEN) by (nonlinear_arith)
        requires
            b.rate >= 1,
            full_level(b.rate) == b.rate * UNITS_PER_TOKEN as nat,
    ;
}

} // verus!
