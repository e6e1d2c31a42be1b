//! A token bucket for the Mbps cap of a subscription.

use vstd::prelude::*;

use crate::clock::unix_millis;

verus! {

/// Tokens are bytes; the bucket holds one second's worth, and never less than
/// one large packet. `max_mbps == 0` means no cap.
#[derive(Debug, Clone, Copy, PartialEq, Eq, Structural)]
pub struct RateLimit {
    pub max_mbps: u32,
    pub tokens: u64,
    pub last_refill_ms: u64,
}

pub open spec fn byte_rate(max_mbps: u32) -> nat {
    max_mbps as nat * 125_000
}

pub open spec fn burst(max_mbps: u32) -> nat {
    if byte_rate(max_mbps) > 65_536 {
        byte_rate(max_mbps)
    } else {
        65_536
    }
}

fn bytes_per_sec(max_mbps: u32) -> (rate: u64)
    ensures
        rate == byte_rate(max_mbps),
{
    max_mbps as u64 * 125_000
}

fn burst_bytes(max_mbps: u32) -> (size: u64)
    ensures
        size == burst(max_mbps),
{
    let rate: u64 = bytes_per_sec(max_mbps);
    if rate > 65_536 {
        rate
    } else {
        65_536
    }
}

impl RateLimit {
    /// A full bucket.
    pub open spec fn fresh(max_mbps: u32, now_ms: u64) -> RateLimit {
        RateLimit { max_mbps, tokens: burst(max_mbps) as u64, last_refill_ms: now_ms }
    }

    /// What has flowed in by `now_ms`: nothing where that is not a whole byte.
    pub open spec fn inflow(self, now_ms: u64) -> nat {
        if now_ms <= self.last_refill_ms {
            0
        } else {
            let total = byte_rate(self.max_mbps) * (now_ms - self.last_refill_ms);
            ((if total > u64::MAX {
                u64::MAX as int
            } else {
                total
            }) / 1000) as nat
        }
    }

    /// The bucket at `now_ms`, filled up to its size.
    pub open spec fn refilled(self, now_ms: u64) -> RateLimit {
        let added = self.inflow(now_ms);
        if added == 0 {
            self
        } else {
            RateLimit {
                max_mbps: self.max_mbps,
                tokens: (if self.tokens + added > burst(self.max_mbps) {
                    burst(self.max_mbps) as int
                } else {
                    self.tokens + added
                }) as u64,
                last_refill_ms: now_ms,
            }
        }
    }

    /// What becomes of a request for `bytes` at `now_ms`: whether they pass,
    /// and the bucket afterwards.
    pub open spec fn taking(self, bytes: u64, now_ms: u64) -> (bool, RateLimit) {
        if self.max_mbps == 0 || bytes == 0 {
            (true, self)
        } else {
            let full = self.refilled(now_ms);
            if bytes <= full.tokens {
                (true, RateLimit { tokens: (full.tokens - bytes) as u64, ..full })
            } else {
                (false, full)
            }
        }
    }

    /// A bucket with a cap never holds more than its size.
    pub open spec fn wf(self) -> bool {
        self.tokens <= burst(self.max_mbps)
    }

    pub fn new_at(max_mbps: u32, now_ms: u64) -> (limit: Self)
        ensures
            limit == RateLimit::fresh(max_mbps, now_ms),
            limit.wf(),
    {
        RateLimit { max_mbps, tokens: burst_bytes(max_mbps), last_refill_ms: now_ms }
    }

    /// A full bucket at the present time.
    pub fn new(max_mbps: u32) -> (limit: Self)
        ensures
            exists|now_ms: u64| limit == RateLimit::fresh(max_mbps, now_ms),
            limit.wf(),
    {
        let now_ms: u64 = unix_millis();
        Self::new_at(max_mbps, now_ms)
    }

    /// Lets `bytes` through and takes their tokens, if there are enough.
    pub fn allow_at(&mut self, bytes: u64, now_ms: u64) -> (yes: bool)
        ensures
            (yes, *final(self)) == old(self).taking(bytes, now_ms),
    {
        if self.max_mbps == 0 || bytes == 0 {
            return true;
        }
        self.refill(now_ms);
        if self.tokens < bytes {
            return false;
        }
        self.tokens = self.tokens - bytes;
        true
    }

    /// `allow_at` at the present time.
    pub fn allow(&mut self, bytes: u64) -> (yes: bool)
        ensures
            exists|now_ms: u64| (yes, *final(self)) == #[trigger] old(self).taking(bytes, now_ms),
    {
        let now_ms: u64 = unix_millis();
        self.allow_at(bytes, now_ms)
    }

    fn refill(&mut self, now_ms: u64)
        ensures
            *final(self) == old(self).refilled(now_ms),
    {
        if now_ms <= self.last_refill_ms {
            return;
        }
        let rate: u64 = bytes_per_sec(self.max_mbps);
        let elapsed: u64 = now_ms - self.last_refill_ms;
        let product: Option<u64> = rate.checked_mul(elapsed);
        let total: u64 = match product {
            Some(total) => total,
            None => u64::MAX,
        };
        let added: u64 = total / 1000;
        if added == 0 {
            return;
        }
        let cap: u64 = burst_bytes(self.max_mbps);
        let sum: u64 = self.tokens.saturating_add(added);
        self.tokens = if sum > cap {
            cap
        } else {
            sum
        };
        self.last_refill_ms = now_ms;
    }
}

/// Whatever is asked for and when, a capped bucket lets through at most its
/// size at once, and never more in all than it held and what flowed in; one
/// without a cap lets everything through.
pub proof fn law_rate_is_capped(limit: RateLimit, bytes: u64, now_ms: u64)
    requires
        limit.wf(),
    ensures
        limit.taking(bytes, now_ms).1.wf(),
        limit.max_mbps != 0 && limit.taking(bytes, now_ms).0 ==> {
            &&& bytes <= burst(limit.max_mbps)
            &&& bytes + limit.taking(bytes, now_ms).1.tokens <= limit.tokens + limit.inflow(now_ms)
        },
        limit.max_mbps == 0 ==> limit.taking(bytes, now_ms) == (true, limit),
{
}

/// A capped bucket of `max_mbps` megabits takes in 125 bytes for each of them
/// in a millisecond, up to what flows in a second, and forgets no time: after
/// any pause it holds what it held and what has flowed in, or is full.
pub proof fn law_bucket_fills(limit: RateLimit, now_ms: u64)
    requires
        limit.wf(),
        limit.max_mbps > 0,
    ensures
        ({
            let later = limit.refilled(now_ms);
            let full = limit.max_mbps * 125_000;
            let sum = limit.tokens + limit.max_mbps * 125 * (now_ms - limit.last_refill_ms);
            &&& later.max_mbps == limit.max_mbps
            &&& now_ms <= limit.last_refill_ms ==> later == limit
            &&& now_ms > limit.last_refill_ms ==> later.last_refill_ms == now_ms
            &&& now_ms >= limit.last_refill_ms && sum <= full ==> later.tokens == sum
            &&& now_ms >= limit.last_refill_ms && sum > full ==> later.tokens == full
            &&& now_ms >= limit.last_refill_ms + 1000 ==> later.tokens == full
        }),
{
    let rate = limit.max_mbps as int;
    if now_ms > limit.last_refill_ms {
        let elapsed = now_ms - limit.last_refill_ms;
        let total = byte_rate(limit.max_mbps) * elapsed;
        let whole = rate * 125 * elapsed;
        assert(total == whole * 1000) by (nonlinear_arith)
            requires
                total == (rate * 125_000) * elapsed,
                whole == rate * 125 * elapsed,
        ;
        assert(whole >= 125) by (nonlinear_arith)
            requires
                rate >= 1,
                elapsed >= 1,
                whole == rate * 125 * elapsed,
        ;
        if elapsed >= 1000 {
            assert(whole >= rate * 125_000) by (nonlinear_arith)
                requires
                    rate >= 1,
                    elapsed >= 1000,
                    whole == rate * 125 * elapsed,
            ;
        }
    } else {
        assert(rate * 125 * 0 == 0);
    }
}

/// Looking at a bucket in between does not change what it holds later.
pub proof fn law_refills_add_up(limit: RateLimit, between: u64, now_ms: u64)
    requires
        limit.wf(),
        limit.max_mbps > 0,
        limit.last_refill_ms <= between <= now_ms,
    ensures
        limit.refilled(between).refilled(now_ms) == limit.refilled(now_ms),
        limit.refilled(between).tokens <= limit.refilled(now_ms).tokens,
{
    law_bucket_fills(limit, between);
    law_bucket_fills(limit, now_ms);
    let middle = limit.refilled(between);
    law_bucket_fills(middle, now_ms);
    let rate = limit.max_mbps as int;
    let a = between - limit.last_refill_ms;
    let b = now_ms - between;
    assert(rate * 125 * (a + b) == rate * 125 * a + rate * 125 * b) by (nonlinear_arith);
    assert(rate * 125 * a >= 0 && rate * 125 * b >= 0) by (nonlinear_arith)
        requires
            rate >= 0,
            a >= 0,
            b >= 0,
    ;
}

/// What fits in the bucket passes and is taken from it, byte for byte; what
/// does not is refused and takes nothing. A new bucket is full.
pub proof fn law_what_fits_passes(limit: RateLimit, bytes: u64, now_ms: u64)
    requires
        limit.wf(),
        limit.max_mbps > 0,
        bytes > 0,
    ensures
        ({
            let (passes, after) = limit.taking(bytes, now_ms);
            let held = limit.refilled(now_ms);
            &&& passes <==> bytes <= held.tokens
            &&& passes ==> after.tokens + bytes == held.tokens
            &&& !passes ==> after.tokens == held.tokens
            &&& after.last_refill_ms == held.last_refill_ms
            &&& after.max_mbps == limit.max_mbps
        }),
        limit.taking(0, now_ms) == (true, limit),
        RateLimit::fresh(limit.max_mbps, now_ms) == (RateLimit {
            max_mbps: limit.max_mbps,
            tokens: (limit.max_mbps * 125_000) as u64,
            last_refill_ms: now_ms,
        }),
{
}

/// A request passes if and only if the bucket holds as many bytes by then:
/// what it held and 125 for each megabit and millisecond since, at most a
/// second's worth. What passes is taken out, what does not takes nothing.
/// Without a cap everything passes.
pub proof fn law_request(limit: &mut RateLimit, bytes: u64, now_ms: u64, yes: bool)
    requires
        call_ensures(RateLimit::allow_at, (limit, bytes, now_ms), yes),
        old(limit).wf(),
    ensures
        final(limit).max_mbps == old(limit).max_mbps,
        old(limit).max_mbps == 0 || bytes == 0 ==> yes && *final(limit) == *old(limit),
        old(limit).max_mbps > 0 && bytes > 0 ==> {
            let full = old(limit).max_mbps * 125_000;
            let since = if now_ms > old(limit).last_refill_ms {
                now_ms - old(limit).last_refill_ms
            } else {
                0
            };
            let sum = old(limit).tokens + old(limit).max_mbps * 125 * since;
            let held = if sum > full {
                full
            } else {
                sum
            };
            &&& yes <==> bytes <= held
            &&& yes ==> final(limit).tokens == held - bytes
            &&& !yes ==> final(limit).tokens == held
            &&& since >= 1000 ==> held == full
            &&& final(limit).last_refill_ms == old(limit).last_refill_ms + since
        },
        final(limit).wf(),
{
    if old(limit).max_mbps > 0 && bytes > 0 {
        law_bucket_fills(*old(limit), now_ms);
        assert(old(limit).max_mbps * 125 * 0 == 0);
    }
}

/// A new bucket is full: a second's worth, or 65536 bytes without a cap.
pub proof fn law_new_bucket(max_mbps: u32, now_ms: u64, limit: RateLimit)
    requires
        call_ensures(RateLimit::new_at, (max_mbps, now_ms), limit),
    ensures
        limit.max_mbps == max_mbps,
        limit.last_refill_ms == now_ms,
        max_mbps > 0 ==> limit.tokens == max_mbps * 125_000,
        max_mbps == 0 ==> limit.tokens == 65_536,
{
}

} // verus!
