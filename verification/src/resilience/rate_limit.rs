//! Token bucket in front of a port.
//!
//! The bucket is counted in billionths of a permit, so that a refill of
//! `refill_per_sec` permits per second adds exactly `refill_per_sec` units
//! per elapsed nanosecond and no rounding ever enters the count.

use crate::isa::{IsaError, IsaErrorView, Port};
use crate::resilience::decorate::{decorate, decorated_name, lemma_decorated_name_of, saturating_inc};
use crate::text::{decimal, owned, u64_to_decimal};
use vstd::prelude::*;

verus! {

/// Units of the bucket per permit.
pub const UNITS_PER_PERMIT: u64 = 1_000_000_000;

pub struct RateLimitConfig {
    /// Permits available at full charge.
    pub capacity: u32,
    /// Permits restored per second.
    pub refill_per_sec: u32,
}

impl Clone for RateLimitConfig {
    fn clone(&self) -> (c: Self)
        ensures
            c.capacity == self.capacity,
            c.refill_per_sec == self.refill_per_sec,
    {
        RateLimitConfig { capacity: self.capacity, refill_per_sec: self.refill_per_sec }
    }
}

impl Default for RateLimitConfig {
    fn default() -> (c: Self)
        ensures
            c.capacity == 10,
            c.refill_per_sec == 10,
    {
        RateLimitConfig { capacity: 10, refill_per_sec: 10 }
    }
}

/// A rate limiter's state as plain values.
pub struct RateLimitView {
    pub name: Seq<char>,
    pub capacity: u32,
    pub refill_per_sec: u32,
    /// The charge, in billionths of a permit.
    pub units: u64,
    pub last_refill_ns: u64,
    pub rejected: u32,
}

/// A full bucket, in units.
pub open spec fn full_units(capacity: u32) -> int {
    capacity * UNITS_PER_PERMIT
}

/// The bucket at `now`: the time since the last refill adds
/// `refill_per_sec` units per nanosecond, up to a full bucket. No time
/// passed (or a clock that went back) changes nothing.
pub open spec fn refilled(v: RateLimitView, now: u64) -> RateLimitView {
    if now <= v.last_refill_ns {
        v
    } else {
        let total = v.units + (now - v.last_refill_ns) * v.refill_per_sec;
        let units = if total < full_units(v.capacity) {
            total
        } else {
            full_units(v.capacity)
        };
        RateLimitView { units: units as u64, last_refill_ns: now, ..v }
    }
}

/// The rejection message of an empty bucket.
pub open spec fn rate_limited_message(capacity: u32, refill_per_sec: u32) -> Seq<char> {
    "rate limited (capacity="@ + decimal(capacity as nat) + ", refill/s="@ + decimal(
        refill_per_sec as nat,
    ) + ")"@
}

/// Rejects port calls while the bucket holds less than one permit.
pub struct RateLimit<P> {
    name: String,
    inner: P,
    config: RateLimitConfig,
    units: u64,
    last_refill_ns: u64,
    /// Calls turned away for want of a permit.
    pub rejected: u32,
}

impl<P> View for RateLimit<P> {
    type V = RateLimitView;

    closed spec fn view(&self) -> RateLimitView {
        RateLimitView {
            name: self.name@,
            capacity: self.config.capacity,
            refill_per_sec: self.config.refill_per_sec,
            units: self.units,
            last_refill_ns: self.last_refill_ns,
            rejected: self.rejected,
        }
    }
}

impl<P> RateLimit<P> {
    /// The wrapped port.
    pub closed spec fn spec_inner(&self) -> P {
        self.inner
    }

    /// A full bucket whose refill clock starts at `now_ns`.
    pub fn new_at(inner: P, config: RateLimitConfig, now_ns: u64) -> (r: Self)
        ensures
            r@ == (RateLimitView {
                name: "rate_limit"@,
                capacity: config.capacity,
                refill_per_sec: config.refill_per_sec,
                units: full_units(config.capacity) as u64,
                last_refill_ns: now_ns,
                rejected: 0,
            }),
            r.spec_inner() == inner,
    {
        let units = config.capacity as u64 * UNITS_PER_PERMIT;
        RateLimit {
            name: owned("rate_limit"),
            inner,
            config,
            units,
            last_refill_ns: now_ns,
            rejected: 0,
        }
    }

    /// A full bucket whose refill clock starts now.
    pub fn new(inner: P, config: RateLimitConfig) -> (r: Self)
        ensures
            r@.name == "rate_limit"@,
            r@.capacity == config.capacity,
            r@.refill_per_sec == config.refill_per_sec,
            r@.units == full_units(config.capacity),
            r@.rejected == 0,
            r.spec_inner() == inner,
    {
        let now = crate::clock::unix_time_ns();
        Self::new_at(inner, config, now)
    }

    /// A limiter with the default capacity and refill rate.
    pub fn wrap(inner: P) -> (r: Self)
        ensures
            r@.name == "rate_limit"@,
            r@.capacity == 10,
            r@.refill_per_sec == 10,
            r@.units == full_units(10),
            r@.rejected == 0,
            r.spec_inner() == inner,
    {
        Self::new(inner, RateLimitConfig::default())
    }

    fn refill_at(&mut self, now_ns: u64)
        ensures
            final(self)@ == refilled(old(self)@, now_ns),
            final(self).spec_inner() == old(self).spec_inner(),
    {
        if now_ns <= self.last_refill_ns {
            return;
        }
        let elapsed = now_ns - self.last_refill_ns;
        let rate = self.config.refill_per_sec;
        proof {
            assert(elapsed * rate <= 0xffff_ffff_ffff_ffffu64 * 0xffff_ffffu32) by (nonlinear_arith)
                requires
                    elapsed <= 0xffff_ffff_ffff_ffffu64,
                    rate <= 0xffff_ffffu32,
            ;
        }
        let add: u128 = elapsed as u128 * rate as u128;
        let total: u128 = self.units as u128 + add;
        let full: u128 = self.config.capacity as u128 * 1_000_000_000u128;
        self.units = if total < full {
            total as u64
        } else {
            full as u64
        };
        self.last_refill_ns = now_ns;
    }

    /// One call through the limiter with the clock reading `now_ns`.
    pub fn call_at<In, Out>(&mut self, input: In, now_ns: u64) -> (r: Result<Out, IsaError>) where
        P: Port<In, Out>,
        ensures
            decorated_name(final(self)@.name, "rate_limit"@),
            ({
                let v = RateLimitView { name: final(self)@.name, ..refilled(old(self)@, now_ns) };
                if v.units < UNITS_PER_PERMIT {
                    &&& r matches Err(e) && e@ == (IsaErrorView::Port {
                        port: final(self)@.name,
                        message: rate_limited_message(v.capacity, v.refill_per_sec),
                    })
                    &&& final(self)@ == (RateLimitView { rejected: saturating_inc(v.rejected), ..v })
                    &&& final(self).spec_inner() == old(self).spec_inner()
                } else {
                    final(self)@ == (RateLimitView { units: (v.units - UNITS_PER_PERMIT) as u64, ..v })
                }
            }),
            old(self)@.units <= full_units(old(self)@.capacity) ==> final(self)@.units <= full_units(
                final(self)@.capacity,
            ),
    {
        let full_name = decorate("rate_limit", self.inner.name());
        proof {
            reveal_strlit("rate_limit");
            lemma_decorated_name_of(full_name@, "rate_limit"@);
        }
        self.name = full_name;
        self.refill_at(now_ns);
        if self.units < UNITS_PER_PERMIT {
            self.rejected = self.rejected.saturating_add(1);
            proof {
                reveal_strlit("rate limited (capacity=");
                reveal_strlit(", refill/s=");
                reveal_strlit(")");
            }
            let mut message = owned("rate limited (capacity=");
            message.append(u64_to_decimal(self.config.capacity as u64).as_str());
            message.append(", refill/s=");
            message.append(u64_to_decimal(self.config.refill_per_sec as u64).as_str());
            message.append(")");
            return Err(IsaError::port(self.name.as_str(), message.as_str()));
        }
        self.units = self.units - UNITS_PER_PERMIT;
        self.inner.call(input)
    }
}

/// What one call through the limiter does at the clock reading `now`: with
/// less than a permit in the refilled bucket it is refused with the
/// rate-limited error and counted; else one permit is spent (and the result
/// is the wrapped port's). A refused call leaves the wrapped port
/// untouched (`inner_kept`).
pub open spec fn rate_limit_call<Out>(
    before: RateLimitView,
    after: RateLimitView,
    now: u64,
    r: Result<Out, IsaError>,
    inner_kept: bool,
) -> bool {
    let v = RateLimitView { name: after.name, ..refilled(before, now) };
    if v.units < UNITS_PER_PERMIT {
        &&& r matches Err(e) && e@ == (IsaErrorView::Port {
            port: after.name,
            message: rate_limited_message(v.capacity, v.refill_per_sec),
        })
        &&& after == (RateLimitView { rejected: saturating_inc(v.rejected), ..v })
        &&& inner_kept
    } else {
        after == (RateLimitView { units: (v.units - UNITS_PER_PERMIT) as u64, ..v })
    }
}

/// The limiter went through one call at some clock reading.
pub open spec fn rate_limit_call_at_some_time<Out>(
    before: RateLimitView,
    after: RateLimitView,
    r: Result<Out, IsaError>,
    inner_kept: bool,
) -> bool {
    exists|now: u64| #[trigger] rate_limit_call(before, after, now, r, inner_kept)
}

impl<P: Port<In, Out>, In, Out> Port<In, Out> for RateLimit<P> {
    fn name(&self) -> (n: &str)
        ensures
            n@ == self@.name,
    {
        self.name.as_str()
    }

    /// Reads the clock once and makes the call at that reading.
    fn call(&mut self, input: In) -> (r: Result<Out, IsaError>)
        ensures
            decorated_name(final(self)@.name, "rate_limit"@),
            rate_limit_call_at_some_time(
                old(self)@,
                final(self)@,
                r,
                final(self).spec_inner() == old(self).spec_inner(),
            ),
            old(self)@.units <= full_units(old(self)@.capacity) ==> final(self)@.units <= full_units(
                final(self)@.capacity,
            ),
    {
        let now = crate::clock::unix_time_ns();
        let r = self.call_at(input, now);
        assert(rate_limit_call(
            old(self)@,
            final(self)@,
            now,
            r,
            final(self).spec_inner() == old(self).spec_inner(),
        ));
        r
    }
}

/// A refill at a later time records that time as the last refill, adds
/// exactly `refill_per_sec` units per elapsed nanosecond (up to a full
/// bucket), and never credits the same time twice: refilling at `t1` and
/// then at `t2` leaves the bucket as one refill at `t2` would.
pub proof fn law_refill_credits_each_moment_once(v: RateLimitView, t1: u64, t2: u64)
    requires
        t1 <= t2,
    ensures
        t1 > v.last_refill_ns ==> refilled(v, t1).last_refill_ns == t1,
        t1 > v.last_refill_ns ==> refilled(v, t1).units == (if v.units + (t1 - v.last_refill_ns)
            * v.refill_per_sec < v.capacity * UNITS_PER_PERMIT {
            v.units + (t1 - v.last_refill_ns) * v.refill_per_sec
        } else {
            v.capacity * UNITS_PER_PERMIT
        }),
        refilled(refilled(v, t1), t2) == refilled(v, t2),
        t2 > v.last_refill_ns ==> refilled(v, t2).units <= v.units + (t2 - v.last_refill_ns)
            * v.refill_per_sec,
{
    if t1 > v.last_refill_ns && t2 > t1 {
        let l = v.last_refill_ns;
        let r = v.refill_per_sec;
        assert((t1 - l) * r + (t2 - t1) * r == (t2 - l) * r) by (nonlinear_arith);
        assert((t2 - t1) * r >= 0) by (nonlinear_arith)
            requires
                t2 > t1,
        ;
        assert((t1 - l) * r >= 0) by (nonlinear_arith)
            requires
                t1 > l,
        ;
    }
}

/// The bucket never holds more than a full charge: a refill stops at the
/// capacity, and a call only takes from it.
pub proof fn law_bucket_never_overfills(v: RateLimitView, now: u64)
    requires
        v.units <= full_units(v.capacity),
    ensures
        refilled(v, now).units <= full_units(v.capacity),
        refilled(v, now).capacity == v.capacity,
{
}

/// With no refill rate, time adds nothing to the bucket, so only the calls
/// it already holds permits for go through.
pub proof fn law_no_refill_spends_down(v: RateLimitView, now: u64)
    requires
        v.refill_per_sec == 0,
        v.units <= full_units(v.capacity),
    ensures
        refilled(v, now).units == v.units,
{
    if now > v.last_refill_ns {
        assert((now - v.last_refill_ns) * v.refill_per_sec == 0) by (nonlinear_arith)
            requires
                v.refill_per_sec == 0,
        ;
    }
}

/// Without a refill rate the clock decides nothing: a call through a bucket
/// holding a permit spends exactly that permit, and a call through one
/// holding less is refused with the rate-limited error and counted.
pub proof fn law_no_refill_call_is_clock_free<Out>(
    before: RateLimitView,
    after: RateLimitView,
    r: Result<Out, IsaError>,
    inner_kept: bool,
)
    requires
        before.refill_per_sec == 0,
        before.units <= full_units(before.capacity),
        rate_limit_call_at_some_time(before, after, r, inner_kept),
    ensures
        before.units >= UNITS_PER_PERMIT ==> after.units == before.units - UNITS_PER_PERMIT
            && after.rejected == before.rejected,
        before.units < UNITS_PER_PERMIT ==> {
            &&& after.units == before.units
            &&& after.rejected == saturating_inc(before.rejected)
            &&& inner_kept
            &&& r matches Err(e) && e@ == (IsaErrorView::Port {
                port: after.name,
                message: rate_limited_message(before.capacity, 0),
            })
        },
{
    let now = choose|now: u64| #[trigger] rate_limit_call(before, after, now, r, inner_kept);
    law_no_refill_spends_down(before, now);
}

} // verus!
