//! Exponential backoff with jitter for reconnect logic.

use vstd::arithmetic::power2::{lemma2_to64, lemma_pow2_strictly_increases, lemma_pow2_unfold, pow2};
use vstd::prelude::*;

use crate::externals::random_between;
use crate::time::{Duration, MAX_NANOS};

verus! {

/// Past this many attempts the delay no longer doubles.
pub const MAX_EXPONENT: u32 = 20;

/// The unit of a jitter factor: a factor of one.
pub const FACTOR_ONE: u64 = 1_000_000_000;

/// The smallest jitter factor, three quarters.
pub const FACTOR_MIN: u64 = 750_000_000;

/// The largest jitter factor, five quarters.
pub const FACTOR_MAX: u64 = 1_250_000_000;

/// How long to wait before the next attempt.
#[derive(Clone, Debug)]
pub struct Backoff {
    initial: Duration,
    max: Duration,
    jitter: bool,
    attempt: u32,
}

/// The lesser of two numbers.
pub open spec fn lesser(a: nat, b: nat) -> nat {
    if a <= b {
        a
    } else {
        b
    }
}

/// The delay before jitter, in nanoseconds: `initial` doubled once per attempt
/// made, as far as the exponent goes, and no longer than `max`.
pub open spec fn bounded_nanos(initial: nat, max: nat, attempt: nat) -> nat {
    lesser(initial * pow2(lesser(attempt, MAX_EXPONENT as nat)), max)
}

/// A delay of `nanos` spread by a factor in units of [`FACTOR_ONE`], rounded to
/// the nearest nanosecond.
pub open spec fn spread_nanos(nanos: nat, factor: nat) -> nat {
    (nanos * factor + FACTOR_ONE as nat / 2) / FACTOR_ONE as nat
}

/// `factor` is one that jitter may draw.
pub open spec fn is_jitter_factor(factor: nat) -> bool {
    FACTOR_MIN <= factor <= FACTOR_MAX
}

impl Backoff {
    /// The delay of the first attempt.
    pub closed spec fn initial(self) -> Duration {
        self.initial
    }

    /// The longest delay before jitter.
    pub closed spec fn max(self) -> Duration {
        self.max
    }

    /// Whether delays are spread.
    pub closed spec fn jitter(self) -> bool {
        self.jitter
    }

    /// How many delays have been handed out since the start or the last reset.
    pub closed spec fn attempt(self) -> nat {
        self.attempt as nat
    }

    /// The next delay before jitter, in nanoseconds.
    pub open spec fn next_nanos(self) -> nat {
        bounded_nanos(self.initial().nanos(), self.max().nanos(), self.attempt())
    }

    /// The next delay can be spread without leaving the range of a span.
    pub open spec fn can_spread(self) -> bool {
        self.jitter() ==> 5 * self.next_nanos() <= 4 * MAX_NANOS
    }

    /// So can every delay, however many attempts are made.
    pub open spec fn always_spreads(self) -> bool {
        self.jitter() ==> 5 * bounded_nanos(
            self.initial().nanos(),
            self.max().nanos(),
            MAX_EXPONENT as nat,
        ) <= 4 * MAX_NANOS
    }

    /// The same backoff, except for the number of attempts.
    pub open spec fn same_settings(self, other: Backoff) -> bool {
        &&& self.initial() == other.initial()
        &&& self.max() == other.max()
        &&& self.jitter() == other.jitter()
    }

    /// `d` is a delay that this backoff may hand out next.
    pub open spec fn may_delay(self, d: Duration) -> bool {
        if self.jitter() {
            exists|factor: nat| #[trigger]
                is_jitter_factor(factor) && d.nanos() == spread_nanos(self.next_nanos(), factor)
        } else {
            d.nanos() == self.next_nanos()
        }
    }

    /// A backoff that has handed out no delay yet.
    pub fn new(initial: Duration, max: Duration, jitter: bool) -> (r: Backoff)
        ensures
            r.initial() == initial,
            r.max() == max,
            r.jitter() == jitter,
            r.attempt() == 0,
    {
        Backoff { initial, max, jitter, attempt: 0 }
    }

    /// The next delay before jitter.
    fn bounded(&self) -> (r: Duration)
        ensures
            r.nanos() == self.next_nanos(),
            r.nanos() <= self.max().nanos(),
    {
        let exp: u32 = if self.attempt < MAX_EXPONENT {
            self.attempt
        } else {
            MAX_EXPONENT
        };
        proof {
            lemma2_to64();
            if exp < MAX_EXPONENT {
                lemma_pow2_strictly_increases(exp as nat, MAX_EXPONENT as nat);
            }
            vstd::bits::lemma_u32_shl_is_mul(1u32, exp);
        }
        let raw: Duration = self.initial.saturating_mul(1u32 << exp);
        raw.min(self.max)
    }

    /// Whether the next delay can be spread.
    pub fn can_delay(&self) -> (r: bool)
        ensures
            r == self.can_spread(),
    {
        !self.jitter || 5 * self.bounded().as_nanos() <= 4 * MAX_NANOS
    }

    /// The next delay for a jitter factor that was drawn.
    pub fn spread(bounded: Duration, factor: u64) -> (r: Duration)
        requires
            is_jitter_factor(factor as nat),
            5 * bounded.nanos() <= 4 * MAX_NANOS,
        ensures
            r.nanos() == spread_nanos(bounded.nanos(), factor as nat),
    {
        let nanos: u128 = bounded.as_nanos();
        assert(nanos * factor <= MAX_NANOS * FACTOR_ONE && nanos * factor <= u128::MAX)
            by (nonlinear_arith)
            requires
                5 * nanos <= 4 * MAX_NANOS,
                factor <= FACTOR_MAX,
                FACTOR_MAX * 4 == FACTOR_ONE * 5,
                MAX_NANOS * FACTOR_ONE <= u128::MAX,
        ;
        assert((nanos * factor + 500_000_000) / 1_000_000_000 <= MAX_NANOS) by (nonlinear_arith)
            requires
                nanos * factor <= MAX_NANOS * 1_000_000_000,
        ;
        Duration::from_nanos(
            (nanos * factor as u128 + FACTOR_ONE as u128 / 2) / FACTOR_ONE as u128,
        )
    }

    /// Returns the next delay and counts the attempt.
    pub fn next_delay(&mut self) -> (r: Duration)
        requires
            old(self).can_spread(),
        ensures
            old(self).may_delay(r),
            final(self).same_settings(*old(self)),
            final(self).attempt() == lesser(old(self).attempt() + 1, u32::MAX as nat),
    {
        let bounded: Duration = self.bounded();
        let with_jitter: Duration = if self.jitter {
            let factor: u64 = random_between(FACTOR_MIN, FACTOR_MAX);
            assert(is_jitter_factor(factor as nat));
            Self::spread(bounded, factor)
        } else {
            bounded
        };
        self.attempt = self.attempt.saturating_add(1);
        with_jitter
    }

    /// Starts over from the initial delay.
    pub fn reset(&mut self)
        ensures
            final(self).same_settings(*old(self)),
            final(self).attempt() == 0,
    {
        self.attempt = 0;
    }
}

/// Where the longest delay can be spread, so can the next one, after however
/// many attempts.
pub proof fn law_longest_delay_bounds_all(b: Backoff)
    requires
        b.always_spreads(),
    ensures
        b.can_spread(),
{
    let i = b.initial().nanos();
    let e = lesser(b.attempt(), MAX_EXPONENT as nat);
    if e < MAX_EXPONENT {
        lemma_pow2_strictly_increases(e, MAX_EXPONENT as nat);
    }
    assert(i * pow2(e) <= i * pow2(MAX_EXPONENT as nat)) by (nonlinear_arith)
        requires
            pow2(e) <= pow2(MAX_EXPONENT as nat),
            i >= 0,
    ;
}

/// The first delay, and the first one after a reset, is the initial one, cut
/// to the longest.
pub proof fn law_first_delay_is_initial(b: Backoff)
    requires
        b.attempt() == 0,
    ensures
        b.next_nanos() == lesser(b.initial().nanos(), b.max().nanos()),
{
    lemma2_to64();
    let i = b.initial().nanos();
    assert(i * pow2(0) == i) by (nonlinear_arith)
        requires
            pow2(0) == 1,
    ;
}

/// From one attempt to the next the delay doubles until it reaches the longest
/// one or the exponent its cap.
pub proof fn law_delay_doubles_until_max(before: Backoff, after: Backoff)
    requires
        after.same_settings(before),
        after.attempt() == before.attempt() + 1,
    ensures
        before.attempt() < MAX_EXPONENT ==> after.next_nanos() == lesser(
            2 * before.next_nanos(),
            before.max().nanos(),
        ),
        before.attempt() >= MAX_EXPONENT ==> after.next_nanos() == before.next_nanos(),
{
    let i = before.initial().nanos();
    if before.attempt() < MAX_EXPONENT {
        let a = before.attempt();
        lemma_pow2_unfold(a + 1);
        let p = pow2(a);
        assert(pow2(a + 1) == 2 * p);
        assert(i * (2 * p) == 2 * (i * p)) by (nonlinear_arith);
    }
}

/// A delay lies between three quarters and five quarters of the unspread delay,
/// both rounded to the nearest nanosecond; and that never exceeds the longest one.
pub proof fn law_delay_stays_in_band(b: Backoff, d: Duration)
    requires
        b.may_delay(d),
    ensures
        (3 * b.next_nanos() + 2) / 4 <= d.nanos() <= (5 * b.next_nanos() + 2) / 4,
        b.next_nanos() <= b.max().nanos(),
        !b.jitter() ==> d.nanos() <= b.max().nanos(),
{
    let n = b.next_nanos();
    if b.jitter() {
        let factor = choose|factor: nat| #[trigger]
            is_jitter_factor(factor) && d.nanos() == spread_nanos(n, factor);
        let scaled = n * factor;
        assert(n * 750_000_000 <= scaled <= n * 1_250_000_000) by (nonlinear_arith)
            requires
                750_000_000 <= factor <= 1_250_000_000,
                scaled == n * factor,
        ;
    }
}

/// After a reset the backoff is as good as new.
pub proof fn law_reset_forgets_attempts(b: Backoff, fresh: Backoff)
    requires
        b.same_settings(fresh),
        b.attempt() == fresh.attempt(),
    ensures
        b == fresh,
{
}

/// A spread delay is the nearest whole nanosecond to the delay times the factor:
/// it is off by half a nanosecond at most.
pub proof fn law_spread_is_the_nearest(nanos: nat, factor: nat)
    ensures
        1_000_000_000 * spread_nanos(nanos, factor) <= nanos * factor + 500_000_000,
        nanos * factor < 1_000_000_000 * spread_nanos(nanos, factor) + 500_000_000,
{
    let scaled = nanos * factor;
    assert(spread_nanos(nanos, factor) == (scaled + 500_000_000) / 1_000_000_000);
}

/// Any factor from three quarters to five quarters may be drawn, and no other.
pub proof fn law_factors_are_within_a_quarter(factor: nat)
    ensures
        is_jitter_factor(factor) <==> 3 * 1_000_000_000 <= 4 * factor <= 5 * 1_000_000_000,
{
}

/// With jitter, a delay may be handed out exactly if some such factor gives it;
/// without, only the unspread delay may be.
pub proof fn law_delay_comes_from_a_factor(b: Backoff, d: Duration)
    ensures
        !b.jitter() ==> (b.may_delay(d) <==> d.nanos() == b.next_nanos()),
        b.jitter() ==> (b.may_delay(d) <==> exists|factor: nat|
            750_000_000 <= factor <= 1_250_000_000 && d.nanos() == #[trigger] spread_nanos(
                b.next_nanos(),
                factor,
            )),
{
    if b.jitter() {
        if b.may_delay(d) {
            let f = choose|factor: nat| #[trigger]
                is_jitter_factor(factor) && d.nanos() == spread_nanos(b.next_nanos(), factor);
            assert(d.nanos() == spread_nanos(b.next_nanos(), f));
        }
        if exists|factor: nat|
            750_000_000 <= factor <= 1_250_000_000 && d.nanos() == #[trigger] spread_nanos(
                b.next_nanos(),
                factor,
            ) {
            let f = choose|factor: nat|
                750_000_000 <= factor <= 1_250_000_000 && d.nanos() == #[trigger] spread_nanos(
                    b.next_nanos(),
                    factor,
                );
            assert(is_jitter_factor(f));
        }
    }
}

/// Delays never shrink from one attempt to the next, nor ever exceed the longest
/// one before they are spread.
pub proof fn law_delays_do_not_shrink(before: Backoff, after: Backoff)
    requires
        after.same_settings(before),
        after.attempt() == before.attempt() + 1,
    ensures
        before.next_nanos() <= after.next_nanos() <= before.max().nanos(),
        before.max().nanos() == 0 ==> after.next_nanos() == 0,
{
    law_delay_doubles_until_max(before, after);
}

/// Two backoffs have the same settings exactly if first delay, longest delay and
/// jitter are the same.
pub proof fn law_settings_are_the_three(a: Backoff, b: Backoff)
    ensures
        a.same_settings(b) <==> a.initial() == b.initial() && a.max() == b.max() && a.jitter()
            == b.jitter(),
{
}

/// A delay can be spread exactly if five quarters of it are still a span.
pub proof fn law_spread_stays_a_span(b: Backoff)
    ensures
        b.can_spread() <==> !b.jitter() || 5 * b.next_nanos() <= 4 * MAX_NANOS,
{
}

/// The lesser of two numbers is one of them, and neither is below it.
pub proof fn law_lesser_is_a_lower_bound(a: nat, b: nat)
    ensures
        lesser(a, b) == a || lesser(a, b) == b,
        lesser(a, b) <= a,
        lesser(a, b) <= b,
{
}

} // verus!
