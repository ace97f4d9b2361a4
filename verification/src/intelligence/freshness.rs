//! Linear freshness decay of evidence over a window.

use vstd::prelude::*;

use crate::dec::{decimal_div, decimal_sub, div_value_fits, one_units, sub_fits, units, Dec, DecView, MAX_MANTISSA};
use crate::timestamp::{saturating_age, ts_lt, Timestamp};
use super::evidence::Score;
use super::IntelligenceError;

verus! {

#[derive(Clone, Copy, Debug, PartialEq, Eq)]
pub struct FreshnessPolicy {
    window_seconds: i64,
}

/// What is left of the window after `age` seconds, never below zero:
/// `max(1 - age / window, 0)`.
pub open spec fn linear_freshness(age: int, window: int) -> DecView {
    let left = decimal_sub((1int, 0nat), decimal_div((age, 0nat), (window, 0nat))->0)->0;
    if units(left) > 0 {
        left
    } else {
        (0int, 0nat)
    }
}

impl FreshnessPolicy {
    #[verifier::type_invariant]
    closed spec fn inv(self) -> bool {
        self.window_seconds > 0
    }

    pub closed spec fn spec_window(&self) -> i64 {
        self.window_seconds
    }

    pub fn linear(window_seconds: i64) -> (r: Result<FreshnessPolicy, IntelligenceError>)
        ensures
            window_seconds <= 0 ==> r == Err::<FreshnessPolicy, IntelligenceError>(IntelligenceError::InvalidFreshnessWindow),
            window_seconds > 0 ==> (r matches Ok(p) && p.spec_window() == window_seconds),
    {
        if window_seconds <= 0 {
            return Err(IntelligenceError::InvalidFreshnessWindow);
        }
        Ok(FreshnessPolicy { window_seconds })
    }

    /// The freshness of an event at `evaluated_at`; an event later than the
    /// evaluation time is refused.
    pub fn calculate(&self, event_time: Timestamp, observed_at: Timestamp, evaluated_at: Timestamp) -> (r: Result<Score, IntelligenceError>)
        ensures
            ts_lt(evaluated_at, event_time) ==> r == Err::<Score, IntelligenceError>(IntelligenceError::FutureObservation),
            !ts_lt(evaluated_at, event_time) ==> (r matches Ok(s) && s.spec_value()@ == linear_freshness(
                saturating_age(event_time.unix_seconds as int, evaluated_at.unix_seconds as int),
                self.spec_window() as int,
            )),
    {
        proof {
            use_type_invariant(self);
        }
        if evaluated_at.lt(&event_time) {
            return Err(IntelligenceError::FutureObservation);
        }
        let age_seconds = evaluated_at.seconds_since(&event_time);
        let age = Dec::from_i64(age_seconds);
        let window = Dec::from_i64(self.window_seconds);
        proof {
            crate::dec::lemma_pow10_positive(28);
            let o = one_units();
            let a = age_seconds as int;
            let w = self.window_seconds as int;
            assert(-9223372036854775808 <= a <= 9223372036854775807);
            assert(w >= 1);
            let abs_a = if a >= 0 { a } else { -a };
            assert(abs_a * o <= ((MAX_MANTISSA as int) - 1) * (w * o)) by (nonlinear_arith)
                requires
                    abs_a <= 9223372036854775808,
                    w >= 1,
                    o > 0,
                    MAX_MANTISSA as int == 79228162514264337593543950335,
            ;
            assert(units(age@) == a * o);
            assert(units(window@) == w * o);
            assert(div_value_fits(age@, window@)) by (nonlinear_arith)
                requires
                    units(age@) == a * o,
                    units(window@) == w * o,
                    abs_a == (if a >= 0 { a } else { -a }),
                    abs_a * o <= ((MAX_MANTISSA as int) - 1) * (w * o),
                    w >= 1,
                    o > 0,
            ;
        }
        let quotient = match age.checked_div(&window) {
            Some(q) => q,
            None => {
                proof {
                    assert(false);
                }
                Dec::zero()
            },
        };
        let one = Dec::one();
        proof {
            assert(age_seconds >= 0);
            assert(units(quotient@) >= 0);
        }
        let q_check = quotient.is_positive();
        proof {
            let q = quotient@;
            crate::dec::lemma_pow10_positive((28 - q.1) as nat);
            crate::dec::lemma_pow10_monotonic((28 - q.1) as nat, 28);
            assert(sub_fits(one@, q)) by {
                let p = crate::dec::pow10((28 - q.1) as nat);
                let k = crate::dec::pow10(q.1 as nat);
                let big = crate::dec::pow10(28);
                crate::dec::lemma_units_bound(q);
                crate::dec::lemma_pow10_split(q.1 as nat, (28 - q.1) as nat);
                crate::dec::lemma_pow10_monotonic(q.1 as nat, 28);
                crate::dec::lemma_pow10_positive(q.1 as nat);
                assert(big == k * p);
                assert(units(one@) == big);
                assert(units(q) == q.0 * p);
                assert(q.0 >= 0) by (nonlinear_arith)
                    requires
                        q.0 * p >= 0,
                        p > 0,
                ;
                let total = units(one@) + units((-q.0, q.1));
                assert(total == (k - q.0) * p) by (nonlinear_arith)
                    requires
                        total == big + (-q.0) * p,
                        big == k * p,
                ;
                vstd::arithmetic::div_mod::lemma_mod_multiples_basic(k - q.0, p);
                vstd::arithmetic::div_mod::lemma_div_multiples_vanish(k - q.0, p);
                assert(p * (k - q.0) == (k - q.0) * p) by (nonlinear_arith);
                assert(k <= big);
                reveal_with_fuel(crate::dec::pow10, 29);
                assert(big == 10000000000000000000000000000);
            }
        }
        let left = match one.checked_sub(&quotient) {
            Some(d) => d,
            None => {
                proof {
                    assert(false);
                }
                Dec::zero()
            },
        };
        let remaining = if Dec::zero().lt(&left) { left } else { Dec::zero() };
        proof {
            assert(units(left@) <= one_units());
        }
        match Score::new(remaining) {
            Ok(s) => Ok(s),
            Err(_) => {
                proof {
                    assert(false);
                }
                Err(IntelligenceError::FutureObservation)
            },
        }
    }
}

} // verus!
