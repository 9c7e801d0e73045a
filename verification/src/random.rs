//! Draws from the thread-local random generator of `rand`.
//!
//! Every stochastic decision of the library goes through the two draws of
//! this module. Their contracts state what holds of every outcome; which
//! outcome comes out is left to chance.

use rand::Rng;
use vstd::prelude::*;

verus! {

/// Calls `rand::Rng::gen_range` with the inclusive range `lo..=hi` on
/// `rand::thread_rng()`. Claimed: the value lies in `lo..=hi` (the range is
/// non-empty, so the call does not panic). Which value comes out is not stated.
#[verifier::external_body]
pub(crate) fn random_between(lo: u64, hi: u64) -> (r: u64)
    requires
        lo <= hi,
    ensures
        lo <= r <= hi,
{
    rand::thread_rng().gen_range(lo..=hi)
}

/// Calls `rand::Rng::gen_ratio(numerator, denominator)` on
/// `rand::thread_rng()`. Claimed, as its documentation says: a numerator of 0
/// always gives `false`, a numerator equal to the denominator always gives
/// `true`; the call panics only for a zero denominator or a numerator above
/// the denominator, which `requires` leaves out. Otherwise the outcome is
/// left unsaid.
#[verifier::external_body]
pub(crate) fn chance(numerator: u32, denominator: u32) -> (b: bool)
    requires
        0 < denominator,
        numerator <= denominator,
    ensures
        numerator == 0 ==> !b,
        numerator == denominator ==> b,
{
    rand::thread_rng().gen_ratio(numerator, denominator)
}

/// `n` draws, each one call of `chance(numerator, denominator)`, in order:
/// all `false` when the chance is nil, all `true` when it is certain.
pub fn chance_draws(n: usize, numerator: u32, denominator: u32) -> (d: Vec<bool>)
    requires
        0 < denominator,
        numerator <= denominator,
    ensures
        d@.len() == n,
        numerator == 0 ==> forall|i: int| 0 <= i < n ==> !#[trigger] d@[i],
        numerator == denominator ==> forall|i: int| 0 <= i < n ==> #[trigger] d@[i],
{
    let mut d: Vec<bool> = Vec::new();
    let mut k: usize = 0;
    while k < n
        invariant
            k <= n,
            d@.len() == k,
            0 < denominator,
            numerator <= denominator,
            numerator == 0 ==> forall|i: int| 0 <= i < k ==> !#[trigger] d@[i],
            numerator == denominator ==> forall|i: int| 0 <= i < k ==> #[trigger] d@[i],
        decreases n - k,
    {
        let b = chance(numerator, denominator);
        d.push(b);
        k = k + 1;
    }
    d
}

} // verus!
