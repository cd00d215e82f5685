//! Tick schedule arithmetic.  The send pipelines run on a fixed-period
//! schedule: the `k`-th deadline lies at `k * TICK_MS` milliseconds after
//! the epoch, so missed ticks are caught up instead of drifting ("every
//! `TICK_MS` from the epoch", never "sleep `TICK_MS` after the work").
//! The cadence lemma at the bottom shows that any ten-second window then
//! holds exactly five hundred deadlines.
use vstd::prelude::*;
use vstd::arithmetic::div_mod::{lemma_div_is_ordered, lemma_fundamental_div_mod,
    lemma_hoist_over_denominator, lemma_mod_bound};
use vstd::arithmetic::mul::lemma_mul_inequality;

use crate::TICK_MS;

verus! {

/// Number of schedule deadlines that lie strictly before `t_ms`
/// milliseconds after the epoch.
pub open spec fn ticks_before(t_ms: int) -> int {
    (t_ms + TICK_MS - 1) / (TICK_MS as int)
}

/// Computes [`ticks_before`].
pub fn scheduled_ticks(t_ms: u64) -> (r: u64)
    requires
        t_ms + TICK_MS - 1 <= u64::MAX,
    ensures
        r == ticks_before(t_ms as int),
{
    (t_ms + (TICK_MS - 1)) / TICK_MS
}

/// The millisecond offset of deadline `k`, when it fits the clock's width.
pub fn deadline_of(k: u64) -> (r: Option<u64>)
    ensures
        match r {
            Some(t) => t == k * TICK_MS,
            None => k * TICK_MS > u64::MAX,
        },
{
    k.checked_mul(TICK_MS)
}

/// Deadline `k` lies strictly before `t` exactly when `k` is below the
/// deadline count of `t`.
pub proof fn lemma_deadline_before(k: int, t: int)
    requires
        k >= 0,
        t >= 0,
    ensures
        (k * TICK_MS < t) <==> (k < ticks_before(t)),
{
    let d = TICK_MS as int;
    if k * d < t {
        assert(k * d + d <= t + d - 1);
        lemma_div_is_ordered(k * d + d, t + d - 1, d);
        assert((k * d + d) / d == k + 1) by {
            lemma_hoist_over_denominator(0, k + 1, TICK_MS as nat);
            assert((k + 1) * d == k * d + d) by (nonlinear_arith);
        }
    }
    if k < ticks_before(t) {
        let q = (t + d - 1) / d;
        lemma_fundamental_div_mod(t + d - 1, d);
        lemma_mod_bound(t + d - 1, d);
        assert(d * q <= t + d - 1);
        assert(k + 1 <= q);
        lemma_mul_inequality(k + 1, q, d);
        assert((k + 1) * d == k * d + d) by (nonlinear_arith);
        assert(d * q == q * d) by (nonlinear_arith);
        assert(k * d < t);
    }
}

/// Tick cadence: every window of ten seconds at or after the epoch holds
/// exactly five hundred schedule deadlines, so the TS-bound sender emits
/// five hundred packets in any such window as long as every deadline sends
/// one.
pub proof fn lemma_tick_cadence(a: int)
    requires
        a >= 0,
    ensures
        ticks_before(a + 10000) - ticks_before(a) == 500,
        forall|k: int| k >= 0 ==> ((a <= #[trigger] (k * TICK_MS) < a + 10000)
            <==> (ticks_before(a) <= k < ticks_before(a + 10000))),
{
    let d = TICK_MS as int;
    assert(ticks_before(a + 10000) == ticks_before(a) + 500) by {
        lemma_hoist_over_denominator(a + d - 1, 500, TICK_MS as nat);
    }
    assert forall|k: int| k >= 0 implies ((a <= #[trigger] (k * TICK_MS) < a + 10000)
        <==> (ticks_before(a) <= k < ticks_before(a + 10000))) by {
        lemma_deadline_before(k, a);
        lemma_deadline_before(k, a + 10000);
    }
}

} // verus!
