//! A stateful counter that answers "should a periodic event fire on this
//! tick?" on a fixed period, firing unconditionally on the very first call.
//!
//! The ticker starts in a fresh state; the first call to `tick` always fires
//! and moves it into a counting state, where it stays forever. In the
//! counting state each call increments the elapsed count and fires exactly
//! when the count reaches the period, carrying any excess over (subtracting
//! the period rather than resetting to zero).

use vstd::prelude::*;

verus! {

/// Mathematical model of a ticker: the elapsed count since the last fire,
/// the fixed period, and whether the first call is still outstanding.
pub ghost struct TickerState {
    pub ticks: nat,
    pub period: nat,
    pub first: bool,
}

/// Well-formedness: the period is positive, the elapsed count starts at zero
/// and stays below the period once the ticker is counting.
pub open spec fn ticker_wf(s: TickerState) -> bool {
    &&& s.period >= 1
    &&& (s.first ==> s.ticks == 0)
    &&& (!s.first ==> s.ticks < s.period)
}

/// Whether a call to `tick` made in state `s` fires: always on the first
/// call, afterwards exactly when the incremented count reaches the period.
pub open spec fn tick_fires(s: TickerState) -> bool {
    s.first || s.ticks + 1 >= s.period
}

/// The state a call to `tick` made in state `s` leaves behind. The first
/// call only clears the first-call flag; later calls increment the count
/// and, on a fire, subtract the period from it (carry-over, not a reset).
pub open spec fn tick_next(s: TickerState) -> TickerState {
    if s.first {
        TickerState { ticks: s.ticks, period: s.period, first: false }
    } else if s.ticks + 1 >= s.period {
        TickerState { ticks: (s.ticks + 1 - s.period) as nat, period: s.period, first: false }
    } else {
        TickerState { ticks: s.ticks + 1, period: s.period, first: false }
    }
}

/// The state of a fresh ticker created with the given period.
pub open spec fn fresh_state(period: nat) -> TickerState {
    TickerState { ticks: 0, period, first: true }
}

/// The state of a ticker with the given period after `n` calls to `tick`
/// from the fresh state.
pub open spec fn state_after(period: nat, n: nat) -> TickerState
    decreases n,
{
    if n == 0 {
        fresh_state(period)
    } else {
        tick_next(state_after(period, (n - 1) as nat))
    }
}

/// Whether the `n`-th call (counting from 1) to `tick` on a ticker created
/// with the given period fires.
pub open spec fn fires_on(period: nat, n: nat) -> bool
    recommends
        period >= 1 && n >= 1,
{
    tick_fires(state_after(period, (n - 1) as nat))
}

/// A call to `tick` preserves well-formedness: in particular, once the
/// ticker is counting, the elapsed count stays below the period.
pub proof fn lemma_tick_preserves_wf(s: TickerState)
    requires
        ticker_wf(s),
    ensures
        ticker_wf(tick_next(s)),
{
}

/// After `n >= 1` calls from the fresh state the ticker is counting, its
/// period is unchanged, and its elapsed count is `(n - 1) % period`.
pub proof fn lemma_counting_state(period: nat, n: nat)
    requires
        period >= 1,
        n >= 1,
    ensures
        !state_after(period, n).first,
        state_after(period, n).period == period,
        state_after(period, n).ticks == (n - 1) % (period as int),
    decreases n,
{
    let p = period as int;
    if n == 1 {
        assert(state_after(period, 0) == fresh_state(period));
        assert(state_after(period, 1) == tick_next(state_after(period, 0)));
        assert(0int % p == 0) by {
            vstd::arithmetic::div_mod::lemma_fundamental_div_mod_converse_mod(0, p, 0, 0);
        }
    } else {
        lemma_counting_state(period, (n - 1) as nat);
        let r = (n - 2) % p;
        let q = (n - 2) / p;
        vstd::arithmetic::div_mod::lemma_fundamental_div_mod(n - 2, p);
        assert(n - 2 == q * p + r) by {
            assert(p * q == q * p) by (nonlinear_arith);
        }
        if r + 1 == p {
            assert(n - 1 == (q + 1) * p + 0) by {
                assert((q + 1) * p == q * p + p) by (nonlinear_arith);
            }
            vstd::arithmetic::div_mod::lemma_fundamental_div_mod_converse_mod(n - 1, p, q + 1, 0);
        } else {
            vstd::arithmetic::div_mod::lemma_fundamental_div_mod_converse_mod(n - 1, p, q, r + 1);
        }
    }
}

/// The firing pattern of a ticker: the first call always fires, and a later
/// call `n` fires exactly when `n - 1` is a multiple of the period.
pub proof fn lemma_fire_pattern(period: nat, n: nat)
    requires
        period >= 1,
        n >= 1,
    ensures
        fires_on(period, n) == (n == 1 || (n - 1) % (period as int) == 0),
{
    let p = period as int;
    if n == 1 {
        assert(state_after(period, 0) == fresh_state(period));
    } else {
        lemma_counting_state(period, (n - 1) as nat);
        let r = (n - 2) % p;
        let q = (n - 2) / p;
        vstd::arithmetic::div_mod::lemma_fundamental_div_mod(n - 2, p);
        assert(n - 2 == q * p + r) by {
            assert(p * q == q * p) by (nonlinear_arith);
        }
        if r + 1 == p {
            assert(n - 1 == (q + 1) * p + 0) by {
                assert((q + 1) * p == q * p + p) by (nonlinear_arith);
            }
            vstd::arithmetic::div_mod::lemma_fundamental_div_mod_converse_mod(n - 1, p, q + 1, 0);
        } else {
            vstd::arithmetic::div_mod::lemma_fundamental_div_mod_converse_mod(n - 1, p, q, r + 1);
        }
    }
}

/// A ticker with period 1 fires on every call: on the first call because the
/// first call always fires, and on every later call because the elapsed
/// count reaches the period immediately.
pub proof fn lemma_period_one_always_fires(n: nat)
    requires
        n >= 1,
    ensures
        fires_on(1, n),
{
    lemma_fire_pattern(1, n);
    if n > 1 {
        vstd::arithmetic::div_mod::lemma_fundamental_div_mod_converse_mod(n - 1, 1, n - 1, 0);
    }
}

pub struct Ticker {
    /// ticks since the last fire
    ticks: usize,
    /// every period-th tick should fire
    period: usize,
    /// fire on the first tick always
    first: bool,
}

impl View for Ticker {
    type V = TickerState;

    closed spec fn view(&self) -> TickerState {
        TickerState { ticks: self.ticks as nat, period: self.period as nat, first: self.first }
    }
}

impl Ticker {
    /// Creates a fresh ticker with the given positive period.
    pub fn new(period: usize) -> (t: Ticker)
        requires
            period >= 1,
        ensures
            t@ == (TickerState { ticks: 0, period: period as nat, first: true }),
            ticker_wf(t@),
    {
        Ticker { ticks: 0, period, first: true }
    }

    /// Advances the ticker by one call and reports whether the periodic
    /// event should fire on this call.
    pub fn tick(&mut self) -> (fired: bool)
        requires
            ticker_wf(old(self)@),
        ensures
            fired == tick_fires(old(self)@),
            final(self)@ == tick_next(old(self)@),
            ticker_wf(final(self)@),
    {
        if self.first {
            self.first = false;
            return true;
        }

        self.ticks += 1;

        if self.ticks >= self.period {
            self.ticks -= self.period;
            true
        } else {
            false
        }
    }
}

} // verus!

