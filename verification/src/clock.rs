//! A clock that is advanced by ticks and reports when its timeout has run off.
use vstd::prelude::*;

verus! {

/// Counts ticks up to a timeout, and starts over when it is reached.
pub struct LogicalClock {
    time: u64,
    timeout: u64,
}

impl LogicalClock {
    #[verifier::type_invariant]
    spec fn inv(self) -> bool {
        self.timeout > 0 ==> self.time < self.timeout
    }

    /// The ticks since the clock was made or last timed out.
    pub closed spec fn time(self) -> nat {
        self.time as nat
    }

    /// The ticks after which the clock times out; with zero it never does.
    pub closed spec fn timeout(self) -> nat {
        self.timeout as nat
    }

    /// A clock that times out after `timeout` ticks.
    pub fn with(timeout: u64) -> (clock: Self)
        ensures
            clock.time() == 0,
            clock.timeout() == timeout,
    {
        LogicalClock { time: 0, timeout }
    }

    /// Advances the clock by one tick and reports whether it timed out, in which case it starts
    /// over. A clock without a timeout only counts, up to the largest `u64`.
    pub fn tick_and_check_timeout(&mut self) -> (timed_out: bool)
        requires
            old(self).timeout() == 0 ==> old(self).time() < u64::MAX,
        ensures
            final(self).timeout() == old(self).timeout(),
            timed_out == fires(old(self).time(), old(self).timeout()),
            final(self).time() == time_after_tick(old(self).time(), old(self).timeout()),
            timed_out <==> old(self).time() + 1 == old(self).timeout(),
            timed_out ==> final(self).time() == 0,
            !timed_out ==> final(self).time() == old(self).time() + 1,
    {
        proof {
            use_type_invariant(&*self);
        }
        let t: u64 = self.time;
        if t + 1 == self.timeout {
            self.time = 0;
            true
        } else {
            self.time = t + 1;
            false
        }
    }
}

/// Whether a tick at `time` reaches the timeout.
pub open spec fn fires(time: nat, timeout: nat) -> bool {
    time + 1 == timeout
}

/// What the clock shows after a tick at `time`.
pub open spec fn time_after_tick(time: nat, timeout: nat) -> nat {
    if fires(time, timeout) {
        0
    } else {
        time + 1
    }
}

/// What a new clock shows after `ticks` ticks.
pub open spec fn time_after(ticks: nat, timeout: nat) -> nat
    decreases ticks,
{
    if ticks == 0 {
        0
    } else {
        time_after_tick(time_after((ticks - 1) as nat, timeout), timeout)
    }
}

/// A new clock times out on every `timeout`-th tick and on no other: the tick after `ticks` ticks
/// fires if and only if `ticks + 1` is a multiple of the timeout.
pub proof fn law_clock_is_periodic(ticks: nat, timeout: nat)
    requires
        timeout > 0,
    ensures
        time_after(ticks, timeout) == ticks % timeout,
        fires(time_after(ticks, timeout), timeout) <==> (ticks + 1) % timeout == 0,
    decreases ticks,
{
    vstd::arithmetic::div_mod::lemma_mod_bound(ticks as int, timeout as int);
    if ticks == 0 {
        vstd::arithmetic::div_mod::lemma_small_mod(0, timeout);
    } else {
        law_clock_is_periodic((ticks - 1) as nat, timeout);
        lemma_mod_step((ticks - 1) as nat, timeout);
    }
    lemma_mod_step(ticks, timeout);
}

/// A clock whose timeout is zero counts its ticks and never times out.
pub proof fn law_clock_without_timeout_never_fires(ticks: nat)
    ensures
        time_after(ticks, 0) == ticks,
        !fires(time_after(ticks, 0), 0),
    decreases ticks,
{
    if ticks > 0 {
        law_clock_without_timeout_never_fires((ticks - 1) as nat);
    }
}

proof fn lemma_mod_step(n: nat, d: nat)
    requires
        d > 0,
    ensures
        (n + 1) % d == (if n % d + 1 == d {
            0
        } else {
            n % d + 1
        }),
{
    vstd::arithmetic::div_mod::lemma_fundamental_div_mod(n as int, d as int);
    let q = n as int / d as int;
    if n % d + 1 == d {
        assert(n + 1 == (q + 1) * d) by (nonlinear_arith)
            requires
                n == d * q + n % d,
                n % d + 1 == d,
        ;
        vstd::arithmetic::div_mod::lemma_fundamental_div_mod_converse(
            n as int + 1,
            d as int,
            q + 1,
            0,
        );
    } else {
        vstd::arithmetic::div_mod::lemma_mod_bound(n as int, d as int);
        assert(n + 1 == q * d + (n % d + 1)) by (nonlinear_arith)
            requires
                n == d * q + n % d,
        ;
        vstd::arithmetic::div_mod::lemma_fundamental_div_mod_converse(
            n as int + 1,
            d as int,
            q,
            n as int % d as int + 1,
        );
    }
}

/// A tick advances the clock by one, modulo the timeout, and fires when it wraps around. Without a
/// timeout it only advances.
pub proof fn law_tick_advances_modulo_timeout(time: nat, timeout: nat)
    requires
        timeout > 0 ==> time < timeout,
    ensures
        timeout > 0 ==> time_after_tick(time, timeout) == (time + 1) % timeout,
        timeout > 0 ==> (fires(time, timeout) <==> (time + 1) % timeout == 0),
        timeout == 0 ==> time_after_tick(time, timeout) == time + 1 && !fires(time, timeout),
{
    if timeout > 0 {
        vstd::arithmetic::div_mod::lemma_small_mod(time, timeout);
        lemma_mod_step(time, timeout);
    }
}

/// What a new clock shows after some ticks is reached tick by tick.
pub proof fn law_ticks_add_up(ticks: nat, timeout: nat)
    ensures
        time_after(0, timeout) == 0,
        time_after(ticks + 1, timeout) == time_after_tick(time_after(ticks, timeout), timeout),
{
}

} // verus!
