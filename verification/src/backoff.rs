//! Reconnect pacing: how long to wait before each connection attempt, and
//! when to stop trying.

use vstd::arithmetic::power2::{lemma2_to64, lemma_pow2_unfold, pow2};
use vstd::prelude::*;

verus! {

/// Consecutive failed attempts after which a run gives up.
pub const MAX_CONNECTION_ATTEMPTS: u64 = 12;

/// Seconds to wait before the next attempt, after `failures` consecutive
/// failed attempts: nothing before the first attempt, one second before the
/// second, and twice the previous wait from then on.
pub open spec fn backoff_delay(failures: nat) -> nat
    decreases failures,
{
    if failures == 0 {
        0
    } else if failures == 1 {
        1
    } else {
        2 * backoff_delay((failures - 1) as nat)
    }
}

/// What a `ConnectionAttemptState` holds: the failed attempts since the
/// last connection, and the seconds to wait before the next attempt.
pub struct AttemptsView {
    pub attempts: nat,
    pub delay: nat,
}

/// The state after `failures` consecutive failed attempts.
pub open spec fn attempts_after(failures: nat) -> AttemptsView {
    AttemptsView { attempts: failures, delay: backoff_delay(failures) }
}

/// Whether the cap on attempts is reached.
pub open spec fn is_exhausted(s: AttemptsView) -> bool {
    s.attempts >= MAX_CONNECTION_ATTEMPTS
}

/// The state after one more failed attempt. At the cap nothing changes.
pub open spec fn after_failure(s: AttemptsView) -> AttemptsView {
    if is_exhausted(s) {
        s
    } else {
        AttemptsView {
            attempts: s.attempts + 1,
            delay: if s.delay == 0 {
                1
            } else {
                2 * s.delay
            },
        }
    }
}

/// The state after `n` more failed attempts.
pub open spec fn after_failures(s: AttemptsView, n: nat) -> AttemptsView
    decreases n,
{
    if n == 0 {
        s
    } else {
        after_failure(after_failures(s, (n - 1) as nat))
    }
}

/// The wait doubles: from the second attempt on it is a power of two.
pub proof fn lemma_backoff_is_power_of_two(failures: nat)
    requires
        failures >= 1,
    ensures
        backoff_delay(failures) == pow2((failures - 1) as nat),
    decreases failures,
{
    if failures == 1 {
        lemma2_to64();
    } else {
        lemma_backoff_is_power_of_two((failures - 1) as nat);
        lemma_pow2_unfold((failures - 1) as nat);
    }
}

/// The waits before the attempts 1 to 12, in seconds.
pub proof fn law_backoff_sequence()
    ensures
        backoff_delay(0) == 0,
        backoff_delay(1) == 1,
        backoff_delay(2) == 2,
        backoff_delay(3) == 4,
        backoff_delay(4) == 8,
        backoff_delay(5) == 16,
        backoff_delay(6) == 32,
        backoff_delay(7) == 64,
        backoff_delay(8) == 128,
        backoff_delay(9) == 256,
        backoff_delay(10) == 512,
        backoff_delay(11) == 1024,
{
    reveal_with_fuel(backoff_delay, 12);
}

/// After a successful connection, `n` failed attempts in a row lead to the
/// state that belongs to `n` failures: the wait before the attempt that
/// follows is `backoff_delay(n)`. With the twelfth failure the cap is
/// reached, and not before.
pub proof fn law_failures_in_a_row(n: nat)
    requires
        n <= MAX_CONNECTION_ATTEMPTS,
    ensures
        after_failures(attempts_after(0), n) == attempts_after(n),
        is_exhausted(after_failures(attempts_after(0), n)) <==> n == MAX_CONNECTION_ATTEMPTS,
    decreases n,
{
    if n > 0 {
        law_failures_in_a_row((n - 1) as nat);
        if n > 1 {
            lemma_backoff_is_power_of_two((n - 1) as nat);
            vstd::arithmetic::power2::lemma_pow2_pos((n - 2) as nat);
        }
    }
}

/// Attempt counter and current delay of the reconnect loop.
#[derive(Clone, Copy, Debug)]
pub struct ConnectionAttemptState {
    attempts: u64,
    delay: u64,
}

impl View for ConnectionAttemptState {
    type V = AttemptsView;

    closed spec fn view(&self) -> AttemptsView {
        AttemptsView { attempts: self.attempts as nat, delay: self.delay as nat }
    }
}

impl ConnectionAttemptState {
    /// The counter never passes the cap, and the delay is the one that
    /// belongs to the counter.
    pub open spec fn wf(&self) -> bool {
        &&& self@.attempts <= MAX_CONNECTION_ATTEMPTS
        &&& self@ == attempts_after(self@.attempts)
    }

    /// The state at startup: no failures, no delay.
    pub fn new() -> (s: Self)
        ensures
            s.wf(),
            s@ == attempts_after(0),
    {
        ConnectionAttemptState { attempts: 0, delay: 0 }
    }

    /// Failed attempts since the last successful connection.
    pub fn attempts(&self) -> (r: u64)
        ensures
            r == self@.attempts,
    {
        self.attempts
    }

    /// Whether the cap is reached: no further attempt is to be made.
    pub fn exhausted(&self) -> (r: bool)
        ensures
            r == is_exhausted(self@),
    {
        self.attempts >= MAX_CONNECTION_ATTEMPTS
    }

    /// Seconds to wait before the next attempt, or `None` when the cap is
    /// reached.
    pub fn next_delay(&self) -> (r: Option<u64>)
        ensures
            r == (if is_exhausted(self@) {
                None
            } else {
                Some(self@.delay as u64)
            }),
            r matches Some(d) ==> d == self@.delay,
    {
        if self.attempts >= MAX_CONNECTION_ATTEMPTS {
            None
        } else {
            Some(self.delay)
        }
    }

    /// Records a failed attempt.
    pub fn connection_failed(&mut self)
        requires
            old(self).wf(),
        ensures
            final(self).wf(),
            final(self)@ == after_failure(old(self)@),
    {
        if self.attempts < MAX_CONNECTION_ATTEMPTS {
            proof {
                if self.attempts >= 1 {
                    lemma_backoff_is_power_of_two(self.attempts as nat);
                    lemma2_to64();
                    vstd::arithmetic::power2::lemma_pow2_strictly_increases(
                        (self.attempts - 1) as nat,
                        11,
                    );
                    vstd::arithmetic::power2::lemma_pow2_pos((self.attempts - 1) as nat);
                }
            }
            self.attempts = self.attempts + 1;
            self.delay = if self.delay == 0 {
                1
            } else {
                self.delay * 2
            };
        }
    }

    /// Records a successful connection: counter and delay start over.
    pub fn connection_succeeded(&mut self)
        ensures
            final(self).wf(),
            final(self)@ == attempts_after(0),
    {
        self.attempts = 0;
        self.delay = 0;
    }
}

} // verus!
