//! The login session and the brute-force throttle.
//!
//! Time is a millisecond count on a monotonic clock, so the policy is testable
//! without sleeping.

use vstd::prelude::*;

verus! {

/// Failed logins allowed before the cool-down kicks in.
pub const MAX_FAILURES: u32 = 5;
/// How long the lockout lasts once tripped (ms).
pub const LOCKOUT_MS: u64 = 30_000;

/// Login session. In memory only: quitting the app always ends the session;
/// "remember me" is what survives a restart, and it lives in the config.
#[derive(Debug, Clone, Copy, Default, PartialEq, Eq, Structural)]
pub struct Session {
    pub logged_in: bool,
}

/// Per-process brute-force throttle: 5 failures → 30 s lockout.
#[derive(Debug, Clone, Copy, Default, PartialEq, Eq, Structural)]
pub struct LoginThrottle {
    pub failures: u32,
    pub locked_until: Option<u64>,
}

impl LoginThrottle {
    /// The remaining cool-down at `now`, if any.
    pub open spec fn spec_remaining(self, now: u64) -> Option<u64> {
        match self.locked_until {
            Some(until) => if until > now {
                Some((until - now) as u64)
            } else {
                None
            },
            None => None,
        }
    }

    /// The throttle after a wrong password at `now`.
    pub open spec fn spec_record_failure(self, now: u64) -> LoginThrottle {
        let fresh = match self.locked_until {
            Some(until) => until <= now,
            None => false,
        };
        let base = if fresh {
            0
        } else {
            self.failures
        };
        let failures = (base + 1) as u32;
        LoginThrottle {
            failures,
            locked_until: if failures >= MAX_FAILURES {
                Some((now + LOCKOUT_MS) as u64)
            } else if fresh {
                None
            } else {
                self.locked_until
            },
        }
    }

    /// Remaining cool-down, or `None` if logins are allowed right now.
    pub fn remaining(&self, now: u64) -> (r: Option<u64>)
        ensures
            r == self.spec_remaining(now),
    {
        match self.locked_until {
            Some(until) => {
                if until > now {
                    Some(until - now)
                } else {
                    None
                }
            },
            None => None,
        }
    }

    /// Record a wrong password; trips the lockout on the 5th consecutive miss.
    /// A failure after the cool-down expired starts a fresh streak.
    pub fn record_failure(&mut self, now: u64)
        requires
            old(self).failures < u32::MAX,
            now <= u64::MAX - LOCKOUT_MS,
        ensures
            *final(self) == old(self).spec_record_failure(now),
    {
        let expired = match self.locked_until {
            Some(until) => until <= now,
            None => false,
        };
        if expired {
            self.failures = 0;
            self.locked_until = None;
        }
        self.failures = self.failures + 1;
        if self.failures >= MAX_FAILURES {
            self.locked_until = Some(now + LOCKOUT_MS);
        }
    }

    /// Successful login — clear the streak.
    pub fn reset(&mut self)
        ensures
            *final(self) == cleared(),
    {
        self.failures = 0;
        self.locked_until = None;
    }
}

/// A throttle with no streak and no lock, as a new one starts.
pub open spec fn cleared() -> LoginThrottle {
    LoginThrottle { failures: 0, locked_until: None }
}

/// Wrong passwords at the given instants, in order, from `t`.
pub open spec fn after_failures(t: LoginThrottle, nows: Seq<u64>) -> LoginThrottle
    decreases nows.len(),
{
    if nows.len() == 0 {
        t
    } else {
        after_failures(t, nows.drop_last()).spec_record_failure(nows.last())
    }
}

/// Any lock set by a history of failures ends 30 s after one of them.
proof fn lemma_lock_from_a_failure(nows: Seq<u64>)
    requires
        forall|i: int| 0 <= i < nows.len() ==> #[trigger] nows[i] <= u64::MAX - LOCKOUT_MS,
    ensures
        after_failures(cleared(), nows).locked_until matches Some(u) ==> exists|k: int|
            0 <= k < nows.len() && u == #[trigger] nows[k] + LOCKOUT_MS,
    decreases nows.len(),
{
    if nows.len() > 0 {
        let init = nows.drop_last();
        assert forall|i: int| 0 <= i < init.len() implies #[trigger] init[i] <= u64::MAX - LOCKOUT_MS by {
            assert(init[i] == nows[i]);
        }
        lemma_lock_from_a_failure(init);
        let prev = after_failures(cleared(), init);
        let t = after_failures(cleared(), nows);
        if t.locked_until is Some {
            let u = t.locked_until->0;
            if t.locked_until == prev.locked_until {
                let k = choose|k: int| 0 <= k < init.len() && u == #[trigger] init[k] + LOCKOUT_MS;
                assert(nows[k] == init[k]);
            } else {
                assert(u == nows[nows.len() - 1] + LOCKOUT_MS);
            }
        }
    }
}

/// Starting from a clear throttle, after wrong passwords at instants no later
/// than `now1 <= now2`: a cool-down is positive and at most 30 s, it only runs
/// down from `now1` to `now2`, and it is over from 30 s after the failure that
/// set it.
pub proof fn law_cooldown_runs_down(nows: Seq<u64>, now1: u64, now2: u64)
    requires
        forall|i: int| 0 <= i < nows.len() ==> #[trigger] nows[i] <= now1,
        forall|i: int| 0 <= i < nows.len() ==> #[trigger] nows[i] <= u64::MAX - LOCKOUT_MS,
        now1 <= now2,
    ensures
        ({
            let t = after_failures(cleared(), nows);
            &&& t.spec_remaining(now1) matches Some(d) ==> 0 < d <= LOCKOUT_MS
            &&& (match t.spec_remaining(now2) {
                Some(d) => d as int,
                None => 0int,
            }) <= (match t.spec_remaining(now1) {
                Some(d) => d as int,
                None => 0int,
            })
            &&& t.locked_until matches Some(u) ==> (exists|k: int|
                0 <= k < nows.len() && u == #[trigger] nows[k] + LOCKOUT_MS) && forall|x: u64|
                x >= u ==> (#[trigger] t.spec_remaining(x)) is None
        }),
{
    lemma_lock_from_a_failure(nows);
    let t = after_failures(cleared(), nows);
    if t.locked_until is Some {
        let u = t.locked_until->0;
        let k = choose|k: int| 0 <= k < nows.len() && u == #[trigger] nows[k] + LOCKOUT_MS;
        assert(nows[k] <= now1);
    }
}

/// After `reset` the throttle is as new: no cool-down at any instant, four
/// more wrong passwords at one moment leave logins allowed, and the fifth
/// locks them for 30 s again.
pub proof fn law_reset_is_fresh(now: u64, x: u64)
    requires
        now <= u64::MAX - LOCKOUT_MS,
    ensures
        cleared().spec_remaining(x) is None,
        failures_at(cleared(), now, 4).spec_remaining(now) is None,
        failures_at(cleared(), now, 5).spec_remaining(now) == Some(LOCKOUT_MS),
{
    law_lockout_after_max_failures(now, 4);
    law_lockout_after_max_failures(now, 5);
}

/// `n` wrong passwords in a row at the same moment.
pub open spec fn failures_at(t: LoginThrottle, now: u64, n: nat) -> LoginThrottle
    decreases n,
{
    if n == 0 {
        t
    } else {
        failures_at(t, now, (n - 1) as nat).spec_record_failure(now)
    }
}

/// From a clear throttle, `n` consecutive failures at one moment lock logins
/// out exactly when `n` reaches five, and then for the full 30 s.
pub proof fn law_lockout_after_max_failures(now: u64, n: nat)
    requires
        now <= u64::MAX - LOCKOUT_MS,
        n < u32::MAX,
    ensures
        ({
            let t = failures_at(LoginThrottle { failures: 0, locked_until: None }, now, n);
            &&& t.failures == n
            &&& (n < MAX_FAILURES ==> t.spec_remaining(now) is None && t.locked_until is None)
            &&& (n >= MAX_FAILURES ==> t.spec_remaining(now) == Some(LOCKOUT_MS))
        }),
    decreases n,
{
    if n > 0 {
        law_lockout_after_max_failures(now, (n - 1) as nat);
    }
}

/// Once the cool-down has passed, logins are allowed again, and the next
/// failure starts a new streak of one instead of re-locking.
pub proof fn law_lockout_expires(t: LoginThrottle, later: u64)
    requires
        t.locked_until matches Some(until) && until <= later,
        later <= u64::MAX - LOCKOUT_MS,
    ensures
        t.spec_remaining(later) is None,
        t.spec_record_failure(later).failures == 1,
        t.spec_record_failure(later).spec_remaining(later) is None,
{
}

} // verus!
