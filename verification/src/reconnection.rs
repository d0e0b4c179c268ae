//! Trying again, at growing intervals.
//!
//! Times are nanoseconds of a clock that does not run backwards.
use crate::text::{dec, push_dec};
use vstd::arithmetic::power2::{lemma2_to64, lemma_pow2_unfold, pow2};
use vstd::prelude::*;
use vstd::string::*;

verus! {

/// The longest interval between two attempts, but for a first one that is set to more.
pub const MAX_DELAY_NS: u64 = 60_000_000_000;

/// So many attempts are reported one by one.
pub const QUIET_THRESHOLD: u32 = 5;

/// The time that went by between two moments.
pub open spec fn elapsed(from: u64, to: u64) -> u64 {
    if to > from {
        (to - from) as u64
    } else {
        0
    }
}

/// The time that went by between two moments.
pub fn elapsed_ns(from: u64, to: u64) -> (r: u64)
    ensures
        r == elapsed(from, to),
{
    if to > from {
        to - from
    } else {
        0
    }
}

/// The interval after the given one: twice as long, up to the longest.
pub open spec fn next_delay(delay: u64) -> u64 {
    if 2 * delay < MAX_DELAY_NS {
        (2 * delay) as u64
    } else {
        MAX_DELAY_NS
    }
}

/// The interval after `n` more attempts.
pub open spec fn delay_after(delay: u64, n: nat) -> u64
    decreases n,
{
    if n == 0 {
        delay
    } else {
        next_delay(delay_after(delay, (n - 1) as nat))
    }
}

/// A number of nanoseconds in whole seconds, rounded to the nearest, and to the even one of two
/// that are equally near.
pub open spec fn rounded_secs(ns: u64) -> nat {
    let whole = (ns / 1_000_000_000) as nat;
    let rest = ns % 1_000_000_000;
    if rest > 500_000_000 || (rest == 500_000_000 && whole % 2 == 1) {
        whole + 1
    } else {
        whole
    }
}

/// Whether an attempt is to be made, and what is to be reported of it.
#[derive(Debug)]
pub struct Attempt {
    pub allowed: bool,
    pub report: Option<String>,
}

#[derive(Debug, Clone, Copy)]
pub struct Reconnection {
    pub max_attempts: u32,
    pub attempts: u32,
    pub base_delay: u64,
    pub current_delay: u64,
    pub last_attempt: Option<u64>,
}

impl Reconnection {
    /// Attempts at growing intervals, the first of them `delay` long.
    pub fn new(max_attempts: u32, delay: u64) -> (r: Reconnection)
        ensures
            r == (Reconnection {
                max_attempts,
                attempts: 0,
                base_delay: delay,
                current_delay: delay,
                last_attempt: None,
            }),
            r.paced(),
    {
        Reconnection {
            max_attempts,
            attempts: 0,
            base_delay: delay,
            current_delay: delay,
            last_attempt: None,
        }
    }

    pub fn max_attempts(&self) -> (r: u32)
        ensures
            r == self.max_attempts,
    {
        self.max_attempts
    }

    /// The interval is the one that the number of attempts gives.
    pub open spec fn paced(self) -> bool {
        self.current_delay == delay_after(self.base_delay, self.attempts as nat)
    }

    /// The interval after the last attempt is over.
    pub open spec fn is_due(self, now: u64) -> bool {
        match self.last_attempt {
            Some(last) => elapsed(last, now) >= self.current_delay,
            None => true,
        }
    }

    /// After an attempt at the time `now`.
    pub open spec fn after_attempt(self, now: u64) -> Reconnection {
        Reconnection {
            attempts: (self.attempts + 1) as u32,
            last_attempt: Some(now),
            current_delay: next_delay(self.current_delay),
            ..self
        }
    }

    /// What is reported of the next attempt: the first few by their number, then once that no
    /// more reports follow.
    pub open spec fn report_text(self, resource: Seq<char>) -> Option<Seq<char>> {
        if self.attempts + 1 <= QUIET_THRESHOLD {
            Some(resource + ": retry "@ + dec((self.attempts + 1) as nat))
        } else if self.attempts + 1 == QUIET_THRESHOLD + 1 {
            Some(
                resource + ": retry suppressed (interval="@ + dec(rounded_secs(self.current_delay))
                    + "s)"@,
            )
        } else {
            None
        }
    }

    /// Whether an attempt is to be made now. If so, it counts as made.
    pub fn should_attempt(&mut self, resource_name: &str, now: u64) -> (r: Attempt)
        requires
            old(self).attempts < u32::MAX,
        ensures
            r.allowed == old(self).is_due(now),
            old(self).paced() ==> final(self).paced(),
            r.allowed ==> *final(self) == old(self).after_attempt(now),
            !r.allowed ==> *final(self) == *old(self) && r.report is None,
            r.allowed ==> match r.report {
                Some(t) => old(self).report_text(resource_name@) == Some(t@),
                None => old(self).report_text(resource_name@) is None,
            },
    {
        match self.last_attempt {
            Some(last) => {
                if elapsed_ns(last, now) < self.current_delay {
                    return Attempt { allowed: false, report: None };
                }
            },
            None => {},
        }
        self.attempts = self.attempts + 1;
        self.last_attempt = Some(now);
        let report = if self.attempts <= QUIET_THRESHOLD {
            let mut t = resource_name.to_owned();
            t.append(": retry ");
            push_dec(&mut t, self.attempts as u64);
            Some(t)
        } else if self.attempts == QUIET_THRESHOLD + 1 {
            let mut t = resource_name.to_owned();
            t.append(": retry suppressed (interval=");
            let whole: u64 = self.current_delay / 1_000_000_000;
            let rest: u64 = self.current_delay % 1_000_000_000;
            let secs: u64 = if rest > 500_000_000 || (rest == 500_000_000 && whole % 2 == 1) {
                whole + 1
            } else {
                whole
            };
            push_dec(&mut t, secs);
            t.append("s)");
            Some(t)
        } else {
            None
        };
        self.current_delay = if self.current_delay < MAX_DELAY_NS / 2 {
            self.current_delay * 2
        } else {
            MAX_DELAY_NS
        };
        Attempt { allowed: true, report }
    }

    /// Starts afresh: the connection is there.
    pub fn reset(&mut self)
        ensures
            *final(self) == (Reconnection {
                attempts: 0,
                current_delay: old(self).base_delay,
                last_attempt: None,
                ..*old(self)
            }),
            final(self).paced(),
    {
        self.attempts = 0;
        self.current_delay = self.base_delay;
        self.last_attempt = None;
    }
}

/// The interval doubles with each attempt until it reaches the longest, and stays there.
pub proof fn law_backoff(delay: u64, n: nat)
    requires
        delay <= MAX_DELAY_NS,
    ensures
        delay_after(delay, n) <= MAX_DELAY_NS,
        delay_after(delay, n) <= delay_after(delay, n + 1),
        delay_after(delay, n + 1) == MAX_DELAY_NS || delay_after(delay, n + 1) == 2 * delay_after(
            delay,
            n,
        ),
    decreases n,
{
    if n > 0 {
        law_backoff(delay, (n - 1) as nat);
    }
}

/// The attempts after calls at the given times, of which those that are due count as made.
pub open spec fn after_calls(r: Reconnection, times: Seq<u64>) -> Reconnection
    decreases times.len(),
{
    if times.len() == 0 {
        r
    } else {
        let before = after_calls(r, times.drop_last());
        if before.is_due(times.last()) {
            before.after_attempt(times.last())
        } else {
            before
        }
    }
}

/// The times of those calls that are attempts.
pub open spec fn made(r: Reconnection, times: Seq<u64>) -> Seq<u64>
    decreases times.len(),
{
    if times.len() == 0 {
        Seq::empty()
    } else if after_calls(r, times.drop_last()).is_due(times.last()) {
        made(r, times.drop_last()).push(times.last())
    } else {
        made(r, times.drop_last())
    }
}

/// The interval after `n` attempts is the first one doubled `n` times, but no longer than the
/// longest.
pub proof fn law_interval(delay: u64, n: nat)
    requires
        n > 0,
    ensures
        delay_after(delay, n) as int == if delay * pow2(n) < MAX_DELAY_NS {
            delay * pow2(n)
        } else {
            MAX_DELAY_NS as int
        },
    decreases n,
{
    lemma_pow2_unfold(n);
    let p = pow2((n - 1) as nat) as int;
    let d = delay as int;
    assert(d * (2 * p) == 2 * (d * p)) by (nonlinear_arith);
    if n == 1 {
        lemma2_to64();
        assert(delay_after(delay, 0) == delay);
    } else {
        law_interval(delay, (n - 1) as nat);
    }
}

/// After any calls since the start, the next attempt is due at once if none was made yet, and
/// otherwise when the interval that the number of attempts gives has passed since the last one.
/// There is no limit to their number: that of the settings does not count.
pub proof fn law_next_attempt(max_attempts: u32, delay: u64, times: Seq<u64>, now: u64)
    requires
        times.len() <= u32::MAX,
    ensures
        ({
            let fresh = Reconnection {
                max_attempts,
                attempts: 0,
                base_delay: delay,
                current_delay: delay,
                last_attempt: None,
            };
            let after = after_calls(fresh, times);
            let k = made(fresh, times);
            &&& k.len() <= times.len()
            &&& after.attempts == k.len()
            &&& after.base_delay == delay
            &&& after.paced()
            &&& after.last_attempt == if k.len() == 0 {
                None
            } else {
                Some(k.last())
            }
            &&& after.is_due(now) == (k.len() == 0 || elapsed(k.last(), now) >= delay_after(
                delay,
                k.len(),
            ))
            &&& !after.is_due(now) ==> after_calls(fresh, times.push(now)) == after
        }),
    decreases times.len(),
{
    if times.len() > 0 {
        law_next_attempt(max_attempts, delay, times.drop_last(), now);
    }
    assert(times.push(now).drop_last() =~= times);
}

} // verus!
