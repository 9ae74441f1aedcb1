//! Log output during streaks of failures: on the failures 1, 2, 4, 8, 16, ... of a streak, and
//! once on recovery.
use vstd::prelude::*;

verus! {

/// Whether `n` is a power of two.
pub open spec fn is_power_of_two(n: nat) -> bool
    decreases n,
{
    if n <= 1 {
        n == 1
    } else {
        n % 2 == 0 && is_power_of_two(n / 2)
    }
}

/// Whether the failure with this number in its streak is logged: 1, 2, 4, 8, 16, ...
pub fn should_log_at(consecutive: u32) -> (r: bool)
    ensures
        r == is_power_of_two(consecutive as nat),
{
    let mut n: u32 = consecutive;
    while n > 1 && n % 2 == 0
        invariant
            is_power_of_two(n as nat) == is_power_of_two(consecutive as nat),
        decreases n,
    {
        n = n / 2;
    }
    n == 1
}

/// What a streak of failures has to say.
#[derive(Debug, PartialEq)]
pub enum LogLine {
    /// The streak has reached this many failures.
    Failing { consecutive: u32, context: &'static str },
    /// The streak ended after this many failures.
    Recovered { cleared_after: u32, context: &'static str },
}

/// Counts consecutive failures and tells when to log them.
#[derive(Debug, PartialEq)]
pub struct ConsecutiveErrorLog {
    pub consecutive: u32,
    pub context: &'static str,
}

/// The number of failures after one more, which never wraps around.
pub open spec fn one_more(n: u32) -> u32 {
    if n < u32::MAX {
        (n + 1) as u32
    } else {
        n
    }
}

impl ConsecutiveErrorLog {
    /// A log without failures, under a short label.
    pub fn new(context: &'static str) -> (r: Self)
        ensures
            r.consecutive == 0,
            r.context@ == context@,
    {
        ConsecutiveErrorLog { consecutive: 0, context }
    }

    /// Counts a failure. There is a line to log on the first, second, fourth, eighth, ...
    /// consecutive one.
    pub fn note_error(&mut self) -> (r: Option<LogLine>)
        ensures
            final(self).consecutive == one_more(old(self).consecutive),
            final(self).context == old(self).context,
            r == if is_power_of_two(final(self).consecutive as nat) {
                Some(
                    LogLine::Failing {
                        consecutive: final(self).consecutive,
                        context: old(self).context,
                    },
                )
            } else {
                None
            },
    {
        self.consecutive = self.consecutive.saturating_add(1);
        if should_log_at(self.consecutive) {
            Some(LogLine::Failing { consecutive: self.consecutive, context: self.context })
        } else {
            None
        }
    }

    /// Ends a streak. There is a line to log where there was one.
    pub fn note_success(&mut self) -> (r: Option<LogLine>)
        ensures
            final(self).consecutive == 0,
            final(self).context == old(self).context,
            r == if old(self).consecutive > 0 {
                Some(
                    LogLine::Recovered {
                        cleared_after: old(self).consecutive,
                        context: old(self).context,
                    },
                )
            } else {
                None
            },
    {
        let line = if self.consecutive > 0 {
            Some(LogLine::Recovered { cleared_after: self.consecutive, context: self.context })
        } else {
            None
        };
        self.consecutive = 0;
        line
    }

    /// The number of failures in the current streak.
    pub fn consecutive(&self) -> (r: u32)
        ensures
            r == self.consecutive,
    {
        self.consecutive
    }
}

/// Two failures of a streak that are logged one after the other are a factor of two apart: none
/// between them is.
pub proof fn law_log_points_double(n: nat, m: nat)
    requires
        is_power_of_two(n),
        n < m < 2 * n,
    ensures
        !is_power_of_two(m),
        is_power_of_two(2 * n),
    decreases n,
{
    assert((2 * n) / 2 == n);
    if m % 2 == 0 && n > 1 {
        law_log_points_double(n / 2, m / 2);
    }
}

} // verus!
