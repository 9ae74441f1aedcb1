//! When a request is sent again, and how long to wait before that. Delays are in milliseconds.
use vstd::prelude::*;

use crate::outside;

verus! {

/// When to send a request again after a transient failure.
#[derive(Debug, Clone, Copy, PartialEq, Eq, Structural)]
pub struct RetryConfig {
    /// How often a request is sent at most.
    pub max_attempts: u32,
    /// The delay before it is sent for the second time.
    pub base_delay: u64,
    /// The longest delay.
    pub max_delay: u64,
}

impl Default for RetryConfig {
    fn default() -> (r: Self)
        ensures
            r == (RetryConfig { max_attempts: 4, base_delay: 250, max_delay: 5000 }),
    {
        RetryConfig { max_attempts: 4, base_delay: 250, max_delay: 5000 }
    }
}

/// What came of a request.
#[derive(Debug, Clone, Copy, PartialEq, Eq, Structural)]
pub enum Outcome {
    /// An answer with this status.
    Status(u16),
    /// No answer in time.
    Timeout,
    /// No connection.
    NoConnection,
    /// Another failure.
    Failure,
}

/// Whether a status says that the same request may succeed later: a server error, or too many
/// requests.
pub open spec fn retriable_status(status: u16) -> bool {
    500 <= status < 600 || status == 429
}

/// Whether the same request may succeed later.
pub open spec fn retriable(outcome: Outcome) -> bool {
    match outcome {
        Outcome::Status(status) => retriable_status(status),
        Outcome::Timeout => true,
        Outcome::NoConnection => true,
        Outcome::Failure => false,
    }
}

/// Whether a status says that the same request may succeed later.
pub fn is_retriable_status(status: u16) -> (r: bool)
    ensures
        r == retriable_status(status),
{
    (500 <= status && status < 600) || status == 429
}

/// Whether the same request may succeed later.
pub fn is_retriable(outcome: Outcome) -> (r: bool)
    ensures
        r == retriable(outcome),
{
    match outcome {
        Outcome::Status(status) => is_retriable_status(status),
        Outcome::Timeout => true,
        Outcome::NoConnection => true,
        Outcome::Failure => false,
    }
}

/// Whether a status is one of success.
pub fn is_success_status(status: u16) -> (r: bool)
    ensures
        r == (200 <= status < 300),
{
    200 <= status && status < 300
}

/// The smaller of twice a delay and the longest delay.
pub open spec fn next_delay(delay: nat, max_delay: nat) -> nat {
    if 2 * delay <= max_delay {
        2 * delay
    } else {
        max_delay
    }
}

/// The delay after `n` attempts that were followed by another one.
pub open spec fn delay_after(config: RetryConfig, n: nat) -> nat
    decreases n,
{
    if n == 0 {
        config.base_delay as nat
    } else {
        next_delay(delay_after(config, (n - 1) as nat), config.max_delay as nat)
    }
}

/// What to do after a request was sent.
#[derive(Debug, Clone, Copy, PartialEq, Eq, Structural)]
pub enum RetryStep {
    /// Take what came of it.
    Stop,
    /// Wait that long, and send it again.
    WaitAndRetry(u128),
}

/// A request that is sent until it succeeds, fails for good, or was sent often enough.
#[derive(Debug, Clone, Copy, PartialEq, Eq, Structural)]
pub struct Retry {
    pub config: RetryConfig,
    /// How often the request was sent and will be sent again.
    pub attempts: u32,
    /// The next delay.
    pub delay: u64,
}

impl Retry {
    /// Whether the delay is that which belongs to the number of attempts, and another attempt is
    /// left.
    pub open spec fn is_valid(self) -> bool {
        &&& self.delay == delay_after(self.config, self.attempts as nat)
        &&& self.attempts > 0 ==> self.attempts < self.config.max_attempts
    }

    /// A request that was not sent yet.
    pub fn new(config: RetryConfig) -> (r: Self)
        ensures
            r.is_valid(),
            r.config == config,
            r.attempts == 0,
    {
        Retry { config, attempts: 0, delay: config.base_delay }
    }

    /// What to do after the request was sent. `jitter` is added to the delay by half.
    pub fn after_attempt_with(&mut self, outcome: Outcome, jitter: u64) -> (r: RetryStep)
        requires
            old(self).is_valid(),
        ensures
            final(self).is_valid(),
            final(self).config == old(self).config,
            match r {
                RetryStep::Stop => (!retriable(outcome) || old(self).attempts + 1
                    >= old(self).config.max_attempts) && *final(self) == *old(self),
                RetryStep::WaitAndRetry(wait) => retriable(outcome) && old(self).attempts + 1
                    < old(self).config.max_attempts && final(self).attempts
                    == old(self).attempts + 1 && wait == old(self).delay + jitter / 2,
            },
    {
        let max = self.config.max_attempts;
        if !is_retriable(outcome) || max <= 1 || self.attempts >= max - 1 {
            return RetryStep::Stop;
        }
        let wait: u128 = self.delay as u128 + (jitter / 2) as u128;
        self.delay = if self.delay <= self.config.max_delay / 2 {
            2 * self.delay
        } else {
            self.config.max_delay
        };
        self.attempts = self.attempts + 1;
        RetryStep::WaitAndRetry(wait)
    }

    /// What to do after the request was sent, with a delay that is lengthened at random by up to
    /// half of it.
    pub fn after_attempt(&mut self, outcome: Outcome) -> (r: RetryStep)
        requires
            old(self).is_valid(),
        ensures
            final(self).is_valid(),
            final(self).config == old(self).config,
            match r {
                RetryStep::Stop => (!retriable(outcome) || old(self).attempts + 1
                    >= old(self).config.max_attempts) && *final(self) == *old(self),
                RetryStep::WaitAndRetry(wait) => retriable(outcome) && old(self).attempts + 1
                    < old(self).config.max_attempts && final(self).attempts
                    == old(self).attempts + 1 && old(self).delay <= wait <= old(self).delay
                    + old(self).delay / 2,
            },
    {
        let jitter = outside::random_up_to(self.delay);
        self.after_attempt_with(outcome, jitter)
    }
}

/// A request is sent at most as often as the policy says, or once where the policy says less, and
/// each delay but the first is at most the longest delay.
pub proof fn law_retries_are_bounded(retry: Retry)
    requires
        retry.is_valid(),
    ensures
        retry.attempts == 0 || retry.attempts < retry.config.max_attempts,
        retry.attempts > 0 ==> retry.delay <= retry.config.max_delay,
        retry.delay <= retry.config.base_delay || retry.delay <= retry.config.max_delay,
{
}

/// Delays never get shorter, where the first is not longer than the longest.
pub proof fn law_delays_grow(config: RetryConfig, n: nat)
    requires
        config.base_delay <= config.max_delay,
    ensures
        delay_after(config, n) <= delay_after(config, n + 1) <= config.max_delay,
    decreases n,
{
    if n > 0 {
        law_delays_grow(config, (n - 1) as nat);
    }
}

/// Gets JSON from an address, with a retry policy.
#[derive(Debug, Clone, Copy, PartialEq, Eq, Structural)]
pub struct HttpJsonFetcher {
    pub retry: RetryConfig,
}

impl Default for HttpJsonFetcher {
    fn default() -> (r: Self)
        ensures
            r.retry == (RetryConfig { max_attempts: 4, base_delay: 250, max_delay: 5000 }),
    {
        HttpJsonFetcher { retry: RetryConfig::default() }
    }
}

impl HttpJsonFetcher {
    /// A fetcher with another retry policy.
    pub fn with_retry(retry: RetryConfig) -> (r: Self)
        ensures
            r.retry == retry,
    {
        HttpJsonFetcher { retry }
    }
}

// ---------------------------------------------------------------------------------------------
// Laws
// ---------------------------------------------------------------------------------------------

/// A request is worth sending again after a failure of the server, after too many requests, and
/// where no answer came in time or no connection; after nothing else.
pub proof fn law_retriable(outcome: Outcome)
    ensures
        retriable(outcome) <==> match outcome {
            Outcome::Status(status) => status == 429 || status / 100 == 5,
            Outcome::Timeout => true,
            Outcome::NoConnection => true,
            Outcome::Failure => false,
        },
{
}

/// The first delay is that of the settings; each further one is twice the one before it, or the
/// longest where that is shorter.
pub proof fn law_delays_double(config: RetryConfig, n: nat)
    ensures
        delay_after(config, 0) == config.base_delay,
        2 * delay_after(config, n) <= config.max_delay ==> delay_after(config, n + 1) == 2
            * delay_after(config, n),
        2 * delay_after(config, n) > config.max_delay ==> delay_after(config, n + 1)
            == config.max_delay,
{
}

} // verus!
