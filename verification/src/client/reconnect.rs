//! Attaching a device again and again until it succeeds: whether to go on, and
//! when.

use vstd::prelude::*;

use crate::client::error::ClientError;
use crate::client::types::AttachedDevice;

verus! {

/// A length of time.
#[derive(Debug, Clone, Copy, PartialEq, Eq, Structural)]
pub struct Delay {
    pub secs: u64,
    /// Billionths of a second beyond the whole seconds.
    pub nanos: u32,
}

impl Delay {
    /// Whole seconds.
    pub fn from_secs(secs: u64) -> (d: Self)
        ensures
            d == (Delay { secs, nanos: 0 }),
    {
        Delay { secs, nanos: 0 }
    }
}

/// The bits of the floating-point number two.
pub const DEFAULT_BACKOFF_FACTOR_BITS: u64 = 0x4000_0000_0000_0000;

/// How attaching is retried.
#[derive(Debug, Clone, Copy, PartialEq, Eq, Structural)]
pub struct ReconnectPolicy {
    /// Whether it is retried at all.
    pub enabled: bool,
    /// How often it is retried at most. 0 stands for no limit.
    pub max_retries: u32,
    /// The delay before the first retry.
    pub initial_delay: Delay,
    /// The longest delay.
    pub max_delay: Delay,
    /// By what the delay grows with every retry: the bits of a floating-point
    /// number.
    pub backoff_factor_bits: u64,
}

/// The policy where nothing else is said: no limit, and delays that double from
/// one second up to thirty.
pub open spec fn default_policy() -> ReconnectPolicy {
    ReconnectPolicy {
        enabled: true,
        max_retries: 0,
        initial_delay: Delay { secs: 1, nanos: 0 },
        max_delay: Delay { secs: 30, nanos: 0 },
        backoff_factor_bits: DEFAULT_BACKOFF_FACTOR_BITS,
    }
}

impl Default for ReconnectPolicy {
    fn default() -> (p: Self)
        ensures
            p == default_policy(),
    {
        ReconnectPolicy {
            enabled: true,
            max_retries: 0,
            initial_delay: Delay::from_secs(1),
            max_delay: Delay::from_secs(30),
            backoff_factor_bits: DEFAULT_BACKOFF_FACTOR_BITS,
        }
    }
}

impl ReconnectPolicy {
    /// The policy by which nothing is retried.
    pub fn disabled() -> (p: Self)
        ensures
            p == (ReconnectPolicy { enabled: false, ..default_policy() }),
    {
        let p = ReconnectPolicy::default();
        ReconnectPolicy { enabled: false, ..p }
    }

    /// The policy of a configuration.
    pub fn from_config(
        enabled: bool,
        max_retries: u32,
        initial_delay_secs: u64,
        max_delay_secs: u64,
    ) -> (p: Self)
        ensures
            p == (ReconnectPolicy {
                enabled,
                max_retries,
                initial_delay: Delay { secs: initial_delay_secs, nanos: 0 },
                max_delay: Delay { secs: max_delay_secs, nanos: 0 },
                backoff_factor_bits: DEFAULT_BACKOFF_FACTOR_BITS,
            }),
    {
        ReconnectPolicy {
            enabled,
            max_retries,
            initial_delay: Delay::from_secs(initial_delay_secs),
            max_delay: Delay::from_secs(max_delay_secs),
            backoff_factor_bits: DEFAULT_BACKOFF_FACTOR_BITS,
        }
    }

    /// Whether an attempt that failed is followed by another. Attempts are
    /// counted from 0.
    pub open spec fn retries(self, attempt: u32) -> bool {
        self.enabled && (self.max_retries == 0 || attempt < self.max_retries)
    }

    /// Whether an attempt that failed is followed by another.
    pub fn should_retry(&self, attempt: u32) -> (b: bool)
        ensures
            b == self.retries(attempt),
    {
        self.enabled && (self.max_retries == 0 || attempt < self.max_retries)
    }
}

/// How far the delay of an attempt is spread, in thousandths of the whole
/// spread.
pub open spec fn jitter(attempt: u32) -> nat {
    (attempt as nat * 2654435761) % 1000
}

/// How far the delay of an attempt is spread, in thousandths of the whole
/// spread.
pub fn jitter_for_attempt(attempt: u32) -> (j: u64)
    ensures
        j == jitter(attempt),
        j < 1000,
{
    assert(attempt as nat * 2654435761 <= 0xffff_ffff * 2654435761);
    (attempt as u64 * 2654435761) % 1000
}

/// What is done after an attempt to attach.
#[derive(Debug)]
pub enum ReconnectStep {
    /// Give the outcome of the attempt to the caller.
    Finish(Result<AttachedDevice, ClientError>),
    /// Wait as long as is said for the attempt `wait`, then make the attempt
    /// `attempt`.
    Retry { wait: u32, attempt: u32 },
}

/// What is done after an attempt to attach: a failed one is followed by another
/// as long as the policy says so.
pub fn next_attempt(
    policy: &ReconnectPolicy,
    attempt: u32,
    outcome: Result<AttachedDevice, ClientError>,
) -> (step: ReconnectStep)
    requires
        policy.enabled && policy.max_retries == 0 ==> attempt < u32::MAX,
    ensures
        outcome is Ok || !policy.retries(attempt) ==> step == ReconnectStep::Finish(outcome),
        outcome is Err && policy.retries(attempt) ==> step == (ReconnectStep::Retry {
            wait: attempt,
            attempt: (attempt + 1) as u32,
        }),
{
    match outcome {
        Ok(device) => ReconnectStep::Finish(Ok(device)),
        Err(e) => {
            if !policy.should_retry(attempt) {
                return ReconnectStep::Finish(Err(e));
            }
            ReconnectStep::Retry { wait: attempt, attempt: attempt + 1 }
        },
    }
}

/// A policy with a limit stops exactly at it, and one without never does.
pub proof fn law_retries(policy: ReconnectPolicy, attempt: u32)
    requires
        policy.enabled,
    ensures
        policy.max_retries > 0 ==> (policy.retries(attempt) <==> attempt < policy.max_retries),
        policy.max_retries == 0 ==> policy.retries(attempt),
{
}

/// A policy of a configuration has what the configuration says: how often, how
/// long first, and how long at most.
pub proof fn law_policy_of_config(
    enabled: bool,
    max_retries: u32,
    initial_delay_secs: u64,
    max_delay_secs: u64,
    p: ReconnectPolicy,
)
    requires
        call_ensures(
            ReconnectPolicy::from_config,
            (enabled, max_retries, initial_delay_secs, max_delay_secs),
            p,
        ),
    ensures
        p.enabled == enabled,
        p.max_retries == max_retries,
        p.initial_delay.secs == initial_delay_secs,
        p.initial_delay.nanos == 0,
        p.max_delay.secs == max_delay_secs,
        p.max_delay.nanos == 0,
        p.backoff_factor_bits == 0x4000_0000_0000_0000,
{
}

/// A device that was attached is handed on; a failure is handed on where there
/// are to be no more attempts; else the next attempt has the next number, after
/// the wait for the one that failed.
pub proof fn law_attempts(
    policy: ReconnectPolicy,
    attempt: u32,
    outcome: Result<AttachedDevice, ClientError>,
    step: ReconnectStep,
)
    requires
        policy.enabled && policy.max_retries == 0 ==> attempt < u32::MAX,
        call_ensures(next_attempt, (&policy, attempt, outcome), step),
    ensures
        step is Retry <==> outcome is Err && policy.enabled && (policy.max_retries == 0 || attempt
            < policy.max_retries),
        step matches ReconnectStep::Finish(r) ==> r == outcome,
        step matches ReconnectStep::Retry { wait, attempt: next } ==> wait == attempt && next
            == attempt + 1,
        forall|b: bool| #[trigger]
            call_ensures(ReconnectPolicy::should_retry, (&policy, attempt), b) ==> (b
                <==> policy.enabled && (policy.max_retries == 0 || attempt
                < policy.max_retries)),
{
}

/// The policy by which nothing is retried gives every outcome to the caller.
pub proof fn law_disabled(
    policy: ReconnectPolicy,
    attempt: u32,
    outcome: Result<AttachedDevice, ClientError>,
    step: ReconnectStep,
)
    requires
        call_ensures(ReconnectPolicy::disabled, (), policy),
        call_ensures(next_attempt, (&policy, attempt, outcome), step),
    ensures
        step == ReconnectStep::Finish(outcome),
{
}

/// The spread of a delay is a number of thousandths below a thousand; that of
/// the first attempt is none, and attempts a thousand apart have the same.
pub proof fn law_spread(attempt: u32, j: u64, k: u64)
    requires
        attempt <= u32::MAX - 1000,
        call_ensures(jitter_for_attempt, (attempt,), j),
        call_ensures(jitter_for_attempt, ((attempt + 1000) as u32,), k),
    ensures
        j < 1000,
        attempt == 0 ==> j == 0,
        k == j,
        j == (761 * attempt) % 1000,
{
    let a = attempt as int;
    assert((a + 1000) * 2654435761 == a * 2654435761 + 1000 * 2654435761);
    assert(a * 2654435761 == 761 * a + 1000 * (2654435 * a));
}

} // verus!
