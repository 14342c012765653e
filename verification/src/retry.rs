//! When a failed attempt is tried again, and after what delay.

use vstd::prelude::*;
use crate::fetch::FetchOutcome;

verus! {

/// `backoff::exponential::ExponentialBackoff`: the state of a backoff
/// policy. It is held and handed to the policy's own functions, and never
/// looked into.
#[verifier::external_type_specification]
#[verifier::external_body]
#[verifier::reject_recursive_types(C)]
pub struct ExExponentialBackoff<C>(backoff::exponential::ExponentialBackoff<C>);

/// `backoff::SystemClock`: the clock by which the policy measures its budget.
#[verifier::external_type_specification]
#[verifier::external_body]
pub struct ExSystemClock(backoff::SystemClock);

/// A span of time to wait: whole seconds and the nanoseconds beyond them.
#[derive(Clone, Copy, Debug, PartialEq, Eq, Structural)]
pub struct Delay {
    pub secs: u64,
    pub nanos: u32,
}

/// The milliseconds before a first repeated attempt, jitter aside.
pub const INITIAL_INTERVAL_MILLIS: u64 = 500;

/// The milliseconds that the interval between two attempts grows to at most,
/// jitter aside.
pub const MAX_INTERVAL_MILLIS: u64 = 60_000;

/// The milliseconds since a policy was made after which it offers no further
/// attempt.
pub const MAX_ELAPSED_MILLIS: u64 = 900_000;

/// What a backoff policy is made with. The interval between attempts starts
/// at the initial one and grows, by the factor and with the jitter that the
/// policy keeps to itself, up to the longest one; once the time budget is
/// spent no further attempt is offered. Without a budget attempts never end.
#[derive(Clone, Copy, Debug, PartialEq, Eq)]
pub struct RetrySettings {
    pub initial_interval_millis: u64,
    pub max_interval_millis: u64,
    pub max_elapsed_millis: Option<u64>,
}

/// The settings of a policy where none are given.
pub open spec fn default_settings() -> RetrySettings {
    RetrySettings {
        initial_interval_millis: INITIAL_INTERVAL_MILLIS,
        max_interval_millis: MAX_INTERVAL_MILLIS,
        max_elapsed_millis: Some(MAX_ELAPSED_MILLIS),
    }
}

/// What follows an attempt.
#[derive(Clone, Copy, Debug, PartialEq, Eq, Structural)]
pub enum RetryStep {
    /// The attempt gave a document: extract it.
    Deliver,
    /// The URL is given up for this crawl, for the reason held.
    Abandon(FetchOutcome),
    /// Wait this long, then attempt again.
    RetryAfter(Delay),
}

/// What follows an attempt that was rejected for `rejection`, where the
/// backoff policy offers `next` as the delay before another attempt. Only a
/// transient failure is tried again, and only while the policy offers a
/// delay.
pub open spec fn retry_step(rejection: Option<FetchOutcome>, next: Option<Delay>) -> RetryStep {
    match rejection {
        None => RetryStep::Deliver,
        Some(FetchOutcome::Transient) => match next {
            Some(delay) => RetryStep::RetryAfter(delay),
            None => RetryStep::Abandon(FetchOutcome::Transient),
        },
        Some(outcome) => RetryStep::Abandon(outcome),
    }
}

/// Decides what follows an attempt, given what the backoff policy offers.
pub fn decide(rejection: Option<FetchOutcome>, next: Option<Delay>) -> (step: RetryStep)
    ensures
        step == retry_step(rejection, next),
{
    match rejection {
        None => RetryStep::Deliver,
        Some(FetchOutcome::Transient) => match next {
            Some(delay) => RetryStep::RetryAfter(delay),
            None => RetryStep::Abandon(FetchOutcome::Transient),
        },
        Some(outcome) => RetryStep::Abandon(outcome),
    }
}

/// Builds the state of a policy with `backoff::ExponentialBackoffBuilder`:
/// `with_initial_interval`, `with_max_interval` and `with_max_elapsed_time`
/// get the settings, multiplier and jitter stay as the builder has them, and
/// `build` starts the clock. Nothing is promised of the state that comes
/// back.
#[verifier::external_body]
fn start_backoff(
    settings: RetrySettings,
) -> backoff::exponential::ExponentialBackoff<backoff::SystemClock> {
    let mut builder = backoff::ExponentialBackoffBuilder::new();
    builder
        .with_initial_interval(std::time::Duration::from_millis(settings.initial_interval_millis))
        .with_max_interval(std::time::Duration::from_millis(settings.max_interval_millis))
        .with_max_elapsed_time(settings.max_elapsed_millis.map(std::time::Duration::from_millis));
    builder.build()
}

/// Calls `Backoff::next_backoff` on the policy. Trusted: a delay that comes
/// back has its nanoseconds below one second, as every `Duration` has. Whether
/// one comes back, and how long it is, hangs on the clock and on chance.
#[verifier::external_body]
fn next_backoff(
    policy: &mut backoff::exponential::ExponentialBackoff<backoff::SystemClock>,
) -> (next: Option<Delay>)
    ensures
        next matches Some(delay) ==> delay.nanos < 1_000_000_000,
{
    match backoff::backoff::Backoff::next_backoff(policy) {
        Some(wait) => Some(Delay { secs: wait.as_secs(), nanos: wait.subsec_nanos() }),
        None => None,
    }
}

/// The retry policy of one URL: exponential backoff with jitter, bounded by
/// the time elapsed since the policy was made.
pub struct RetryPolicy {
    settings: RetrySettings,
    backoff: backoff::exponential::ExponentialBackoff<backoff::SystemClock>,
}

impl View for RetryPolicy {
    type V = RetrySettings;

    /// The settings that the policy was made with.
    closed spec fn view(&self) -> RetrySettings {
        self.settings
    }
}

impl RetryPolicy {
    /// A policy with the default settings, whose time budget starts now: a
    /// first interval of half a second, intervals of at most a minute, and no
    /// further attempt after a quarter of an hour.
    pub fn new() -> (policy: RetryPolicy)
        ensures
            policy@ == default_settings(),
    {
        let settings = RetrySettings {
            initial_interval_millis: INITIAL_INTERVAL_MILLIS,
            max_interval_millis: MAX_INTERVAL_MILLIS,
            max_elapsed_millis: Some(MAX_ELAPSED_MILLIS),
        };
        RetryPolicy { settings, backoff: start_backoff(settings) }
    }

    /// The settings that the policy was made with.
    pub fn settings(&self) -> (settings: RetrySettings)
        ensures
            settings == self@,
    {
        self.settings
    }

    /// Decides what follows an attempt that was rejected for `rejection`
    /// (`None`: it was not rejected). The policy is asked for a delay only
    /// after a transient failure; whatever it offers, the step is the one
    /// that `retry_step` gives for the offer.
    pub fn after_attempt(&mut self, rejection: Option<FetchOutcome>) -> (step: RetryStep)
        ensures
            final(self)@ == old(self)@,
            rejection is None ==> step == RetryStep::Deliver,
            rejection == Some(FetchOutcome::Skipped) ==> step == RetryStep::Abandon(
                FetchOutcome::Skipped,
            ),
            rejection == Some(FetchOutcome::Blocked) ==> step == RetryStep::Abandon(
                FetchOutcome::Blocked,
            ),
            rejection == Some(FetchOutcome::Transient) ==> step == RetryStep::Abandon(
                FetchOutcome::Transient,
            ) || (step matches RetryStep::RetryAfter(delay) && delay.nanos < 1_000_000_000),
    {
        match rejection {
            Some(FetchOutcome::Transient) => {
                let next = next_backoff(&mut self.backoff);
                decide(rejection, next)
            },
            _ => decide(rejection, None),
        }
    }
}

} // verus!
