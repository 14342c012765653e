use scraper_service::fetch::FetchOutcome;
use scraper_service::retry::{
    decide, Delay, RetryPolicy, RetrySettings, RetryStep, INITIAL_INTERVAL_MILLIS,
    MAX_ELAPSED_MILLIS, MAX_INTERVAL_MILLIS,
};

const HALF_SECOND: Delay = Delay { secs: 0, nanos: 500_000_000 };

#[test]
fn an_attempt_that_was_not_rejected_is_delivered() {
    assert_eq!(decide(None, None), RetryStep::Deliver);
    assert_eq!(decide(None, Some(HALF_SECOND)), RetryStep::Deliver);
}

#[test]
fn a_transient_failure_is_tried_again_while_a_delay_is_offered() {
    assert_eq!(
        decide(Some(FetchOutcome::Transient), Some(HALF_SECOND)),
        RetryStep::RetryAfter(HALF_SECOND)
    );
    let long = Delay { secs: 60, nanos: 1 };
    assert_eq!(decide(Some(FetchOutcome::Transient), Some(long)), RetryStep::RetryAfter(long));
}

#[test]
fn a_transient_failure_is_abandoned_when_no_delay_is_offered() {
    assert_eq!(
        decide(Some(FetchOutcome::Transient), None),
        RetryStep::Abandon(FetchOutcome::Transient)
    );
}

#[test]
fn skipped_and_blocked_are_never_tried_again() {
    for outcome in [FetchOutcome::Skipped, FetchOutcome::Blocked] {
        assert_eq!(decide(Some(outcome), None), RetryStep::Abandon(outcome));
        assert_eq!(decide(Some(outcome), Some(HALF_SECOND)), RetryStep::Abandon(outcome));
    }
}

#[test]
fn a_policy_delivers_and_abandons_without_delay() {
    let mut policy = RetryPolicy::new();
    assert_eq!(policy.after_attempt(None), RetryStep::Deliver);
    assert_eq!(
        policy.after_attempt(Some(FetchOutcome::Skipped)),
        RetryStep::Abandon(FetchOutcome::Skipped)
    );
    assert_eq!(
        policy.after_attempt(Some(FetchOutcome::Blocked)),
        RetryStep::Abandon(FetchOutcome::Blocked)
    );
}

#[test]
fn a_new_policy_offers_a_first_delay_around_half_a_second() {
    let mut policy = RetryPolicy::new();
    match policy.after_attempt(Some(FetchOutcome::Transient)) {
        RetryStep::RetryAfter(delay) => {
            assert!(delay.nanos < 1_000_000_000);
            let nanos = delay.secs as u128 * 1_000_000_000 + delay.nanos as u128;
            assert!(nanos >= 250_000_000);
            assert!(nanos <= 750_000_001);
        }
        other => panic!("no delay offered: {:?}", other),
    }
}

#[test]
fn the_delays_of_a_policy_stay_below_the_longest_interval() {
    let mut policy = RetryPolicy::new();
    let mut round = 0;
    while round < 20 {
        match policy.after_attempt(Some(FetchOutcome::Transient)) {
            RetryStep::RetryAfter(delay) => {
                assert!(delay.nanos < 1_000_000_000);
                assert!(delay.secs <= 90);
            }
            RetryStep::Abandon(outcome) => assert_eq!(outcome, FetchOutcome::Transient),
            RetryStep::Deliver => panic!("a failure was delivered"),
        }
        round += 1;
    }
}

#[test]
fn a_new_policy_has_the_default_settings() {
    assert_eq!(INITIAL_INTERVAL_MILLIS, 500);
    assert_eq!(MAX_INTERVAL_MILLIS, 60_000);
    assert_eq!(MAX_ELAPSED_MILLIS, 900_000);
    let policy = RetryPolicy::new();
    assert_eq!(
        policy.settings(),
        RetrySettings {
            initial_interval_millis: 500,
            max_interval_millis: 60_000,
            max_elapsed_millis: Some(900_000),
        }
    );
}

#[test]
fn a_policy_keeps_its_settings_over_attempts() {
    let mut policy = RetryPolicy::new();
    let before = policy.settings();
    policy.after_attempt(Some(FetchOutcome::Transient));
    policy.after_attempt(Some(FetchOutcome::Skipped));
    policy.after_attempt(None);
    assert_eq!(policy.settings(), before);
}
