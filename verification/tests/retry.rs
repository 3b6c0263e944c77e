use linkwatch::retry::AttemptOutcome;
use linkwatch::retry::FetchError;
use linkwatch::retry::RetryDecision;
use linkwatch::retry::RetryPolicy;
use linkwatch::retry::backoff_delay;
use linkwatch::retry::decide;
use linkwatch::retry::jittered_delay;

#[test]
fn delays_double_from_the_floor_to_the_ceiling() {
    let p = RetryPolicy::standard();

    assert_eq!(backoff_delay(&p, 0), 60);
    assert_eq!(backoff_delay(&p, 1), 120);
    assert_eq!(backoff_delay(&p, 2), 240);
    assert_eq!(backoff_delay(&p, 3), 480);
    assert_eq!(backoff_delay(&p, 4), 600);
    assert_eq!(backoff_delay(&p, 5), 600);
    assert_eq!(backoff_delay(&p, 29), 600);
}

#[test]
fn jitter_stays_between_floor_and_delay() {
    let p = RetryPolicy::standard();

    assert_eq!(jittered_delay(&p, 600, 0), 60);
    assert_eq!(jittered_delay(&p, 600, 540), 600);
    assert_eq!(jittered_delay(&p, 600, 541), 60);
    assert_eq!(jittered_delay(&p, 60, 12345), 60);
}

#[test]
fn ordinary_responses_are_delivered_whatever_their_status() {
    let p = RetryPolicy::standard();

    assert_eq!(decide(&p, 0, AttemptOutcome::Status(200)), RetryDecision::Deliver(200));
    assert_eq!(decide(&p, 0, AttemptOutcome::Status(404)), RetryDecision::Deliver(404));
    assert_eq!(decide(&p, 30, AttemptOutcome::Status(301)), RetryDecision::Deliver(301));
}

#[test]
fn transient_failures_are_retried_with_backoff() {
    let p = RetryPolicy::standard();

    assert_eq!(decide(&p, 0, AttemptOutcome::Status(503)), RetryDecision::RetryAfter(60));
    assert_eq!(decide(&p, 1, AttemptOutcome::NetworkError), RetryDecision::RetryAfter(120));
    assert_eq!(decide(&p, 10, AttemptOutcome::Status(500)), RetryDecision::RetryAfter(600));
}

#[test]
fn cancellation_wins_over_every_retry_consideration() {
    let p = RetryPolicy::standard();

    assert_eq!(decide(&p, 0, AttemptOutcome::Cancelled), RetryDecision::Fail(FetchError::Cancelled));
    assert_eq!(
        decide(&p, 30, AttemptOutcome::Cancelled),
        RetryDecision::Fail(FetchError::Cancelled)
    );
}

#[test]
fn retry_exhaustion_surfaces_a_permanent_error() {
    let p = RetryPolicy::standard();

    let mut retries_done: u32 = 0;
    let outcome = loop {
        match decide(&p, retries_done, AttemptOutcome::Status(500)) {
            RetryDecision::RetryAfter(_) => {
                retries_done += 1;
            },
            other => break other,
        }
    };

    assert_eq!(retries_done, 30);
    assert_eq!(outcome, RetryDecision::Fail(FetchError::Permanent));
}
