use mainnet_observer_backend::retry::{
    retry_delay_ms, Retry, RetryAction, INITIAL_RETRY_DELAY_MS, MAX_RETRY_ATTEMPTS,
};

#[test]
fn backoff_delays_double() {
    assert_eq!(retry_delay_ms(1), 500);
    assert_eq!(retry_delay_ms(2), 1000);
    assert_eq!(retry_delay_ms(3), 2000);
    assert_eq!(retry_delay_ms(4), 4000);
    assert_eq!(INITIAL_RETRY_DELAY_MS, 500);
}

#[test]
fn failing_request_is_tried_five_times_then_given_up() {
    let mut retry = Retry::new();
    let mut requests = 0;
    let mut waited = 0u64;
    loop {
        match retry.next_action(false) {
            RetryAction::Request => {
                requests += 1;
                // the request fails
                if let Some(delay) = retry.backoff() {
                    waited += delay;
                }
            }
            RetryAction::GiveUp => break,
            RetryAction::Cancelled => panic!("never cancelled"),
        }
    }
    assert_eq!(requests, MAX_RETRY_ATTEMPTS);
    assert_eq!(retry.attempts(), 5);
    assert_eq!(waited, 500 + 1000 + 2000 + 4000);
}

#[test]
fn no_wait_after_last_attempt() {
    let mut retry = Retry::new();
    for _ in 0..5 {
        assert_eq!(retry.next_action(false), RetryAction::Request);
    }
    assert_eq!(retry.backoff(), None);
}

#[test]
fn cancel_stops_before_any_request() {
    let mut retry = Retry::new();
    assert_eq!(retry.next_action(true), RetryAction::Cancelled);
    assert_eq!(retry.attempts(), 0);
}

#[test]
fn cancel_seen_after_failures_stops() {
    let mut retry = Retry::new();
    assert_eq!(retry.next_action(false), RetryAction::Request);
    assert_eq!(retry.backoff(), Some(500));
    assert_eq!(retry.next_action(false), RetryAction::Request);
    assert_eq!(retry.backoff(), Some(1000));
    assert_eq!(retry.next_action(true), RetryAction::Cancelled);
    assert_eq!(retry.attempts(), 2);
}

#[test]
fn cancel_after_last_attempt_reports_nothing() {
    let mut retry = Retry::new();
    for _ in 0..5 {
        retry.next_action(false);
    }
    assert_eq!(retry.next_action(true), RetryAction::Cancelled);
}
