use papers::http_client::is_retriable_status;
use papers::http_client::is_success_status;
use papers::http_client::HttpJsonFetcher;
use papers::http_client::Outcome;
use papers::http_client::Retry;
use papers::http_client::RetryConfig;
use papers::http_client::RetryStep;

fn fast_retry() -> RetryConfig {
    RetryConfig { max_attempts: 4, base_delay: 1, max_delay: 5 }
}

/// How often a request is sent that comes to these outcomes one after the other, and the outcome
/// that is taken.
fn send(config: RetryConfig, outcomes: &[Outcome]) -> (usize, Outcome) {
    let mut retry = Retry::new(config);
    for (i, outcome) in outcomes.iter().enumerate() {
        if retry.after_attempt(*outcome) == RetryStep::Stop {
            return (i + 1, *outcome);
        }
    }
    panic!("more requests than outcomes");
}

#[test]
fn fetch_json_succeeds_on_first_try() {
    let (sent, outcome) = send(fast_retry(), &[Outcome::Status(200)]);
    assert_eq!(sent, 1);
    assert_eq!(outcome, Outcome::Status(200));
    assert!(is_success_status(200));
}

#[test]
fn retries_on_503_then_succeeds() {
    let outcomes = [Outcome::Status(503), Outcome::Status(503), Outcome::Status(200)];
    assert_eq!(send(fast_retry(), &outcomes), (3, Outcome::Status(200)));
}

#[test]
fn retries_on_429_then_succeeds() {
    let outcomes = [Outcome::Status(429), Outcome::Status(200)];
    assert_eq!(send(fast_retry(), &outcomes), (2, Outcome::Status(200)));
}

#[test]
fn gives_up_after_max_attempts_on_503() {
    let outcomes = [Outcome::Status(503); 9];
    assert_eq!(send(fast_retry(), &outcomes), (4, Outcome::Status(503)));
    assert!(!is_success_status(503));
}

#[test]
fn does_not_retry_on_404() {
    assert_eq!(send(fast_retry(), &[Outcome::Status(404)]), (1, Outcome::Status(404)));
    assert!(!is_success_status(404));
}

#[test]
fn does_not_retry_on_400() {
    assert_eq!(send(fast_retry(), &[Outcome::Status(400)]), (1, Outcome::Status(400)));
    assert!(!is_success_status(400));
}

#[test]
fn retry_config_default_is_sane() {
    let c = RetryConfig::default();
    assert!(c.max_attempts >= 2);
    assert!(c.base_delay <= c.max_delay);
}

#[test]
fn http_json_fetcher_returns_none_on_unreachable() {
    let fetcher = HttpJsonFetcher::with_retry(fast_retry());
    let outcomes = [Outcome::NoConnection; 9];
    assert_eq!(send(fetcher.retry, &outcomes), (4, Outcome::NoConnection));
}

#[test]
fn default_policy() {
    let c = RetryConfig::default();
    assert_eq!((c.max_attempts, c.base_delay, c.max_delay), (4, 250, 5000));
    assert_eq!(HttpJsonFetcher::default().retry, c);
}

#[test]
fn statuses_that_are_worth_another_try() {
    assert!(is_retriable_status(429));
    assert!(is_retriable_status(500));
    assert!(is_retriable_status(599));
    assert!(!is_retriable_status(499));
    assert!(!is_retriable_status(600));
    assert!(!is_retriable_status(200));
}

#[test]
fn timeouts_are_worth_another_try_and_other_failures_are_not() {
    let outcomes = [Outcome::Timeout, Outcome::Failure];
    assert_eq!(send(fast_retry(), &outcomes), (2, Outcome::Failure));
}

#[test]
fn a_policy_without_attempts_still_sends_once() {
    let config = RetryConfig { max_attempts: 0, base_delay: 1, max_delay: 5 };
    assert_eq!(send(config, &[Outcome::Status(503)]), (1, Outcome::Status(503)));
}

#[test]
fn delays_double_up_to_the_longest() {
    let config = RetryConfig { max_attempts: 6, base_delay: 250, max_delay: 1500 };
    let mut retry = Retry::new(config);
    let failed = Outcome::Status(500);
    let mut waits = vec![];
    for _ in 0..5 {
        match retry.after_attempt_with(failed, 10) {
            RetryStep::WaitAndRetry(wait) => waits.push(wait),
            RetryStep::Stop => panic!("stopped too early"),
        }
    }
    assert_eq!(waits, vec![255, 505, 1005, 1505, 1505]);
    assert_eq!(retry.after_attempt_with(failed, 10), RetryStep::Stop);
}

#[test]
fn jitter_is_at_most_half_of_the_delay() {
    let config = RetryConfig { max_attempts: 2, base_delay: 100, max_delay: 100 };
    let mut seen = vec![];
    for _ in 0..200 {
        let mut retry = Retry::new(config);
        match retry.after_attempt(Outcome::Timeout) {
            RetryStep::WaitAndRetry(wait) => seen.push(wait),
            RetryStep::Stop => panic!("stopped too early"),
        }
    }
    assert!(seen.iter().all(|w| *w >= 100 && *w <= 150));
    assert!(seen.iter().any(|w| *w != seen[0]));
}
