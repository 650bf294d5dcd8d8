use blog_replay::errors::ScrapeError;
use blog_replay::retry::backoff_millis;
use blog_replay::retry::retry_decision;
use blog_replay::retry::run_retry;
use blog_replay::retry::RetryDecision;

fn transient() -> Result<(), ScrapeError> {
    Err(ScrapeError::HttpStatus { status: 503 })
}

#[test]
fn transient_failures_then_success_attempts_n_plus_one() {
    for n in 1..=5usize {
        let max_attempts = 6;
        let mut outcomes: Vec<Result<(), ScrapeError>> = Vec::new();
        for _ in 0..n {
            outcomes.push(transient());
        }
        outcomes.push(Ok(()));
        while outcomes.len() < max_attempts {
            outcomes.push(transient());
        }
        let (attempts, result) = run_retry(&outcomes, max_attempts);
        assert_eq!(attempts, n + 1);
        assert!(result.is_ok());
    }
}

#[test]
fn fatal_failure_attempts_once() {
    let fatal = Err(ScrapeError::HttpStatus { status: 404 });
    let outcomes = vec![fatal, Ok(()), Ok(()), Ok(()), Ok(())];
    let (attempts, result) = run_retry(&outcomes, 5);
    assert_eq!(attempts, 1);
    assert_eq!(result, Err(ScrapeError::HttpStatus { status: 404 }));
}

#[test]
fn network_failure_is_fatal() {
    let outcomes = vec![Err(ScrapeError::Network), Ok(()), Ok(())];
    let (attempts, result) = run_retry(&outcomes, 3);
    assert_eq!(attempts, 1);
    assert_eq!(result, Err(ScrapeError::Network));
}

#[test]
fn zero_attempt_cap_is_a_configuration_error() {
    let outcomes: Vec<Result<(), ScrapeError>> = Vec::new();
    let (attempts, result) = run_retry(&outcomes, 0);
    assert_eq!(attempts, 0);
    assert_eq!(result, Err(ScrapeError::NoAttemptsAllowed));
}

#[test]
fn exhausted_attempts_surface_the_last_failure() {
    let outcomes = vec![transient(), transient(), transient()];
    let (attempts, result) = run_retry(&outcomes, 3);
    assert_eq!(attempts, 3);
    assert_eq!(result, Err(ScrapeError::HttpStatus { status: 503 }));
}

#[test]
fn backoff_is_exponential_with_base_500() {
    assert_eq!(backoff_millis(0), 1);
    assert_eq!(backoff_millis(1), 500);
    assert_eq!(backoff_millis(2), 250_000);
    assert_eq!(backoff_millis(3), 125_000_000);
    // 500^8 exceeds the representable range and saturates.
    assert_eq!(backoff_millis(8), u64::MAX);
}

#[test]
fn decision_retries_only_transient_inside_the_cap() {
    let transient_err = ScrapeError::HttpStatus { status: 500 };
    let fatal_err = ScrapeError::HttpStatus { status: 404 };
    assert_eq!(
        retry_decision(&transient_err, 1, 5),
        RetryDecision::RetryAfterMillis(500)
    );
    assert_eq!(
        retry_decision(&transient_err, 2, 5),
        RetryDecision::RetryAfterMillis(250_000)
    );
    assert_eq!(retry_decision(&transient_err, 5, 5), RetryDecision::GiveUp);
    assert_eq!(retry_decision(&fatal_err, 1, 5), RetryDecision::GiveUp);
    assert_eq!(retry_decision(&ScrapeError::MalformedResponse, 1, 5), RetryDecision::GiveUp);
}
