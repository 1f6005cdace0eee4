use rs_helper::errors::AppError;
use rs_helper::retry::{backoff_ms, json_read_error, AttemptOutcome, RetryAction, RetryState};

#[test]
fn retries_back_off_then_fail() {
    let mut s = RetryState::new(3);
    let fail = AttemptOutcome::HttpError { status: "503 Service Unavailable".to_string(), body: "down".to_string() };
    assert_eq!(s.next_action(&fail), RetryAction::RetryAfter { delay_ms: 200 });
    assert_eq!(s.next_action(&fail), RetryAction::RetryAfter { delay_ms: 400 });
    assert_eq!(s.next_action(&fail), RetryAction::RetryAfter { delay_ms: 800 });
    assert_eq!(
        s.next_action(&fail),
        RetryAction::Fail(AppError::Upstream("HTTP 503 Service Unavailable: down".to_string()))
    );
    assert_eq!(s.retries, 3);
}

#[test]
fn network_errors_and_success() {
    let mut s = RetryState::new(0);
    let net = AttemptOutcome::NetworkError { message: "timed out".to_string() };
    assert_eq!(s.next_action(&net), RetryAction::Fail(AppError::Network("timed out".to_string())));
    assert_eq!(s.next_action(&AttemptOutcome::Success), RetryAction::ReadBody);
    assert_eq!(backoff_ms(0), 100);
    assert_eq!(backoff_ms(57), 100 * (1u64 << 57));
    assert_eq!(
        json_read_error("eof"),
        AppError::Upstream("Failed to parse JSON: eof".to_string())
    );
}

#[test]
fn retry_budget_and_total_wait() {
    let mut s = RetryState::new(5);
    let net = AttemptOutcome::NetworkError { message: "reset".to_string() };
    let mut attempts = 0;
    let mut waited: u64 = 0;
    loop {
        attempts += 1;
        match s.next_action(&net) {
            RetryAction::RetryAfter { delay_ms } => waited += delay_ms,
            RetryAction::Fail(e) => {
                assert_eq!(e, AppError::Network("reset".to_string()));
                break;
            }
            RetryAction::ReadBody => panic!("a failure was read"),
        }
    }
    assert_eq!(attempts, 6);
    assert_eq!(waited, 100 * ((1u64 << 6) - 2));
    assert_eq!(s.retries, 5);
}

#[test]
fn large_budgets_are_accepted() {
    let mut s = RetryState::new(1000);
    assert_eq!(s.max_retries, 1000);
    let fail = AttemptOutcome::NetworkError { message: "x".to_string() };
    for n in 1..=57u32 {
        assert_eq!(s.next_action(&fail), RetryAction::RetryAfter { delay_ms: 100 * (1u64 << n) });
    }
    assert_eq!(s.retries, 57);
    assert_eq!(s.next_action(&AttemptOutcome::Success), RetryAction::ReadBody);
}
