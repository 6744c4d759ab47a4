use artificial::delay::Delay;
use artificial::error::OpenAiError;
use artificial::retry::transport_retry_allowed;
use artificial::retry::Rejection;
use artificial::retry::RequestAttempt;
use artificial::retry::ResponseAction;
use artificial::retry::RetryExecutor;
use artificial::retry::RetryPolicy;
use reqwest::header::HeaderMap;
use reqwest::header::HeaderValue;

fn policy(max_retries: u32, base_ms: u64, max_ms: u64, respect: bool) -> RetryPolicy {
    RetryPolicy {
        max_retries,
        base_delay: Delay::from_millis(base_ms),
        max_delay: Delay::from_millis(max_ms),
        respect_retry_after: respect,
    }
}

fn headers(pairs: &[(&'static str, &'static str)]) -> HeaderMap {
    let mut map = HeaderMap::new();
    for (name, value) in pairs {
        map.insert(*name, HeaderValue::from_static(value));
    }
    map
}

#[test]
fn default_policy_values() {
    let p = RetryPolicy::default();
    assert_eq!(p.max_retries, 3);
    assert_eq!(p.base_delay, Delay::from_millis(500));
    assert_eq!(p.max_delay, Delay::from_secs(30));
    assert!(p.respect_retry_after);
}

#[test]
fn backoff_doubles_then_caps() {
    let p = RetryPolicy::default();
    assert_eq!(p.backoff_for(0).as_millis(), 500);
    assert_eq!(p.backoff_for(1).as_millis(), 1_000);
    assert_eq!(p.backoff_for(2).as_millis(), 2_000);
    assert_eq!(p.backoff_for(3).as_millis(), 4_000);
    assert_eq!(p.backoff_for(4).as_millis(), 8_000);
    assert_eq!(p.backoff_for(5).as_millis(), 16_000);
    assert_eq!(p.backoff_for(6).as_millis(), 30_000);
    assert_eq!(p.backoff_for(7).as_millis(), 30_000);
    assert_eq!(p.backoff_for(u32::MAX).as_millis(), 30_000);
}

#[test]
fn backoff_exponent_stops_at_ten() {
    let p = policy(3, 1, 10_000_000, true);
    assert_eq!(p.backoff_for(9).as_millis(), 512);
    assert_eq!(p.backoff_for(10).as_millis(), 1_024);
    assert_eq!(p.backoff_for(11).as_millis(), 1_024);
    assert_eq!(p.backoff_for(1_000).as_millis(), 1_024);
}

#[test]
fn backoff_matches_formula_and_never_shrinks() {
    let p = policy(3, 7, 3_000, true);
    let mut previous: u128 = 0;
    for attempt in 0u32..40 {
        let exponent = attempt.min(10);
        let expected = (7u128 << exponent).min(3_000);
        let got = p.backoff_for(attempt).as_millis();
        assert_eq!(got, expected);
        assert!(got >= previous);
        previous = got;
    }
}

#[test]
fn backoff_with_huge_base_is_the_cap() {
    let p = RetryPolicy {
        max_retries: 1,
        base_delay: Delay::from_secs(u64::MAX),
        max_delay: Delay::from_secs(u64::MAX),
        respect_retry_after: false,
    };
    assert_eq!(p.backoff_for(10), Delay::from_secs(u64::MAX));
    let zero = policy(1, 0, 100, false);
    assert_eq!(zero.backoff_for(5), Delay::zero());
}

#[test]
fn success_is_delivered_at_once() {
    let mut executor = RetryExecutor::new(RetryPolicy::default());
    for status in [200u16, 201, 204, 299] {
        assert!(matches!(
            executor.on_response(status, &HeaderMap::new()),
            ResponseAction::Deliver
        ));
    }
    assert_eq!(executor.attempt, 0);
}

#[test]
fn server_errors_then_success_sleeps_once_per_error() {
    let statuses = [500u16, 503, 502, 200];
    let mut executor = RetryExecutor::new(policy(3, 100, 10_000, true));
    let mut sleeps: Vec<Delay> = Vec::new();
    let mut delivered_at: Option<usize> = None;
    for (sent, status) in statuses.iter().enumerate() {
        match executor.on_response(*status, &HeaderMap::new()) {
            ResponseAction::Deliver => {
                delivered_at = Some(sent);
                break;
            }
            ResponseAction::Retry(next) => sleeps.push(next.delay),
            ResponseAction::Reject(rejection) => panic!("rejected: {:?}", rejection),
        }
    }
    assert_eq!(delivered_at, Some(3));
    assert_eq!(
        sleeps,
        vec![Delay::from_millis(100), Delay::from_millis(200), Delay::from_millis(400)]
    );
    assert_eq!(executor.attempt, 3);
}

#[test]
fn retry_after_header_lengthens_the_sleep() {
    let mut executor = RetryExecutor::new(RetryPolicy::default());
    let action = executor.on_response(429, &headers(&[("retry-after", "5")]));
    match action {
        ResponseAction::Retry(next) => {
            assert_eq!(
                next,
                RequestAttempt { attempt: 0, delay: Delay::from_secs(5), hint_overrode: true }
            );
            assert!(next.delay.as_secs() >= 5);
        }
        other => panic!("unexpected action: {:?}", other),
    }
    assert_eq!(executor.attempt, 1);
}

#[test]
fn retry_after_header_shorter_than_backoff_is_not_used() {
    let mut executor = RetryExecutor::new(policy(3, 8_000, 30_000, true));
    match executor.on_response(429, &headers(&[("retry-after", "5")])) {
        ResponseAction::Retry(next) => {
            assert_eq!(next.delay, Delay::from_secs(8));
            assert!(!next.hint_overrode);
        }
        other => panic!("unexpected action: {:?}", other),
    }
}

#[test]
fn retry_after_header_is_ignored_when_not_respected() {
    let mut executor = RetryExecutor::new(policy(3, 500, 30_000, false));
    match executor.on_response(503, &headers(&[("retry-after", "5")])) {
        ResponseAction::Retry(next) => {
            assert_eq!(next.delay, Delay::from_millis(500));
            assert!(!next.hint_overrode);
        }
        other => panic!("unexpected action: {:?}", other),
    }
}

#[test]
fn retry_after_may_exceed_the_cap() {
    let mut executor = RetryExecutor::new(policy(3, 500, 1_000, true));
    match executor.on_response(429, &headers(&[("retry-after", " 120 ")])) {
        ResponseAction::Retry(next) => assert_eq!(next.delay, Delay::from_secs(120)),
        other => panic!("unexpected action: {:?}", other),
    }
}

#[test]
fn rate_limit_error_after_retries_are_used_up() {
    let mut executor = RetryExecutor::new(policy(1, 10, 100, true));
    let map = headers(&[
        ("retry-after", "7"),
        ("x-ratelimit-limit-requests", "100"),
        ("x-ratelimit-remaining-requests", "0"),
        ("x-ratelimit-reset-requests", "1s"),
        ("x-ratelimit-limit-tokens", "40000"),
        ("x-ratelimit-remaining-tokens", "12"),
        ("x-ratelimit-reset-tokens", "6m0s"),
    ]);
    assert!(matches!(executor.on_response(429, &map), ResponseAction::Retry(_)));
    let rejection = match executor.on_response(429, &map) {
        ResponseAction::Reject(rejection) => rejection,
        other => panic!("unexpected action: {:?}", other),
    };
    assert_eq!(executor.attempt, 1);
    match rejection.into_error("slow down".to_string()) {
        OpenAiError::RateLimited { status, body, retry_after, reset_at, headers } => {
            assert_eq!(status, 429);
            assert_eq!(body, "slow down");
            assert_eq!(retry_after, Some(Delay::from_secs(7)));
            assert_eq!(reset_at.as_deref(), Some("1s"));
            assert_eq!(headers.limit_requests, Some(100));
            assert_eq!(headers.remaining_requests, Some(0));
            assert_eq!(headers.reset_requests.as_deref(), Some("1s"));
            assert_eq!(headers.limit_tokens, Some(40000));
            assert_eq!(headers.remaining_tokens, Some(12));
            assert_eq!(headers.reset_tokens.as_deref(), Some("6m0s"));
        }
        other => panic!("unexpected error: {:?}", other),
    }
}

#[test]
fn server_error_after_retries_are_used_up_is_an_api_error() {
    let mut executor = RetryExecutor::new(policy(0, 10, 100, true));
    let rejection = match executor.on_response(500, &HeaderMap::new()) {
        ResponseAction::Reject(rejection) => rejection,
        other => panic!("unexpected action: {:?}", other),
    };
    assert!(matches!(rejection, Rejection::Api { status: 500 }));
    match rejection.into_error("boom".to_string()) {
        OpenAiError::Api { status, body } => {
            assert_eq!(status, 500);
            assert_eq!(body, "boom");
        }
        other => panic!("unexpected error: {:?}", other),
    }
}

#[test]
fn other_statuses_are_rejected_without_retry() {
    for status in [400u16, 401, 404, 301, 100, 600] {
        let mut executor = RetryExecutor::new(RetryPolicy::default());
        match executor.on_response(status, &headers(&[("retry-after", "5")])) {
            ResponseAction::Reject(Rejection::Api { status: code }) => assert_eq!(code, status),
            other => panic!("unexpected action for {}: {:?}", status, other),
        }
        assert_eq!(executor.attempt, 0);
    }
}

#[test]
fn transport_failures_are_classified() {
    assert!(transport_retry_allowed(0, 3, true, false, true));
    assert!(transport_retry_allowed(2, 3, false, true, true));
    assert!(transport_retry_allowed(0, 1, false, false, false));
    assert!(!transport_retry_allowed(0, 3, false, false, true));
    assert!(!transport_retry_allowed(3, 3, true, true, false));
    assert!(!transport_retry_allowed(0, 0, true, false, false));
}

#[test]
fn failures_are_retried_with_the_computed_delay() {
    let mut executor = RetryExecutor::new(policy(2, 100, 10_000, true));
    assert_eq!(
        executor.on_failure(true, false, false),
        Some(RequestAttempt { attempt: 0, delay: Delay::from_millis(100), hint_overrode: false })
    );
    assert_eq!(
        executor.on_failure(false, true, false),
        Some(RequestAttempt { attempt: 1, delay: Delay::from_millis(200), hint_overrode: false })
    );
    assert_eq!(executor.on_failure(true, true, false), None);
    assert_eq!(executor.attempt, 2);
    let mut strict = RetryExecutor::new(policy(2, 100, 10_000, true));
    assert_eq!(strict.on_failure(false, false, true), None);
    assert_eq!(strict.attempt, 0);
}

#[test]
fn transport_error_is_retried_then_surfaced() {
    let bad_request = |url: &str| reqwest::Client::new().get(url).build().unwrap_err();
    let mut executor = RetryExecutor::new(policy(1, 100, 10_000, true));
    let first = executor.on_transport_error(bad_request("not a url"));
    assert_eq!(
        first.ok(),
        Some(RequestAttempt { attempt: 0, delay: Delay::from_millis(100), hint_overrode: false })
    );
    let second = executor.on_transport_error(bad_request("not a url"));
    match second {
        Err(OpenAiError::Http(error)) => assert!(error.is_builder()),
        other => panic!("unexpected result: {:?}", other),
    }
    assert_eq!(executor.attempt, 1);
}

#[test]
fn delay_conversions() {
    assert_eq!(Delay::from_secs(2).as_nanos(), 2_000_000_000);
    assert_eq!(Delay::from_millis(1_500).as_secs(), 1);
    assert_eq!(Delay::from_millis(1_500).subsec_nanos(), 500_000_000);
    assert_eq!(Delay::from_nanos(999).as_millis(), 0);
    assert_eq!(Delay::from_nanos(u128::MAX), Delay::from_nanos(artificial::delay::MAX_DELAY_NANOS));
    assert_eq!(Delay::from_secs(u64::MAX).saturating_mul(2).as_nanos(), artificial::delay::MAX_DELAY_NANOS);
    assert_eq!(Delay::from_secs(3).saturating_mul(4), Delay::from_secs(12));
    assert!(Delay::from_secs(1).longer_than(&Delay::from_millis(999)));
    assert!(!Delay::from_secs(1).longer_than(&Delay::from_secs(1)));
    assert!(Delay::zero().is_zero());
    assert!(!Delay::from_nanos(1).is_zero());
}

#[test]
fn rate_limit_error_keeps_a_hint_of_zero_seconds() {
    let mut executor = RetryExecutor::new(policy(0, 10, 100, true));
    let rejection = match executor.on_response(429, &headers(&[("retry-after", "0")])) {
        ResponseAction::Reject(rejection) => rejection,
        other => panic!("unexpected action: {:?}", other),
    };
    match rejection.into_error(String::new()) {
        OpenAiError::RateLimited { retry_after, reset_at, .. } => {
            assert_eq!(retry_after, Some(Delay::zero()));
            assert_eq!(reset_at, None);
        }
        other => panic!("unexpected error: {:?}", other),
    }
    let mut silent = RetryExecutor::new(policy(0, 10, 100, true));
    match silent.on_response(429, &HeaderMap::new()) {
        ResponseAction::Reject(Rejection::RateLimited { retry_after, .. }) => {
            assert_eq!(retry_after, None)
        }
        other => panic!("unexpected action: {:?}", other),
    }
}

#[test]
fn transport_error_without_retries_left_is_surfaced_at_once() {
    let bad_request = reqwest::Client::new().get("not a url").build().unwrap_err();
    assert!(!bad_request.is_status());
    let mut executor = RetryExecutor::new(policy(0, 100, 10_000, true));
    assert!(matches!(executor.on_transport_error(bad_request), Err(OpenAiError::Http(_))));
    assert_eq!(executor.attempt, 0);
}
