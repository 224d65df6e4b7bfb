use statui::backend::{CheckResult, CheckStatus, ProbeOutcome, RESULT_BUFFER_SIZE};

#[test]
fn any_response_is_a_success() {
    for code in [100u16, 200, 204, 301, 404, 418, 500, 503] {
        let status = CheckStatus::from_probe(ProbeOutcome::Response {
            code,
            reason: "Reason".to_string(),
        });
        assert_eq!(status, CheckStatus::Success { code, text: "Reason".to_string() });
        assert!(!status.is_error());
    }
}

#[test]
fn transport_error_is_a_failure() {
    let status = CheckStatus::from_probe(ProbeOutcome::TransportError {
        cause: "connection refused".to_string(),
    });
    assert_eq!(status, CheckStatus::Error { message: "connection refused".to_string() });
    assert!(status.is_error());
}

#[test]
fn timeout_is_a_failure() {
    let status = CheckStatus::from_probe(ProbeOutcome::TimedOut);
    assert_eq!(status, CheckStatus::Error { message: "request timed out".to_string() });
    assert!(status.is_error());
}

#[test]
fn result_of_a_probe_carries_name_latency_and_time() {
    let result = CheckResult::from_probe(
        "api".to_string(),
        ProbeOutcome::Response { code: 503, reason: "Service Unavailable".to_string() },
        1_234,
        1_700_000_000_000,
    );
    assert_eq!(
        result,
        CheckResult {
            name: "api".to_string(),
            status: CheckStatus::Success { code: 503, text: "Service Unavailable".to_string() },
            latency_ms: 1_234,
            observed_at: 1_700_000_000_000,
        }
    );
    let failed = CheckResult::from_probe("api".to_string(), ProbeOutcome::TimedOut, 5_000, 7);
    assert!(failed.status.is_error());
    assert_eq!(failed.latency_ms, 5_000);
    assert_eq!(failed.observed_at, 7);
}

#[test]
fn clones_are_equal() {
    let status = CheckStatus::Success { code: 200, text: "OK".to_string() };
    assert_eq!(status.clone(), status);
    let result = CheckResult {
        name: "api".to_string(),
        status: CheckStatus::Error { message: "reset".to_string() },
        latency_ms: 3,
        observed_at: 4,
    };
    assert_eq!(result.clone(), result);
}

#[test]
fn buffer_holds_a_hundred_results() {
    assert_eq!(RESULT_BUFFER_SIZE, 100);
}
