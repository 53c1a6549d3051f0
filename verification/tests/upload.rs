use swiss_knife::upload::{
    is_retryable, is_transient_text, simulate, AttemptOutcome, RetryDecision, RetryError,
    RetryState, RunReport, Verdict, MAX_RETRIES,
};

#[test]
fn test_is_retryable() {
    // Retryable errors
    assert!(is_retryable("Connection timeout"));
    assert!(is_retryable("Throttling error"));
    assert!(is_retryable("503 Service Unavailable"));
    assert!(is_retryable("Connection reset by peer"));
    assert!(is_retryable("SlowDown"));

    // Non-retryable errors
    assert!(!is_retryable("Access Denied"));
    assert!(!is_retryable("Invalid credentials"));
    assert!(!is_retryable("404 Not Found"));
}

#[test]
fn every_marker_is_recognised() {
    for marker in [
        "timeout", "connection", "throttl", "503", "500", "502", "504", "slowdown", "temporary",
        "broken pipe", "connection reset",
    ] {
        assert!(is_transient_text(marker));
        assert!(is_transient_text(&format!("xx {} yy", marker)));
        assert!(is_retryable(&marker.to_uppercase()));
    }
    assert!(!is_transient_text(""));
    assert!(!is_transient_text("TIMEOUT"));
    assert!(!is_transient_text("time out"));
    assert!(!is_transient_text("501"));
}

/// Runs the retry policy over the messages of the failed attempts, followed
/// by a success if `then_success`. Returns the number of attempts made, the
/// waits, and the error if the policy gave up.
fn run(failures: &[&str], then_success: bool) -> (u32, Vec<u64>, Option<RetryError>) {
    let mut state = RetryState::new();
    let mut calls: u32 = 0;
    let mut delays = Vec::new();
    for message in failures {
        calls += 1;
        match state.on_failure(message.to_string()) {
            RetryDecision::RetryAfter { attempt, delay_secs, resume_from } => {
                assert_eq!(attempt, calls);
                assert_eq!(resume_from, 0);
                delays.push(delay_secs);
            }
            RetryDecision::GiveUp(error) => return (calls, delays, Some(error)),
        }
    }
    if then_success {
        calls += 1;
    }
    (calls, delays, None)
}

#[test]
fn transient_failures_then_success() {
    for n in 0..=3usize {
        let failures = vec!["connection reset"; n];
        let (calls, delays, error) = run(&failures, true);
        assert!(error.is_none());
        assert_eq!(calls as usize, n + 1);
        assert_eq!(delays, [1u64, 2, 4][..n].to_vec());
    }
}

#[test]
fn upload_fails_twice_then_succeeds() {
    let (calls, delays, error) = run(&["connection reset", "connection reset"], true);
    assert!(error.is_none());
    assert_eq!(calls, 3);
    assert_eq!(delays, vec![1, 2]);
}

#[test]
fn fourth_transient_failure_exhausts_the_retries() {
    let (calls, delays, error) = run(&["timeout", "timeout", "timeout", "last timeout", "x"], true);
    assert_eq!(calls, 4);
    assert_eq!(delays, vec![1, 2, 4]);
    match error {
        Some(RetryError::Exhausted { retries, message }) => {
            assert_eq!(retries, MAX_RETRIES);
            assert_eq!(message, "last timeout");
        }
        other => panic!("expected exhaustion, got {:?}", other),
    }
}

#[test]
fn permanent_failure_is_not_retried() {
    let (calls, delays, error) = run(&["Access Denied", "timeout"], true);
    assert_eq!(calls, 1);
    assert!(delays.is_empty());
    match error {
        Some(RetryError::Fatal { retries, message }) => {
            assert_eq!(retries, 0);
            assert_eq!(message, "Access Denied");
        }
        other => panic!("expected a fatal error, got {:?}", other),
    }
}

#[test]
fn permanent_failure_after_retries_keeps_their_count() {
    let (calls, delays, error) = run(&["timeout", "503", "Access Denied"], true);
    assert_eq!(calls, 3);
    assert_eq!(delays, vec![1, 2]);
    assert!(matches!(error, Some(RetryError::Fatal { retries: 2, .. })));
}

#[test]
fn giving_up_leaves_the_state_as_it_was() {
    let mut state = RetryState::new();
    assert_eq!(state.retries(), 0);
    assert!(matches!(state.decide(false, "no".to_string()), RetryDecision::GiveUp(_)));
    assert_eq!(state.retries(), 0);
    assert!(matches!(
        state.decide(true, "yes".to_string()),
        RetryDecision::RetryAfter { attempt: 1, delay_secs: 1, resume_from: 0 }
    ));
    assert_eq!(state.retries(), 1);
}

#[test]
fn the_policy_played_through() {
    let t = AttemptOutcome::Transient;
    let ok = AttemptOutcome::Success;
    let no = AttemptOutcome::Permanent;
    for n in 0..=3usize {
        let mut outcomes = vec![t; n];
        outcomes.push(ok);
        let report = simulate(&outcomes);
        assert_eq!(report.verdict, Verdict::Succeeded);
        assert_eq!(report.calls as usize, n + 1);
        assert_eq!(report.delays, [1u64, 2, 4][..n].to_vec());
    }
    assert_eq!(
        simulate(&vec![t, t, t, t, ok]),
        RunReport { verdict: Verdict::Exhausted, calls: 4, delays: vec![1, 2, 4] }
    );
    assert_eq!(
        simulate(&vec![no, ok]),
        RunReport { verdict: Verdict::Fatal, calls: 1, delays: vec![] }
    );
    assert_eq!(
        simulate(&vec![t, no]),
        RunReport { verdict: Verdict::Fatal, calls: 2, delays: vec![1] }
    );
    assert_eq!(
        simulate(&vec![t, t]),
        RunReport { verdict: Verdict::Unfinished, calls: 2, delays: vec![1, 2] }
    );
    assert_eq!(
        simulate(&vec![]),
        RunReport { verdict: Verdict::Unfinished, calls: 0, delays: vec![] }
    );
}
