use hymnal_core::update::{is_transient_failure, outcome_of_check, outcome_of_failure, UpdateOutcome};

#[test]
fn rate_limit_403_is_transient() {
    assert!(is_transient_failure("UreqError: http status: 403"));
    assert!(is_transient_failure("http status: 429"));
    assert!(is_transient_failure("API rate limit exceeded for 1.2.3.4"));
}

#[test]
fn network_errors_are_transient() {
    assert!(is_transient_failure("dns error: failed to lookup address"));
    assert!(is_transient_failure("Network is unreachable (os error 51)"));
    assert!(is_transient_failure("connection timed out"));
}

#[test]
fn real_failures_are_not_transient() {
    assert!(!is_transient_failure(
        "Could not find the required path in the archive: hymnal-gui"
    ));
    assert!(!is_transient_failure("http status: 404"));
    assert!(!is_transient_failure("permission denied (os error 13)"));
}

#[test]
fn transient_matching_ignores_case() {
    assert!(is_transient_failure("DNS failure"));
    assert!(is_transient_failure("Request TIMEOUT"));
    assert!(is_transient_failure("Connection reset by peer"));
}

#[test]
fn outcomes_of_a_check() {
    assert_eq!(outcome_of_check(true, "1.2.3".into()), UpdateOutcome::Updated { version: "1.2.3".into() });
    assert_eq!(outcome_of_check(false, "1.2.3".into()), UpdateOutcome::UpToDate);
    assert_eq!(outcome_of_failure("http status: 403"), Some(UpdateOutcome::CheckUnavailable));
    assert_eq!(outcome_of_failure("http status: 404"), None);
}
