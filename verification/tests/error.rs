use typesafe::{Duration, TypeSafeError};

#[test]
fn maps_documented_statuses() {
    assert!(matches!(
        TypeSafeError::from_status(401, None, None),
        TypeSafeError::Authentication(_)
    ));
    assert!(matches!(
        TypeSafeError::from_status(422, None, None),
        TypeSafeError::UnprocessableEntity(_)
    ));
    assert!(matches!(
        TypeSafeError::from_status(429, None, None),
        TypeSafeError::RateLimit { .. }
    ));
    assert!(matches!(
        TypeSafeError::from_status(529, None, None),
        TypeSafeError::Overloaded(_)
    ));
    assert!(matches!(
        TypeSafeError::from_status(503, None, None),
        TypeSafeError::InternalServer { status: 503, .. }
    ));
}

#[test]
fn validation_and_auth_are_not_retryable() {
    assert!(!TypeSafeError::from_status(422, None, None).is_retryable());
    assert!(!TypeSafeError::from_status(401, None, None).is_retryable());
    assert!(TypeSafeError::from_status(429, None, None).is_retryable());
    assert!(TypeSafeError::from_status(529, None, None).is_retryable());
}

#[test]
fn detail_is_appended_when_present() {
    let err = TypeSafeError::from_status(422, None, Some("questions.urgency: missing".into()));
    assert!(err.message().contains("questions.urgency: missing"));
}

#[test]
fn remaining_statuses_map_to_their_variants() {
    assert!(matches!(TypeSafeError::from_status(400, None, None), TypeSafeError::BadRequest(_)));
    assert!(matches!(
        TypeSafeError::from_status(403, None, None),
        TypeSafeError::PermissionDenied(_)
    ));
    assert!(matches!(TypeSafeError::from_status(404, None, None), TypeSafeError::NotFound(_)));
    assert!(matches!(
        TypeSafeError::from_status(418, None, None),
        TypeSafeError::UnexpectedStatus { status: 418, .. }
    ));
    assert!(matches!(
        TypeSafeError::from_status(302, None, None),
        TypeSafeError::UnexpectedStatus { status: 302, .. }
    ));
    assert!(matches!(
        TypeSafeError::from_status(599, None, None),
        TypeSafeError::InternalServer { status: 599, .. }
    ));
    assert!(!TypeSafeError::from_status(418, None, None).is_retryable());
    assert!(!TypeSafeError::from_status(404, None, None).is_retryable());
    assert!(TypeSafeError::from_status(500, None, None).is_retryable());
}

#[test]
fn transport_errors_are_retryable_and_local_ones_are_not() {
    assert!(TypeSafeError::Connection("refused".to_string()).is_retryable());
    assert!(TypeSafeError::Timeout(Duration::from_secs(30)).is_retryable());
    assert!(!TypeSafeError::EmptyRequest.is_retryable());
    assert!(!TypeSafeError::MissingApiKey.is_retryable());
    assert!(!TypeSafeError::Decode("bad".to_string()).is_retryable());
}

#[test]
fn retry_after_is_only_kept_for_rate_limits() {
    let limited = TypeSafeError::from_status(429, Some(Duration::from_secs(7)), None);
    assert_eq!(limited.retry_after(), Some(Duration::from_secs(7)));
    let overloaded = TypeSafeError::from_status(529, Some(Duration::from_secs(7)), None);
    assert_eq!(overloaded.retry_after(), None);
}

#[test]
fn messages_read_as_documented() {
    assert_eq!(
        TypeSafeError::from_status(401, None, None).message(),
        "TypeSafe rejected the API key (401). Check TYPESAFE_API_KEY."
    );
    assert_eq!(
        TypeSafeError::from_status(503, None, Some("  down for maintenance \n".into())).message(),
        "TypeSafe server error (503).\n  down for maintenance"
    );
    assert_eq!(
        TypeSafeError::from_status(404, None, Some("   ".into())).message(),
        "TypeSafe endpoint not found (404). Check the base URL."
    );
    assert_eq!(
        TypeSafeError::from_status(429, Some(Duration::from_secs(30)), Some("slow down".into()))
            .message(),
        "TypeSafe rate limit exceeded (429). Retry after 30s.\n  slow down"
    );
    assert_eq!(
        TypeSafeError::Timeout(Duration::from_secs(30)).message(),
        "TypeSafe request timed out after 30s"
    );
    assert_eq!(
        TypeSafeError::Timeout(Duration::from_millis(1500)).message(),
        "TypeSafe request timed out after 1.5s"
    );
    assert_eq!(
        TypeSafeError::AnswerTypeMismatch { id: "x".into(), expected: "noul", actual: "score" }
            .message(),
        "Question 'x' returned a score answer, expected noul"
    );
    assert_eq!(
        TypeSafeError::MissingAnswer("nope".into()).message(),
        "No answer for question id 'nope' in the TypeSafe response"
    );
    assert_eq!(
        TypeSafeError::InvalidQuestion { id: "bad".into(), reason: "why".into() }.message(),
        "Question 'bad' is invalid: why"
    );
    assert_eq!(
        TypeSafeError::EmptyRequest.message(),
        "A TypeSafe request needs at least one question"
    );
    assert!(TypeSafeError::MissingApiKey.message().starts_with("TypeSafe API key not found."));
}
