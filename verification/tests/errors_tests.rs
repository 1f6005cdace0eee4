use rs_helper::errors::AppError;

#[test]
fn error_texts() {
    assert_eq!(AppError::Upstream("x".into()).to_string(), "Upstream service error: x");
    assert_eq!(AppError::BadRequest("x".into()).to_string(), "Invalid request: x");
    assert_eq!(AppError::NotFound("x".into()).to_string(), "Not found: x");
    assert_eq!(AppError::RateLimit.to_string(), "Rate limit exceeded");
    assert_eq!(AppError::Internal("x".into()).to_string(), "Internal server error: x");
    assert_eq!(AppError::Cache("x".into()).to_string(), "Cache error: x");
    assert_eq!(AppError::Serialization("x".into()).to_string(), "Serialization error: x");
    assert_eq!(AppError::Network("x".into()).to_string(), "Network error: x");
    assert_eq!(AppError::Config("x".into()).to_string(), "Configuration error: x");
}

#[test]
fn error_answers() {
    let cases = vec![
        (AppError::Upstream("m".into()), 502, "upstream_error", "m"),
        (AppError::BadRequest("m".into()), 400, "bad_request", "m"),
        (AppError::NotFound("m".into()), 404, "not_found", "m"),
        (AppError::RateLimit, 429, "rate_limit", "Too many requests. Please try again later."),
        (AppError::Internal("m".into()), 500, "internal_error", "m"),
        (AppError::Cache("m".into()), 500, "cache_error", "m"),
        (AppError::Serialization("m".into()), 500, "serialization_error", "m"),
        (AppError::Network("m".into()), 502, "network_error", "Network error: m"),
        (AppError::Config("m".into()), 500, "config_error", "m"),
    ];
    for (e, status, code, message) in cases {
        let (s, body) = e.response_parts();
        assert_eq!(s, status);
        assert_eq!(body.code, code);
        assert_eq!(body.message, message);
    }
}

#[test]
fn text_becomes_internal_error() {
    assert_eq!(AppError::from("boom"), AppError::Internal("boom".to_string()));
    assert_eq!(AppError::from("boom".to_string()), AppError::Internal("boom".to_string()));
}
