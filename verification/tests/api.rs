use personal_controller::api::{default_page, default_per_page, AppError, RateLimiter};
use personal_controller::base::{AuditMetadata, Error, Pagination, Status};
use std::time::Duration;

#[test]
fn test_error_display() {
    let err = AppError::NotFound("Company not found".to_string());
    assert_eq!(err.to_string(), "Not found: Company not found");
}

#[test]
fn test_rate_limiter() {
    let mut limiter = RateLimiter::new(3, Duration::from_secs(1).as_nanos());

    // First 3 requests should pass
    assert!(limiter.check_rate_limit("127.0.0.1"));
    assert!(limiter.check_rate_limit("127.0.0.1"));
    assert!(limiter.check_rate_limit("127.0.0.1"));

    // 4th request should be blocked
    assert!(!limiter.check_rate_limit("127.0.0.1"));

    // Different IP should work
    assert!(limiter.check_rate_limit("192.168.1.1"));
}

#[test]
fn test_pagination() {
    let pagination = Pagination::new(2, 10, 45);
    assert_eq!(pagination.total_pages(), 5);
    assert_eq!(pagination.offset(), 10);
}

#[test]
fn test_status_display() {
    assert_eq!(Status::Pending.to_string(), "Pendente");
    assert_eq!(Status::Completed.to_string(), "Concluído");
}

#[test]
fn every_status_has_its_label() {
    assert_eq!(Status::Processing.to_string(), "Processando");
    assert_eq!(Status::Failed.to_string(), "Falhou");
    assert_eq!(Status::Cancelled.to_string(), "Cancelado");
    assert_eq!(Status::Pending.variant_name(), "Pending");
    assert_eq!(Status::Cancelled.variant_name(), "Cancelled");
}

#[test]
fn every_error_has_its_line() {
    assert_eq!(Error::Database("x".into()).to_string(), "Database error: x");
    assert_eq!(Error::Import("x".into()).to_string(), "Import error: x");
    assert_eq!(Error::Validation("x".into()).to_string(), "Validation error: x");
    assert_eq!(Error::NotFound("x".into()).to_string(), "Not found: x");
    assert_eq!(Error::Llm("x".into()).to_string(), "LLM error: x");
    assert_eq!(Error::Internal("".into()).to_string(), "Internal error: ");
}

#[test]
fn every_app_error_has_its_status() {
    let cases = [
        (AppError::DatabaseError("m".into()), 500, "database_error", "Database error: m"),
        (AppError::NotFound("m".into()), 404, "not_found", "Not found: m"),
        (AppError::ValidationError("m".into()), 400, "validation_error", "Validation error: m"),
        (AppError::BadRequest("m".into()), 400, "bad_request", "Bad request: m"),
        (AppError::Unauthorized("m".into()), 401, "unauthorized", "Unauthorized: m"),
        (AppError::InternalError("m".into()), 500, "internal_error", "Internal error: m"),
        (AppError::LlmError("m".into()), 503, "llm_error", "LLM error: m"),
    ];
    for (error, status, kind, line) in cases {
        assert_eq!(error.status_code(), status);
        assert_eq!(error.error_type(), kind);
        assert_eq!(error.to_string(), line);
        let response = error.to_response();
        assert_eq!(response.status, status);
        assert_eq!(response.error, kind);
        assert_eq!(response.message, line);
        assert_eq!(response.details, None);
    }
}

#[test]
fn pagination_counts_partial_pages() {
    assert_eq!(Pagination::new(1, 10, 0).total_pages(), 0);
    assert_eq!(Pagination::new(1, 10, 1).total_pages(), 1);
    assert_eq!(Pagination::new(1, 10, 10).total_pages(), 1);
    assert_eq!(Pagination::new(1, 10, 11).total_pages(), 2);
    assert_eq!(Pagination::new(1, 10, 45).offset(), 0);
    assert_eq!(Pagination::new(5, 7, 45).offset(), 28);
    assert_eq!(default_page(), 1);
    assert_eq!(default_per_page(), 10);
}

#[test]
fn rate_limiter_forgets_what_left_the_window() {
    let mut limiter = RateLimiter::new(2, Duration::from_nanos(100).as_nanos());
    assert!(limiter.check_rate_limit_at("a", 0));
    assert!(limiter.check_rate_limit_at("a", 10));
    assert!(!limiter.check_rate_limit_at("a", 20));
    assert!(!limiter.check_rate_limit_at("a", 99));
    // at 100 the request of time 0 is no longer within the window
    assert!(limiter.check_rate_limit_at("a", 100));
    assert!(!limiter.check_rate_limit_at("a", 105));
    // a refused request leaves no trace
    assert!(limiter.check_rate_limit_at("a", 110));
    assert!(limiter.check_rate_limit_at("b", 110));
    assert!(limiter.check_rate_limit_at("b", 110));
    assert!(!limiter.check_rate_limit_at("b", 110));
    // a time that lies after `now` counts as now
    assert!(!limiter.check_rate_limit_at("b", 5));
}

#[test]
fn rate_limiter_with_no_allowance_admits_nothing() {
    let mut limiter = RateLimiter::new(0, 1_000_000_000);
    assert!(!limiter.check_rate_limit("a"));
    assert!(!limiter.check_rate_limit_at("a", 1_000_000_000_000));
    let mut open = RateLimiter::new(1, 0);
    // with an empty window nothing stays on record
    assert!(open.check_rate_limit_at("a", 5));
    assert!(open.check_rate_limit_at("a", 5));
}

#[test]
fn audit_trail_starts_at_one_moment() {
    let at = AuditMetadata::at(42);
    assert_eq!((at.created_at, at.updated_at), (42, 42));
    assert_eq!(at.created_by, None);
    assert_eq!(at.updated_by, None);
    let now = AuditMetadata::default();
    assert_eq!(now.created_at, now.updated_at);
    assert!(now.created_at > 1_600_000_000_000);
}

#[test]
fn rate_limiter_refuses_the_fourth_request_within_a_second() {
    let second = Duration::from_secs(1).as_nanos();
    let mut limiter = RateLimiter::new(3, second);
    assert!(limiter.check_rate_limit_at("127.0.0.1", 0));
    assert!(limiter.check_rate_limit_at("127.0.0.1", 1));
    assert!(limiter.check_rate_limit_at("127.0.0.1", second / 2));
    assert!(!limiter.check_rate_limit_at("127.0.0.1", second - 1));
    assert!(limiter.check_rate_limit_at("192.168.1.1", second - 1));
    // one second after the first request, one place is free again
    assert!(limiter.check_rate_limit_at("127.0.0.1", second));
    assert!(!limiter.check_rate_limit_at("127.0.0.1", second));
}
