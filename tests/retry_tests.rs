use sentio_memory::error::ErrorClass;
use sentio_memory::retry::{run_scripted, ScriptedOperation};
use sentio_memory::{MemoryError, RetryDecision, RetryPolicy};

fn connection_lost() -> MemoryError {
    MemoryError::DatabaseConnectionFailed { message: "reset by peer".to_string() }
}

#[test]
fn executor_retries_until_success() {
    let mut op = ScriptedOperation::new(vec![
        Err(connection_lost()),
        Err(connection_lost()),
        Err(connection_lost()),
        Ok(42),
    ]);
    let result = run_scripted(&RetryPolicy::linear(3, 1000), &mut op);
    assert_eq!(result, Ok(42));
    assert_eq!(op.calls(), 4);
    assert_eq!(op.pauses(), &vec![1000, 2000, 3000]);
}

#[test]
fn executor_stops_on_fatal_error() {
    let fatal = MemoryError::ValidationError { field: "user_id".to_string(), reason: "empty".to_string() };
    let mut op = ScriptedOperation::new(vec![Err(fatal.clone()), Ok(1)]);
    let result = run_scripted(&RetryPolicy::linear(10, 1000), &mut op);
    assert_eq!(result, Err(fatal));
    assert_eq!(op.calls(), 1);
    assert!(op.pauses().is_empty());
}

#[test]
fn executor_returns_last_error_when_budget_runs_out() {
    let mut op = ScriptedOperation::new(vec![
        Err(connection_lost()),
        Err(MemoryError::Timeout { seconds: 1 }),
        Err(MemoryError::Timeout { seconds: 2 }),
    ]);
    let result = run_scripted(&RetryPolicy::linear(2, 10), &mut op);
    assert_eq!(result, Err(MemoryError::Timeout { seconds: 2 }));
    assert_eq!(op.calls(), 3);
}

#[test]
fn executor_does_not_retry_not_found() {
    let missing = MemoryError::DocumentNotFound { document_type: "MemoryCorpus".to_string(), id: "x".to_string() };
    assert_eq!(missing.class(), ErrorClass::Terminal);
    let mut op = ScriptedOperation::new(vec![Err(missing), Ok(1)]);
    assert!(run_scripted(&RetryPolicy::linear(3, 10), &mut op).is_err());
    assert_eq!(op.calls(), 1);
}

#[test]
fn backoff_policies() {
    let linear = RetryPolicy::linear(3, 1000);
    assert_eq!(linear.delay_ms(0, None), 1000);
    assert_eq!(linear.delay_ms(2, None), 3000);
    let exp = RetryPolicy::exponential(5, 1000, Some(4000));
    assert_eq!(exp.delay_ms(0, None), 1000);
    assert_eq!(exp.delay_ms(1, None), 2000);
    assert_eq!(exp.delay_ms(3, None), 4000);
    assert_eq!(exp.delay_ms(1, Some(5000)), 5000);
    let huge = RetryPolicy::exponential(100, u64::MAX / 2 + 1, None);
    assert_eq!(huge.delay_ms(1, None), u64::MAX);
    assert_eq!(RetryPolicy::linear(3, u64::MAX).delay_ms(1, None), u64::MAX);
}

#[test]
fn decisions_follow_the_class() {
    let p = RetryPolicy::linear(2, 100);
    assert_eq!(p.decide(0, None, None), RetryDecision::Stop);
    assert_eq!(p.decide(0, Some(ErrorClass::Retryable), None), RetryDecision::RetryAfter { delay_ms: 100 });
    assert_eq!(p.decide(2, Some(ErrorClass::Retryable), None), RetryDecision::Stop);
    assert_eq!(p.decide(0, Some(ErrorClass::Fatal), None), RetryDecision::Stop);
}

#[test]
fn error_taxonomy_predicates() {
    assert!(connection_lost().is_retryable());
    assert!(MemoryError::Timeout { seconds: 3 }.is_retryable());
    assert!(MemoryError::MongoError { message: "Network unreachable".to_string() }.is_retryable());
    assert!(MemoryError::MongoError { message: "CONNECTION refused".to_string() }.is_retryable());
    assert!(!MemoryError::MongoError { message: "duplicate key".to_string() }.is_retryable());
    assert!(!MemoryError::ConcurrencyConflict { resource: "r".to_string() }.is_retryable());
    assert!(MemoryError::AuthenticationFailed { reason: "bad".to_string() }.is_fatal());
    assert!(MemoryError::PermissionDenied { resource: "r".to_string(), operation: "w".to_string() }.is_fatal());
    assert!(MemoryError::ConfigurationError { field: "url".to_string() }.is_critical());
    assert_eq!(connection_lost().error_code(), "DB_CONNECTION_FAILED");
    assert_eq!(MemoryError::RateLimited { retry_after_seconds: 1 }.class(), ErrorClass::Terminal);
}
