//! Error taxonomy of the memory store, with the two predicates that drive
//! the retry executor.

use vstd::prelude::*;
use crate::text::{chars_of, contains_chars, lower_of, lowercase, occurs_in};

verus! {

/// Errors of the memory store. Each variant carries its context as text.
#[derive(Debug, Clone, PartialEq, Eq)]
pub enum MemoryError {
    /// The backend could not be reached.
    DatabaseConnectionFailed { message: String },
    /// A backend operation failed.
    DatabaseOperationFailed { operation: String, details: String },
    /// A document that an operation targets does not exist.
    DocumentNotFound { document_type: String, id: String },
    /// A value could not be encoded.
    SerializationError { message: String },
    /// Stored data could not be decoded.
    DeserializationError { message: String },
    /// The database driver failed; `message` is the driver's description of the cause.
    MongoError { message: String },
    /// A configuration value is unusable.
    ConfigurationError { field: String },
    /// An input was rejected.
    ValidationError { field: String, reason: String },
    /// Another writer modified the resource concurrently.
    ConcurrencyConflict { resource: String },
    /// A storage quota was exceeded.
    StorageLimitExceeded { limit: String, resource: String },
    /// Creating or using an index failed.
    IndexError { index_name: String, details: String },
    /// The backend refused the credentials.
    AuthenticationFailed { reason: String },
    /// The credentials lack a permission.
    PermissionDenied { resource: String, operation: String },
    /// The backend asked the caller to slow down.
    RateLimited { retry_after_seconds: u64 },
    /// An operation ran out of time.
    Timeout { seconds: u64 },
}

/// How the retry executor treats an error.
#[derive(Debug, Clone, Copy, PartialEq, Eq, Structural)]
pub enum ErrorClass {
    /// Transient: the operation may be attempted again.
    Retryable,
    /// Must never be retried and must reach the caller at once.
    Fatal,
    /// Reaches the caller without retry, but is not catastrophic.
    Terminal,
}

/// Whether a lower-cased cause names a transient condition.
pub open spec fn transient_cause(lowered: Seq<char>) -> bool {
    occurs_in("network"@, lowered) || occurs_in("timeout"@, lowered) || occurs_in(
        "connection"@,
        lowered,
    )
}

/// Tests a lower-cased cause for the words that mark a transient failure.
pub fn mentions_transient_cause(lowered: &str) -> (r: bool)
    ensures
        r == transient_cause(lowered@),
{
    let hay = chars_of(lowered);
    let network = chars_of("network");
    let timeout = chars_of("timeout");
    let connection = chars_of("connection");
    contains_chars(&hay, &network) || contains_chars(&hay, &timeout) || contains_chars(
        &hay,
        &connection,
    )
}

impl MemoryError {
    /// Whether the error is transient.
    pub open spec fn spec_is_retryable(&self) -> bool {
        match self {
            MemoryError::DatabaseConnectionFailed { .. } => true,
            MemoryError::Timeout { .. } => true,
            MemoryError::MongoError { message } => transient_cause(lower_of(message@)),
            _ => false,
        }
    }

    /// Whether the error must never be retried.
    pub open spec fn spec_is_fatal(&self) -> bool {
        match self {
            MemoryError::AuthenticationFailed { .. } => true,
            MemoryError::ConfigurationError { .. } => true,
            MemoryError::ValidationError { .. } => true,
            MemoryError::PermissionDenied { .. } => true,
            _ => false,
        }
    }

    /// The class that the executor sees.
    pub open spec fn spec_class(&self) -> ErrorClass {
        if self.spec_is_retryable() {
            ErrorClass::Retryable
        } else if self.spec_is_fatal() {
            ErrorClass::Fatal
        } else {
            ErrorClass::Terminal
        }
    }

    /// Connection failures, timeouts, and driver failures whose cause
    /// mentions the network, a timeout or a connection are transient.
    pub fn is_retryable(&self) -> (r: bool)
        ensures
            r == self.spec_is_retryable(),
    {
        match self {
            MemoryError::DatabaseConnectionFailed { .. } => true,
            MemoryError::Timeout { .. } => true,
            MemoryError::MongoError { message } => {
                let lowered = lowercase(message.as_str());
                mentions_transient_cause(lowered.as_str())
            },
            _ => false,
        }
    }

    /// Authentication, configuration, validation and permission errors are fatal.
    pub fn is_fatal(&self) -> (r: bool)
        ensures
            r == self.spec_is_fatal(),
    {
        match self {
            MemoryError::AuthenticationFailed { .. } => true,
            MemoryError::ConfigurationError { .. } => true,
            MemoryError::ValidationError { .. } => true,
            MemoryError::PermissionDenied { .. } => true,
            _ => false,
        }
    }

    /// Classifies the error for the retry executor.
    pub fn class(&self) -> (r: ErrorClass)
        ensures
            r == self.spec_class(),
    {
        if self.is_retryable() {
            ErrorClass::Retryable
        } else if self.is_fatal() {
            ErrorClass::Fatal
        } else {
            ErrorClass::Terminal
        }
    }

    /// Errors that call for an alert: lost connection, bad configuration,
    /// exhausted storage.
    pub fn is_critical(&self) -> (r: bool)
        ensures
            r == (self is DatabaseConnectionFailed || self is ConfigurationError
                || self is StorageLimitExceeded),
    {
        match self {
            MemoryError::DatabaseConnectionFailed { .. } => true,
            MemoryError::ConfigurationError { .. } => true,
            MemoryError::StorageLimitExceeded { .. } => true,
            _ => false,
        }
    }

    /// Stable code of the error kind, for logs and metrics.
    pub open spec fn spec_error_code(&self) -> Seq<char> {
        match self {
            MemoryError::DatabaseConnectionFailed { .. } => "DB_CONNECTION_FAILED"@,
            MemoryError::DatabaseOperationFailed { .. } => "DB_OPERATION_FAILED"@,
            MemoryError::DocumentNotFound { .. } => "DOCUMENT_NOT_FOUND"@,
            MemoryError::SerializationError { .. } => "SERIALIZATION_ERROR"@,
            MemoryError::DeserializationError { .. } => "DESERIALIZATION_ERROR"@,
            MemoryError::MongoError { .. } => "MONGO_ERROR"@,
            MemoryError::ConfigurationError { .. } => "CONFIGURATION_ERROR"@,
            MemoryError::ValidationError { .. } => "VALIDATION_ERROR"@,
            MemoryError::ConcurrencyConflict { .. } => "CONCURRENCY_CONFLICT"@,
            MemoryError::StorageLimitExceeded { .. } => "STORAGE_LIMIT_EXCEEDED"@,
            MemoryError::IndexError { .. } => "INDEX_ERROR"@,
            MemoryError::AuthenticationFailed { .. } => "AUTHENTICATION_FAILED"@,
            MemoryError::PermissionDenied { .. } => "PERMISSION_DENIED"@,
            MemoryError::RateLimited { .. } => "RATE_LIMITED"@,
            MemoryError::Timeout { .. } => "TIMEOUT"@,
        }
    }

    /// Stable code of the error kind, for logs and metrics.
    pub fn error_code(&self) -> (r: &'static str)
        ensures
            r@ == self.spec_error_code(),
    {
        match self {
            MemoryError::DatabaseConnectionFailed { .. } => "DB_CONNECTION_FAILED",
            MemoryError::DatabaseOperationFailed { .. } => "DB_OPERATION_FAILED",
            MemoryError::DocumentNotFound { .. } => "DOCUMENT_NOT_FOUND",
            MemoryError::SerializationError { .. } => "SERIALIZATION_ERROR",
            MemoryError::DeserializationError { .. } => "DESERIALIZATION_ERROR",
            MemoryError::MongoError { .. } => "MONGO_ERROR",
            MemoryError::ConfigurationError { .. } => "CONFIGURATION_ERROR",
            MemoryError::ValidationError { .. } => "VALIDATION_ERROR",
            MemoryError::ConcurrencyConflict { .. } => "CONCURRENCY_CONFLICT",
            MemoryError::StorageLimitExceeded { .. } => "STORAGE_LIMIT_EXCEEDED",
            MemoryError::IndexError { .. } => "INDEX_ERROR",
            MemoryError::AuthenticationFailed { .. } => "AUTHENTICATION_FAILED",
            MemoryError::PermissionDenied { .. } => "PERMISSION_DENIED",
            MemoryError::RateLimited { .. } => "RATE_LIMITED",
            MemoryError::Timeout { .. } => "TIMEOUT",
        }
    }
}

/// A retryable error is never fatal, so the two predicates and the class agree.
pub proof fn lemma_retryable_not_fatal(e: MemoryError)
    ensures
        !(e.spec_is_retryable() && e.spec_is_fatal()),
        e.spec_class() == ErrorClass::Fatal <==> e.spec_is_fatal(),
        e.spec_class() == ErrorClass::Retryable <==> e.spec_is_retryable(),
{
}

} // verus!
