//! Per-user memory store for an email assistant: error taxonomy, retry
//! executor, corpus model, a snapshot-backed repository and the validation
//! rules of the document-store backend.

pub mod clock;
pub mod config;
pub mod email;
pub mod error;
pub mod laws;
pub mod llm;
pub mod model;
pub mod retry;
pub mod store;
pub mod text;
pub mod validate;

pub use config::{Config, Prompt, PromptsConfig};
pub use email::{EmailAddress, EmailError};
pub use error::{ErrorClass, MemoryError};
pub use model::{InteractionLog, MemoryCorpus, MemoryFragment, MemoryType, MessageDirection, UserStatistics};
pub use retry::{RetryDecision, RetryPolicy};
pub use store::{FieldValue, MemoryQuery, SnapshotStore};
