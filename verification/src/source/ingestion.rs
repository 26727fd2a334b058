//! What can go wrong between a source and the store.
use crate::text::{cat, cat3};
use vstd::prelude::*;

verus! {

/// Why memories could not be taken in.
#[derive(Debug)]
pub enum IngestionError {
    /// The source of this name gave this reason.
    SourceUnavailable(String, String),
    InvalidMemory(String),
    ScopeMismatch(String),
    StorageError(String),
}

impl IngestionError {
    /// The error in words.
    pub open spec fn words(self) -> Seq<char> {
        match self {
            IngestionError::SourceUnavailable(source, reason) => "Source "@ + source@
                + " unavailable: "@ + reason@,
            IngestionError::InvalidMemory(m) => "Invalid memory format: "@ + m@,
            IngestionError::ScopeMismatch(m) => "Scope mismatch: "@ + m@,
            IngestionError::StorageError(m) => "Storage error: "@ + m@,
        }
    }

    /// The error in words.
    pub fn to_string(&self) -> (r: String)
        ensures
            r@ == self.words(),
    {
        match self {
            IngestionError::SourceUnavailable(source, reason) => cat(
                cat3("Source ", source.as_str(), " unavailable: ").as_str(),
                reason.as_str(),
            ),
            IngestionError::InvalidMemory(m) => cat("Invalid memory format: ", m.as_str()),
            IngestionError::ScopeMismatch(m) => cat("Scope mismatch: ", m.as_str()),
            IngestionError::StorageError(m) => cat("Storage error: ", m.as_str()),
        }
    }
}

/// Why a source's answer could not be had.
#[derive(Debug)]
pub enum FetchFailure {
    /// The source could not be reached.
    Call(String),
    /// Its answer could not be read.
    Parse(String),
}

/// The answer to a wish for updates as they happen, which sources do not offer.
pub fn subscribe_updates(source_id: &str) -> (r: String)
    ensures
        r@ == "Real-time subscriptions not supported for "@ + source_id@,
{
    cat("Real-time subscriptions not supported for ", source_id)
}

/// Why a health check failed, in words.
pub fn health_check_failure(reason: &str) -> (r: String)
    ensures
        r@ == "Health check failed: "@ + reason@,
{
    cat("Health check failed: ", reason)
}

} // verus!
