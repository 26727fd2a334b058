//! Sources of memories outside the service: where each is asked, and how what it
//! answers becomes memories.
pub mod connectors;
pub mod datafabric;
pub mod http;
pub mod ingestion;
pub mod item;
pub mod oxidizedgraph;
pub mod oxidizedrag;
pub mod scheduler;
