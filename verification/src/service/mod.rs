//! The rules of the memory service: what each request asks of the store and how
//! it is answered.
pub mod batch;
pub mod batch_run;
pub mod consolidate;
pub mod error;
pub mod ingest;
pub mod links;
pub mod listing;
pub mod params;
pub mod prepare;
pub mod recall;
pub mod search;
pub mod tasks;
pub mod tenant;
pub mod write;
