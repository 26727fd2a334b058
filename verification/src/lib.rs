//! Memory store for agents.
pub mod context_pack;
pub mod decimal;
pub mod embedding;
pub mod facts;
pub mod float;
pub mod grpc;
pub mod json;
pub mod link;
pub mod memory;
pub mod model;
pub mod order;
pub mod query;
pub mod task;
pub mod text;
pub mod service;
pub mod source;
pub mod store;
