//! The rules of the database-backed store: rows, statements, links and ranking.
pub mod hybrid;
pub mod links;
pub mod rows;
pub mod sql;
pub mod statements;
pub mod traverse;
