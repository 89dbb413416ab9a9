//! Stored rows, and the queries on them.

pub mod entities;
pub mod queries;
pub mod tables;
