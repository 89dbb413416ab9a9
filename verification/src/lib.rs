//! jobpipe: the rules of a job-posting pipeline.
//!
//! The crate holds everything that decides or computes: cleaning up postings,
//! detecting which job board a company uses, choosing what to score and what to
//! show, tracking applications. It performs no I/O.

pub mod cli;
pub mod clock;
pub mod commands;
pub mod config;
pub mod db;
pub mod html;
pub mod json;
pub mod normalize;
pub mod pattern;
pub mod report;
pub mod sniff;
pub mod sorting;
pub mod sources;
pub mod text;
pub mod triage;
pub mod unicode;
