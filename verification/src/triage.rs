//! The scoring pass. Untriaged postings first go through a cheap code-side
//! pre-filter of obvious-reject titles; the others are sent in batches to be
//! scored against the candidate's profile.

pub mod prompt;
pub mod run;
pub mod scores;
pub mod screen;
