//! What each command decides and says.

pub mod apply;
pub mod companies;
pub mod digest;
pub mod fetch;
pub mod followup;
pub mod init;
pub mod laws;
pub mod pager;
pub mod run;
pub mod setup;
pub mod track;
