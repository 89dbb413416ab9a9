//! What is written for each event, and which rows each view shows, in what order.
//!
//! The functions take the rows of a table and give back the rows to show, the row
//! to write, or the table with the change made.

pub mod applications;
pub mod companies;
pub mod laws;
pub mod postings;
pub mod views;

pub use applications::{
    create_application, delete_application, list_applications, update_application_stage, AppRow,
    ApplyOutcome,
};
pub use companies::{
    active_companies, add_company, count_companies, list_companies, mark_needs_review,
    seed_companies, touch_last_fetched, SeedCompany,
};
pub use postings::{
    close_stale_postings, open_postings, posting_with_company, reset_triage, set_dismissed,
    set_triage, set_triage_bulk, unapplied_open_postings, untriaged_postings, upsert_posting,
    PostingWrite, UpsertOutcome,
};
