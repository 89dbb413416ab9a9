//! A single role. One row per `(company_id, external_id)`.

use vstd::prelude::*;

use crate::db::entities::Row;
use crate::text::copy_opt;

verus! {

/// A stored posting.
#[derive(Debug, Clone)]
pub struct Model {
    pub id: i32,
    pub company_id: i32,
    /// the board's own id
    pub external_id: String,
    pub title: String,
    pub location: Option<String>,
    /// remote | hybrid | onsite | unknown
    pub remote: Option<String>,
    pub description: String,
    pub apply_url: String,
    pub first_seen: String,
    pub last_seen: String,
    pub closed_at: Option<String>,
    /// 0 to 10, none until triaged
    pub score: Option<i32>,
    pub score_reason: Option<String>,
    /// JSON array
    pub flags: Option<String>,
    pub triaged_at: Option<String>,
    /// set by the user: hidden from the digest and the apply picker
    pub dismissed_at: Option<String>,
}

/// A posting that is yet to be stored. The columns that are not here start out
/// empty; the id is given on insertion.
#[derive(Debug, Clone)]
pub struct Draft {
    pub company_id: i32,
    pub external_id: String,
    pub title: String,
    pub location: Option<String>,
    pub remote: Option<String>,
    pub description: String,
    pub apply_url: String,
    pub first_seen: String,
    pub last_seen: String,
}

impl Row for Model {
    fn copy(&self) -> (r: Self) {
        Model {
            id: self.id,
            company_id: self.company_id,
            external_id: self.external_id.clone(),
            title: self.title.clone(),
            location: copy_opt(&self.location),
            remote: copy_opt(&self.remote),
            description: self.description.clone(),
            apply_url: self.apply_url.clone(),
            first_seen: self.first_seen.clone(),
            last_seen: self.last_seen.clone(),
            closed_at: copy_opt(&self.closed_at),
            score: self.score,
            score_reason: copy_opt(&self.score_reason),
            flags: copy_opt(&self.flags),
            triaged_at: copy_opt(&self.triaged_at),
            dismissed_at: copy_opt(&self.dismissed_at),
        }
    }
}

impl Model {
    /// What identifies a posting: its company and the board's id for it.
    pub open spec fn key(self) -> (i32, Seq<char>) {
        (self.company_id, self.external_id@)
    }
}

impl Draft {
    /// The row that the draft becomes under an id.
    pub open spec fn row(self, id: i32) -> Model {
        Model {
            id,
            company_id: self.company_id,
            external_id: self.external_id,
            title: self.title,
            location: self.location,
            remote: self.remote,
            description: self.description,
            apply_url: self.apply_url,
            first_seen: self.first_seen,
            last_seen: self.last_seen,
            closed_at: None,
            score: None,
            score_reason: None,
            flags: None,
            triaged_at: None,
            dismissed_at: None,
        }
    }
}

} // verus!
