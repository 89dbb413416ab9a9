//! A recorded application against a posting.

use vstd::prelude::*;

use crate::db::entities::Row;
use crate::text::copy_opt;

verus! {

/// A stored application.
#[derive(Debug, Clone)]
pub struct Model {
    pub id: i32,
    pub posting_id: i32,
    pub applied_at: String,
    /// applied | screen | interview | offer | rejected | ghosted
    pub stage: String,
    pub last_contact: Option<String>,
    pub next_followup: Option<String>,
    pub notes: Option<String>,
}

/// An application that is yet to be stored; the id is given on insertion.
#[derive(Debug, Clone)]
pub struct Draft {
    pub posting_id: i32,
    pub applied_at: String,
    pub stage: String,
    pub last_contact: Option<String>,
    pub next_followup: Option<String>,
    pub notes: Option<String>,
}

impl Row for Model {
    fn copy(&self) -> (r: Self) {
        Model {
            id: self.id,
            posting_id: self.posting_id,
            applied_at: self.applied_at.clone(),
            stage: self.stage.clone(),
            last_contact: copy_opt(&self.last_contact),
            next_followup: copy_opt(&self.next_followup),
            notes: copy_opt(&self.notes),
        }
    }
}

impl Draft {
    /// The row that the draft becomes under an id.
    pub open spec fn row(self, id: i32) -> Model {
        Model {
            id,
            posting_id: self.posting_id,
            applied_at: self.applied_at,
            stage: self.stage,
            last_contact: self.last_contact,
            next_followup: self.next_followup,
            notes: self.notes,
        }
    }
}

} // verus!
