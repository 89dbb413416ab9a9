//! A company whose board is polled. One row per `(ats, slug)`.

use vstd::prelude::*;

use crate::db::entities::Row;
use crate::text::copy_opt;

verus! {

/// A stored company.
#[derive(Debug, Clone)]
pub struct Model {
    pub id: i32,
    pub name: String,
    /// greenhouse | lever | ashby | ...
    pub ats: String,
    pub slug: String,
    pub careers_url: Option<String>,
    /// comma-separated labels
    pub tags: Option<String>,
    pub active: i32,
    pub needs_review: i32,
    /// time of the last successful fetch (RFC 3339)
    pub last_fetched: Option<String>,
}

/// A company that is yet to be stored; the id is given on insertion.
#[derive(Debug, Clone)]
pub struct Draft {
    pub name: String,
    pub ats: String,
    pub slug: String,
    pub careers_url: Option<String>,
    pub tags: Option<String>,
    pub active: i32,
    pub needs_review: i32,
    pub last_fetched: Option<String>,
}

impl Row for Model {
    fn copy(&self) -> (r: Self) {
        Model {
            id: self.id,
            name: self.name.clone(),
            ats: self.ats.clone(),
            slug: self.slug.clone(),
            careers_url: copy_opt(&self.careers_url),
            tags: copy_opt(&self.tags),
            active: self.active,
            needs_review: self.needs_review,
            last_fetched: copy_opt(&self.last_fetched),
        }
    }
}

impl Model {
    /// What identifies a board: the system it runs on and its slug there.
    pub open spec fn key(self) -> (Seq<char>, Seq<char>) {
        (self.ats@, self.slug@)
    }
}

impl Draft {
    /// The row that the draft becomes under an id.
    pub open spec fn row(self, id: i32) -> Model {
        Model {
            id,
            name: self.name,
            ats: self.ats,
            slug: self.slug,
            careers_url: self.careers_url,
            tags: self.tags,
            active: self.active,
            needs_review: self.needs_review,
            last_fetched: self.last_fetched,
        }
    }
}

} // verus!
