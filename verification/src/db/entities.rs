//! The stored rows: companies, postings and applications.

pub mod application;
pub mod company;
pub mod posting;

use vstd::prelude::*;

verus! {

/// A row that can be copied field by field.
pub trait Row: Sized {
    /// The same row.
    fn copy(&self) -> (r: Self)
        ensures
            r == *self,
    ;
}

} // verus!
