//! The tags that problems carry.

use vstd::prelude::*;

verus! {

/// A tag as the store holds it.
#[derive(Debug)]
pub struct ProblemTag {
    pub id: i32,
    pub name: String,
}

/// The row written when a tag is made.
#[derive(Debug)]
pub struct InsertableProblemTag {
    pub name: String,
}

/// The changes to make to a tag; `None` leaves the name as it is.
#[derive(Debug)]
pub struct ProblemTagForm {
    pub name: Option<String>,
}

} // verus!
