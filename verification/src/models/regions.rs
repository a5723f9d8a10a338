//! Regions: the places that hold problems.

use vstd::prelude::*;

verus! {

/// A region as the store holds it.
#[derive(Debug)]
pub struct Region {
    pub name: String,
    pub can_view_testcases: bool,
}

/// The changes to make to a region; `None` leaves the column as it is.
#[derive(Debug, Clone, Copy, PartialEq, Eq, Structural)]
pub struct RegionForm {
    pub can_view_testcases: Option<bool>,
}

} // verus!
