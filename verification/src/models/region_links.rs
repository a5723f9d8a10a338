//! The links that put problems into regions.

use vstd::prelude::*;

verus! {

/// One link: the problem `problem_id` is the problem number `inner_id` of
/// `region`.
#[derive(Debug)]
pub struct RegionLink {
    pub region: String,
    pub inner_id: i32,
    pub problem_id: i32,
    pub score: Option<i32>,
}

/// What became of one problem that was to be linked to a region.
#[derive(Debug, Clone, Copy, PartialEq, Eq, Structural)]
pub struct CreateRegionLinksResult {
    pub problem_id: i32,
    pub inner_id: Option<i32>,
    pub is_success: bool,
}

} // verus!
