//! Which user belongs to which group.

use vstd::prelude::*;

verus! {

/// One membership: the user `user_id` belongs to the group `group_id`.
#[derive(Debug, Clone, Copy, PartialEq, Eq, Structural)]
pub struct GroupLink {
    pub group_id: i32,
    pub user_id: i32,
}

} // verus!
