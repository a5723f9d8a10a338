//! Groups of users.

use vstd::prelude::*;

verus! {

/// A group as the store holds it.
#[derive(Debug)]
pub struct Group {
    pub id: i32,
    pub title: String,
    pub introduction: Option<String>,
}

/// The row written when a group is made.
#[derive(Debug)]
pub struct InsertableGroup {
    pub title: String,
    pub introduction: Option<String>,
}

/// The changes to make to a group; `None` leaves a column as it is.
#[derive(Debug)]
pub struct GroupForm {
    pub title: Option<String>,
    pub introduction: Option<String>,
}

/// A group as a list of groups shows it.
#[derive(Debug)]
pub struct OutGroup {
    pub id: i32,
    pub title: String,
}

impl From<Group> for OutGroup {
    fn from(group: Group) -> (out: OutGroup) {
        OutGroup { id: group.id, title: group.title }
    }
}

impl vstd::std_specs::convert::FromSpecImpl<Group> for OutGroup {
    open spec fn obeys_from_spec() -> bool {
        true
    }

    open spec fn from_spec(group: Group) -> OutGroup {
        OutGroup { id: group.id, title: group.title }
    }
}

/// What became of one user who was to join a group.
#[derive(Debug, Clone, Copy, PartialEq, Eq, Structural)]
pub struct InsertUserIntoGroupResult {
    pub user_id: i32,
    pub is_success: bool,
}

} // verus!
