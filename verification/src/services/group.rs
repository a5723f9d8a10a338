//! Groups and their members.

use crate::models::group_links::GroupLink;
use vstd::prelude::*;

verus! {

/// How many of `links` say that `user_id` belongs to `group_id`.
pub open spec fn membership_count(links: Seq<GroupLink>, group_id: int, user_id: int) -> nat
    decreases links.len(),
{
    if links.len() == 0 {
        0
    } else {
        let rest = membership_count(links.drop_last(), group_id, user_id);
        if links.last().group_id == group_id && links.last().user_id == user_id {
            rest + 1
        } else {
            rest
        }
    }
}

/// `user_id` counts as a member of `group_id`: exactly one link says so.
pub open spec fn in_group(links: Seq<GroupLink>, group_id: int, user_id: int) -> bool {
    membership_count(links, group_id, user_id) == 1
}

/// Whether exactly one of `links` says that `user_id` belongs to `group_id`.
pub fn is_in_group(links: &Vec<GroupLink>, group_id: i32, user_id: i32) -> (member: bool)
    ensures
        member == in_group(links@, group_id as int, user_id as int),
{
    let mut seen: usize = 0;
    let mut i: usize = 0;
    while i < links.len()
        invariant
            i <= links.len(),
            seen <= i,
            seen == membership_count(links@.take(i as int), group_id as int, user_id as int),
        decreases links.len() - i,
    {
        assert(links@.take(i + 1).drop_last() =~= links@.take(i as int));
        if links[i].group_id == group_id && links[i].user_id == user_id {
            seen += 1;
        }
        i += 1;
    }
    assert(links@.take(i as int) =~= links@);
    seen == 1
}

} // verus!
