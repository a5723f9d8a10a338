//! The access control list: who may enter which region.

use crate::errors::{ErrorView, ServiceError, ServiceResult};
use crate::text::{is_word, same_text};
use vstd::prelude::*;

verus! {

/// One row of the access control list. `self_type` is `"user"` for a grant to
/// one user; any other value (the store writes `"group"`) makes `id` the id of
/// a group, and the grant is to its members.
#[derive(Debug)]
pub struct AccessControlListColumn {
    pub self_type: String,
    pub id: i32,
    pub region: String,
    pub is_unrated: Option<bool>,
    pub is_manager: bool,
}

/// Whom a row of the list names.
pub enum PrincipalKind {
    User,
    Group,
}

/// A row of the access control list, as the rules read it.
pub struct AclEntry {
    pub principal_kind: PrincipalKind,
    pub principal_id: int,
    pub region: Seq<char>,
    pub is_manager: bool,
    pub is_unrated: Option<bool>,
}

impl View for AccessControlListColumn {
    type V = AclEntry;

    open spec fn view(&self) -> AclEntry {
        AclEntry {
            principal_kind: if self.self_type@ == "user"@ {
                PrincipalKind::User
            } else {
                PrincipalKind::Group
            },
            principal_id: self.id as int,
            region: self.region@,
            is_manager: self.is_manager,
            is_unrated: self.is_unrated,
        }
    }
}

/// The rows of a list, each as the rules read it.
pub open spec fn acl_entries(rows: Seq<AccessControlListColumn>) -> Seq<AclEntry> {
    rows.map_values(|row: AccessControlListColumn| row@)
}

impl AccessControlListColumn {
    /// The row that lets the user `user_id` into `region`.
    pub fn for_user(region: String, user_id: i32, is_unrated: Option<bool>, is_manager: bool) -> (row:
        AccessControlListColumn)
        ensures
            row.self_type@ == "user"@,
            row@ == (AclEntry {
                principal_kind: PrincipalKind::User,
                principal_id: user_id as int,
                region: region@,
                is_manager,
                is_unrated,
            }),
    {
        AccessControlListColumn {
            self_type: "user".to_owned(),
            id: user_id,
            region,
            is_unrated,
            is_manager,
        }
    }

    /// The row that lets the members of the group `group_id` into `region`:
    /// rated, and no managers.
    pub fn for_group(region: String, group_id: i32) -> (row: AccessControlListColumn)
        ensures
            row.self_type@ == "group"@,
            row@ == (AclEntry {
                principal_kind: PrincipalKind::Group,
                principal_id: group_id as int,
                region: region@,
                is_manager: false,
                is_unrated: Some(false),
            }),
    {
        proof {
            reveal_strlit("group");
            reveal_strlit("user");
            assert("group"@.len() != "user"@.len());
        }
        AccessControlListColumn {
            self_type: "group".to_owned(),
            id: group_id,
            region,
            is_unrated: Some(false),
            is_manager: false,
        }
    }
}

impl Clone for AccessControlListColumn {
    fn clone(&self) -> (row: AccessControlListColumn)
        ensures
            row@ == self@,
            row.self_type@ == self.self_type@,
    {
        AccessControlListColumn {
            self_type: self.self_type.clone(),
            id: self.id,
            region: self.region.clone(),
            is_unrated: self.is_unrated,
            is_manager: self.is_manager,
        }
    }
}

impl AclEntry {
    /// `self` and `other` name the same principal in the same region.
    pub open spec fn same_key(self, other: AclEntry) -> bool {
        self.region == other.region && self.principal_kind == other.principal_kind
            && self.principal_id == other.principal_id
    }
}

/// No two rows of `entries` name the same principal in the same region.
pub open spec fn unique_keys(entries: Seq<AclEntry>) -> bool {
    forall|i: int, j: int|
        0 <= i < entries.len() && 0 <= j < entries.len() && i != j ==> !(#[trigger] entries[i]).same_key(
            #[trigger] entries[j],
        )
}

/// Some row of `entries` names the principal of `entry` in its region.
pub open spec fn holds_key(entries: Seq<AclEntry>, entry: AclEntry) -> bool {
    exists|i: int| 0 <= i < entries.len() && (#[trigger] entries[i]).same_key(entry)
}

/// What is answered to a row whose principal is on the list already.
pub open spec fn already_listed() -> ErrorView {
    ErrorView::BadRequest("Already in ACL."@)
}

/// Adds `row` to the list `acls`, which holds every principal of a region at
/// most once. A row whose principal is on the list of its region already is
/// refused, and the list stays as it is.
pub fn add_entry(acls: &mut Vec<AccessControlListColumn>, row: AccessControlListColumn) -> (res:
    ServiceResult<()>)
    requires
        unique_keys(acl_entries(old(acls)@)),
    ensures
        unique_keys(acl_entries(final(acls)@)),
        res is Err <==> holds_key(acl_entries(old(acls)@), row@),
        res matches Err(e) ==> e@ == already_listed() && acl_entries(final(acls)@) == acl_entries(
            old(acls)@,
        ),
        res is Ok ==> acl_entries(final(acls)@) == acl_entries(old(acls)@).push(row@),
{
    let ghost entries = acl_entries(acls@);
    let row_is_user = is_word(&row.self_type, "user");
    let mut i: usize = 0;
    while i < acls.len()
        invariant
            i <= acls.len(),
            *acls == *old(acls),
            entries == acl_entries(acls@),
            unique_keys(entries),
            row_is_user == (row@.principal_kind is User),
            forall|k: int| 0 <= k < i ==> !(#[trigger] entries[k]).same_key(row@),
        decreases acls.len() - i,
    {
        let acl = &acls[i];
        assert(entries[i as int] == acl@);
        if acl.id == row.id && is_word(&acl.self_type, "user") == row_is_user && same_text(
            &acl.region,
            &row.region,
        ) {
            assert(entries[i as int].same_key(row@));
            return Err(ServiceError::bad_request("Already in ACL."));
        }
        i += 1;
    }
    let ghost added = row@;
    acls.push(row);
    proof {
        let after = acl_entries(acls@);
        assert(after =~= entries.push(added));
        assert forall|a: int, b: int| 0 <= a < after.len() && 0 <= b < after.len() && a != b implies !(
        #[trigger] after[a]).same_key(#[trigger] after[b]) by {
            if a < entries.len() && b < entries.len() {
                assert(!entries[a].same_key(entries[b]));
            } else if a < entries.len() {
                assert(!entries[a].same_key(added));
            } else {
                assert(!entries[b].same_key(added));
            }
        }
    }
    Ok(())
}

/// Nobody is put on the list of a region twice: once a row has been added,
/// every further row that names the same principal in the same region is
/// refused.
pub proof fn lemma_no_second_entry(entries: Seq<AclEntry>, first: AclEntry, second: AclEntry)
    requires
        first.same_key(second),
    ensures
        holds_key(entries.push(first), second),
{
    assert(entries.push(first)[entries.len() as int].same_key(second));
}

/// The ids of the groups that `entries` name, in the order of the rows; a
/// group named by several rows is listed as often.
pub open spec fn group_ids_of(entries: Seq<AclEntry>) -> Seq<int>
    decreases entries.len(),
{
    if entries.len() == 0 {
        Seq::empty()
    } else {
        let rest = group_ids_of(entries.drop_last());
        if entries.last().principal_kind is Group {
            rest.push(entries.last().principal_id)
        } else {
            rest
        }
    }
}

/// The ids of the groups that the rows `acls` name: those whose memberships
/// decide whom the list lets in.
pub fn group_ids(acls: &Vec<AccessControlListColumn>) -> (ids: Vec<i32>)
    ensures
        ids@.map_values(|id: i32| id as int) == group_ids_of(acl_entries(acls@)),
{
    let ghost entries = acl_entries(acls@);
    let mut ids: Vec<i32> = Vec::new();
    let mut i: usize = 0;
    assert(ids@.map_values(|id: i32| id as int) =~= group_ids_of(entries.take(0)));
    while i < acls.len()
        invariant
            i <= acls.len(),
            entries == acl_entries(acls@),
            ids@.map_values(|id: i32| id as int) == group_ids_of(entries.take(i as int)),
        decreases acls.len() - i,
    {
        let acl = &acls[i];
        let ghost before = ids@;
        assert(entries[i as int] == acl@);
        assert(entries.take(i + 1).drop_last() =~= entries.take(i as int));
        if !is_word(&acl.self_type, "user") {
            ids.push(acl.id);
            assert(ids@.map_values(|id: i32| id as int) =~= before.map_values(|id: i32| id as int).push(
                acl.id as int,
            ));
        }
        i += 1;
    }
    assert(entries.take(i as int) =~= entries);
    ids
}

} // verus!
