//! Who may see a region and who may solve in it.
//!
//! A region is a plain problem set, open to all, or a contest. A contest
//! answers by its state, its settings and, where it has a password, by the
//! access control list.

use crate::errors::{outcome, ErrorView, ServiceError, ServiceResult};
use crate::models::access_control_list::{acl_entries, AccessControlListColumn, AclEntry, PrincipalKind};
use crate::models::contests::{get_contest_state, Contest, ContestState, ContestView};
use crate::models::group_links::GroupLink;
use crate::models::users::LoggedUser;
use crate::services::group::{in_group, is_in_group};
use crate::time::Timestamp;
use vstd::prelude::*;

verus! {

/// The row `entry` lets `user_id` into `region`: it is a row of that region,
/// and it names the user, or a group that the user is a member of.
pub open spec fn entry_grants(
    entry: AclEntry,
    links: Seq<GroupLink>,
    user_id: int,
    region: Seq<char>,
) -> bool {
    entry.region == region && match entry.principal_kind {
        PrincipalKind::User => entry.principal_id == user_id,
        PrincipalKind::Group => in_group(links, entry.principal_id, user_id),
    }
}

/// Some row of `entries` lets `user_id` into `region`.
pub open spec fn acl_grants(
    entries: Seq<AclEntry>,
    links: Seq<GroupLink>,
    user_id: int,
    region: Seq<char>,
) -> bool {
    exists|i: int| 0 <= i < entries.len() && entry_grants(#[trigger] entries[i], links, user_id, region)
}

/// The row `entry` makes `user_id` a manager of `region`. What kind of
/// principal the row names is not asked.
pub open spec fn entry_manages(entry: AclEntry, user_id: int, region: Seq<char>) -> bool {
    entry.region == region && entry.principal_id == user_id && entry.is_manager
}

/// How many rows of `entries` make `user_id` a manager of `region`.
pub open spec fn manager_count(entries: Seq<AclEntry>, user_id: int, region: Seq<char>) -> nat
    decreases entries.len(),
{
    if entries.len() == 0 {
        0
    } else {
        let rest = manager_count(entries.drop_last(), user_id, region);
        if entry_manages(entries.last(), user_id, region) {
            rest + 1
        } else {
            rest
        }
    }
}

/// `user_id` is a manager of `region`: exactly one row says so.
pub open spec fn manages(entries: Seq<AclEntry>, user_id: int, region: Seq<char>) -> bool {
    manager_count(entries, user_id, region) == 1
}

/// What the list answers when it lets nobody in.
pub open spec fn not_in_acl() -> ErrorView {
    ErrorView::UnauthorizedWithHint("Not in ACL."@)
}

/// What `check_acl` answers.
pub open spec fn acl_outcome(
    entries: Seq<AclEntry>,
    links: Seq<GroupLink>,
    user_id: int,
    region: Seq<char>,
) -> Result<(), ErrorView> {
    if acl_grants(entries, links, user_id, region) {
        Ok(())
    } else {
        Err(not_in_acl())
    }
}

/// Lets `user_id` into `region` if a row of `acls` names the user, or a
/// group that `links` make the user a member of; refuses with a hint
/// otherwise. Rows of other regions are passed over.
pub fn check_acl(
    acls: &Vec<AccessControlListColumn>,
    links: &Vec<GroupLink>,
    user_id: i32,
    region: &String,
) -> (res: ServiceResult<()>)
    ensures
        outcome(res) == acl_outcome(acl_entries(acls@), links@, user_id as int, region@),
{
    let ghost entries = acl_entries(acls@);
    let mut i: usize = 0;
    while i < acls.len()
        invariant
            i <= acls.len(),
            entries == acl_entries(acls@),
            forall|k: int|
                0 <= k < i ==> !entry_grants(#[trigger] entries[k], links@, user_id as int, region@),
        decreases acls.len() - i,
    {
        let acl = &acls[i];
        assert(entries[i as int] == acl@);
        if acl.region == *region {
            if crate::text::is_word(&acl.self_type, "user") {
                if acl.id == user_id {
                    return Ok(());
                }
            } else {
                if is_in_group(links, acl.id, user_id) {
                    return Ok(());
                }
            }
        }
        i += 1;
    }
    Err(ServiceError::unauthorized_with_hint("Not in ACL."))
}

/// Whether exactly one row of `acls` makes `user_id` a manager of `region`.
pub fn is_manager(acls: &Vec<AccessControlListColumn>, user_id: i32, region: &String) -> (res: bool)
    ensures
        res == manages(acl_entries(acls@), user_id as int, region@),
{
    let ghost entries = acl_entries(acls@);
    let mut seen: usize = 0;
    let mut i: usize = 0;
    while i < acls.len()
        invariant
            i <= acls.len(),
            seen <= i,
            entries == acl_entries(acls@),
            seen == manager_count(entries.take(i as int), user_id as int, region@),
        decreases acls.len() - i,
    {
        let acl = &acls[i];
        assert(entries[i as int] == acl@);
        assert(entries.take(i + 1).drop_last() =~= entries.take(i as int));
        if acl.id == user_id && acl.is_manager && acl.region == *region {
            seen += 1;
        }
        i += 1;
    }
    assert(entries.take(i as int) =~= entries);
    seen == 1
}

/// What the store holds on one region, as far as the access rules read it.
#[derive(Debug)]
pub struct RegionRecord {
    /// The name of the region.
    pub region: String,
    /// The region is a plain problem set.
    pub is_problem_set: bool,
    /// The contest held in the region, if it is one.
    pub contest: Option<Contest>,
    /// The access control list.
    pub acls: Vec<AccessControlListColumn>,
    /// The memberships of the groups that the list names.
    pub group_links: Vec<GroupLink>,
}

/// A `RegionRecord` as the rules read it.
pub struct RegionRecordView {
    pub region: Seq<char>,
    pub is_problem_set: bool,
    pub contest: Option<ContestView>,
    pub entries: Seq<AclEntry>,
    pub links: Seq<GroupLink>,
}

impl View for RegionRecord {
    type V = RegionRecordView;

    open spec fn view(&self) -> RegionRecordView {
        RegionRecordView {
            region: self.region@,
            is_problem_set: self.is_problem_set,
            contest: match self.contest {
                Some(contest) => Some(contest@),
                None => None,
            },
            entries: acl_entries(self.acls@),
            links: self.group_links@,
        }
    }
}

impl RegionRecordView {
    /// What the access control list answers to `user_id`.
    pub open spec fn acl_outcome(self, user_id: int) -> Result<(), ErrorView> {
        acl_outcome(self.entries, self.links, user_id, self.region)
    }

    /// `user_id` is a manager of the region.
    pub open spec fn managed_by(self, user_id: int) -> bool {
        manages(self.entries, user_id, self.region)
    }
}

/// Why a contest that has not started hides its problem list.
pub open spec fn no_view_before_start() -> ErrorView {
    ErrorView::UnauthorizedWithHint("Contest do not allows viewing before start."@)
}

/// Why a contest that has ended hides its problem list.
pub open spec fn no_view_after_end() -> ErrorView {
    ErrorView::UnauthorizedWithHint("Contest do not allows viewing after end."@)
}

/// Why a contest keeps its problems closed before it starts and, unless it
/// takes late submissions, after it ends.
pub open spec fn no_visit() -> ErrorView {
    ErrorView::UnauthorizedWithHint("Contest do not allows visiting problems before start."@)
}

/// What a contest with a password adds to the rules of its state: the access
/// control list must let the user in. A contest without one adds nothing.
pub open spec fn password_gate(record: RegionRecordView, contest: ContestView, user_id: int) -> Result<
    (),
    ErrorView,
> {
    if contest.has_password() {
        record.acl_outcome(user_id)
    } else {
        Ok(())
    }
}

/// Whether `user` may see the problem list of the region at the moment `now`.
///
/// A problem set is open to all. A contest wants a logged-in user; its
/// managers always pass. Anyone else passes by the contest's state: before the
/// start only if the contest shows itself early, after the end only if it
/// stays visible, and then at once if it has become public. In every other
/// case a contest with a password asks the access control list.
pub open spec fn view_right(record: RegionRecordView, user: Option<i32>, now: Timestamp) -> Result<
    (),
    ErrorView,
> {
    if record.is_problem_set {
        Ok(())
    } else if user is None {
        Err(ErrorView::Unauthorized)
    } else if record.managed_by(user->Some_0 as int) {
        Ok(())
    } else if record.contest is None {
        Err(ErrorView::NotFound)
    } else {
        let contest = record.contest->Some_0;
        let state = contest.state_at(now);
        if state == ContestState::Preparing && !contest.settings.view_before_start {
            Err(no_view_before_start())
        } else if state == ContestState::Ended && !contest.settings.view_after_end {
            Err(no_view_after_end())
        } else if state == ContestState::Ended && contest.settings.public_after_end {
            Ok(())
        } else {
            password_gate(record, contest, user->Some_0 as int)
        }
    }
}

/// Whether `user` may read the problems of the region and submit to them at
/// the moment `now`.
///
/// A problem set is open to all. A contest wants a logged-in user; its
/// managers always pass. Anyone else is refused before the start, and after
/// the end unless the contest takes late submissions. In every other case a
/// contest with a password asks the access control list.
pub open spec fn solve_right(record: RegionRecordView, user: Option<i32>, now: Timestamp) -> Result<
    (),
    ErrorView,
> {
    if record.is_problem_set {
        Ok(())
    } else if user is None {
        Err(ErrorView::Unauthorized)
    } else if record.managed_by(user->Some_0 as int) {
        Ok(())
    } else if record.contest is None {
        Err(ErrorView::NotFound)
    } else {
        let contest = record.contest->Some_0;
        let state = contest.state_at(now);
        if state == ContestState::Preparing {
            Err(no_visit())
        } else if state == ContestState::Ended && !contest.settings.submit_after_end {
            Err(no_visit())
        } else {
            password_gate(record, contest, user->Some_0 as int)
        }
    }
}

/// Decides whether `logged_user` may see the problem list of the region that
/// `record` describes, at the moment `cur_time`.
pub fn check_view_right(record: &RegionRecord, logged_user: &LoggedUser, cur_time: Timestamp) -> (res:
    ServiceResult<()>)
    ensures
        outcome(res) == view_right(record@, logged_user.user_id(), cur_time),
{
    if record.is_problem_set {
        return Ok(());
    }
    let user_id = match &logged_user.0 {
        Some(user) => user.id,
        None => {
            return Err(ServiceError::Unauthorized);
        },
    };
    if is_manager(&record.acls, user_id, &record.region) {
        return Ok(());
    }
    let contest = match &record.contest {
        Some(contest) => contest,
        None => {
            return Err(ServiceError::NotFound);
        },
    };
    match get_contest_state(contest, cur_time) {
        ContestState::Preparing => {
            if !contest.settings.view_before_start {
                return Err(
                    ServiceError::unauthorized_with_hint(
                        "Contest do not allows viewing before start.",
                    ),
                );
            }
        },
        ContestState::Ended => {
            if !contest.settings.view_after_end {
                return Err(
                    ServiceError::unauthorized_with_hint("Contest do not allows viewing after end."),
                );
            } else if contest.settings.public_after_end {
                return Ok(());
            }
        },
        _ => (),
    }
    if contest.hash.is_some() {
        check_acl(&record.acls, &record.group_links, user_id, &record.region)
    } else {
        Ok(())
    }
}

/// Decides whether `logged_user` may read and solve the problems of the
/// region that `record` describes, at the moment `cur_time`.
pub fn check_solve_right(record: &RegionRecord, logged_user: &LoggedUser, cur_time: Timestamp) -> (res:
    ServiceResult<()>)
    ensures
        outcome(res) == solve_right(record@, logged_user.user_id(), cur_time),
{
    if record.is_problem_set {
        return Ok(());
    }
    let user_id = match &logged_user.0 {
        Some(user) => user.id,
        None => {
            return Err(ServiceError::Unauthorized);
        },
    };
    if is_manager(&record.acls, user_id, &record.region) {
        return Ok(());
    }
    let contest = match &record.contest {
        Some(contest) => contest,
        None => {
            return Err(ServiceError::NotFound);
        },
    };
    match get_contest_state(contest, cur_time) {
        ContestState::Preparing => {
            return Err(
                ServiceError::unauthorized_with_hint(
                    "Contest do not allows visiting problems before start.",
                ),
            );
        },
        ContestState::Ended => {
            if !contest.settings.submit_after_end {
                return Err(
                    ServiceError::unauthorized_with_hint(
                        "Contest do not allows visiting problems before start.",
                    ),
                );
            }
        },
        _ => (),
    }
    if contest.hash.is_some() {
        check_acl(&record.acls, &record.group_links, user_id, &record.region)
    } else {
        Ok(())
    }
}

/// The answer of the access control list does not depend on the order of its
/// rows: two lists that hold the same rows, each as often, answer alike.
pub proof fn lemma_acl_ignores_order(
    a: Seq<AclEntry>,
    b: Seq<AclEntry>,
    links: Seq<GroupLink>,
    user_id: int,
    region: Seq<char>,
)
    requires
        a.to_multiset() == b.to_multiset(),
    ensures
        acl_outcome(a, links, user_id, region) == acl_outcome(b, links, user_id, region),
{
    lemma_acl_grants_carries(a, b, links, user_id, region);
    lemma_acl_grants_carries(b, a, links, user_id, region);
}

/// A grant found in `a` is found in every list that holds the rows of `a`.
proof fn lemma_acl_grants_carries(
    a: Seq<AclEntry>,
    b: Seq<AclEntry>,
    links: Seq<GroupLink>,
    user_id: int,
    region: Seq<char>,
)
    requires
        a.to_multiset() == b.to_multiset(),
    ensures
        acl_grants(a, links, user_id, region) ==> acl_grants(b, links, user_id, region),
{
    if acl_grants(a, links, user_id, region) {
        let i = choose|i: int| 0 <= i < a.len() && entry_grants(#[trigger] a[i], links, user_id, region);
        a.to_multiset_ensures();
        b.to_multiset_ensures();
        assert(a.contains(a[i]));
        assert(a.to_multiset().count(a[i]) > 0);
        assert(b.to_multiset().count(a[i]) > 0);
        assert(b.contains(a[i]));
        let j = choose|j: int| 0 <= j < b.len() && b[j] == a[i];
        assert(entry_grants(b[j], links, user_id, region));
    }
}

/// The list lets a user in exactly when one of its rows is a grant to that
/// user in that region, or a grant to a group of which the user is a member.
pub proof fn lemma_acl_grants_iff_row(
    entries: Seq<AclEntry>,
    links: Seq<GroupLink>,
    user_id: int,
    region: Seq<char>,
)
    ensures
        acl_outcome(entries, links, user_id, region) is Ok <==> exists|i: int|
            0 <= i < entries.len() && (#[trigger] entries[i]).region == region && ((entries[i].principal_kind
                is User && entries[i].principal_id == user_id) || (entries[i].principal_kind is Group
                && in_group(links, entries[i].principal_id, user_id))),
        acl_outcome(entries, links, user_id, region) is Err ==> acl_outcome(
            entries,
            links,
            user_id,
            region,
        ) == Err::<(), ErrorView>(not_in_acl()),
{
    if acl_grants(entries, links, user_id, region) {
        let i = choose|i: int|
            0 <= i < entries.len() && entry_grants(#[trigger] entries[i], links, user_id, region);
        assert((entries[i]).region == region && ((entries[i].principal_kind is User
            && entries[i].principal_id == user_id) || (entries[i].principal_kind is Group && in_group(
            links,
            entries[i].principal_id,
            user_id,
        ))));
    }
    if exists|i: int|
        0 <= i < entries.len() && (#[trigger] entries[i]).region == region && ((entries[i].principal_kind
            is User && entries[i].principal_id == user_id) || (entries[i].principal_kind is Group
            && in_group(links, entries[i].principal_id, user_id))) {
        let i = choose|i: int|
            0 <= i < entries.len() && (#[trigger] entries[i]).region == region && ((
            entries[i].principal_kind is User && entries[i].principal_id == user_id) || (
            entries[i].principal_kind is Group && in_group(links, entries[i].principal_id, user_id)));
        assert(entry_grants(entries[i], links, user_id, region));
    }
}

} // verus!
