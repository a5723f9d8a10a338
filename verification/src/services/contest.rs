//! Contests: making them, entering them, and linking groups to them.

use crate::auth::region::{acl_grants, check_acl};
use crate::errors::{ErrorView, ServiceError, ServiceResult};
use crate::models::access_control_list::{
    acl_entries, AccessControlListColumn, AclEntry, PrincipalKind,
};
use crate::models::contests::{
    get_contest_state, Contest, ContestForm, ContestSettings, ContestState, ContestView, RawContest,
    RawContestView, SlimContest, SlimContestView,
};
use crate::models::group_links::GroupLink;
use crate::models::ranks::{RankCacheEntry, RankCacheEntryView};
use crate::models::regions::{Region, RegionForm};
use crate::models::submissions::{RawSubmission, RawSubmissionView};
use crate::services::rank::{recomputed, submission_views, update_acm_rank_cache, RankCache};
use crate::text::{is_word, opt_bytes, opt_chars, same_bytes};
use crate::time::Timestamp;
use vstd::prelude::*;

verus! {

/// Why a contest that has started takes no new participants.
pub open spec fn no_register_after_start() -> ErrorView {
    ErrorView::BadRequest("Contest not allows to register after start."@)
}

/// Why a contest that has ended takes no new participants.
pub open spec fn no_register_after_end() -> ErrorView {
    ErrorView::BadRequest("Contest not allows to register after end."@)
}

/// What is answered to a password that is missing or wrong. The answer does
/// not tell the two apart.
pub open spec fn wrong_password() -> ErrorView {
    ErrorView::BadRequest("Password is wrong."@)
}

/// Whether a user who registers at the moment `now` is entered as unrated,
/// or why the contest does not take the user at all.
///
/// While the contest is under way it takes new participants only if its
/// settings allow registering after the start; such a late entry is unrated
/// exactly if the setting `unrate_after_start` is on. Once the contest has
/// ended it takes new participants only if it has become public. Whoever
/// registers before the start, or after the end, is entered as unrated.
pub open spec fn registration_rating(contest: ContestView, now: Timestamp) -> Result<
    Option<bool>,
    ErrorView,
> {
    let state = contest.state_at(now);
    if state.is_underway() && !contest.settings.register_after_start {
        Err(no_register_after_start())
    } else if state == ContestState::Ended && !contest.settings.public_after_end {
        Err(no_register_after_end())
    } else if state.is_underway() {
        Ok(Some(contest.settings.unrate_after_start))
    } else {
        Ok(Some(true))
    }
}

/// Whether `password_hash`, the hash of the password that was given, opens
/// the contest. A contest without a password is open to everyone; one with a
/// password wants the hash to equal its own, byte for byte.
pub open spec fn password_accepted(contest: ContestView, password_hash: Option<Seq<u8>>) -> bool {
    contest.hash matches Some(stored) ==> password_hash == Some(stored)
}

/// The row that registering `user_id` for `region` adds to the access
/// control list, or why the user is not registered.
pub open spec fn registration(
    contest: ContestView,
    now: Timestamp,
    password_hash: Option<Seq<u8>>,
    region: Seq<char>,
    user_id: i32,
) -> Result<AclEntry, ErrorView> {
    match registration_rating(contest, now) {
        Err(e) => Err(e),
        Ok(is_unrated) => if password_accepted(contest, password_hash) {
            Ok(
                AclEntry {
                    principal_kind: PrincipalKind::User,
                    principal_id: user_id as int,
                    region,
                    is_manager: false,
                    is_unrated,
                },
            )
        } else {
            Err(wrong_password())
        },
    }
}

/// Decides whether the contest takes a new participant at the moment
/// `cur_time`, whatever the password, and whether the entry is unrated.
pub fn rate_registration(contest: &Contest, cur_time: Timestamp) -> (res: ServiceResult<Option<bool>>)
    ensures
        match registration_rating(contest@, cur_time) {
            Ok(is_unrated) => res matches Ok(r) && r == is_unrated,
            Err(error) => res matches Err(e) && e@ == error,
        },
{
    let mut is_unrated = Some(true);
    let state = get_contest_state(contest, cur_time);
    if matches!(state, ContestState::Running | ContestState::SealedRunning) {
        if !contest.settings.register_after_start {
            return Err(ServiceError::bad_request("Contest not allows to register after start."));
        }
        is_unrated = Some(contest.settings.unrate_after_start);
    }
    if matches!(state, ContestState::Ended) && !contest.settings.public_after_end {
        return Err(ServiceError::bad_request("Contest not allows to register after end."));
    }
    Ok(is_unrated)
}

/// Registers the user `user_id` for the contest held in `region`, at the
/// moment `cur_time`. `password_hash` is the hash, made with the contest's
/// salt, of the password that the user gave, if the user gave one. Hands back
/// the row to add to the access control list. Whether the user is registered
/// already is for the store to say when it takes the row.
pub fn register(
    contest: &Contest,
    cur_time: Timestamp,
    password_hash: Option<&Vec<u8>>,
    region: String,
    user_id: i32,
) -> (res: ServiceResult<AccessControlListColumn>)
    ensures
        match registration(
            contest@,
            cur_time,
            match password_hash {
                Some(h) => Some(h@),
                None => None,
            },
            region@,
            user_id,
        ) {
            Ok(entry) => res matches Ok(row) && row@ == entry && row.self_type@ == "user"@,
            Err(error) => res matches Err(e) && e@ == error,
        },
{
    let is_unrated = match rate_registration(contest, cur_time) {
        Ok(r) => r,
        Err(e) => {
            return Err(e);
        },
    };
    if let Some(stored) = &contest.hash {
        match password_hash {
            Some(given) => {
                if !same_bytes(given, stored) {
                    return Err(ServiceError::bad_request("Password is wrong."));
                }
            },
            None => {
                return Err(ServiceError::bad_request("Password is wrong."));
            },
        }
    }
    Ok(AccessControlListColumn::for_user(region, user_id, is_unrated, false))
}

/// The salt and the hash made from a password.
#[derive(Debug)]
pub struct PasswordHash {
    pub salt: String,
    pub hash: Vec<u8>,
}

/// The salt of an optional password hash.
pub open spec fn salt_of(password: Option<PasswordHash>) -> Option<Seq<char>> {
    match password {
        Some(p) => Some(p.salt@),
        None => None,
    }
}

/// The hash of an optional password hash.
pub open spec fn hash_of(password: Option<PasswordHash>) -> Option<Seq<u8>> {
    match password {
        Some(p) => Some(p.hash@),
        None => None,
    }
}

/// The rows that make a contest: its region, the contest itself, and the
/// grant that makes its creator a manager.
#[derive(Debug)]
pub struct NewContest {
    pub region: Region,
    pub contest: RawContest,
    pub manager: AccessControlListColumn,
}

/// Lays out the rows of a new contest. `settings` is the text of the
/// contest's settings; `password` is the salt and hash of its password, if it
/// is to have one. The contest row carries salt and hash together or neither.
/// The creator `user_id` becomes a manager of the region, entered as unrated.
pub fn create(
    region: String,
    title: String,
    introduction: Option<String>,
    self_type: String,
    start_time: Timestamp,
    end_time: Option<Timestamp>,
    seal_time: Option<Timestamp>,
    settings: String,
    password: Option<PasswordHash>,
    can_view_testcases: bool,
    user_id: i32,
) -> (rows: NewContest)
    ensures
        rows.region.name@ == region@,
        rows.region.can_view_testcases == can_view_testcases,
        rows.contest@ == (RawContestView {
            region: region@,
            title: title@,
            introduction: opt_chars(introduction),
            start_time,
            end_time,
            seal_time,
            settings: settings@,
            self_type: self_type@,
            salt: salt_of(password),
            hash: hash_of(password),
        }),
        rows.contest@.password_well_formed(),
        rows.manager.self_type@ == "user"@,
        rows.manager@ == (AclEntry {
            principal_kind: PrincipalKind::User,
            principal_id: user_id as int,
            region: region@,
            is_manager: true,
            is_unrated: Some(true),
        }),
{
    let (salt, hash) = match password {
        Some(p) => (Some(p.salt), Some(p.hash)),
        None => (None, None),
    };
    let region_row = Region { name: region.clone(), can_view_testcases };
    let contest = RawContest {
        region: region.clone(),
        title,
        introduction,
        start_time,
        end_time,
        seal_time,
        settings,
        self_type,
        salt,
        hash,
    };
    let manager = AccessControlListColumn::for_user(region, user_id, Some(true), true);
    NewContest { region: region_row, contest, manager }
}

/// The changes that an update makes to a contest and to its region.
#[derive(Debug)]
pub struct ContestUpdate {
    pub region: RegionForm,
    pub contest: ContestForm,
}

/// Lays out the changes of an update; `None` leaves a column as it is.
/// `new_settings` is the text of the new settings; `new_password` is the salt
/// and hash of the new password. Salt and hash change together or not at all.
pub fn update(
    new_title: Option<String>,
    new_introduction: Option<String>,
    new_start_time: Option<Timestamp>,
    new_end_time: Option<Timestamp>,
    new_seal_time: Option<Timestamp>,
    new_settings: Option<String>,
    new_self_type: Option<String>,
    new_password: Option<PasswordHash>,
    new_can_view_testcases: Option<bool>,
) -> (changes: ContestUpdate)
    ensures
        changes.region.can_view_testcases == new_can_view_testcases,
        opt_chars(changes.contest.title) == opt_chars(new_title),
        opt_chars(changes.contest.introduction) == opt_chars(new_introduction),
        changes.contest.start_time == new_start_time,
        changes.contest.end_time == new_end_time,
        changes.contest.seal_time == new_seal_time,
        opt_chars(changes.contest.settings) == opt_chars(new_settings),
        opt_chars(changes.contest.self_type) == opt_chars(new_self_type),
        opt_chars(changes.contest.salt) == salt_of(new_password),
        opt_bytes(changes.contest.hash) == hash_of(new_password),
        changes.contest.salt is Some <==> changes.contest.hash is Some,
{
    let (salt, hash) = match new_password {
        Some(p) => (Some(p.salt), Some(p.hash)),
        None => (None, None),
    };
    ContestUpdate {
        region: RegionForm { can_view_testcases: new_can_view_testcases },
        contest: ContestForm {
            title: new_title,
            introduction: new_introduction,
            start_time: new_start_time,
            end_time: new_end_time,
            seal_time: new_seal_time,
            settings: new_settings,
            self_type: new_self_type,
            salt,
            hash,
        },
    }
}

/// The entry of `contest` in a list of contests shown to `user_id`: marked as
/// registered exactly if there is a user and the access control list lets
/// that user into the contest's region.
pub fn get_contest_list_entry(
    contest: Contest,
    acls: &Vec<AccessControlListColumn>,
    links: &Vec<GroupLink>,
    user_id: Option<i32>,
) -> (entry: SlimContest)
    ensures
        entry@ == (SlimContestView {
            is_registered: user_id is Some && acl_grants(
                acl_entries(acls@),
                links@,
                user_id->Some_0 as int,
                contest.region@,
            ),
            ..contest@.slim()
        }),
{
    let mut entry = SlimContest::from(contest);
    if let Some(id) = user_id {
        if check_acl(acls, links, id, &entry.region).is_ok() {
            entry.is_registered = true;
        }
    }
    entry
}

/// Why groups cannot be linked to a contest that is not held among groups.
pub open spec fn not_a_group_contest() -> ErrorView {
    ErrorView::BadRequest("比赛类型不为小组赛."@)
}

/// Whether groups can be linked to a contest of the kind `contest_type`:
/// only to one held among groups.
pub fn check_group_contest(contest_type: &String) -> (res: ServiceResult<()>)
    ensures
        res is Ok <==> contest_type@ == "group_contest"@,
        res matches Err(e) ==> e@ == not_a_group_contest(),
{
    if !is_word(contest_type, "group_contest") {
        return Err(ServiceError::bad_request("比赛类型不为小组赛."));
    }
    Ok(())
}

/// The rows that link the groups `group_ids` to the contest held in `region`,
/// one for each group in the order given: rated grants without management.
/// Refused if the contest, of the kind `contest_type`, is not held among
/// groups.
pub fn insert_groups(contest_type: &String, region: &String, group_ids: &Vec<i32>) -> (res: ServiceResult<
    Vec<AccessControlListColumn>,
>)
    ensures
        res is Ok <==> contest_type@ == "group_contest"@,
        res matches Err(e) ==> e@ == not_a_group_contest(),
        res matches Ok(rows) ==> rows.len() == group_ids.len() && forall|i: int|
            0 <= i < rows.len() ==> (#[trigger] rows[i]).self_type@ == "group"@ && rows[i]@ == (AclEntry {
                principal_kind: PrincipalKind::Group,
                principal_id: group_ids[i] as int,
                region: region@,
                is_manager: false,
                is_unrated: Some(false),
            }),
{
    match check_group_contest(contest_type) {
        Err(e) => {
            return Err(e);
        },
        Ok(_) => {},
    }
    let mut rows: Vec<AccessControlListColumn> = Vec::new();
    let mut i: usize = 0;
    while i < group_ids.len()
        invariant
            i <= group_ids.len(),
            rows.len() == i,
            forall|k: int|
                0 <= k < i ==> (#[trigger] rows[k]).self_type@ == "group"@ && rows[k]@ == (AclEntry {
                    principal_kind: PrincipalKind::Group,
                    principal_id: group_ids[k] as int,
                    region: region@,
                    is_manager: false,
                    is_unrated: Some(false),
                }),
        decreases group_ids.len() - i,
    {
        rows.push(AccessControlListColumn::for_group(region.clone(), group_ids[i]));
        i += 1;
    }
    Ok(rows)
}

/// The cache holds an entry for `region` that can be handed out at the
/// moment `now` as it is.
pub open spec fn serves_cached(
    cache: Map<Seq<char>, RankCacheEntryView>,
    region: Seq<char>,
    now: Timestamp,
) -> bool {
    cache.contains_key(region) && cache[region].is_fresh(now)
}

/// The rank of `region` that is handed out at the moment `now`, and the cache
/// as it is afterwards.
///
/// An entry that the cache holds is handed out as it is while it is final or
/// younger than the time to live, and the cache stays as it is. Otherwise the
/// rank is worked out from the submissions `rows`; the new entry, which is
/// final once the contest has ended, takes the place of the old one.
pub open spec fn rank_answer(
    cache: Map<Seq<char>, RankCacheEntryView>,
    contest: ContestView,
    region: Seq<char>,
    rows: Seq<RawSubmissionView>,
    now: Timestamp,
) -> (RankCacheEntryView, Map<Seq<char>, RankCacheEntryView>) {
    if serves_cached(cache, region, now) {
        (cache[region], cache)
    } else {
        let entry = recomputed(region, rows, contest.state_at(now) == ContestState::Ended, now);
        (entry, cache.insert(region, entry))
    }
}

/// The entry of `region` that can be handed out at the moment `cur_time`
/// without looking at any submission, if the cache holds one.
pub fn cached_rank(cache: &RankCache, region: &String, cur_time: Timestamp) -> (entry: Option<RankCacheEntry>)
    ensures
        entry is Some <==> serves_cached(cache@, region@, cur_time),
        entry matches Some(e) ==> e@ == cache@[region@],
{
    match cache.get(region) {
        Some(cached) => {
            if cached.fresh_at(cur_time) {
                Some(cached.clone())
            } else {
                None
            }
        },
        None => None,
    }
}

/// Hands out the rank of the contest held in `region` at the moment
/// `cur_time`: the entry of the cache if it can still be handed out, a rank
/// worked out anew from `submissions` otherwise, which then takes the place
/// of the cached entry.
pub fn get_acm_rank(
    cache: &mut RankCache,
    contest: &Contest,
    region: String,
    submissions: &Vec<RawSubmission>,
    cur_time: Timestamp,
) -> (entry: RankCacheEntry)
    ensures
        (entry@, final(cache)@) == rank_answer(
            old(cache)@,
            contest@,
            region@,
            submission_views(submissions@),
            cur_time,
        ),
{
    match cached_rank(cache, &region, cur_time) {
        Some(entry) => entry,
        None => {
            let is_final = matches!(get_contest_state(contest, cur_time), ContestState::Ended);
            update_acm_rank_cache(cache, region, submissions, is_final, cur_time)
        },
    }
}

/// Two requests for a rank, the second made while the entry that the first
/// was given can still be handed out, are given the same entry, worked out at
/// the same moment; the second leaves the cache as it is. This holds whatever
/// submissions have come in between. In particular a rank that was worked
/// out for the first request is given again to every request made less than
/// the time to live later.
pub proof fn lemma_rank_within_ttl(
    cache: Map<Seq<char>, RankCacheEntryView>,
    contest: ContestView,
    region: Seq<char>,
    first_rows: Seq<RawSubmissionView>,
    second_rows: Seq<RawSubmissionView>,
    first: Timestamp,
    second: Timestamp,
)
    ensures
        ({
            let (first_entry, first_cache) = rank_answer(cache, contest, region, first_rows, first);
            let (second_entry, second_cache) = rank_answer(
                first_cache,
                contest,
                region,
                second_rows,
                second,
            );
            &&& first_entry.is_fresh(second) ==> second_entry == first_entry && second_cache
                == first_cache
            &&& !serves_cached(cache, region, first) && second.nanos_since(first)
                < crate::services::rank::RANK_TTL_SECS * crate::time::NANOS_PER_SEC as int
                ==> first_entry.is_fresh(second) && second_entry.last_updated_time == first
        }),
{
}

/// Two requests that both find the cache stale, as may happen when they race
/// across the end of the time to live, work out the same standings, row for
/// row, from the same submissions; and whichever writes last, the cache ends
/// up with the entry of the last writer alone.
pub proof fn lemma_recompute_idempotent(
    cache: Map<Seq<char>, RankCacheEntryView>,
    contest: ContestView,
    region: Seq<char>,
    rows: Seq<RawSubmissionView>,
    first: Timestamp,
    second: Timestamp,
)
    requires
        !serves_cached(cache, region, first),
        !serves_cached(cache, region, second),
    ensures
        ({
            let (first_entry, first_cache) = rank_answer(cache, contest, region, rows, first);
            let (second_entry, second_cache) = rank_answer(cache, contest, region, rows, second);
            &&& first_entry.rows == second_entry.rows
            &&& first_cache.insert(region, second_entry) == second_cache
        }),
{
    let (first_entry, first_cache) = rank_answer(cache, contest, region, rows, first);
    let (second_entry, second_cache) = rank_answer(cache, contest, region, rows, second);
    assert(first_cache.insert(region, second_entry) =~= second_cache);
}

/// Once the rank of a contest that has ended has been worked out, it stays:
/// a final entry is handed out at every later request, as it is.
pub proof fn lemma_final_rank_is_frozen(
    cache: Map<Seq<char>, RankCacheEntryView>,
    contest: ContestView,
    region: Seq<char>,
    rows: Seq<RawSubmissionView>,
    now: Timestamp,
)
    requires
        cache.contains_key(region),
        cache[region].is_final,
    ensures
        rank_answer(cache, contest, region, rows, now) == (cache[region], cache),
{
}

} // verus!
