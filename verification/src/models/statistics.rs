//! What the submissions to one problem of a region add up to.

use vstd::prelude::*;

verus! {

/// What the statistics read of one submission: who made it and how it was
/// judged, if it has been judged.
#[derive(Debug, Clone, Copy, PartialEq, Eq, Structural)]
pub struct Verdict {
    pub user_id: i32,
    pub is_accepted: Option<bool>,
}

/// The statistics of one problem: how often it was submitted to, how often
/// a submission was accepted, how often one was rejected, and who has
/// solved it.
#[derive(Debug)]
pub struct ResultStatistics {
    pub submit_times: i32,
    pub accept_times: i32,
    pub error_times: i32,
    /// The users with an accepted submission, each once, in the order in
    /// which they first solved the problem.
    pub accepted_user_list: Vec<i32>,
}

/// How many of `verdicts` were judged as `outcome` says: accepted for
/// `true`, rejected for `false`.
pub open spec fn judged_count(verdicts: Seq<Verdict>, outcome: bool) -> nat
    decreases verdicts.len(),
{
    if verdicts.len() == 0 {
        0
    } else {
        let rest = judged_count(verdicts.drop_last(), outcome);
        if verdicts.last().is_accepted == Some(outcome) {
            rest + 1
        } else {
            rest
        }
    }
}

/// The users with an accepted submission among `verdicts`, each once, in the
/// order in which they first occur with one.
pub open spec fn accepted_users(verdicts: Seq<Verdict>) -> Seq<i32>
    decreases verdicts.len(),
{
    if verdicts.len() == 0 {
        Seq::empty()
    } else {
        let rest = accepted_users(verdicts.drop_last());
        let last = verdicts.last();
        if last.is_accepted == Some(true) && !rest.contains(last.user_id) {
            rest.push(last.user_id)
        } else {
            rest
        }
    }
}

/// `accepted_users` names exactly the users with an accepted submission, and
/// none of them twice.
pub proof fn lemma_accepted_users(verdicts: Seq<Verdict>)
    ensures
        accepted_users(verdicts).no_duplicates(),
        forall|user: i32|
            accepted_users(verdicts).contains(user) <==> exists|i: int|
                0 <= i < verdicts.len() && (#[trigger] verdicts[i]).user_id == user
                    && verdicts[i].is_accepted == Some(true),
    decreases verdicts.len(),
{
    if verdicts.len() > 0 {
        let front = verdicts.drop_last();
        let last = verdicts.last();
        let rest = accepted_users(front);
        let all = accepted_users(verdicts);
        lemma_accepted_users(front);
        let added = last.is_accepted == Some(true) && !rest.contains(last.user_id);
        assert forall|user: i32|
            all.contains(user) <==> exists|i: int|
                0 <= i < verdicts.len() && (#[trigger] verdicts[i]).user_id == user
                    && verdicts[i].is_accepted == Some(true) by {
            if all.contains(user) {
                let j = choose|j: int| 0 <= j < all.len() && all[j] == user;
                if added && j == rest.len() {
                    assert(verdicts[verdicts.len() - 1].user_id == user);
                } else {
                    assert(rest[j] == user);
                    assert(rest.contains(user));
                    let i = choose|i: int|
                        0 <= i < front.len() && (#[trigger] front[i]).user_id == user
                            && front[i].is_accepted == Some(true);
                    assert(verdicts[i].user_id == user);
                }
            }
            if exists|i: int|
                0 <= i < verdicts.len() && (#[trigger] verdicts[i]).user_id == user
                    && verdicts[i].is_accepted == Some(true) {
                let i = choose|i: int|
                    0 <= i < verdicts.len() && (#[trigger] verdicts[i]).user_id == user
                        && verdicts[i].is_accepted == Some(true);
                if i < front.len() {
                    assert(front[i].user_id == user);
                    assert(rest.contains(user));
                    let j = choose|j: int| 0 <= j < rest.len() && rest[j] == user;
                    assert(all[j] == user);
                } else {
                    if added {
                        assert(all[rest.len() as int] == user);
                    } else {
                        assert(rest.contains(user));
                    }
                }
            }
        }
        if added {
            assert forall|a: int, b: int| 0 <= a < all.len() && 0 <= b < all.len() && a != b implies all[a]
                != all[b] by {
                if a < rest.len() && b < rest.len() {
                    assert(rest[a] != rest[b]);
                } else if a < rest.len() {
                    assert(rest.contains(rest[a]));
                } else {
                    assert(rest.contains(rest[b]));
                }
            }
        }
    }
}

/// Whether `user` is among `users`.
fn has_user(users: &Vec<i32>, user: i32) -> (found: bool)
    ensures
        found == users@.contains(user),
{
    let mut i: usize = 0;
    while i < users.len()
        invariant
            i <= users.len(),
            forall|k: int| 0 <= k < i ==> users@[k] != user,
        decreases users.len() - i,
    {
        if users[i] == user {
            assert(users@[i as int] == user);
            return true;
        }
        i += 1;
    }
    false
}

/// Adds the submissions to one problem of a region up. `verdicts` are the
/// submissions in the order in which the store hands them out.
pub fn get_results(verdicts: &Vec<Verdict>) -> (statistics: ResultStatistics)
    requires
        verdicts.len() <= i32::MAX,
    ensures
        statistics.submit_times == verdicts.len(),
        statistics.accept_times == judged_count(verdicts@, true),
        statistics.error_times == judged_count(verdicts@, false),
        statistics.accepted_user_list@ == accepted_users(verdicts@),
{
    let mut submit_times: i32 = 0;
    let mut accept_times: i32 = 0;
    let mut error_times: i32 = 0;
    let mut accepted_user_list: Vec<i32> = Vec::new();
    let mut i: usize = 0;
    assert(accepted_user_list@ =~= accepted_users(verdicts@.take(0)));
    while i < verdicts.len()
        invariant
            i <= verdicts.len() <= i32::MAX,
            submit_times == i,
            0 <= accept_times <= i,
            0 <= error_times <= i,
            accept_times == judged_count(verdicts@.take(i as int), true),
            error_times == judged_count(verdicts@.take(i as int), false),
            accepted_user_list@ == accepted_users(verdicts@.take(i as int)),
        decreases verdicts.len() - i,
    {
        let verdict = verdicts[i];
        assert(verdicts@.take(i + 1).drop_last() =~= verdicts@.take(i as int));
        assert(verdicts@.take(i + 1).last() == verdict);
        submit_times += 1;
        match verdict.is_accepted {
            Some(true) => {
                accept_times += 1;
                if !has_user(&accepted_user_list, verdict.user_id) {
                    accepted_user_list.push(verdict.user_id);
                }
            },
            Some(false) => {
                error_times += 1;
            },
            None => {},
        }
        i += 1;
    }
    assert(verdicts@.take(i as int) =~= verdicts@);
    ResultStatistics { submit_times, accept_times, error_times, accepted_user_list }
}

} // verus!
