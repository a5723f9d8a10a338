//! Working out the standings of a region from its submissions.

use crate::models::ranks::{RankCacheEntry, RankCacheEntryView, UserStanding};
use crate::models::submissions::{RawSubmission, RawSubmissionView};
use crate::text::same_text;
use crate::time::Timestamp;
use vstd::prelude::*;

verus! {

/// The rows of a list of submissions, each with its texts as sequences of
/// characters.
pub open spec fn submission_views(rows: Seq<RawSubmission>) -> Seq<RawSubmissionView> {
    rows.map_values(|row: RawSubmission| row@)
}

/// `row` is a submission that `user` made in `region`.
pub open spec fn is_attempt(row: RawSubmissionView, region: Seq<char>, user: i32) -> bool {
    row.region == Some(region) && row.user_id == user
}

/// `row` is an accepted submission of `user` to `problem` in `region`.
pub open spec fn is_solve(row: RawSubmissionView, region: Seq<char>, user: i32, problem: i32) -> bool {
    is_attempt(row, region, user) && row.problem_id == problem && row.is_accepted == Some(true)
}

/// Among `rows`, `user` has an accepted submission to `problem` in `region`.
pub open spec fn solved(rows: Seq<RawSubmissionView>, region: Seq<char>, user: i32, problem: i32) -> bool {
    exists|i: int| 0 <= i < rows.len() && is_solve(#[trigger] rows[i], region, user, problem)
}

/// How many of `rows` are submissions that `user` made in `region`.
pub open spec fn submission_count(rows: Seq<RawSubmissionView>, region: Seq<char>, user: i32) -> nat
    decreases rows.len(),
{
    if rows.len() == 0 {
        0
    } else {
        let rest = submission_count(rows.drop_last(), region, user);
        if is_attempt(rows.last(), region, user) {
            rest + 1
        } else {
            rest
        }
    }
}

/// How many problems `user` has solved in `region`, going by `rows`: each
/// problem counts once, however often it was solved.
pub open spec fn solved_count(rows: Seq<RawSubmissionView>, region: Seq<char>, user: i32) -> nat
    decreases rows.len(),
{
    if rows.len() == 0 {
        0
    } else {
        let rest = solved_count(rows.drop_last(), region, user);
        let last = rows.last();
        if is_solve(last, region, user, last.problem_id) && !solved(
            rows.drop_last(),
            region,
            user,
            last.problem_id,
        ) {
            rest + 1
        } else {
            rest
        }
    }
}

/// `standing` is what `rows` say of its user in `region`, and the user has
/// made a submission there.
pub open spec fn standing_matches(
    standing: UserStanding,
    rows: Seq<RawSubmissionView>,
    region: Seq<char>,
) -> bool {
    &&& standing.submissions == submission_count(rows, region, standing.user_id)
    &&& standing.accepted == solved_count(rows, region, standing.user_id)
    &&& standing.submissions > 0
}

/// No two of `standings` are of one user.
pub open spec fn distinct_users(standings: Seq<UserStanding>) -> bool {
    forall|i: int, j: int|
        0 <= i < standings.len() && 0 <= j < standings.len() && i != j ==> (#[trigger] standings[i]).user_id
            != (#[trigger] standings[j]).user_id
}

/// Each of `standings` stands above all that follow it.
pub open spec fn ranked(standings: Seq<UserStanding>) -> bool {
    forall|i: int, j: int|
        0 <= i < j < standings.len() ==> (#[trigger] standings[i]).outranks(#[trigger] standings[j])
}

/// Everyone who has made a submission in `region` has a standing.
pub open spec fn covers(standings: Seq<UserStanding>, rows: Seq<RawSubmissionView>, region: Seq<char>) -> bool {
    forall|user: i32| #[trigger]
        submission_count(rows, region, user) > 0 ==> exists|k: int|
            0 <= k < standings.len() && (#[trigger] standings[k]).user_id == user
}

/// Every one of `standings` is what `rows` say of its user.
pub open spec fn all_match(standings: Seq<UserStanding>, rows: Seq<RawSubmissionView>, region: Seq<char>) -> bool {
    forall|k: int| 0 <= k < standings.len() ==> standing_matches(#[trigger] standings[k], rows, region)
}

/// `standings` is the rank of `region` that `rows` give: one standing for
/// each user who has made a submission there and for nobody else, each with
/// the numbers that `rows` give, the best first.
pub open spec fn is_standings(
    standings: Seq<UserStanding>,
    rows: Seq<RawSubmissionView>,
    region: Seq<char>,
) -> bool {
    &&& all_match(standings, rows, region)
    &&& distinct_users(standings)
    &&& covers(standings, rows, region)
    &&& ranked(standings)
}

/// The rank of `region` that `rows` give.
pub open spec fn standings_of(rows: Seq<RawSubmissionView>, region: Seq<char>) -> Seq<UserStanding> {
    choose|standings: Seq<UserStanding>| is_standings(standings, rows, region)
}

/// Whether `row` belongs to `region`.
fn in_region(row: &RawSubmission, region: &String) -> (b: bool)
    ensures
        b == (row@.region == Some(region@)),
{
    match &row.region {
        Some(r) => same_text(r, region),
        None => false,
    }
}

/// Whether the first `upto` of `rows` hold an accepted submission of `user`
/// to `problem` in `region`.
fn solved_before(rows: &Vec<RawSubmission>, upto: usize, region: &String, user: i32, problem: i32) -> (b:
    bool)
    requires
        upto <= rows.len(),
    ensures
        b == solved(submission_views(rows@).take(upto as int), region@, user, problem),
{
    let ghost views = submission_views(rows@).take(upto as int);
    let mut i: usize = 0;
    while i < upto
        invariant
            i <= upto <= rows.len(),
            views == submission_views(rows@).take(upto as int),
            forall|k: int| 0 <= k < i ==> !is_solve(#[trigger] views[k], region@, user, problem),
        decreases upto - i,
    {
        let row = &rows[i];
        assert(views[i as int] == row@);
        if row.user_id == user && row.problem_id == problem && matches!(row.is_accepted, Some(true))
            && in_region(row, region) {
            return true;
        }
        i += 1;
    }
    false
}

/// Where in `standings` the standing of `user` is, if there is one.
fn position_of(standings: &Vec<UserStanding>, user: i32) -> (at: Option<usize>)
    ensures
        at matches Some(k) ==> k < standings.len() && standings[k as int].user_id == user,
        at is None ==> forall|k: int| 0 <= k < standings.len() ==> (#[trigger] standings[k]).user_id != user,
{
    let mut k: usize = 0;
    while k < standings.len()
        invariant
            k <= standings.len(),
            forall|j: int| 0 <= j < k ==> (#[trigger] standings[j]).user_id != user,
        decreases standings.len() - k,
    {
        if standings[k].user_id == user {
            return Some(k);
        }
        k += 1;
    }
    None
}

/// One standing for each user who has made a submission in `region`, with
/// the numbers that `rows` give, in the order in which the users first occur.
fn tally(rows: &Vec<RawSubmission>, region: &String) -> (standings: Vec<UserStanding>)
    ensures
        all_match(standings@, submission_views(rows@), region@),
        distinct_users(standings@),
        covers(standings@, submission_views(rows@), region@),
{
    let ghost views = submission_views(rows@);
    let mut standings: Vec<UserStanding> = Vec::new();
    let mut i: usize = 0;
    while i < rows.len()
        invariant
            i <= rows.len(),
            views == submission_views(rows@),
            all_match(standings@, views.take(i as int), region@),
            distinct_users(standings@),
            covers(standings@, views.take(i as int), region@),
            forall|k: int| 0 <= k < standings.len() ==> (#[trigger] standings[k]).submissions <= i,
            forall|k: int| 0 <= k < standings.len() ==> (#[trigger] standings[k]).accepted <= i,
        decreases rows.len() - i,
    {
        let row = &rows[i];
        let ghost before = views.take(i as int);
        let ghost after = views.take(i + 1);
        let ghost old_standings = standings@;
        assert(views[i as int] == row@);
        assert(after.drop_last() =~= before);
        assert(after.last() == row@);
        if in_region(row, region) {
            let user = row.user_id;
            let newly_solved = matches!(row.is_accepted, Some(true)) && !solved_before(
                rows,
                i,
                region,
                user,
                row.problem_id,
            );
            let gained: u64 = if newly_solved {
                1
            } else {
                0
            };
            assert(solved_count(after, region@, user) == solved_count(before, region@, user) + gained);
            assert(submission_count(after, region@, user) == submission_count(before, region@, user)
                + 1);
            match position_of(&standings, user) {
                Some(k) => {
                    let old = standings[k];
                    standings.set(
                        k,
                        UserStanding {
                            user_id: user,
                            accepted: old.accepted + gained,
                            submissions: old.submissions + 1,
                        },
                    );
                    assert forall|j: int| 0 <= j < standings.len() implies standing_matches(
                        #[trigger] standings[j],
                        after,
                        region@,
                    ) by {
                        if j != k {
                            assert(old_standings[j].user_id != old_standings[k as int].user_id);
                            assert(standing_matches(old_standings[j], before, region@));
                        } else {
                            assert(standing_matches(old_standings[k as int], before, region@));
                        }
                    }
                    assert forall|a: int, b: int|
                        0 <= a < standings.len() && 0 <= b < standings.len() && a != b implies (
                    #[trigger] standings[a]).user_id != (#[trigger] standings[b]).user_id by {
                        assert(old_standings[a].user_id != old_standings[b].user_id);
                    }
                    assert forall|v: i32| #[trigger]
                        submission_count(after, region@, v) > 0 implies exists|m: int|
                        0 <= m < standings.len() && (#[trigger] standings[m]).user_id == v by {
                        if v == user {
                            assert(standings[k as int].user_id == v);
                        } else {
                            assert(submission_count(before, region@, v) > 0);
                            let m = choose|m: int|
                                0 <= m < old_standings.len() && (#[trigger] old_standings[m]).user_id
                                    == v;
                            assert(standings[m].user_id == v);
                        }
                    }
                },
                None => {
                    assert(submission_count(before, region@, user) == 0) by {
                        if submission_count(before, region@, user) > 0 {
                            let m = choose|m: int|
                                0 <= m < old_standings.len() && (#[trigger] old_standings[m]).user_id
                                    == user;
                            assert(false);
                        }
                    }
                    proof {
                        lemma_nothing_solved_without_submissions(before, region@, user);
                    }
                    standings.push(UserStanding { user_id: user, accepted: gained, submissions: 1 });
                    assert forall|j: int| 0 <= j < standings.len() implies standing_matches(
                        #[trigger] standings[j],
                        after,
                        region@,
                    ) by {
                        if j < old_standings.len() {
                            assert(standing_matches(old_standings[j], before, region@));
                        }
                    }
                    assert forall|a: int, b: int|
                        0 <= a < standings.len() && 0 <= b < standings.len() && a != b implies (
                    #[trigger] standings[a]).user_id != (#[trigger] standings[b]).user_id by {
                        if a < old_standings.len() && b < old_standings.len() {
                            assert(old_standings[a].user_id != old_standings[b].user_id);
                        }
                    }
                    assert forall|v: i32| #[trigger]
                        submission_count(after, region@, v) > 0 implies exists|m: int|
                        0 <= m < standings.len() && (#[trigger] standings[m]).user_id == v by {
                        if v == user {
                            assert(standings[old_standings.len() as int].user_id == v);
                        } else {
                            assert(submission_count(before, region@, v) > 0);
                            let m = choose|m: int|
                                0 <= m < old_standings.len() && (#[trigger] old_standings[m]).user_id
                                    == v;
                            assert(standings[m].user_id == v);
                        }
                    }
                },
            }
        } else {
            assert forall|j: int| 0 <= j < standings.len() implies standing_matches(
                #[trigger] standings[j],
                after,
                region@,
            ) by {
                assert(standing_matches(old_standings[j], before, region@));
            }
            assert forall|v: i32| #[trigger]
                submission_count(after, region@, v) > 0 implies exists|m: int|
                0 <= m < standings.len() && (#[trigger] standings[m]).user_id == v by {
                assert(submission_count(before, region@, v) > 0);
            }
        }
        i += 1;
    }
    assert(views.take(i as int) =~= views);
    standings
}

/// A user without a submission in a region has solved nothing there.
proof fn lemma_nothing_solved_without_submissions(rows: Seq<RawSubmissionView>, region: Seq<char>, user: i32)
    requires
        submission_count(rows, region, user) == 0,
    ensures
        solved_count(rows, region, user) == 0,
    decreases rows.len(),
{
    if rows.len() > 0 {
        lemma_nothing_solved_without_submissions(rows.drop_last(), region, user);
    }
}

/// Puts `standing` into `sorted` at its place: behind everything that stands
/// above it.
fn insert_ranked(sorted: &mut Vec<UserStanding>, standing: UserStanding)
    requires
        ranked(old(sorted)@),
        forall|k: int| 0 <= k < old(sorted).len() ==> (#[trigger] old(sorted)[k]).user_id != standing.user_id,
    ensures
        ranked(final(sorted)@),
        final(sorted).len() == old(sorted).len() + 1,
        final(sorted)@.contains(standing),
        forall|k: int| 0 <= k < old(sorted).len() ==> final(sorted)@.contains(#[trigger] old(sorted)[k]),
        forall|k: int|
            0 <= k < final(sorted).len() ==> (#[trigger] final(sorted)[k]) == standing || old(
                sorted,
            )@.contains(final(sorted)[k]),
{
    let mut at: usize = 0;
    while at < sorted.len() && sorted[at].is_above(&standing)
        invariant
            at <= sorted.len(),
            *sorted == *old(sorted),
            forall|k: int| 0 <= k < at ==> (#[trigger] sorted[k]).outranks(standing),
        decreases sorted.len() - at,
    {
        at += 1;
    }
    let ghost before = sorted@;
    sorted.insert(at, standing);
    proof {
        before.insert_ensures(at as int, standing);
        assert forall|i: int, j: int| 0 <= i < j < sorted.len() implies (#[trigger] sorted[i]).outranks(
            #[trigger] sorted[j],
        ) by {
            if j < at {
                assert(before[i].outranks(before[j]));
            } else if j == at {
                assert(before[i].outranks(standing));
            } else if i < at {
                assert(before[i].outranks(before[j - 1]));
            } else if i == at {
                assert(before[at as int].user_id != standing.user_id);
                assert(!before[at as int].outranks(standing));
                if j - 1 > at {
                    assert(before[at as int].outranks(before[j - 1]));
                }
            } else {
                assert(before[i - 1].outranks(before[j - 1]));
            }
        }
        assert(sorted[at as int] == standing);
        assert forall|k: int| 0 <= k < before.len() implies sorted@.contains(#[trigger] before[k]) by {
            if k < at {
                assert(sorted[k] == before[k]);
            } else {
                assert(sorted[k + 1] == before[k]);
            }
        }
        assert forall|k: int| 0 <= k < sorted.len() implies (#[trigger] sorted[k]) == standing
            || before.contains(sorted[k]) by {
            if k < at {
                assert(sorted[k] == before[k]);
            } else if k > at {
                assert(sorted[k] == before[k - 1]);
            }
        }
    }
}

/// The rank of `region` that `rows` give: one standing for each user who has
/// made a submission in `region` and for nobody else. A standing counts the
/// user's submissions there and the problems that the user has solved there,
/// each problem once. The standings come best first: more problems solved
/// first, then fewer submissions, then the smaller user id.
pub fn standings(rows: &Vec<RawSubmission>, region: &String) -> (ranking: Vec<UserStanding>)
    ensures
        is_standings(ranking@, submission_views(rows@), region@),
        ranking@ == standings_of(submission_views(rows@), region@),
{
    let ghost views = submission_views(rows@);
    let unsorted = tally(rows, region);
    let mut sorted: Vec<UserStanding> = Vec::new();
    let mut k: usize = 0;
    while k < unsorted.len()
        invariant
            k <= unsorted.len(),
            distinct_users(unsorted@),
            ranked(sorted@),
            sorted.len() == k,
            forall|m: int|
                0 <= m < sorted.len() ==> unsorted@.take(k as int).contains(#[trigger] sorted[m]),
            forall|j: int| 0 <= j < k ==> sorted@.contains(#[trigger] unsorted[j]),
        decreases unsorted.len() - k,
    {
        let next = unsorted[k];
        let ghost before = sorted@;
        assert forall|m: int| 0 <= m < sorted.len() implies (#[trigger] sorted[m]).user_id
            != next.user_id by {
            let j = choose|j: int|
                0 <= j < unsorted@.take(k as int).len() && unsorted@.take(k as int)[j] == sorted[m];
            assert(unsorted[j].user_id != unsorted[k as int].user_id);
        }
        insert_ranked(&mut sorted, next);
        proof {
            assert forall|m: int| 0 <= m < sorted.len() implies unsorted@.take(k + 1).contains(
                #[trigger] sorted[m],
            ) by {
                if sorted[m] == next {
                    assert(unsorted@.take(k + 1)[k as int] == next);
                } else {
                    assert(before.contains(sorted[m]));
                    let b = choose|b: int| 0 <= b < before.len() && before[b] == sorted[m];
                    assert(unsorted@.take(k as int).contains(before[b]));
                    let j = choose|j: int|
                        0 <= j < unsorted@.take(k as int).len() && unsorted@.take(k as int)[j]
                            == before[b];
                    assert(unsorted@.take(k + 1)[j] == sorted[m]);
                }
            }
            assert forall|j: int| 0 <= j < k + 1 implies sorted@.contains(#[trigger] unsorted[j]) by {
                if j < k {
                    assert(before.contains(unsorted[j]));
                    let b = choose|b: int| 0 <= b < before.len() && before[b] == unsorted[j];
                    assert(sorted@.contains(before[b]));
                }
            }
        }
        k += 1;
    }
    proof {
        assert(unsorted@.take(k as int) =~= unsorted@);
        assert forall|m: int| 0 <= m < sorted.len() implies standing_matches(
            #[trigger] sorted[m],
            views,
            region@,
        ) by {
            let j = choose|j: int| 0 <= j < unsorted.len() && unsorted[j] == sorted[m];
            assert(standing_matches(unsorted[j], views, region@));
        }
        assert forall|a: int, b: int|
            0 <= a < sorted.len() && 0 <= b < sorted.len() && a != b implies (#[trigger] sorted[a]).user_id
            != (#[trigger] sorted[b]).user_id by {
            let ja = choose|j: int| 0 <= j < unsorted.len() && unsorted[j] == sorted[a];
            let jb = choose|j: int| 0 <= j < unsorted.len() && unsorted[j] == sorted[b];
            if a < b {
                assert(sorted[a].outranks(sorted[b]));
            } else {
                assert(sorted[b].outranks(sorted[a]));
            }
            assert(ja != jb);
            assert(unsorted[ja].user_id != unsorted[jb].user_id);
        }
        assert forall|user: i32| #[trigger]
            submission_count(views, region@, user) > 0 implies exists|m: int|
            0 <= m < sorted.len() && (#[trigger] sorted[m]).user_id == user by {
            let j = choose|j: int| 0 <= j < unsorted.len() && (#[trigger] unsorted[j]).user_id == user;
            assert(sorted@.contains(unsorted[j]));
            let m = choose|m: int| 0 <= m < sorted.len() && sorted[m] == unsorted[j];
            assert(sorted[m].user_id == user);
        }
        assert(is_standings(sorted@, views, region@));
        lemma_standings_unique(sorted@, standings_of(views, region@), views, region@);
    }
    sorted
}

/// The submissions of a region leave no choice of its rank: two rankings
/// that both are the standings of the same submissions are the same, row
/// for row.
pub proof fn lemma_standings_unique(
    first: Seq<UserStanding>,
    second: Seq<UserStanding>,
    rows: Seq<RawSubmissionView>,
    region: Seq<char>,
)
    requires
        is_standings(first, rows, region),
        is_standings(second, rows, region),
    ensures
        first == second,
{
    assert forall|k: int| 0 <= k < first.len() implies second.contains(#[trigger] first[k]) by {
        lemma_standing_found(first[k], second, rows, region);
    }
    assert forall|k: int| 0 <= k < second.len() implies first.contains(#[trigger] second[k]) by {
        lemma_standing_found(second[k], first, rows, region);
    }
    lemma_ranked_unique(first, second);
}

/// A standing that matches the submissions is found in every ranking that
/// covers them.
proof fn lemma_standing_found(
    standing: UserStanding,
    ranking: Seq<UserStanding>,
    rows: Seq<RawSubmissionView>,
    region: Seq<char>,
)
    requires
        standing_matches(standing, rows, region),
        is_standings(ranking, rows, region),
    ensures
        ranking.contains(standing),
{
    assert(submission_count(rows, region, standing.user_id) > 0);
    let k = choose|k: int| 0 <= k < ranking.len() && (#[trigger] ranking[k]).user_id == standing.user_id;
    assert(standing_matches(ranking[k], rows, region));
    assert(ranking[k] == standing);
}

/// Two rankings, each with the best first, that hold the same standings are
/// the same.
proof fn lemma_ranked_unique(first: Seq<UserStanding>, second: Seq<UserStanding>)
    requires
        ranked(first),
        ranked(second),
        forall|k: int| 0 <= k < first.len() ==> second.contains(#[trigger] first[k]),
        forall|k: int| 0 <= k < second.len() ==> first.contains(#[trigger] second[k]),
    ensures
        first == second,
    decreases first.len(),
{
    if first.len() == 0 {
        if second.len() > 0 {
            assert(first.contains(second[0]));
        }
        assert(first =~= second);
    } else {
        assert(second.contains(first[0]));
        let j = choose|j: int| 0 <= j < second.len() && second[j] == first[0];
        assert(first.contains(second[0]));
        let i = choose|i: int| 0 <= i < first.len() && first[i] == second[0];
        if j > 0 {
            assert(second[0].outranks(second[j]));
            if i > 0 {
                assert(first[0].outranks(first[i]));
            }
        }
        assert(first[0] == second[0]);
        let first_rest = first.skip(1);
        let second_rest = second.skip(1);
        assert forall|a: int, b: int| 0 <= a < b < first_rest.len() implies (
        #[trigger] first_rest[a]).outranks(#[trigger] first_rest[b]) by {
            assert(first[a + 1].outranks(first[b + 1]));
        }
        assert forall|a: int, b: int| 0 <= a < b < second_rest.len() implies (
        #[trigger] second_rest[a]).outranks(#[trigger] second_rest[b]) by {
            assert(second[a + 1].outranks(second[b + 1]));
        }
        assert forall|k: int| 0 <= k < first_rest.len() implies second_rest.contains(
            #[trigger] first_rest[k],
        ) by {
            assert(first[0].outranks(first[k + 1]));
            assert(second.contains(first[k + 1]));
            let m = choose|m: int| 0 <= m < second.len() && second[m] == first[k + 1];
            assert(m != 0);
            assert(second_rest[m - 1] == first_rest[k]);
        }
        assert forall|k: int| 0 <= k < second_rest.len() implies first_rest.contains(
            #[trigger] second_rest[k],
        ) by {
            assert(second[0].outranks(second[k + 1]));
            assert(first.contains(second[k + 1]));
            let m = choose|m: int| 0 <= m < first.len() && first[m] == second[k + 1];
            assert(m != 0);
            assert(first_rest[m - 1] == second_rest[k]);
        }
        lemma_ranked_unique(first_rest, second_rest);
        assert(first =~= second) by {
            assert(first.len() == second.len());
            assert forall|k: int| 0 <= k < first.len() implies first[k] == second[k] by {
                if k > 0 {
                    assert(first_rest[k - 1] == second_rest[k - 1]);
                }
            }
        }
    }
}

/// For how many seconds a rank that is not final is handed out again before
/// it is worked out anew.
pub const RANK_TTL_SECS: i64 = 60;

impl RankCacheEntryView {
    /// The entry can be handed out at the moment `now` as it is: it is final,
    /// or less than `RANK_TTL_SECS` seconds have passed since it was worked
    /// out.
    pub open spec fn is_fresh(self, now: Timestamp) -> bool {
        self.is_final || now.nanos_since(self.last_updated_time) < RANK_TTL_SECS
            * crate::time::NANOS_PER_SEC as int
    }
}

impl RankCacheEntry {
    /// Whether the entry can be handed out at the moment `now` as it is.
    pub fn fresh_at(&self, now: Timestamp) -> (b: bool)
        ensures
            b == self@.is_fresh(now),
    {
        self.is_final || now.is_within(&self.last_updated_time, RANK_TTL_SECS)
    }
}

/// The ranks that have been worked out, one entry at most for each region.
pub struct RankCache {
    entries: Vec<RankCacheEntry>,
}

/// No two of `entries` are of one region.
pub closed spec fn distinct_regions(entries: Seq<RankCacheEntry>) -> bool {
    forall|i: int, j: int|
        0 <= i < entries.len() && 0 <= j < entries.len() && i != j ==> (#[trigger] entries[i]).region@
            != (#[trigger] entries[j]).region@
}

/// One of `entries` is of `region`.
pub closed spec fn holds(entries: Seq<RankCacheEntry>, region: Seq<char>) -> bool {
    exists|i: int| 0 <= i < entries.len() && (#[trigger] entries[i]).region@ == region
}

/// Where in `entries` the entry of `region` is.
pub closed spec fn place(entries: Seq<RankCacheEntry>, region: Seq<char>) -> int {
    choose|i: int| 0 <= i < entries.len() && (#[trigger] entries[i]).region@ == region
}

impl View for RankCache {
    type V = Map<Seq<char>, RankCacheEntryView>;

    closed spec fn view(&self) -> Map<Seq<char>, RankCacheEntryView> {
        Map::new(
            |region: Seq<char>| holds(self.entries@, region),
            |region: Seq<char>| self.entries@[place(self.entries@, region)]@,
        )
    }
}

impl RankCache {
    #[verifier::type_invariant]
    closed spec fn inv(&self) -> bool {
        distinct_regions(self.entries@)
    }

    /// Every entry is kept under its own region.
    pub proof fn lemma_keyed_by_region(&self, region: Seq<char>)
        requires
            self@.contains_key(region),
        ensures
            self@[region].region == region,
    {
    }

    /// A cache without entries.
    pub fn new() -> (cache: RankCache)
        ensures
            cache@ == Map::<Seq<char>, RankCacheEntryView>::empty(),
    {
        let cache = RankCache { entries: Vec::new() };
        assert(cache@ =~= Map::<Seq<char>, RankCacheEntryView>::empty());
        cache
    }

    /// Where the entry of `region` is kept, if there is one.
    fn find(&self, region: &String) -> (at: Option<usize>)
        ensures
            at matches Some(i) ==> i < self.entries.len() && self.entries[i as int].region@ == region@
                && self@.contains_key(region@) && self@[region@] == self.entries[i as int]@,
            at is None ==> !self@.contains_key(region@) && forall|k: int|
                0 <= k < self.entries.len() ==> (#[trigger] self.entries[k]).region@ != region@,
    {
        proof {
            use_type_invariant(self);
        }
        let mut i: usize = 0;
        while i < self.entries.len()
            invariant
                i <= self.entries.len(),
                distinct_regions(self.entries@),
                forall|k: int| 0 <= k < i ==> (#[trigger] self.entries[k]).region@ != region@,
            decreases self.entries.len() - i,
        {
            if same_text(&self.entries[i].region, region) {
                assert(holds(self.entries@, region@));
                assert(self.entries[place(self.entries@, region@)].region@ == region@);
                assert(place(self.entries@, region@) == i);
                return Some(i);
            }
            i += 1;
        }
        None
    }

    /// The entry of `region`, if there is one.
    pub fn get(&self, region: &String) -> (entry: Option<&RankCacheEntry>)
        ensures
            entry matches Some(e) ==> self@.contains_key(region@) && e@ == self@[region@] && e@.region
                == region@,
            entry is None ==> !self@.contains_key(region@),
    {
        match self.find(region) {
            Some(i) => Some(&self.entries[i]),
            None => None,
        }
    }

    /// Puts `entry` in the place of whatever the cache holds for its region.
    /// The entry is replaced as a whole.
    pub fn put(&mut self, entry: RankCacheEntry)
        ensures
            final(self)@ == old(self)@.insert(entry@.region, entry@),
    {
        proof {
            use_type_invariant(&*self);
        }
        let ghost before = self.entries@;
        let ghost key = entry@.region;
        let ghost value = entry@;
        match self.find(&entry.region) {
            Some(i) => {
                let mut entries: Vec<RankCacheEntry> = Vec::new();
                std::mem::swap(&mut self.entries, &mut entries);
                entries.set(i, entry);
                proof {
                    let after = entries@;
                    assert forall|a: int, b: int|
                        0 <= a < after.len() && 0 <= b < after.len() && a != b implies (
                    #[trigger] after[a]).region@ != (#[trigger] after[b]).region@ by {
                        assert(before[a].region@ != before[b].region@);
                    }
                    assert forall|region: Seq<char>| holds(after, region) == holds(before, region) by {
                        if holds(after, region) {
                            let k = choose|k: int|
                                0 <= k < after.len() && (#[trigger] after[k]).region@ == region;
                            assert(before[k].region@ == region);
                        }
                        if holds(before, region) {
                            let k = choose|k: int|
                                0 <= k < before.len() && (#[trigger] before[k]).region@ == region;
                            assert(after[k].region@ == region);
                        }
                    }
                    assert forall|region: Seq<char>| holds(after, region) implies after[place(
                        after,
                        region,
                    )]@ == (if region == key {
                        value
                    } else {
                        before[place(before, region)]@
                    }) by {
                        let k = place(after, region);
                        let m = place(before, region);
                        assert(before[k].region@ == region);
                        assert(k == m);
                    }
                }
                std::mem::swap(&mut self.entries, &mut entries);
                assert(self@ =~= old(self)@.insert(key, value));
            },
            None => {
                let mut entries: Vec<RankCacheEntry> = Vec::new();
                std::mem::swap(&mut self.entries, &mut entries);
                entries.push(entry);
                proof {
                    let after = entries@;
                    assert forall|a: int, b: int|
                        0 <= a < after.len() && 0 <= b < after.len() && a != b implies (
                    #[trigger] after[a]).region@ != (#[trigger] after[b]).region@ by {
                        if a < before.len() && b < before.len() {
                            assert(before[a].region@ != before[b].region@);
                        }
                    }
                    assert forall|region: Seq<char>| holds(after, region) == (region == key || holds(
                        before,
                        region,
                    )) by {
                        if holds(after, region) {
                            let k = choose|k: int|
                                0 <= k < after.len() && (#[trigger] after[k]).region@ == region;
                            if k < before.len() {
                                assert(before[k].region@ == region);
                            }
                        }
                        if holds(before, region) {
                            let k = choose|k: int|
                                0 <= k < before.len() && (#[trigger] before[k]).region@ == region;
                            assert(after[k].region@ == region);
                        }
                        if region == key {
                            assert(after[before.len() as int].region@ == region);
                        }
                    }
                    assert forall|region: Seq<char>| holds(after, region) implies after[place(
                        after,
                        region,
                    )]@ == (if region == key {
                        value
                    } else {
                        before[place(before, region)]@
                    }) by {
                        let k = place(after, region);
                        if region == key {
                            if k < before.len() {
                                assert(before[k].region@ == region);
                            }
                        } else {
                            assert(holds(before, region));
                            let m = place(before, region);
                            assert(after[m].region@ == region);
                            assert(k == m);
                        }
                    }
                }
                std::mem::swap(&mut self.entries, &mut entries);
                assert(self@ =~= old(self)@.insert(key, value));
            },
        }
    }

    /// Takes the entry of `region` out, if there is one.
    pub fn remove(&mut self, region: &String)
        ensures
            final(self)@ == old(self)@.remove(region@),
    {
        proof {
            use_type_invariant(&*self);
        }
        let ghost before = self.entries@;
        match self.find(region) {
            Some(i) => {
                let mut entries: Vec<RankCacheEntry> = Vec::new();
                std::mem::swap(&mut self.entries, &mut entries);
                entries.remove(i);
                proof {
                    let after = entries@;
                    assert forall|k: int| 0 <= k < after.len() implies #[trigger] after[k] == (if k < i {
                        before[k]
                    } else {
                        before[k + 1]
                    }) by {}
                    assert forall|a: int, b: int|
                        0 <= a < after.len() && 0 <= b < after.len() && a != b implies (
                    #[trigger] after[a]).region@ != (#[trigger] after[b]).region@ by {
                        let a0 = if a < i {
                            a
                        } else {
                            a + 1
                        };
                        let b0 = if b < i {
                            b
                        } else {
                            b + 1
                        };
                        assert(before[a0].region@ != before[b0].region@);
                    }
                    assert forall|r: Seq<char>| holds(after, r) == (r != region@ && holds(before, r)) by {
                        if holds(after, r) {
                            let k = choose|k: int|
                                0 <= k < after.len() && (#[trigger] after[k]).region@ == r;
                            let k0 = if k < i {
                                k
                            } else {
                                k + 1
                            };
                            assert(before[k0].region@ == r);
                            assert(before[k0].region@ != before[i as int].region@);
                        }
                        if r != region@ && holds(before, r) {
                            let k = choose|k: int|
                                0 <= k < before.len() && (#[trigger] before[k]).region@ == r;
                            let k1 = if k < i {
                                k
                            } else {
                                k - 1
                            };
                            assert(after[k1].region@ == r);
                        }
                    }
                    assert forall|r: Seq<char>| holds(after, r) implies after[place(after, r)]@
                        == before[place(before, r)]@ by {
                        let k = place(after, r);
                        let k0 = if k < i {
                            k
                        } else {
                            k + 1
                        };
                        let m = place(before, r);
                        assert(before[k0].region@ == r);
                        assert(k0 == m);
                    }
                }
                std::mem::swap(&mut self.entries, &mut entries);
                assert(self@ =~= old(self)@.remove(region@));
            },
            None => {
                assert(self@ =~= old(self)@.remove(region@));
            },
        }
    }
}

/// The entry that working out the rank of `region` at the moment `now`
/// gives, from the submissions `rows`.
pub open spec fn recomputed(
    region: Seq<char>,
    rows: Seq<RawSubmissionView>,
    is_final: bool,
    now: Timestamp,
) -> RankCacheEntryView {
    RankCacheEntryView { region, rows: standings_of(rows, region), last_updated_time: now, is_final }
}

/// Works out the rank of `region` from its submissions, at the moment
/// `cur_time`, and puts it into the cache in the place of the entry that the
/// cache holds for the region, if it holds one. Hands back the new entry.
pub fn update_acm_rank_cache(
    cache: &mut RankCache,
    region: String,
    submissions: &Vec<RawSubmission>,
    is_final: bool,
    cur_time: Timestamp,
) -> (entry: RankCacheEntry)
    ensures
        entry@ == recomputed(region@, submission_views(submissions@), is_final, cur_time),
        final(cache)@ == old(cache)@.insert(region@, entry@),
{
    let rows = standings(submissions, &region);
    let entry = RankCacheEntry { region, rows, last_updated_time: cur_time, is_final };
    cache.put(entry.clone());
    entry
}

} // verus!
