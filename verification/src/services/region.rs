//! Regions: what kind a region is, linking problems to it, and submitting to
//! its problems.

use crate::errors::{ErrorView, ServiceError, ServiceResult};
use crate::models::languages::LanguageConfig;
use crate::models::problems::ProblemSettings;
use crate::models::region_links::{CreateRegionLinksResult, RegionLink};
use crate::services::submission::{
    create, create_refusal, opt_special_judge, snapshot, NewSubmission, SpecialJudge,
};
use crate::text::is_word;
use vstd::prelude::*;

verus! {

/// What is answered for a region that is neither a problem set nor a contest.
pub open spec fn unknown_region() -> ErrorView {
    ErrorView::InternalServerErrorWithHint("Not Found."@)
}

/// The kind of a region: `problem_set` if exactly one problem set bears its
/// name; else `contest` if exactly one contest does.
pub open spec fn self_type_of(problem_sets: int, contests: int) -> Result<Seq<char>, ErrorView> {
    if problem_sets == 1 {
        Ok("problem_set"@)
    } else if contests == 1 {
        Ok("contest"@)
    } else {
        Err(unknown_region())
    }
}

/// Tells the kind of a region from the number of problem sets and the number
/// of contests that bear its name.
pub fn get_self_type(problem_sets: i64, contests: i64) -> (res: ServiceResult<String>)
    ensures
        match self_type_of(problem_sets as int, contests as int) {
            Ok(kind) => res matches Ok(s) && s@ == kind,
            Err(error) => res matches Err(e) && e@ == error,
        },
{
    if problem_sets == 1 {
        return Ok("problem_set".to_owned());
    }
    if contests == 1 {
        return Ok("contest".to_owned());
    }
    Err(ServiceError::InternalServerErrorWithHint("Not Found.".to_owned()))
}

/// Prepares a submission to the problem `problem_id` of a region, as every
/// submission is prepared: a problem that is not released takes none, and
/// that is refused before anything else is looked at.
pub fn create_submission(
    is_released: bool,
    problem_id: i32,
    problem: &ProblemSettings,
    src: String,
    language: &String,
    language_config: LanguageConfig,
    special_judge: Option<SpecialJudge>,
) -> (res: ServiceResult<NewSubmission>)
    ensures
        res is Err <==> !is_released || (problem.is_spj && special_judge is None),
        res matches Err(e) ==> Some(e@) == create_refusal(
            is_released,
            *problem,
            opt_special_judge(special_judge),
        ),
        res matches Ok(new) ==> new.settings@ == snapshot(
            problem_id,
            *problem,
            src@,
            language@,
            language_config.document@,
            opt_special_judge(special_judge),
        ),
{
    create(is_released, problem_id, problem, src, language, language_config, special_judge)
}

/// The score that a linked problem is worth where none is given.
pub const DEFAULT_SCORE: i32 = 100;

/// The link that makes `problem_id` the problem number `inner_id` of
/// `region`, worth `score`, or `DEFAULT_SCORE` where none is given.
pub fn region_link(region: String, inner_id: i32, problem_id: i32, score: Option<i32>) -> (link: RegionLink)
    ensures
        link.region@ == region@,
        link.inner_id == inner_id,
        link.problem_id == problem_id,
        link.score == Some(
            match score {
                Some(s) => s,
                None => DEFAULT_SCORE,
            },
        ),
{
    let score = match score {
        Some(s) => s,
        None => DEFAULT_SCORE,
    };
    RegionLink { region, inner_id, problem_id, score: Some(score) }
}

/// The numbers handed out to the problems that are linked to a region in one
/// go. A region numbers its problems from 1 without gaps, so the next free
/// number is one more than the number of its problems.
#[derive(Debug, Clone, Copy, PartialEq, Eq, Structural)]
pub struct InnerIds {
    pub next: i32,
}

impl InnerIds {
    /// The numbers for a region that has `linked` problems, if the first free
    /// number can be written at all.
    pub fn after(linked: i64) -> (ids: Option<InnerIds>)
        ensures
            ids is Some <==> 0 <= linked < i32::MAX,
            ids matches Some(i) ==> i.next == linked + 1,
    {
        if 0 <= linked && linked < 2147483647 {
            Some(InnerIds { next: (linked + 1) as i32 })
        } else {
            None
        }
    }

    /// Records what became of the link of `problem_id`, which was tried under
    /// the number `self.next`. A link that the store took uses the number up;
    /// one that it refused leaves the number for the next problem.
    pub fn record(&mut self, problem_id: i32, inserted: bool) -> (result: CreateRegionLinksResult)
        requires
            inserted ==> old(self).next < i32::MAX,
        ensures
            result.problem_id == problem_id,
            result.is_success == inserted,
            result.inner_id == (if inserted {
                Some(old(self).next)
            } else {
                None
            }),
            final(self).next == (if inserted {
                old(self).next + 1
            } else {
                old(self).next as int
            }),
    {
        if inserted {
            let inner_id = self.next;
            self.next = self.next + 1;
            CreateRegionLinksResult { problem_id, inner_id: Some(inner_id), is_success: true }
        } else {
            CreateRegionLinksResult { problem_id, inner_id: None, is_success: false }
        }
    }
}

/// What has to be renumbered after the problem number `inner_id` has been
/// taken out of a region that had `count` problems: to keep the numbers
/// without a gap, the problem with the highest number, `count`, takes the
/// number that has become free. Nothing is to be done if the problem taken
/// out had the highest number itself.
pub fn renumber_after_delete(inner_id: i32, count: i32) -> (moved: Option<(i32, i32)>)
    ensures
        moved == (if inner_id != count {
            Some((count, inner_id))
        } else {
            None
        }),
{
    if inner_id != count {
        Some((count, inner_id))
    } else {
        None
    }
}

/// By what a list of the problems of a region is ordered.
#[derive(Debug, Clone, Copy, PartialEq, Eq, Structural)]
pub enum ColumnOrder {
    Unordered,
    InnerIdAscending,
    InnerIdDescending,
    ProblemIdAscending,
    ProblemIdDescending,
    DifficultyAscending,
    DifficultyDescending,
}

/// The order of a list of problems. Each wish is `Some(true)` for ascending,
/// `Some(false)` for descending, `None` for no wish. The first wish that is
/// made counts: by number in the region, then by problem id, then by
/// difficulty.
pub open spec fn order_of(
    id_order: Option<bool>,
    problem_id_order: Option<bool>,
    difficulty_order: Option<bool>,
) -> ColumnOrder {
    match id_order {
        Some(true) => ColumnOrder::InnerIdAscending,
        Some(false) => ColumnOrder::InnerIdDescending,
        None => match problem_id_order {
            Some(true) => ColumnOrder::ProblemIdAscending,
            Some(false) => ColumnOrder::ProblemIdDescending,
            None => match difficulty_order {
                Some(true) => ColumnOrder::DifficultyAscending,
                Some(false) => ColumnOrder::DifficultyDescending,
                None => ColumnOrder::Unordered,
            },
        },
    }
}

/// The order of a list of problems.
pub fn column_order(
    id_order: Option<bool>,
    problem_id_order: Option<bool>,
    difficulty_order: Option<bool>,
) -> (order: ColumnOrder)
    ensures
        order == order_of(id_order, problem_id_order, difficulty_order),
{
    match id_order {
        None => match problem_id_order {
            None => match difficulty_order {
                None => ColumnOrder::Unordered,
                Some(true) => ColumnOrder::DifficultyAscending,
                Some(false) => ColumnOrder::DifficultyDescending,
            },
            Some(true) => ColumnOrder::ProblemIdAscending,
            Some(false) => ColumnOrder::ProblemIdDescending,
        },
        Some(true) => ColumnOrder::InnerIdAscending,
        Some(false) => ColumnOrder::InnerIdDescending,
    }
}

/// A band of difficulties by which problems are filtered.
#[derive(Debug, Clone, Copy, PartialEq, Eq, Structural)]
pub enum DifficultyBand {
    All,
    Navie,
    Easy,
    Middle,
    Hard,
}

impl DifficultyBand {
    /// The band that the filter `name` stands for; every name that is not
    /// the name of a band stands for all difficulties.
    pub open spec fn of_name(name: Option<Seq<char>>) -> DifficultyBand {
        match name {
            None => DifficultyBand::All,
            Some(n) => if n == "Navie"@ {
                DifficultyBand::Navie
            } else if n == "Easy"@ {
                DifficultyBand::Easy
            } else if n == "Middle"@ {
                DifficultyBand::Middle
            } else if n == "Hard"@ {
                DifficultyBand::Hard
            } else {
                DifficultyBand::All
            },
        }
    }

    /// The band that the filter `name` stands for.
    pub fn parse(name: Option<&String>) -> (band: DifficultyBand)
        ensures
            band == DifficultyBand::of_name(
                match name {
                    Some(n) => Some(n@),
                    None => None,
                },
            ),
    {
        match name {
            None => DifficultyBand::All,
            Some(n) => {
                if is_word(n, "Navie") {
                    DifficultyBand::Navie
                } else if is_word(n, "Easy") {
                    DifficultyBand::Easy
                } else if is_word(n, "Middle") {
                    DifficultyBand::Middle
                } else if is_word(n, "Hard") {
                    DifficultyBand::Hard
                } else {
                    DifficultyBand::All
                }
            },
        }
    }

    /// The bounds of the band, in quarters of a point: a band holds the
    /// difficulties from `lower / 4` to `upper / 4`, both included.
    pub open spec fn quarter_bounds(self) -> (int, int) {
        match self {
            DifficultyBand::All => (0, 40),
            DifficultyBand::Navie => (0, 10),
            DifficultyBand::Easy => (10, 20),
            DifficultyBand::Middle => (20, 30),
            DifficultyBand::Hard => (30, 40),
        }
    }

    /// The bounds of the band, in quarters of a point.
    pub fn bounds_in_quarters(&self) -> (bounds: (u32, u32))
        ensures
            (bounds.0 as int, bounds.1 as int) == self.quarter_bounds(),
    {
        match self {
            DifficultyBand::All => (0, 40),
            DifficultyBand::Navie => (0, 10),
            DifficultyBand::Easy => (10, 20),
            DifficultyBand::Middle => (20, 30),
            DifficultyBand::Hard => (30, 40),
        }
    }
}

/// Whether `user_id` is among the users who have solved a problem. Without a
/// user the answer is no.
pub fn is_accepted_by(user_id: Option<i32>, accepted_users: &Vec<i32>) -> (accepted: bool)
    ensures
        accepted == (user_id is Some && accepted_users@.contains(user_id->Some_0)),
{
    match user_id {
        None => false,
        Some(id) => {
            let mut i: usize = 0;
            while i < accepted_users.len()
                invariant
                    i <= accepted_users.len(),
                    user_id == Some(id),
                    forall|k: int| 0 <= k < i ==> accepted_users@[k] != id,
                decreases accepted_users.len() - i,
            {
                if accepted_users[i] == id {
                    assert(accepted_users@[i as int] == id);
                    return true;
                }
                i += 1;
            }
            false
        },
    }
}

} // verus!
