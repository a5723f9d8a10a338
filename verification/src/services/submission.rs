//! Making a submission and handing it to the judge worker.

use crate::errors::{ErrorView, ServiceError, ServiceResult};
use crate::models::languages::{
    high_performance, is_high_performance, LanguageConfig, SpjCompileConfig, SpjConfig,
};
use crate::models::problems::ProblemSettings;
use crate::models::submissions::{
    JudgeSettings, JudgeSettingsView, SlimSubmission, SlimSubmissionView,
};
use crate::models::users::User;
use crate::models::utils::SizedList;
use crate::text::{decimal, i32_to_string};
use std::collections::HashMap;
use std::collections::VecDeque;
use uuid::Uuid;
use vstd::prelude::*;

verus! {

/// What special judging needs beside the problem: how the special judge is
/// run and compiled, and its source.
#[derive(Debug)]
pub struct SpecialJudge {
    pub config: SpjConfig,
    pub compile_config: SpjCompileConfig,
    pub src: String,
}

/// A `SpecialJudge` with its texts as sequences of characters.
pub struct SpecialJudgeView {
    pub config: Seq<char>,
    pub compile_config: Seq<char>,
    pub src: Seq<char>,
}

impl View for SpecialJudge {
    type V = SpecialJudgeView;

    open spec fn view(&self) -> SpecialJudgeView {
        SpecialJudgeView {
            config: self.config.document@,
            compile_config: self.compile_config.document@,
            src: self.src@,
        }
    }
}

/// The view of an optional special judge.
pub open spec fn opt_special_judge(o: Option<SpecialJudge>) -> Option<SpecialJudgeView> {
    match o {
        Some(judge) => Some(judge@),
        None => None,
    }
}

/// The settings under which a submission is judged.
///
/// The limits are the problem's high performance limits for a language that
/// compiles to native code and its other limits for every other language.
/// The test cases are named by the problem's id. The special judge is handed
/// on exactly if the problem is judged by one. The worker hands the output
/// of a run back unless the problem keeps it opaque.
pub open spec fn snapshot(
    problem_id: i32,
    problem: ProblemSettings,
    src: Seq<char>,
    language: Seq<char>,
    language_config: Seq<char>,
    special_judge: Option<SpecialJudgeView>,
) -> JudgeSettingsView {
    JudgeSettingsView {
        language_config,
        src,
        max_cpu_time: if is_high_performance(language) {
            problem.high_performance_max_cpu_time
        } else {
            problem.other_max_cpu_time
        },
        max_memory: if is_high_performance(language) {
            problem.high_performance_max_memory
        } else {
            problem.other_max_memory
        },
        test_case_id: Some(decimal(problem_id as int)),
        test_case: None,
        spj_version: Some("1"@),
        spj_config: if problem.is_spj && special_judge is Some {
            Some(special_judge->Some_0.config)
        } else {
            None
        },
        spj_compile_config: if problem.is_spj && special_judge is Some {
            Some(special_judge->Some_0.compile_config)
        } else {
            None
        },
        spj_src: if problem.is_spj && special_judge is Some {
            Some(special_judge->Some_0.src)
        } else {
            None
        },
        output: !problem.opaque_output,
    }
}

/// A submission about to be stored: its fresh identifier and its settings.
#[derive(Debug)]
pub struct NewSubmission {
    pub id: Uuid,
    pub settings: JudgeSettings,
}

/// Draws a fresh identifier. Calls `uuid::Uuid::new_v4`, which makes an
/// identifier from random bits; nothing is claimed of the result. (The call
/// stops the program if the system gives it no random bytes.)
#[verifier::external_body]
fn fresh_id() -> (id: Uuid) {
    Uuid::new_v4()
}

/// Takes the snapshot of the settings under which a submission to the
/// problem `problem_id` is judged. Fails, as an internal error, exactly if
/// the problem is judged by a special judge and none is at hand.
pub fn judge_settings(
    problem_id: i32,
    problem: &ProblemSettings,
    src: String,
    language: &String,
    language_config: LanguageConfig,
    special_judge: Option<SpecialJudge>,
) -> (res: ServiceResult<JudgeSettings>)
    ensures
        res is Err <==> problem.is_spj && special_judge is None,
        res matches Err(e) ==> e@ == ErrorView::InternalServerError,
        res matches Ok(settings) ==> settings@ == snapshot(
            problem_id,
            *problem,
            src@,
            language@,
            language_config.document@,
            opt_special_judge(special_judge),
        ),
{
    let fast = high_performance(language);
    let (spj_config, spj_compile_config, spj_src) = if problem.is_spj {
        match special_judge {
            Some(judge) => (Some(judge.config), Some(judge.compile_config), Some(judge.src)),
            None => {
                return Err(ServiceError::InternalServerError);
            },
        }
    } else {
        (None, None, None)
    };
    Ok(
        JudgeSettings {
            language_config,
            src,
            max_cpu_time: if fast {
                problem.high_performance_max_cpu_time
            } else {
                problem.other_max_cpu_time
            },
            max_memory: if fast {
                problem.high_performance_max_memory
            } else {
                problem.other_max_memory
            },
            test_case_id: Some(i32_to_string(problem_id)),
            test_case: None,
            spj_version: Some("1".to_owned()),
            spj_config,
            spj_compile_config,
            spj_src,
            output: !problem.opaque_output,
        },
    )
}

/// Why nothing can be submitted to a problem that is not released.
pub open spec fn not_released() -> ErrorView {
    ErrorView::BadRequest("Problem is not released."@)
}

/// What is answered to a submission that cannot be prepared, if it cannot:
/// a problem that is not released takes no submission; and a problem judged
/// by a special judge cannot be judged while none is at hand.
pub open spec fn create_refusal(
    is_released: bool,
    problem: ProblemSettings,
    special_judge: Option<SpecialJudgeView>,
) -> Option<ErrorView> {
    if !is_released {
        Some(not_released())
    } else if problem.is_spj && special_judge is None {
        Some(ErrorView::InternalServerError)
    } else {
        None
    }
}

/// Prepares a submission to the problem `problem_id`: draws its identifier
/// and takes the snapshot of its settings. `is_released` says whether the
/// problem is released. A submission to a problem that is not released, or
/// to one judged by a special judge while none is at hand, is refused here,
/// before anything is stored or put on the queue.
pub fn create(
    is_released: bool,
    problem_id: i32,
    problem: &ProblemSettings,
    src: String,
    language: &String,
    language_config: LanguageConfig,
    special_judge: Option<SpecialJudge>,
) -> (res: ServiceResult<NewSubmission>)
    ensures
        res is Err <==> !is_released || (problem.is_spj && special_judge is None),
        res matches Err(e) ==> Some(e@) == create_refusal(
            is_released,
            *problem,
            opt_special_judge(special_judge),
        ),
        res matches Ok(new) ==> new.settings@ == snapshot(
            problem_id,
            *problem,
            src@,
            language@,
            language_config.document@,
            opt_special_judge(special_judge),
        ),
{
    if !is_released {
        return Err(ServiceError::bad_request("Problem is not released."));
    }
    let id = fresh_id();
    match judge_settings(problem_id, problem, src, language, language_config, special_judge) {
        Ok(settings) => Ok(NewSubmission { id, settings }),
        Err(e) => Err(e),
    }
}

/// The submissions that wait for the judge worker, the oldest first.
pub struct WaitingQueue {
    ids: VecDeque<Uuid>,
}

impl View for WaitingQueue {
    type V = Seq<Uuid>;

    closed spec fn view(&self) -> Seq<Uuid> {
        self.ids@
    }
}

impl WaitingQueue {
    /// A queue in which nothing waits.
    pub fn new() -> (queue: WaitingQueue)
        ensures
            queue@ == Seq::<Uuid>::empty(),
    {
        WaitingQueue { ids: VecDeque::new() }
    }

    /// How many submissions wait.
    pub fn len(&self) -> (n: usize)
        ensures
            n == self@.len(),
    {
        self.ids.len()
    }

    /// Whether nothing waits.
    pub fn is_empty(&self) -> (b: bool)
        ensures
            b == (self@.len() == 0),
    {
        self.ids.len() == 0
    }

    /// Puts `id` behind everything that waits already.
    pub fn push_back(&mut self, id: Uuid)
        ensures
            final(self)@ == old(self)@.push(id),
    {
        self.ids.push_back(id);
    }

    /// Takes out the submission that has waited longest, if one waits.
    pub fn pop_front(&mut self) -> (id: Option<Uuid>)
        ensures
            old(self)@.len() == 0 ==> id is None && final(self)@ == old(self)@,
            old(self)@.len() > 0 ==> id == Some(old(self)@.first()) && final(self)@ == old(self)@.skip(1),
    {
        let id = self.ids.pop_front();
        assert(old(self)@.len() > 0 ==> self.ids@ =~= old(self)@.skip(1));
        id
    }
}

/// A queue hands out what it was given in the order in which it was given
/// it: after `id` has been put behind `queue`, what waited before is still
/// served first and in its old order, and `id` is served last.
pub proof fn lemma_queue_is_fifo(queue: Seq<Uuid>, id: Uuid)
    ensures
        queue.push(id).len() == queue.len() + 1,
        forall|i: int| 0 <= i < queue.len() ==> queue.push(id)[i] == queue[i],
        queue.push(id).last() == id,
        queue.len() > 0 ==> queue.push(id).first() == queue.first() && queue.push(id).skip(1)
            == queue.skip(1).push(id),
{
    if queue.len() > 0 {
        assert(queue.push(id).skip(1) =~= queue.skip(1).push(id));
    }
}

/// The user names of `users` by user id. Where two users share an id, the
/// later one counts.
pub open spec fn name_table(users: Seq<User>) -> Map<i32, Seq<char>>
    decreases users.len(),
{
    if users.len() == 0 {
        Map::empty()
    } else {
        name_table(users.drop_last()).insert(users.last().id, users.last().username@)
    }
}

/// `slim` with the name that `names` hold for its user; as it is where they
/// hold none.
pub open spec fn named(slim: SlimSubmissionView, names: Map<i32, Seq<char>>) -> SlimSubmissionView {
    if names.contains_key(slim.user_id) {
        SlimSubmissionView { username: names[slim.user_id], ..slim }
    } else {
        slim
    }
}

/// The views of a list of submissions.
pub open spec fn slim_views(list: Seq<SlimSubmission>) -> Seq<SlimSubmissionView> {
    list.map_values(|slim: SlimSubmission| slim@)
}

/// The characters of each name of a table.
pub open spec fn name_views(names: Map<i32, String>) -> Map<i32, Seq<char>> {
    names.map_values(|name: String| name@)
}

/// The user names of `users` by user id.
fn user_names(users: &Vec<User>) -> (names: HashMap<i32, String>)
    ensures
        name_views(names@) == name_table(users@),
{
    broadcast use vstd::std_specs::hash::group_hash_axioms;

    let mut names: HashMap<i32, String> = HashMap::new();
    assert(name_views(names@) =~= name_table(users@.take(0)));
    let mut i: usize = 0;
    while i < users.len()
        invariant
            i <= users.len(),
            name_views(names@) == name_table(users@.take(i as int)),
        decreases users.len() - i,
    {
        let ghost before = names@;
        assert(users@.take(i + 1).drop_last() =~= users@.take(i as int));
        names.insert(users[i].id, users[i].username.clone());
        assert(name_views(names@) =~= name_views(before).insert(users[i as int].id, users[i as int].username@));
        i += 1;
    }
    assert(users@.take(i as int) =~= users@);
    names
}

/// One page of a list of submissions: `total` is the number of rows that the
/// whole list has, `rows` are the rows of the page. Each row is given the
/// name that `users` hold for its user; a row whose user is not among them
/// keeps the name it came with.
pub fn get_list(total: i64, rows: Vec<SlimSubmission>, users: &Vec<User>) -> (page: SizedList<SlimSubmission>)
    ensures
        page.total == total,
        slim_views(page.list@) == slim_views(rows@).map_values(
            |slim: SlimSubmissionView| named(slim, name_table(users@)),
        ),
{
    broadcast use vstd::std_specs::hash::group_hash_axioms;

    let names = user_names(users);
    let mut list = rows;
    let ghost table = name_table(users@);
    let mut i: usize = 0;
    while i < list.len()
        invariant
            i <= list.len(),
            list.len() == rows.len(),
            table == name_table(users@),
            name_views(names@) == table,
            forall|k: int| 0 <= k < i ==> (#[trigger] list[k])@ == named(rows[k]@, table),
            forall|k: int| i <= k < list.len() ==> (#[trigger] list[k])@ == rows[k]@,
        decreases list.len() - i,
    {
        let ghost before = list@;
        let user_id = list[i].user_id;
        assert(name_views(names@).contains_key(user_id) == names@.contains_key(user_id));
        match names.get(&user_id) {
            Some(name) => {
                assert(name_views(names@)[user_id] == name@);
                list[i].username = name.clone();
                assert forall|k: int| 0 <= k < i + 1 implies (#[trigger] list[k])@ == named(
                    rows[k]@,
                    table,
                ) by {
                    if k < i {
                        assert(list[k] == before[k]);
                    }
                }
                assert forall|k: int| i + 1 <= k < list.len() implies (#[trigger] list[k])@
                    == rows[k]@ by {
                    assert(list[k] == before[k]);
                }
            },
            None => {},
        }
        i += 1;
    }
    assert(slim_views(list@) =~= slim_views(rows@).map_values(
        |slim: SlimSubmissionView| named(slim, table),
    ));
    SizedList { total, list }
}

} // verus!
