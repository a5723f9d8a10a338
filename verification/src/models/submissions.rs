//! Submissions, the judge worker's replies, and how a reply is read.

use crate::errors::{ErrorView, ServiceError, ServiceResult};
use crate::models::languages::{LanguageConfig, SpjCompileConfig, SpjConfig};
use crate::text::{contains_text, opt_chars, opt_texts, texts};
use crate::time::Timestamp;
use uuid::Uuid;
use vstd::prelude::*;

verus! {

/// `uuid::Uuid`, the identifier of a submission. The library hands
/// identifiers on and never looks inside one; nothing is claimed of them.
#[verifier::external_type_specification]
#[verifier::external_body]
pub struct ExUuid(uuid::Uuid);

/// What went wrong in the sandbox while it ran one test case, as the worker
/// numbers it. A number that the worker is not known to send is `UnknownError`.
#[derive(Debug, Clone, Copy, PartialEq, Eq, Structural)]
pub enum SandboxError {
    Success,
    InvalidConfig,
    CloneFailed,
    PthreadFailed,
    WaitFailed,
    RootRequired,
    LoadSeccompFailed,
    SetrlimitFailed,
    Dup2Failed,
    SetuidFailed,
    ExecveFailed,
    SpjError,
    UnknownError,
}

/// How one test case came out, as the worker numbers it. A number that the
/// worker is not known to send is `UnknownResult`.
#[derive(Debug, Clone, Copy, PartialEq, Eq, Structural)]
pub enum CaseOutcome {
    WrongAnswer,
    Success,
    CpuTimeLimitExceeded,
    RealTimeLimitExceeded,
    MemoryLimitExceeded,
    RuntimeError,
    SystemError,
    UnknownResult,
}

impl SandboxError {
    /// The error that the worker means by `code`.
    pub open spec fn of_code(code: int) -> SandboxError {
        if code == 0 {
            SandboxError::Success
        } else if code == -1 {
            SandboxError::InvalidConfig
        } else if code == -2 {
            SandboxError::CloneFailed
        } else if code == -3 {
            SandboxError::PthreadFailed
        } else if code == -4 {
            SandboxError::WaitFailed
        } else if code == -5 {
            SandboxError::RootRequired
        } else if code == -6 {
            SandboxError::LoadSeccompFailed
        } else if code == -7 {
            SandboxError::SetrlimitFailed
        } else if code == -8 {
            SandboxError::Dup2Failed
        } else if code == -9 {
            SandboxError::SetuidFailed
        } else if code == -10 {
            SandboxError::ExecveFailed
        } else if code == -11 {
            SandboxError::SpjError
        } else {
            SandboxError::UnknownError
        }
    }

    /// The name under which the error is stored and shown.
    pub open spec fn spec_name(self) -> Seq<char> {
        match self {
            SandboxError::Success => "SUCCESS"@,
            SandboxError::InvalidConfig => "INVALID_CONFIG"@,
            SandboxError::CloneFailed => "CLONE_FAILED"@,
            SandboxError::PthreadFailed => "PTHREAD_FAILED"@,
            SandboxError::WaitFailed => "WAIT_FAILED"@,
            SandboxError::RootRequired => "ROOT_REQUIRED"@,
            SandboxError::LoadSeccompFailed => "LOAD_SECCOMP_FAILED"@,
            SandboxError::SetrlimitFailed => "SETRLIMIT_FAILED"@,
            SandboxError::Dup2Failed => "DUP2_FAILED"@,
            SandboxError::SetuidFailed => "SETUID_FAILED"@,
            SandboxError::ExecveFailed => "EXECVE_FAILED"@,
            SandboxError::SpjError => "SPJ_ERROR"@,
            SandboxError::UnknownError => "UNKNOWN_ERROR"@,
        }
    }

    /// The error that the worker means by `code`.
    pub fn from_code(code: i32) -> (e: SandboxError)
        ensures
            e == SandboxError::of_code(code as int),
    {
        match code {
            0 => SandboxError::Success,
            -1 => SandboxError::InvalidConfig,
            -2 => SandboxError::CloneFailed,
            -3 => SandboxError::PthreadFailed,
            -4 => SandboxError::WaitFailed,
            -5 => SandboxError::RootRequired,
            -6 => SandboxError::LoadSeccompFailed,
            -7 => SandboxError::SetrlimitFailed,
            -8 => SandboxError::Dup2Failed,
            -9 => SandboxError::SetuidFailed,
            -10 => SandboxError::ExecveFailed,
            -11 => SandboxError::SpjError,
            _ => SandboxError::UnknownError,
        }
    }

    /// The name under which the error is stored and shown.
    pub fn name(&self) -> (s: String)
        ensures
            s@ == self.spec_name(),
    {
        match self {
            SandboxError::Success => "SUCCESS".to_owned(),
            SandboxError::InvalidConfig => "INVALID_CONFIG".to_owned(),
            SandboxError::CloneFailed => "CLONE_FAILED".to_owned(),
            SandboxError::PthreadFailed => "PTHREAD_FAILED".to_owned(),
            SandboxError::WaitFailed => "WAIT_FAILED".to_owned(),
            SandboxError::RootRequired => "ROOT_REQUIRED".to_owned(),
            SandboxError::LoadSeccompFailed => "LOAD_SECCOMP_FAILED".to_owned(),
            SandboxError::SetrlimitFailed => "SETRLIMIT_FAILED".to_owned(),
            SandboxError::Dup2Failed => "DUP2_FAILED".to_owned(),
            SandboxError::SetuidFailed => "SETUID_FAILED".to_owned(),
            SandboxError::ExecveFailed => "EXECVE_FAILED".to_owned(),
            SandboxError::SpjError => "SPJ_ERROR".to_owned(),
            SandboxError::UnknownError => "UNKNOWN_ERROR".to_owned(),
        }
    }
}

impl CaseOutcome {
    /// The outcome that the worker means by `code`.
    pub open spec fn of_code(code: int) -> CaseOutcome {
        if code == -1 {
            CaseOutcome::WrongAnswer
        } else if code == 0 {
            CaseOutcome::Success
        } else if code == 1 {
            CaseOutcome::CpuTimeLimitExceeded
        } else if code == 2 {
            CaseOutcome::RealTimeLimitExceeded
        } else if code == 3 {
            CaseOutcome::MemoryLimitExceeded
        } else if code == 4 {
            CaseOutcome::RuntimeError
        } else if code == 5 {
            CaseOutcome::SystemError
        } else {
            CaseOutcome::UnknownResult
        }
    }

    /// The name under which the outcome is stored and shown.
    pub open spec fn spec_name(self) -> Seq<char> {
        match self {
            CaseOutcome::WrongAnswer => "WRONG_ANSWER"@,
            CaseOutcome::Success => "SUCCESS"@,
            CaseOutcome::CpuTimeLimitExceeded => "CPU_TIME_LIMIT_EXCEEDED"@,
            CaseOutcome::RealTimeLimitExceeded => "REAL_TIME_LIMIT_EXCEEDED"@,
            CaseOutcome::MemoryLimitExceeded => "MEMORY_LIMIT_EXCEEDED"@,
            CaseOutcome::RuntimeError => "RUNTIME_ERROR"@,
            CaseOutcome::SystemError => "SYSTEM_ERROR"@,
            CaseOutcome::UnknownResult => "UNKNOWN_RESULT"@,
        }
    }

    /// The outcome that the worker means by `code`.
    pub fn from_code(code: i32) -> (o: CaseOutcome)
        ensures
            o == CaseOutcome::of_code(code as int),
    {
        match code {
            -1 => CaseOutcome::WrongAnswer,
            0 => CaseOutcome::Success,
            1 => CaseOutcome::CpuTimeLimitExceeded,
            2 => CaseOutcome::RealTimeLimitExceeded,
            3 => CaseOutcome::MemoryLimitExceeded,
            4 => CaseOutcome::RuntimeError,
            5 => CaseOutcome::SystemError,
            _ => CaseOutcome::UnknownResult,
        }
    }

    /// The name under which the outcome is stored and shown.
    pub fn name(&self) -> (s: String)
        ensures
            s@ == self.spec_name(),
    {
        match self {
            CaseOutcome::WrongAnswer => "WRONG_ANSWER".to_owned(),
            CaseOutcome::Success => "SUCCESS".to_owned(),
            CaseOutcome::CpuTimeLimitExceeded => "CPU_TIME_LIMIT_EXCEEDED".to_owned(),
            CaseOutcome::RealTimeLimitExceeded => "REAL_TIME_LIMIT_EXCEEDED".to_owned(),
            CaseOutcome::MemoryLimitExceeded => "MEMORY_LIMIT_EXCEEDED".to_owned(),
            CaseOutcome::RuntimeError => "RUNTIME_ERROR".to_owned(),
            CaseOutcome::SystemError => "SYSTEM_ERROR".to_owned(),
            CaseOutcome::UnknownResult => "UNKNOWN_RESULT".to_owned(),
        }
    }
}

/// One test case as the worker reports it, its error and outcome still as
/// numbers.
#[derive(Debug)]
pub struct RawJudgeResultData {
    pub cpu_time: i32,
    pub real_time: i32,
    pub memory: i32,
    pub signal: i32,
    pub exit_code: i32,
    pub error: i32,
    pub result: i32,
    pub test_case: String,
    pub output_md5: Option<String>,
    pub output: Option<String>,
}

/// A `RawJudgeResultData` with its texts as sequences of characters.
pub struct RawCaseView {
    pub cpu_time: i32,
    pub real_time: i32,
    pub memory: i32,
    pub signal: i32,
    pub exit_code: i32,
    pub error: i32,
    pub result: i32,
    pub test_case: Seq<char>,
    pub output_md5: Option<Seq<char>>,
    pub output: Option<Seq<char>>,
}

impl View for RawJudgeResultData {
    type V = RawCaseView;

    open spec fn view(&self) -> RawCaseView {
        RawCaseView {
            cpu_time: self.cpu_time,
            real_time: self.real_time,
            memory: self.memory,
            signal: self.signal,
            exit_code: self.exit_code,
            error: self.error,
            result: self.result,
            test_case: self.test_case@,
            output_md5: opt_chars(self.output_md5),
            output: opt_chars(self.output),
        }
    }
}

/// One test case with its error and outcome by name.
#[derive(Debug)]
pub struct JudgeResultData {
    pub cpu_time: i32,
    pub real_time: i32,
    pub memory: i32,
    pub signal: i32,
    pub exit_code: i32,
    pub error: String,
    pub result: String,
    pub test_case: String,
    pub output_md5: Option<String>,
    pub output: Option<String>,
}

/// A `JudgeResultData` with its texts as sequences of characters.
pub struct CaseView {
    pub cpu_time: i32,
    pub real_time: i32,
    pub memory: i32,
    pub signal: i32,
    pub exit_code: i32,
    pub error: Seq<char>,
    pub result: Seq<char>,
    pub test_case: Seq<char>,
    pub output_md5: Option<Seq<char>>,
    pub output: Option<Seq<char>>,
}

impl View for JudgeResultData {
    type V = CaseView;

    open spec fn view(&self) -> CaseView {
        CaseView {
            cpu_time: self.cpu_time,
            real_time: self.real_time,
            memory: self.memory,
            signal: self.signal,
            exit_code: self.exit_code,
            error: self.error@,
            result: self.result@,
            test_case: self.test_case@,
            output_md5: opt_chars(self.output_md5),
            output: opt_chars(self.output),
        }
    }
}

impl RawCaseView {
    /// The case with its error and its outcome looked up by their numbers.
    pub open spec fn decode(self) -> CaseView {
        CaseView {
            cpu_time: self.cpu_time,
            real_time: self.real_time,
            memory: self.memory,
            signal: self.signal,
            exit_code: self.exit_code,
            error: SandboxError::of_code(self.error as int).spec_name(),
            result: CaseOutcome::of_code(self.result as int).spec_name(),
            test_case: self.test_case,
            output_md5: self.output_md5,
            output: self.output,
        }
    }

    /// The case passed.
    pub open spec fn passed(self) -> bool {
        self.result == 0
    }
}

impl Clone for RawJudgeResultData {
    fn clone(&self) -> (c: RawJudgeResultData)
        ensures
            c@ == self@,
    {
        RawJudgeResultData {
            cpu_time: self.cpu_time,
            real_time: self.real_time,
            memory: self.memory,
            signal: self.signal,
            exit_code: self.exit_code,
            error: self.error,
            result: self.result,
            test_case: self.test_case.clone(),
            output_md5: self.output_md5.clone(),
            output: self.output.clone(),
        }
    }
}

impl Clone for JudgeResultData {
    fn clone(&self) -> (c: JudgeResultData)
        ensures
            c@ == self@,
    {
        JudgeResultData {
            cpu_time: self.cpu_time,
            real_time: self.real_time,
            memory: self.memory,
            signal: self.signal,
            exit_code: self.exit_code,
            error: self.error.clone(),
            result: self.result.clone(),
            test_case: self.test_case.clone(),
            output_md5: self.output_md5.clone(),
            output: self.output.clone(),
        }
    }
}

impl JudgeResultData {
    /// Reads one case of the worker's reply: the numbers of its error and of
    /// its outcome become names; everything else is kept.
    pub fn from_raw(raw: &RawJudgeResultData) -> (data: JudgeResultData)
        ensures
            data@ == raw@.decode(),
    {
        JudgeResultData {
            cpu_time: raw.cpu_time,
            real_time: raw.real_time,
            memory: raw.memory,
            signal: raw.signal,
            exit_code: raw.exit_code,
            error: SandboxError::from_code(raw.error).name(),
            result: CaseOutcome::from_code(raw.result).name(),
            test_case: raw.test_case.clone(),
            output_md5: raw.output_md5.clone(),
            output: raw.output.clone(),
        }
    }
}

/// What the worker sends beside `err`.
#[derive(Debug)]
pub enum RawJudgeData {
    /// Why judging failed, in words.
    Reason(String),
    /// The test cases that were run, in the order of the reply.
    Cases(Vec<RawJudgeResultData>),
}

/// The worker's reply to one job. With `err` set the job failed as a whole
/// and `data` is the reason; without it `data` holds the test cases.
#[derive(Debug)]
pub struct RawJudgeResult {
    pub err: Option<String>,
    pub data: RawJudgeData,
}

/// A `RawJudgeData` with its texts as sequences of characters.
pub enum RawJudgeDataView {
    Reason(Seq<char>),
    Cases(Seq<RawCaseView>),
}

/// A `RawJudgeResult` with its texts as sequences of characters.
pub struct RawJudgeResultView {
    pub err: Option<Seq<char>>,
    pub data: RawJudgeDataView,
}

/// The cases of a reply, each with its texts as sequences of characters.
pub open spec fn raw_cases(cases: Seq<RawJudgeResultData>) -> Seq<RawCaseView> {
    cases.map_values(|c: RawJudgeResultData| c@)
}

/// The cases of a result, each with its texts as sequences of characters.
pub open spec fn cases_view(cases: Seq<JudgeResultData>) -> Seq<CaseView> {
    cases.map_values(|c: JudgeResultData| c@)
}

impl View for RawJudgeData {
    type V = RawJudgeDataView;

    open spec fn view(&self) -> RawJudgeDataView {
        match self {
            RawJudgeData::Reason(reason) => RawJudgeDataView::Reason(reason@),
            RawJudgeData::Cases(cases) => RawJudgeDataView::Cases(raw_cases(cases@)),
        }
    }
}

impl View for RawJudgeResult {
    type V = RawJudgeResultView;

    open spec fn view(&self) -> RawJudgeResultView {
        RawJudgeResultView { err: opt_chars(self.err), data: self.data@ }
    }
}

/// What a reply of the worker comes to.
#[derive(Debug)]
pub struct JudgeResult {
    pub err: Option<String>,
    pub err_reason: Option<String>,
    pub is_accepted: Option<bool>,
    pub max_time: Option<i32>,
    pub max_memory: Option<i32>,
    pub details: Option<Vec<JudgeResultData>>,
}

/// A `JudgeResult` with its texts as sequences of characters.
pub struct JudgeResultView {
    pub err: Option<Seq<char>>,
    pub err_reason: Option<Seq<char>>,
    pub is_accepted: Option<bool>,
    pub max_time: Option<i32>,
    pub max_memory: Option<i32>,
    pub details: Option<Seq<CaseView>>,
}

impl View for JudgeResult {
    type V = JudgeResultView;

    open spec fn view(&self) -> JudgeResultView {
        JudgeResultView {
            err: opt_chars(self.err),
            err_reason: opt_chars(self.err_reason),
            is_accepted: self.is_accepted,
            max_time: self.max_time,
            max_memory: self.max_memory,
            details: match self.details {
                Some(details) => Some(cases_view(details@)),
                None => None,
            },
        }
    }
}

/// The largest of `values`, or 0 if there are none.
pub open spec fn max_or_zero(values: Seq<i32>) -> i32
    decreases values.len(),
{
    if values.len() == 0 {
        0
    } else if values.len() == 1 {
        values[0]
    } else {
        let rest = max_or_zero(values.drop_last());
        if values.last() > rest {
            values.last()
        } else {
            rest
        }
    }
}

/// Every case of `cases` passed.
pub open spec fn all_passed(cases: Seq<RawCaseView>) -> bool {
    forall|i: int| 0 <= i < cases.len() ==> (#[trigger] cases[i]).passed()
}

impl RawJudgeResultView {
    /// The reply is one that the worker sends: a reason with an error, test
    /// cases without.
    pub open spec fn well_formed(self) -> bool {
        self.err is Some <==> self.data is Reason
    }

    /// What a well-formed reply comes to.
    ///
    /// A failed job keeps its error and its reason and is neither accepted
    /// nor rejected. A judged job is accepted exactly if every case passed;
    /// its time and memory are the largest that a case took, 0 without cases.
    pub open spec fn decode(self) -> JudgeResultView {
        match self.data {
            RawJudgeDataView::Reason(reason) => JudgeResultView {
                err: self.err,
                err_reason: Some(reason),
                is_accepted: None,
                max_time: None,
                max_memory: None,
                details: None,
            },
            RawJudgeDataView::Cases(cases) => JudgeResultView {
                err: None,
                err_reason: None,
                is_accepted: Some(all_passed(cases)),
                max_time: Some(max_or_zero(cases.map_values(|c: RawCaseView| c.cpu_time))),
                max_memory: Some(max_or_zero(cases.map_values(|c: RawCaseView| c.memory))),
                details: Some(cases.map_values(|c: RawCaseView| c.decode())),
            },
        }
    }
}

impl JudgeResult {
    /// Reads a reply of the worker. A reply that is not well formed (an error
    /// beside test cases, or a bare reason without an error) is refused as an
    /// internal error.
    pub fn from_raw(raw: RawJudgeResult) -> (res: ServiceResult<JudgeResult>)
        ensures
            res is Ok <==> raw@.well_formed(),
            res matches Ok(result) ==> result@ == raw@.decode(),
            res matches Err(e) ==> e@ == ErrorView::InternalServerError,
            raw.err is None && raw@.data is Cases ==> res is Ok && res->Ok_0.is_accepted == Some(
                forall|i: int|
                    0 <= i < raw@.data->Cases_0.len() ==> (#[trigger] raw@.data->Cases_0[i]).result
                        == 0,
            ) && res->Ok_0.details is Some && res->Ok_0.details->Some_0.len()
                == raw@.data->Cases_0.len(),
    {
        proof {
            if raw@.data is Cases {
                lemma_accepted_iff_all_zero(raw@.data->Cases_0);
            }
        }
        match raw.data {
            RawJudgeData::Reason(reason) => {
                if raw.err.is_none() {
                    return Err(ServiceError::InternalServerError);
                }
                Ok(
                    JudgeResult {
                        err: raw.err,
                        err_reason: Some(reason),
                        is_accepted: None,
                        max_time: None,
                        max_memory: None,
                        details: None,
                    },
                )
            },
            RawJudgeData::Cases(cases) => {
                if raw.err.is_some() {
                    return Err(ServiceError::InternalServerError);
                }
                let ghost views = raw_cases(cases@);
                let ghost times = views.map_values(|c: RawCaseView| c.cpu_time);
                let ghost memories = views.map_values(|c: RawCaseView| c.memory);
                let mut is_accepted = true;
                let mut max_time: i32 = 0;
                let mut max_memory: i32 = 0;
                let mut details: Vec<JudgeResultData> = Vec::new();
                let mut i: usize = 0;
                while i < cases.len()
                    invariant
                        i <= cases.len(),
                        views == raw_cases(cases@),
                        times == views.map_values(|c: RawCaseView| c.cpu_time),
                        memories == views.map_values(|c: RawCaseView| c.memory),
                        is_accepted == all_passed(views.take(i as int)),
                        max_time == max_or_zero(times.take(i as int)),
                        max_memory == max_or_zero(memories.take(i as int)),
                        details.len() == i,
                        cases_view(details@) == views.take(i as int).map_values(
                            |c: RawCaseView| c.decode(),
                        ),
                    decreases cases.len() - i,
                {
                    let case = &cases[i];
                    assert(views[i as int] == case@);
                    assert(times.take(i + 1).drop_last() =~= times.take(i as int));
                    assert(memories.take(i + 1).drop_last() =~= memories.take(i as int));
                    assert(times.take(i + 1).last() == case.cpu_time);
                    assert(memories.take(i + 1).last() == case.memory);
                    if case.result != 0 {
                        is_accepted = false;
                    }
                    if i == 0 || case.cpu_time > max_time {
                        max_time = case.cpu_time;
                    }
                    if i == 0 || case.memory > max_memory {
                        max_memory = case.memory;
                    }
                    let ghost before = details@;
                    details.push(JudgeResultData::from_raw(case));
                    assert(cases_view(details@) =~= views.take(i + 1).map_values(
                        |c: RawCaseView| c.decode(),
                    )) by {
                        let decoded = views.take(i as int).map_values(|c: RawCaseView| c.decode());
                        assert forall|k: int| 0 <= k < i + 1 implies cases_view(details@)[k]
                            == views.take(i + 1)[k].decode() by {
                            if k < i {
                                assert(cases_view(before)[k] == decoded[k]);
                                assert(details@[k] == before[k]);
                            }
                        }
                    }
                    assert(all_passed(views.take(i + 1)) == (all_passed(views.take(i as int))
                        && views[i as int].passed())) by {
                        if all_passed(views.take(i as int)) && views[i as int].passed() {
                            assert forall|k: int| 0 <= k < i + 1 implies (#[trigger] views.take(
                                i + 1,
                            )[k]).passed() by {
                                if k < i {
                                    assert(views.take(i as int)[k].passed());
                                }
                            }
                        }
                        if all_passed(views.take(i + 1)) {
                            assert(views.take(i + 1)[i as int].passed());
                            assert forall|k: int| 0 <= k < i implies (#[trigger] views.take(
                                i as int,
                            )[k]).passed() by {
                                assert(views.take(i + 1)[k].passed());
                            }
                        }
                    }
                    i += 1;
                }
                assert(views.take(i as int) =~= views);
                assert(times.take(i as int) =~= times);
                assert(memories.take(i as int) =~= memories);
                Ok(
                    JudgeResult {
                        err: None,
                        err_reason: None,
                        is_accepted: Some(is_accepted),
                        max_time: Some(max_time),
                        max_memory: Some(max_memory),
                        details: Some(details),
                    },
                )
            },
        }
    }
}

/// A reply whose cases all carry the outcome 0 is accepted, and one with any
/// other outcome among its cases is rejected.
pub proof fn lemma_accepted_iff_all_zero(cases: Seq<RawCaseView>)
    ensures
        (RawJudgeResultView { err: None, data: RawJudgeDataView::Cases(cases) }).decode().is_accepted
            == Some(forall|i: int| 0 <= i < cases.len() ==> (#[trigger] cases[i]).result == 0),
{
    assert(all_passed(cases) == (forall|i: int|
        0 <= i < cases.len() ==> (#[trigger] cases[i]).result == 0)) by {
        if all_passed(cases) {
            assert forall|i: int| 0 <= i < cases.len() implies (#[trigger] cases[i]).result == 0 by {
                assert(cases[i].passed());
            }
        }
    }
}

/// A number outside the worker's tables decodes to the name kept for unknown
/// numbers: every number decodes to some name.
pub proof fn lemma_unknown_codes(code: int)
    ensures
        !(-11 <= code <= 0) ==> SandboxError::of_code(code) == SandboxError::UnknownError,
        !(-1 <= code <= 5) ==> CaseOutcome::of_code(code) == CaseOutcome::UnknownResult,
        CaseOutcome::of_code(code) == CaseOutcome::Success <==> code == 0,
        SandboxError::of_code(code) == SandboxError::Success <==> code == 0,
{
}

/// `max_or_zero` of a sequence that is not empty is one of its values and
/// none of them is larger.
pub proof fn lemma_max_or_zero(values: Seq<i32>)
    requires
        values.len() > 0,
    ensures
        values.contains(max_or_zero(values)),
        forall|i: int| 0 <= i < values.len() ==> values[i] <= max_or_zero(values),
    decreases values.len(),
{
    if values.len() == 1 {
        assert(values[0] == max_or_zero(values));
    } else {
        let rest = values.drop_last();
        lemma_max_or_zero(rest);
        let m = max_or_zero(rest);
        let k = choose|k: int| 0 <= k < rest.len() && rest[k] == m;
        assert(values[k] == m);
        assert(values[values.len() - 1] == values.last());
        assert forall|i: int| 0 <= i < values.len() implies values[i] <= max_or_zero(values) by {
            if i < rest.len() {
                assert(rest[i] == values[i]);
            }
        }
    }
}

/// `names` without its repetitions: each name once, in the order in which
/// the names first occur.
pub open spec fn distinct(names: Seq<Seq<char>>) -> Seq<Seq<char>>
    decreases names.len(),
{
    if names.len() == 0 {
        Seq::empty()
    } else {
        let rest = distinct(names.drop_last());
        if rest.contains(names.last()) {
            rest
        } else {
            rest.push(names.last())
        }
    }
}

/// The outcomes seen in `details`, each once, in the order in which they
/// first occur.
pub open spec fn outcomes_seen(details: Seq<CaseView>) -> Seq<Seq<char>> {
    distinct(details.map_values(|c: CaseView| c.result))
}

/// `distinct` keeps every name, adds none, and holds none twice.
pub proof fn lemma_distinct(names: Seq<Seq<char>>)
    ensures
        distinct(names).no_duplicates(),
        forall|name: Seq<char>| distinct(names).contains(name) <==> names.contains(name),
    decreases names.len(),
{
    if names.len() > 0 {
        let front = names.drop_last();
        let last = names.last();
        let rest = distinct(front);
        lemma_distinct(front);
        assert forall|name: Seq<char>| distinct(names).contains(name) <==> names.contains(name) by {
            if names.contains(name) {
                let k = choose|k: int| 0 <= k < names.len() && names[k] == name;
                if k < front.len() {
                    assert(front[k] == name);
                    assert(front.contains(name));
                    assert(rest.contains(name));
                    if !rest.contains(last) {
                        let j = choose|j: int| 0 <= j < rest.len() && rest[j] == name;
                        assert(rest.push(last)[j] == name);
                    }
                } else {
                    assert(name == last);
                    if !rest.contains(last) {
                        assert(rest.push(last)[rest.len() as int] == last);
                    }
                }
            }
            if distinct(names).contains(name) {
                let j = choose|j: int| 0 <= j < distinct(names).len() && distinct(names)[j] == name;
                if rest.contains(last) || j < rest.len() {
                    assert(rest[j] == name);
                    assert(rest.contains(name));
                    assert(front.contains(name));
                    let k = choose|k: int| 0 <= k < front.len() && front[k] == name;
                    assert(names[k] == name);
                } else {
                    assert(name == last);
                    assert(names[names.len() - 1] == name);
                }
            }
        }
        if !rest.contains(last) {
            assert forall|i: int, j: int|
                0 <= i < rest.push(last).len() && 0 <= j < rest.push(last).len() && i != j implies rest.push(
                last,
            )[i] != rest.push(last)[j] by {
                if i < rest.len() && j < rest.len() {
                    assert(rest[i] != rest[j]);
                } else if i < rest.len() {
                    assert(rest.contains(rest[i]));
                } else {
                    assert(rest.contains(rest[j]));
                }
            }
        }
    }
}

/// The outcomes seen in `details`, each once, in the order in which they
/// first occur.
pub fn out_results(details: &Vec<JudgeResultData>) -> (names: Vec<String>)
    ensures
        texts(names@) == outcomes_seen(cases_view(details@)),
{
    let ghost results = cases_view(details@).map_values(|c: CaseView| c.result);
    let mut names: Vec<String> = Vec::new();
    let mut i: usize = 0;
    assert(texts(names@) =~= distinct(results.take(0)));
    while i < details.len()
        invariant
            i <= details.len(),
            results == cases_view(details@).map_values(|c: CaseView| c.result),
            texts(names@) == distinct(results.take(i as int)),
        decreases details.len() - i,
    {
        let name = &details[i].result;
        assert(results.take(i + 1).drop_last() =~= results.take(i as int));
        assert(results.take(i + 1).last() == name@);
        if !contains_text(&names, name) {
            let ghost before = names@;
            names.push(name.clone());
            assert(texts(names@) =~= texts(before).push(name@));
        }
        i += 1;
    }
    assert(results.take(i as int) =~= results);
    names
}

/// One test case handed to the worker in full.
#[derive(Debug)]
pub struct TestCase {
    pub input: String,
    pub output: String,
}

/// The input and the output of each test case of a list.
pub open spec fn test_cases_view(cases: Seq<TestCase>) -> Seq<(Seq<char>, Seq<char>)> {
    cases.map_values(|c: TestCase| (c.input@, c.output@))
}

/// What the worker is told about one job: a snapshot, taken when the
/// submission is made, of everything that decides how it is judged.
#[derive(Debug)]
pub struct JudgeSettings {
    pub language_config: LanguageConfig,
    pub src: String,
    pub max_cpu_time: i32,
    pub max_memory: i32,
    pub test_case_id: Option<String>,
    pub test_case: Option<Vec<TestCase>>,
    pub spj_version: Option<String>,
    pub spj_config: Option<SpjConfig>,
    pub spj_compile_config: Option<SpjCompileConfig>,
    pub spj_src: Option<String>,
    pub output: bool,
}

/// A `JudgeSettings` with its texts as sequences of characters.
pub struct JudgeSettingsView {
    pub language_config: Seq<char>,
    pub src: Seq<char>,
    pub max_cpu_time: i32,
    pub max_memory: i32,
    pub test_case_id: Option<Seq<char>>,
    pub test_case: Option<Seq<(Seq<char>, Seq<char>)>>,
    pub spj_version: Option<Seq<char>>,
    pub spj_config: Option<Seq<char>>,
    pub spj_compile_config: Option<Seq<char>>,
    pub spj_src: Option<Seq<char>>,
    pub output: bool,
}

impl View for JudgeSettings {
    type V = JudgeSettingsView;

    open spec fn view(&self) -> JudgeSettingsView {
        JudgeSettingsView {
            language_config: self.language_config.document@,
            src: self.src@,
            max_cpu_time: self.max_cpu_time,
            max_memory: self.max_memory,
            test_case_id: opt_chars(self.test_case_id),
            test_case: match self.test_case {
                Some(cases) => Some(test_cases_view(cases@)),
                None => None,
            },
            spj_version: opt_chars(self.spj_version),
            spj_config: match self.spj_config {
                Some(config) => Some(config.document@),
                None => None,
            },
            spj_compile_config: match self.spj_compile_config {
                Some(config) => Some(config.document@),
                None => None,
            },
            spj_src: opt_chars(self.spj_src),
            output: self.output,
        }
    }
}

/// Where a submission stands on its way through judging.
#[derive(Debug, Clone, Copy, PartialEq, Eq, Structural)]
pub enum SubmissionState {
    Waiting,
    Judging,
    Done,
}

impl SubmissionState {
    /// The name under which the state is stored.
    pub open spec fn spec_name(self) -> Seq<char> {
        match self {
            SubmissionState::Waiting => "Waiting"@,
            SubmissionState::Judging => "Judging"@,
            SubmissionState::Done => "Done"@,
        }
    }

    /// The name under which the state is stored.
    pub fn name(&self) -> (s: String)
        ensures
            s@ == self.spec_name(),
    {
        match self {
            SubmissionState::Waiting => "Waiting".to_owned(),
            SubmissionState::Judging => "Judging".to_owned(),
            SubmissionState::Done => "Done".to_owned(),
        }
    }

    /// The state stored under `name`, if `name` is the name of one.
    pub fn parse(name: &String) -> (state: Option<SubmissionState>)
        ensures
            state matches Some(s) ==> s.spec_name() == name@,
            state is None ==> forall|s: SubmissionState| s.spec_name() != name@,
    {
        if crate::text::is_word(name, "Waiting") {
            Some(SubmissionState::Waiting)
        } else if crate::text::is_word(name, "Judging") {
            Some(SubmissionState::Judging)
        } else if crate::text::is_word(name, "Done") {
            Some(SubmissionState::Done)
        } else {
            assert forall|s: SubmissionState| s.spec_name() != name@ by {
                match s {
                    SubmissionState::Waiting => {},
                    SubmissionState::Judging => {},
                    SubmissionState::Done => {},
                }
            }
            None
        }
    }
}

/// A submission as the store holds it: settings and result still as text.
#[derive(Debug)]
pub struct RawSubmission {
    pub id: Uuid,
    pub problem_id: i32,
    pub user_id: i32,
    pub region: Option<String>,
    pub state: String,
    pub settings: String,
    pub result: Option<String>,
    pub submit_time: Timestamp,
    pub is_accepted: Option<bool>,
    pub finish_time: Option<Timestamp>,
    pub max_time: Option<i32>,
    pub max_memory: Option<i32>,
    pub language: Option<String>,
    pub err: Option<String>,
    pub out_results: Option<Vec<String>>,
}

/// A `RawSubmission` with its texts as sequences of characters.
pub struct RawSubmissionView {
    pub id: Uuid,
    pub problem_id: i32,
    pub user_id: i32,
    pub region: Option<Seq<char>>,
    pub state: Seq<char>,
    pub settings: Seq<char>,
    pub result: Option<Seq<char>>,
    pub submit_time: Timestamp,
    pub is_accepted: Option<bool>,
    pub finish_time: Option<Timestamp>,
    pub max_time: Option<i32>,
    pub max_memory: Option<i32>,
    pub language: Option<Seq<char>>,
    pub err: Option<Seq<char>>,
    pub out_results: Option<Seq<Seq<char>>>,
}

impl View for RawSubmission {
    type V = RawSubmissionView;

    open spec fn view(&self) -> RawSubmissionView {
        RawSubmissionView {
            id: self.id,
            problem_id: self.problem_id,
            user_id: self.user_id,
            region: opt_chars(self.region),
            state: self.state@,
            settings: self.settings@,
            result: opt_chars(self.result),
            submit_time: self.submit_time,
            is_accepted: self.is_accepted,
            finish_time: self.finish_time,
            max_time: self.max_time,
            max_memory: self.max_memory,
            language: opt_chars(self.language),
            err: opt_chars(self.err),
            out_results: opt_texts(self.out_results),
        }
    }
}

/// The row written when a submission is made.
#[derive(Debug)]
pub struct InsertableSubmission {
    pub id: Uuid,
    pub problem_id: i32,
    pub user_id: i32,
    pub region: Option<String>,
    pub state: String,
    pub settings: String,
    pub result: Option<String>,
    pub submit_time: Timestamp,
    pub is_accepted: Option<bool>,
    pub finish_time: Option<Timestamp>,
    pub max_time: Option<i32>,
    pub max_memory: Option<i32>,
    pub language: Option<String>,
    pub err: Option<String>,
}

/// An `InsertableSubmission` with its texts as sequences of characters.
pub struct InsertableSubmissionView {
    pub id: Uuid,
    pub problem_id: i32,
    pub user_id: i32,
    pub region: Option<Seq<char>>,
    pub state: Seq<char>,
    pub settings: Seq<char>,
    pub result: Option<Seq<char>>,
    pub submit_time: Timestamp,
    pub is_accepted: Option<bool>,
    pub finish_time: Option<Timestamp>,
    pub max_time: Option<i32>,
    pub max_memory: Option<i32>,
    pub language: Option<Seq<char>>,
    pub err: Option<Seq<char>>,
}

impl View for InsertableSubmission {
    type V = InsertableSubmissionView;

    open spec fn view(&self) -> InsertableSubmissionView {
        InsertableSubmissionView {
            id: self.id,
            problem_id: self.problem_id,
            user_id: self.user_id,
            region: opt_chars(self.region),
            state: self.state@,
            settings: self.settings@,
            result: opt_chars(self.result),
            submit_time: self.submit_time,
            is_accepted: self.is_accepted,
            finish_time: self.finish_time,
            max_time: self.max_time,
            max_memory: self.max_memory,
            language: opt_chars(self.language),
            err: opt_chars(self.err),
        }
    }
}

impl InsertableSubmission {
    /// The row of a submission that has just been made: it waits, and nothing
    /// is known yet of how it will be judged.
    pub fn waiting(
        id: Uuid,
        problem_id: i32,
        user_id: i32,
        region: Option<String>,
        settings: String,
        submit_time: Timestamp,
        language: String,
    ) -> (row: InsertableSubmission)
        ensures
            row@ == (InsertableSubmissionView {
                id,
                problem_id,
                user_id,
                region: opt_chars(region),
                state: SubmissionState::Waiting.spec_name(),
                settings: settings@,
                result: None,
                submit_time,
                is_accepted: None,
                finish_time: None,
                max_time: None,
                max_memory: None,
                language: Some(language@),
                err: None,
            }),
    {
        InsertableSubmission {
            id,
            problem_id,
            user_id,
            region,
            state: SubmissionState::Waiting.name(),
            settings,
            result: None,
            submit_time,
            is_accepted: None,
            finish_time: None,
            max_time: None,
            max_memory: None,
            language: Some(language),
            err: None,
        }
    }
}

/// A submission with its settings and its result read.
#[derive(Debug)]
pub struct Submission {
    pub id: Uuid,
    pub problem_id: i32,
    pub user_id: i32,
    pub region: Option<String>,
    pub state: String,
    pub settings: JudgeSettings,
    pub result: Option<JudgeResult>,
    pub submit_time: Timestamp,
    pub is_accepted: Option<bool>,
    pub finish_time: Option<Timestamp>,
    pub max_time: Option<i32>,
    pub max_memory: Option<i32>,
    pub language: Option<String>,
    pub err: Option<String>,
    /// The outcomes seen among the test cases, each once.
    pub out_results: Option<Vec<String>>,
}

/// A `Submission` with its texts as sequences of characters.
pub struct SubmissionView {
    pub id: Uuid,
    pub problem_id: i32,
    pub user_id: i32,
    pub region: Option<Seq<char>>,
    pub state: Seq<char>,
    pub settings: JudgeSettingsView,
    pub result: Option<JudgeResultView>,
    pub submit_time: Timestamp,
    pub is_accepted: Option<bool>,
    pub finish_time: Option<Timestamp>,
    pub max_time: Option<i32>,
    pub max_memory: Option<i32>,
    pub language: Option<Seq<char>>,
    pub err: Option<Seq<char>>,
    pub out_results: Option<Seq<Seq<char>>>,
}

/// The view of an optional result.
pub open spec fn opt_result(o: Option<JudgeResult>) -> Option<JudgeResultView> {
    match o {
        Some(result) => Some(result@),
        None => None,
    }
}

/// The outcomes seen in a result, each once; nothing where there is no
/// result or where the result holds no test cases.
pub open spec fn outcomes_of(result: Option<JudgeResultView>) -> Option<Seq<Seq<char>>> {
    match result {
        Some(r) => match r.details {
            Some(details) => Some(outcomes_seen(details)),
            None => None,
        },
        None => None,
    }
}

impl View for Submission {
    type V = SubmissionView;

    open spec fn view(&self) -> SubmissionView {
        SubmissionView {
            id: self.id,
            problem_id: self.problem_id,
            user_id: self.user_id,
            region: opt_chars(self.region),
            state: self.state@,
            settings: self.settings@,
            result: opt_result(self.result),
            submit_time: self.submit_time,
            is_accepted: self.is_accepted,
            finish_time: self.finish_time,
            max_time: self.max_time,
            max_memory: self.max_memory,
            language: opt_chars(self.language),
            err: opt_chars(self.err),
            out_results: opt_texts(self.out_results),
        }
    }
}

impl SubmissionView {
    /// No outcome stands twice in `out_results`.
    pub open spec fn well_formed(self) -> bool {
        self.out_results matches Some(names) ==> names.no_duplicates()
    }
}

impl RawSubmissionView {
    /// The submission that this row describes, once its settings have been
    /// read as `settings` and its result, where it has one, as `result`. The
    /// outcomes are those seen in the result, not those of the row.
    pub open spec fn read(self, settings: JudgeSettingsView, result: Option<JudgeResultView>) -> SubmissionView {
        SubmissionView {
            id: self.id,
            problem_id: self.problem_id,
            user_id: self.user_id,
            region: self.region,
            state: self.state,
            settings,
            result,
            submit_time: self.submit_time,
            is_accepted: self.is_accepted,
            finish_time: self.finish_time,
            max_time: self.max_time,
            max_memory: self.max_memory,
            language: self.language,
            err: self.err,
            out_results: outcomes_of(result),
        }
    }

    /// The submission as a list shows it: without a user name yet, and with
    /// the outcomes seen in `result`.
    pub open spec fn slim(self, result: Option<JudgeResultView>) -> SlimSubmissionView {
        SlimSubmissionView {
            id: self.id,
            problem_id: self.problem_id,
            user_id: self.user_id,
            username: Seq::empty(),
            state: self.state,
            submit_time: self.submit_time,
            is_accepted: self.is_accepted,
            out_results: outcomes_of(result),
            max_time: self.max_time,
            max_memory: self.max_memory,
            language: self.language,
            err: self.err,
        }
    }
}

/// The outcomes seen in `result`, each once.
fn outcomes(result: &Option<JudgeResult>) -> (names: Option<Vec<String>>)
    ensures
        opt_texts(names) == outcomes_of(opt_result(*result)),
{
    match result {
        Some(r) => match &r.details {
            Some(details) => Some(out_results(details)),
            None => None,
        },
        None => None,
    }
}

impl Submission {
    /// The submission that the row `raw` describes. `settings` is what the
    /// text `raw.settings` reads as, and `result` what `raw.result` reads as.
    pub fn from_raw(raw: RawSubmission, settings: JudgeSettings, result: Option<JudgeResult>) -> (submission:
        Submission)
        ensures
            submission@ == raw@.read(settings@, opt_result(result)),
            submission@.well_formed(),
    {
        let out_results = outcomes(&result);
        proof {
            if let Some(r) = opt_result(result) {
                if let Some(details) = r.details {
                    lemma_distinct(details.map_values(|c: CaseView| c.result));
                }
            }
        }
        Submission {
            id: raw.id,
            problem_id: raw.problem_id,
            user_id: raw.user_id,
            region: raw.region,
            state: raw.state,
            settings,
            result,
            submit_time: raw.submit_time,
            is_accepted: raw.is_accepted,
            finish_time: raw.finish_time,
            max_time: raw.max_time,
            max_memory: raw.max_memory,
            language: raw.language,
            err: raw.err,
            out_results,
        }
    }
}

/// A submission as a list of submissions shows it.
#[derive(Debug)]
pub struct SlimSubmission {
    pub id: Uuid,
    pub problem_id: i32,
    pub user_id: i32,
    pub username: String,
    pub state: String,
    pub submit_time: Timestamp,
    pub is_accepted: Option<bool>,
    /// The outcomes seen among the test cases, each once.
    pub out_results: Option<Vec<String>>,
    pub max_time: Option<i32>,
    pub max_memory: Option<i32>,
    pub language: Option<String>,
    pub err: Option<String>,
}

/// A `SlimSubmission` with its texts as sequences of characters.
pub struct SlimSubmissionView {
    pub id: Uuid,
    pub problem_id: i32,
    pub user_id: i32,
    pub username: Seq<char>,
    pub state: Seq<char>,
    pub submit_time: Timestamp,
    pub is_accepted: Option<bool>,
    pub out_results: Option<Seq<Seq<char>>>,
    pub max_time: Option<i32>,
    pub max_memory: Option<i32>,
    pub language: Option<Seq<char>>,
    pub err: Option<Seq<char>>,
}

impl View for SlimSubmission {
    type V = SlimSubmissionView;

    open spec fn view(&self) -> SlimSubmissionView {
        SlimSubmissionView {
            id: self.id,
            problem_id: self.problem_id,
            user_id: self.user_id,
            username: self.username@,
            state: self.state@,
            submit_time: self.submit_time,
            is_accepted: self.is_accepted,
            out_results: opt_texts(self.out_results),
            max_time: self.max_time,
            max_memory: self.max_memory,
            language: opt_chars(self.language),
            err: opt_chars(self.err),
        }
    }
}

impl SlimSubmission {
    /// The row `raw` as a list shows it. `result` is what the text
    /// `raw.result` reads as. The user name is left empty.
    pub fn from_raw(raw: RawSubmission, result: Option<JudgeResult>) -> (slim: SlimSubmission)
        ensures
            slim@ == raw@.slim(opt_result(result)),
    {
        let out_results = outcomes(&result);
        SlimSubmission {
            id: raw.id,
            problem_id: raw.problem_id,
            user_id: raw.user_id,
            username: String::new(),
            state: raw.state,
            submit_time: raw.submit_time,
            is_accepted: raw.is_accepted,
            out_results,
            max_time: raw.max_time,
            max_memory: raw.max_memory,
            language: raw.language,
            err: raw.err,
        }
    }
}

} // verus!
