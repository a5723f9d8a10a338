use judge_backend::errors::ServiceError;
use judge_backend::models::submissions::{
    out_results, CaseOutcome, JudgeResult, JudgeResultData, RawJudgeData, RawJudgeResult,
    RawJudgeResultData, SandboxError,
};

fn case(result: i32, error: i32, cpu_time: i32, memory: i32) -> RawJudgeResultData {
    RawJudgeResultData {
        cpu_time,
        real_time: cpu_time + 1,
        memory,
        signal: 0,
        exit_code: 0,
        error,
        result,
        test_case: "1".to_string(),
        output_md5: Some("abc".to_string()),
        output: None,
    }
}

fn judged(cases: Vec<RawJudgeResultData>) -> JudgeResult {
    JudgeResult::from_raw(RawJudgeResult { err: None, data: RawJudgeData::Cases(cases) }).unwrap()
}

#[test]
fn all_zero_results_are_accepted() {
    let r = judged(vec![case(0, 0, 10, 100), case(0, 0, 30, 50), case(0, 0, 20, 70)]);
    assert_eq!(r.is_accepted, Some(true));
    assert_eq!(r.err, None);
    assert_eq!(r.err_reason, None);
    assert_eq!(r.max_time, Some(30));
    assert_eq!(r.max_memory, Some(100));
    assert_eq!(r.details.as_ref().unwrap().len(), 3);
}

#[test]
fn any_non_zero_result_is_rejected() {
    for code in [-1, 1, 2, 3, 4, 5, 77, i32::MIN, i32::MAX] {
        let r = judged(vec![case(0, 0, 1, 1), case(code, 0, 1, 1), case(0, 0, 1, 1)]);
        assert_eq!(r.is_accepted, Some(false));
        let r = judged(vec![case(code, 0, 1, 1)]);
        assert_eq!(r.is_accepted, Some(false));
    }
}

#[test]
fn sandbox_error_does_not_decide_acceptance() {
    let r = judged(vec![case(0, -3, 1, 1)]);
    assert_eq!(r.is_accepted, Some(true));
    assert_eq!(r.details.unwrap()[0].error, "PTHREAD_FAILED");
}

#[test]
fn empty_case_list() {
    let r = judged(vec![]);
    assert_eq!(r.is_accepted, Some(true));
    assert_eq!(r.max_time, Some(0));
    assert_eq!(r.max_memory, Some(0));
    assert_eq!(r.details.unwrap().len(), 0);
}

#[test]
fn maxima_of_negative_values() {
    let r = judged(vec![case(0, 0, -5, -7), case(0, 0, -2, -9)]);
    assert_eq!(r.max_time, Some(-2));
    assert_eq!(r.max_memory, Some(-7));
}

#[test]
fn failed_job_keeps_reason_and_is_undetermined() {
    let raw = RawJudgeResult {
        err: Some("CompileError".to_string()),
        data: RawJudgeData::Reason("missing semicolon".to_string()),
    };
    let r = JudgeResult::from_raw(raw).unwrap();
    assert_eq!(r.err, Some("CompileError".to_string()));
    assert_eq!(r.err_reason, Some("missing semicolon".to_string()));
    assert_eq!(r.is_accepted, None);
    assert_eq!(r.max_time, None);
    assert_eq!(r.max_memory, None);
    assert!(r.details.is_none());
}

#[test]
fn malformed_replies_are_internal_errors() {
    let raw = RawJudgeResult { err: None, data: RawJudgeData::Reason("why".to_string()) };
    assert!(matches!(JudgeResult::from_raw(raw), Err(ServiceError::InternalServerError)));
    let raw = RawJudgeResult {
        err: Some("E".to_string()),
        data: RawJudgeData::Cases(vec![case(0, 0, 1, 1)]),
    };
    assert!(matches!(JudgeResult::from_raw(raw), Err(ServiceError::InternalServerError)));
}

#[test]
fn error_code_table() {
    let table = [
        (0, "SUCCESS"),
        (-1, "INVALID_CONFIG"),
        (-2, "CLONE_FAILED"),
        (-3, "PTHREAD_FAILED"),
        (-4, "WAIT_FAILED"),
        (-5, "ROOT_REQUIRED"),
        (-6, "LOAD_SECCOMP_FAILED"),
        (-7, "SETRLIMIT_FAILED"),
        (-8, "DUP2_FAILED"),
        (-9, "SETUID_FAILED"),
        (-10, "EXECVE_FAILED"),
        (-11, "SPJ_ERROR"),
        (-12, "UNKNOWN_ERROR"),
        (1, "UNKNOWN_ERROR"),
        (i32::MIN, "UNKNOWN_ERROR"),
        (i32::MAX, "UNKNOWN_ERROR"),
    ];
    for (code, name) in table {
        assert_eq!(SandboxError::from_code(code).name(), name);
        assert_eq!(JudgeResultData::from_raw(&case(0, code, 0, 0)).error, name);
    }
}

#[test]
fn result_code_table() {
    let table = [
        (-1, "WRONG_ANSWER"),
        (0, "SUCCESS"),
        (1, "CPU_TIME_LIMIT_EXCEEDED"),
        (2, "REAL_TIME_LIMIT_EXCEEDED"),
        (3, "MEMORY_LIMIT_EXCEEDED"),
        (4, "RUNTIME_ERROR"),
        (5, "SYSTEM_ERROR"),
        (6, "UNKNOWN_RESULT"),
        (-2, "UNKNOWN_RESULT"),
        (i32::MIN, "UNKNOWN_RESULT"),
        (i32::MAX, "UNKNOWN_RESULT"),
    ];
    for (code, name) in table {
        assert_eq!(CaseOutcome::from_code(code).name(), name);
        assert_eq!(JudgeResultData::from_raw(&case(code, 0, 0, 0)).result, name);
    }
    assert_eq!(CaseOutcome::from_code(6), CaseOutcome::UnknownResult);
    assert_eq!(SandboxError::from_code(9), SandboxError::UnknownError);
}

#[test]
fn case_fields_are_kept() {
    let raw = RawJudgeResultData {
        cpu_time: 11,
        real_time: 12,
        memory: 13,
        signal: 14,
        exit_code: 15,
        error: -5,
        result: 3,
        test_case: "7".to_string(),
        output_md5: Some("md5".to_string()),
        output: Some("out".to_string()),
    };
    let d = JudgeResultData::from_raw(&raw);
    assert_eq!(d.cpu_time, 11);
    assert_eq!(d.real_time, 12);
    assert_eq!(d.memory, 13);
    assert_eq!(d.signal, 14);
    assert_eq!(d.exit_code, 15);
    assert_eq!(d.error, "ROOT_REQUIRED");
    assert_eq!(d.result, "MEMORY_LIMIT_EXCEEDED");
    assert_eq!(d.test_case, "7");
    assert_eq!(d.output_md5, Some("md5".to_string()));
    assert_eq!(d.output, Some("out".to_string()));
}

#[test]
fn details_keep_the_order_of_the_reply() {
    let r = judged(vec![case(0, 0, 3, 1), case(-1, 0, 1, 1), case(4, 0, 2, 1)]);
    let details = r.details.unwrap();
    let names: Vec<&str> = details.iter().map(|d| d.result.as_str()).collect();
    assert_eq!(names, vec!["SUCCESS", "WRONG_ANSWER", "RUNTIME_ERROR"]);
    let times: Vec<i32> = details.iter().map(|d| d.cpu_time).collect();
    assert_eq!(times, vec![3, 1, 2]);
}

#[test]
fn outcomes_are_listed_once_in_first_seen_order() {
    let r = judged(vec![
        case(0, 0, 1, 1),
        case(-1, 0, 1, 1),
        case(0, 0, 1, 1),
        case(9, 0, 1, 1),
        case(-1, 0, 1, 1),
        case(10, 0, 1, 1),
    ]);
    let names = out_results(r.details.as_ref().unwrap());
    assert_eq!(names, vec!["SUCCESS", "WRONG_ANSWER", "UNKNOWN_RESULT"]);
    assert_eq!(out_results(&vec![]), Vec::<String>::new());
}
