use judge_backend::errors::ServiceError;
use judge_backend::models::languages::{high_performance, LanguageConfig, SpjCompileConfig, SpjConfig};
use judge_backend::models::problems::ProblemSettings;
use judge_backend::models::submissions::{
    InsertableSubmission, JudgeResult, JudgeSettings, RawJudgeData, RawJudgeResult, RawJudgeResultData,
    RawSubmission, SlimSubmission, Submission, SubmissionState,
};
use judge_backend::models::users::User;
use judge_backend::services::region::create_submission;
use judge_backend::services::submission::{create, get_list, judge_settings, SpecialJudge, WaitingQueue};
use judge_backend::time::Timestamp;
use uuid::Uuid;

fn problem(is_spj: bool, opaque_output: bool) -> ProblemSettings {
    ProblemSettings {
        is_spj,
        high_performance_max_cpu_time: 1000,
        high_performance_max_memory: 64,
        other_max_cpu_time: 3000,
        other_max_memory: 256,
        opaque_output,
        test_case_count: Some(3),
    }
}

fn config(name: &str) -> LanguageConfig {
    LanguageConfig { document: format!("{{\"lang\":\"{}\"}}", name) }
}

fn special_judge() -> SpecialJudge {
    SpecialJudge {
        config: SpjConfig { document: "run".to_string() },
        compile_config: SpjCompileConfig { document: "compile".to_string() },
        src: "int main(){}".to_string(),
    }
}

fn settings_for(language: &str, is_spj: bool, spj: Option<SpecialJudge>) -> Result<JudgeSettings, ServiceError> {
    judge_settings(17, &problem(is_spj, false), "code".to_string(), &language.to_string(), config(language), spj)
}

#[test]
fn other_languages_get_the_other_tier() {
    for language in ["python", "java", "rust", "C", "c++", "cpp ", ""] {
        let s = settings_for(language, false, None).unwrap();
        assert_eq!(s.max_cpu_time, 3000);
        assert_eq!(s.max_memory, 256);
    }
}

#[test]
fn native_languages_get_the_high_performance_tier() {
    for language in ["c", "cpp"] {
        let s = settings_for(language, false, None).unwrap();
        assert_eq!(s.max_cpu_time, 1000);
        assert_eq!(s.max_memory, 64);
        assert!(high_performance(&language.to_string()));
    }
    assert!(!high_performance(&"python".to_string()));
}

#[test]
fn snapshot_fields() {
    let s = settings_for("python", false, Some(special_judge())).unwrap();
    assert_eq!(s.src, "code");
    assert_eq!(s.language_config.document, "{\"lang\":\"python\"}");
    assert_eq!(s.test_case_id, Some("17".to_string()));
    assert!(s.test_case.is_none());
    assert_eq!(s.spj_version, Some("1".to_string()));
    assert!(s.spj_config.is_none());
    assert!(s.spj_compile_config.is_none());
    assert_eq!(s.spj_src, None);
    assert!(s.output);
}

#[test]
fn output_flag_is_inverted() {
    let open = judge_settings(1, &problem(false, false), String::new(), &"c".to_string(), config("c"), None);
    assert!(open.unwrap().output);
    let opaque = judge_settings(1, &problem(false, true), String::new(), &"c".to_string(), config("c"), None);
    assert!(!opaque.unwrap().output);
}

#[test]
fn special_judge_is_handed_on() {
    let s = settings_for("cpp", true, Some(special_judge())).unwrap();
    assert_eq!(s.spj_config.unwrap().document, "run");
    assert_eq!(s.spj_compile_config.unwrap().document, "compile");
    assert_eq!(s.spj_src, Some("int main(){}".to_string()));
}

#[test]
fn missing_special_judge_fails_closed() {
    assert!(matches!(settings_for("cpp", true, None), Err(ServiceError::InternalServerError)));
    let res = create(true, 17, &problem(true, false), String::new(), &"c".to_string(), config("c"), None);
    assert!(matches!(res, Err(ServiceError::InternalServerError)));
}

#[test]
fn negative_problem_ids_name_their_test_cases() {
    let s = judge_settings(-40, &problem(false, false), String::new(), &"c".to_string(), config("c"), None);
    assert_eq!(s.unwrap().test_case_id, Some("-40".to_string()));
}

#[test]
fn create_draws_distinct_ids() {
    let a = create(true, 1, &problem(false, false), "x".to_string(), &"c".to_string(), config("c"), None).unwrap();
    let b = create(true, 1, &problem(false, false), "x".to_string(), &"c".to_string(), config("c"), None).unwrap();
    assert_ne!(a.id, b.id);
    assert_eq!(a.settings.max_cpu_time, 1000);
    assert_eq!(a.settings.src, "x");
}

#[test]
fn create_refuses_unreleased_problems() {
    let res = create(false, 1, &problem(false, false), "x".to_string(), &"c".to_string(), config("c"), None);
    match res {
        Err(ServiceError::BadRequest(h)) => assert_eq!(h, "Problem is not released."),
        other => panic!("expected a bad request, got {:?}", other),
    }
    let res = create(false, 1, &problem(true, false), String::new(), &"c".to_string(), config("c"), None);
    assert!(matches!(res, Err(ServiceError::BadRequest(_))));
    let res = create(false, 1, &problem(true, false), String::new(), &"c".to_string(), config("c"), Some(special_judge()));
    assert!(matches!(res, Err(ServiceError::BadRequest(_))));
    let res = create(true, 1, &problem(true, false), String::new(), &"c".to_string(), config("c"), Some(special_judge()));
    assert!(res.is_ok());
}

#[test]
fn unreleased_problem_takes_no_submission() {
    let res = create_submission(false, 1, &problem(false, false), String::new(), &"c".to_string(), config("c"), None);
    match res {
        Err(ServiceError::BadRequest(h)) => assert_eq!(h, "Problem is not released."),
        other => panic!("expected a bad request, got {:?}", other),
    }
    let res = create_submission(false, 1, &problem(true, false), String::new(), &"c".to_string(), config("c"), None);
    assert!(matches!(res, Err(ServiceError::BadRequest(_))));
}

#[test]
fn released_problem_with_other_tier() {
    let res = create_submission(
        true,
        5,
        &problem(false, false),
        "print(1)".to_string(),
        &"python".to_string(),
        config("python"),
        None,
    )
    .unwrap();
    assert_eq!(res.settings.max_cpu_time, 3000);
    assert_ne!(res.settings.max_cpu_time, 1000);
    assert_eq!(res.settings.max_memory, 256);
    assert_eq!(res.settings.test_case_id, Some("5".to_string()));
}

#[test]
fn waiting_row() {
    let id = Uuid::from_u128(7);
    let row = InsertableSubmission::waiting(
        id,
        5,
        42,
        Some("cup".to_string()),
        "{}".to_string(),
        Timestamp::new(100, 5),
        "python".to_string(),
    );
    assert_eq!(row.id, id);
    assert_eq!(row.problem_id, 5);
    assert_eq!(row.user_id, 42);
    assert_eq!(row.region, Some("cup".to_string()));
    assert_eq!(row.state, "Waiting");
    assert_eq!(row.settings, "{}");
    assert_eq!(row.result, None);
    assert_eq!(row.submit_time, Timestamp::new(100, 5));
    assert_eq!(row.is_accepted, None);
    assert_eq!(row.finish_time, None);
    assert_eq!(row.max_time, None);
    assert_eq!(row.max_memory, None);
    assert_eq!(row.language, Some("python".to_string()));
    assert_eq!(row.err, None);
}

#[test]
fn queue_is_first_in_first_out() {
    let mut q = WaitingQueue::new();
    assert!(q.is_empty());
    assert_eq!(q.pop_front(), None);
    let ids: Vec<Uuid> = (1..=5u128).map(Uuid::from_u128).collect();
    for id in &ids {
        q.push_back(*id);
    }
    assert_eq!(q.len(), 5);
    assert_eq!(q.pop_front(), Some(ids[0]));
    assert_eq!(q.pop_front(), Some(ids[1]));
    q.push_back(ids[0]);
    assert_eq!(q.len(), 4);
    assert_eq!(q.pop_front(), Some(ids[2]));
    assert_eq!(q.pop_front(), Some(ids[3]));
    assert_eq!(q.pop_front(), Some(ids[4]));
    assert_eq!(q.pop_front(), Some(ids[0]));
    assert_eq!(q.pop_front(), None);
    assert!(q.is_empty());
}

#[test]
fn submission_states() {
    assert_eq!(SubmissionState::Waiting.name(), "Waiting");
    assert_eq!(SubmissionState::Judging.name(), "Judging");
    assert_eq!(SubmissionState::Done.name(), "Done");
    assert_eq!(SubmissionState::parse(&"Judging".to_string()), Some(SubmissionState::Judging));
    assert_eq!(SubmissionState::parse(&"Waiting".to_string()), Some(SubmissionState::Waiting));
    assert_eq!(SubmissionState::parse(&"Done".to_string()), Some(SubmissionState::Done));
    assert_eq!(SubmissionState::parse(&"done".to_string()), None);
}

fn raw_submission(user_id: i32) -> RawSubmission {
    RawSubmission {
        id: Uuid::from_u128(3),
        problem_id: 5,
        user_id,
        region: Some("cup".to_string()),
        state: "Done".to_string(),
        settings: "{}".to_string(),
        result: Some("{}".to_string()),
        submit_time: Timestamp::new(10, 0),
        is_accepted: Some(false),
        finish_time: Some(Timestamp::new(12, 0)),
        max_time: Some(4),
        max_memory: Some(8),
        language: Some("c".to_string()),
        err: None,
        out_results: Some(vec!["STALE".to_string()]),
    }
}

fn case(result: i32) -> RawJudgeResultData {
    RawJudgeResultData {
        cpu_time: 1,
        real_time: 1,
        memory: 1,
        signal: 0,
        exit_code: 0,
        error: 0,
        result,
        test_case: "1".to_string(),
        output_md5: None,
        output: None,
    }
}

fn result(codes: &[i32]) -> JudgeResult {
    let cases = codes.iter().map(|c| case(*c)).collect();
    JudgeResult::from_raw(RawJudgeResult { err: None, data: RawJudgeData::Cases(cases) }).unwrap()
}

#[test]
fn submission_from_raw() {
    let settings = judge_settings(5, &problem(false, false), "x".to_string(), &"c".to_string(), config("c"), None)
        .unwrap();
    let s = Submission::from_raw(raw_submission(42), settings, Some(result(&[0, 1, 0, 1, -1])));
    assert_eq!(s.id, Uuid::from_u128(3));
    assert_eq!(s.problem_id, 5);
    assert_eq!(s.user_id, 42);
    assert_eq!(s.region, Some("cup".to_string()));
    assert_eq!(s.state, "Done");
    assert_eq!(s.settings.src, "x");
    assert_eq!(s.is_accepted, Some(false));
    assert_eq!(s.max_time, Some(4));
    assert_eq!(s.finish_time, Some(Timestamp::new(12, 0)));
    assert_eq!(
        s.out_results,
        Some(vec!["SUCCESS".to_string(), "CPU_TIME_LIMIT_EXCEEDED".to_string(), "WRONG_ANSWER".to_string()])
    );
    assert_eq!(s.result.unwrap().is_accepted, Some(false));
}

#[test]
fn submission_without_result_has_no_outcomes() {
    let settings = judge_settings(5, &problem(false, false), "x".to_string(), &"c".to_string(), config("c"), None)
        .unwrap();
    let s = Submission::from_raw(raw_submission(42), settings, None);
    assert_eq!(s.out_results, None);
    let failed = JudgeResult::from_raw(RawJudgeResult {
        err: Some("E".to_string()),
        data: RawJudgeData::Reason("r".to_string()),
    })
    .unwrap();
    let slim = SlimSubmission::from_raw(raw_submission(42), Some(failed));
    assert_eq!(slim.out_results, None);
}

#[test]
fn slim_submission_from_raw() {
    let slim = SlimSubmission::from_raw(raw_submission(42), Some(result(&[3, 3])));
    assert_eq!(slim.username, "");
    assert_eq!(slim.user_id, 42);
    assert_eq!(slim.problem_id, 5);
    assert_eq!(slim.state, "Done");
    assert_eq!(slim.out_results, Some(vec!["MEMORY_LIMIT_EXCEEDED".to_string()]));
    assert_eq!(slim.max_memory, Some(8));
    assert_eq!(slim.language, Some("c".to_string()));
}

fn user(id: i32, name: &str) -> User {
    User {
        id,
        salt: None,
        hash: None,
        username: name.to_string(),
        email: format!("{}@example.org", name),
        role: "student".to_string(),
        real_name: None,
        school: None,
        student_number: None,
        profile_picture: "{}".to_string(),
        reset_password_token_hash: None,
        reset_password_token_expiration_time: None,
    }
}

#[test]
fn list_fills_in_user_names() {
    let rows = vec![
        SlimSubmission::from_raw(raw_submission(1), None),
        SlimSubmission::from_raw(raw_submission(2), None),
        SlimSubmission::from_raw(raw_submission(3), None),
        SlimSubmission::from_raw(raw_submission(1), None),
    ];
    let users = vec![user(1, "ann"), user(3, "old"), user(3, "cy")];
    let page = get_list(40, rows, &users);
    assert_eq!(page.total, 40);
    let names: Vec<&str> = page.list.iter().map(|s| s.username.as_str()).collect();
    assert_eq!(names, vec!["ann", "", "cy", "ann"]);
    let ids: Vec<i32> = page.list.iter().map(|s| s.user_id).collect();
    assert_eq!(ids, vec![1, 2, 3, 1]);
}
