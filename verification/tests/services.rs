use judge_backend::auth::role::{
    may_create_user, may_list_announcements, may_read_submission, may_reset_by_old_password,
    may_update_user, require_login, require_self_or_staff, require_staff, runs_site,
};
use judge_backend::errors::ServiceError;
use judge_backend::models::announcements::{Announcement, OutAnnouncement};
use judge_backend::models::groups::{Group, OutGroup};
use judge_backend::models::problem_tags::ProblemTag;
use judge_backend::models::statistics::{get_results, Verdict};
use judge_backend::models::users::{
    AuthConfig, BatchCreateUserBody, InsertableUser, LoggedUser, OutUser, ProfilePicture, SlimUser, User,
    UserSubmissionTime,
};
use judge_backend::services::contest::PasswordHash;
use judge_backend::services::problem_tag::{apply_changes, delete as delete_tag, tag_names};
use judge_backend::services::region::{
    column_order, get_self_type, is_accepted_by, region_link, renumber_after_delete, ColumnOrder,
    DifficultyBand, InnerIds,
};
use judge_backend::services::user::{
    check_reset_interval, day_of, get_permitted_methods, get_submissions_time, login, new_reset_token,
    reset_password_by_email_token, reset_password_by_old_password, token_expiration, update,
};
use judge_backend::text::{contains_text, i32_to_string, is_word, like_pattern, opt_like_pattern, same_bytes};
use judge_backend::time::Timestamp;

fn at(secs: i64) -> Timestamp {
    Timestamp::new(secs, 0)
}

fn logged(id: i32, role: &str) -> LoggedUser {
    LoggedUser(Some(SlimUser { id, role: role.to_string() }))
}

fn bad_request<T: std::fmt::Debug>(res: Result<T, ServiceError>) -> String {
    match res {
        Err(ServiceError::BadRequest(h)) => h,
        other => panic!("expected a bad request, got {:?}", other),
    }
}

fn user(id: i32, hash: Option<Vec<u8>>) -> User {
    User {
        id,
        salt: Some("salt".to_string()),
        hash,
        username: "ann".to_string(),
        email: "ann@example.org".to_string(),
        role: "teacher".to_string(),
        real_name: Some("Ann".to_string()),
        school: None,
        student_number: Some("007".to_string()),
        profile_picture: "{}".to_string(),
        reset_password_token_hash: None,
        reset_password_token_expiration_time: None,
    }
}

#[test]
fn like_patterns() {
    assert_eq!(like_pattern("two sum"), "%two%sum%");
    assert_eq!(like_pattern(""), "%%");
    assert_eq!(like_pattern("a"), "%a%");
    assert_eq!(like_pattern("  x "), "%%%x%%");
    assert_eq!(like_pattern("数 组"), "%数%组%");
    assert_eq!(like_pattern("50%"), "%50%%");
    assert_eq!(opt_like_pattern(Some("a b".to_string())), Some("%a%b%".to_string()));
    assert_eq!(opt_like_pattern(None), None);
}

#[test]
fn integers_in_base_ten() {
    for n in [0, 1, 9, 10, 11, 99, 100, 12345, -1, -10, -999, i32::MAX, i32::MIN, 1000000, -2147483647] {
        assert_eq!(i32_to_string(n), n.to_string());
    }
}

#[test]
fn text_helpers() {
    assert!(is_word(&"user".to_string(), "user"));
    assert!(!is_word(&"users".to_string(), "user"));
    assert!(!is_word(&"".to_string(), "user"));
    assert!(same_bytes(&vec![], &vec![]));
    assert!(same_bytes(&vec![1, 2], &vec![1, 2]));
    assert!(!same_bytes(&vec![1, 2], &vec![2, 1]));
    assert!(!same_bytes(&vec![1], &vec![1, 1]));
    let list = vec!["a".to_string(), "b".to_string()];
    assert!(contains_text(&list, &"b".to_string()));
    assert!(!contains_text(&list, &"c".to_string()));
}

#[test]
fn error_messages() {
    assert_eq!(ServiceError::bad_request("no").message(), "no");
    assert_eq!(ServiceError::unauthorized_with_hint("why").message(), "why");
    assert_eq!(ServiceError::InternalServerErrorWithHint("x".to_string()).message(), "x");
    assert_eq!(ServiceError::InternalServerError.message(), "Internal Server Error");
    assert_eq!(ServiceError::Unauthorized.message(), "Unauthorized");
    assert_eq!(ServiceError::NotFound.message(), "Not Found");
    assert_eq!(ServiceError::BadRequest("a".to_string()).clone().message(), "a");
}

#[test]
fn staff_checks() {
    assert!(runs_site(&"sup".to_string()));
    assert!(runs_site(&"admin".to_string()));
    assert!(!runs_site(&"super".to_string()));
    assert!(!runs_site(&"teacher".to_string()));
    assert!(require_login(&logged(1, "student")).is_ok());
    assert!(matches!(require_login(&LoggedUser(None)), Err(ServiceError::Unauthorized)));
    assert!(require_staff(&logged(1, "sup")).is_ok());
    assert!(require_staff(&logged(1, "admin")).is_ok());
    assert_eq!(bad_request(require_staff(&logged(1, "teacher"))), "No permission.");
    assert!(matches!(require_staff(&LoggedUser(None)), Err(ServiceError::Unauthorized)));
    assert!(require_self_or_staff(&logged(1, "student"), 1).is_ok());
    assert!(require_self_or_staff(&logged(2, "admin"), 1).is_ok());
    assert_eq!(bad_request(require_self_or_staff(&logged(2, "student"), 1)), "No permission.");
    assert!(matches!(require_self_or_staff(&LoggedUser(None), 1), Err(ServiceError::Unauthorized)));
}

#[test]
fn who_may_create_users() {
    assert!(may_create_user(&LoggedUser(None), &"student".to_string()).is_ok());
    assert!(matches!(may_create_user(&LoggedUser(None), &"admin".to_string()), Err(ServiceError::Unauthorized)));
    assert!(may_create_user(&logged(1, "sup"), &"admin".to_string()).is_ok());
    assert!(may_create_user(&logged(1, "sup"), &"sup".to_string()).is_ok());
    assert_eq!(bad_request(may_create_user(&logged(1, "admin"), &"admin".to_string())), "No permission.");
    assert!(may_create_user(&logged(1, "student"), &"teacher".to_string()).is_ok());
}

#[test]
fn who_may_update_users() {
    assert!(may_update_user(&logged(1, "student"), 1, None).is_ok());
    assert!(may_update_user(&logged(1, "student"), 1, Some(&"teacher".to_string())).is_ok());
    assert_eq!(bad_request(may_update_user(&logged(1, "student"), 1, Some(&"admin".to_string()))), "No permission.");
    assert_eq!(bad_request(may_update_user(&logged(1, "admin"), 2, Some(&"sup".to_string()))), "No permission.");
    assert!(may_update_user(&logged(1, "sup"), 2, Some(&"sup".to_string())).is_ok());
    assert!(may_update_user(&logged(1, "admin"), 2, None).is_ok());
    assert_eq!(bad_request(may_update_user(&logged(1, "student"), 2, None)), "No permission.");
    assert!(matches!(may_update_user(&LoggedUser(None), 2, None), Err(ServiceError::Unauthorized)));
}

#[test]
fn who_may_read_submissions() {
    assert!(may_read_submission(&logged(1, "student"), 1).is_ok());
    assert!(may_read_submission(&logged(2, "admin"), 1).is_ok());
    assert!(may_read_submission(&logged(2, "super"), 1).is_ok());
    assert_eq!(bad_request(may_read_submission(&logged(2, "sup"), 1)), "No permission.");
    assert_eq!(bad_request(may_read_submission(&logged(2, "student"), 1)), "No permission.");
    assert!(matches!(may_read_submission(&LoggedUser(None), 1), Err(ServiceError::Unauthorized)));
}

#[test]
fn who_may_list_announcements_and_reset_passwords() {
    assert!(may_list_announcements(&LoggedUser(None), true).is_ok());
    assert!(matches!(may_list_announcements(&LoggedUser(None), false), Err(ServiceError::Unauthorized)));
    assert!(may_list_announcements(&logged(1, "admin"), false).is_ok());
    assert_eq!(bad_request(may_list_announcements(&logged(1, "student"), false)), "No permission.");
    assert!(may_reset_by_old_password(&logged(1, "student"), 1).is_ok());
    assert_eq!(bad_request(may_reset_by_old_password(&logged(1, "sup"), 2)), "No permission.");
    assert!(matches!(may_reset_by_old_password(&LoggedUser(None), 2), Err(ServiceError::Unauthorized)));
}

#[test]
fn login_compares_hashes() {
    let slim = login(Some(user(7, Some(vec![1, 2]))), &vec![1, 2]).unwrap();
    assert_eq!(slim.id, 7);
    assert_eq!(slim.role, "teacher");
    assert_eq!(bad_request(login(Some(user(7, Some(vec![1, 2]))), &vec![1, 3])), "用户名或密码错误");
    assert_eq!(bad_request(login(Some(user(7, None)), &vec![])), "用户名或密码错误");
    assert_eq!(bad_request(login(None, &vec![1, 2])), "用户名或密码错误");
}

#[test]
fn permitted_methods_by_role() {
    let list = |s: &str| Some(vec![s.to_string()]);
    let config = AuthConfig {
        sup: list("SUP"),
        admin: list("ADMIN"),
        teacher: list("TEACHER"),
        student: None,
        net_friend: list("NET"),
        others: Some(vec!["GET".to_string(), "POST".to_string()]),
    };
    let get = |role: &str| get_permitted_methods(&role.to_string(), Some(&config)).unwrap();
    assert_eq!(get("sup"), vec!["SUP"]);
    assert_eq!(get("admin"), vec!["ADMIN"]);
    assert_eq!(get("teacher"), vec!["TEACHER"]);
    assert_eq!(get("student"), Vec::<String>::new());
    assert_eq!(get("net_friend"), vec!["GET", "POST"]);
    assert_eq!(get("anyone"), vec!["GET", "POST"]);
    assert_eq!(bad_request(get_permitted_methods(&"sup".to_string(), None)), "Path not set in config.");
}

#[test]
fn only_staff_changes_passwords_by_update() {
    let pw = || Some(PasswordHash { salt: "s".to_string(), hash: vec![1] });
    let form = update(&"admin".to_string(), Some("n".to_string()), pw(), None, None, None, None, None);
    assert_eq!(form.salt, Some("s".to_string()));
    assert_eq!(form.hash, Some(vec![1]));
    assert_eq!(form.username, Some("n".to_string()));
    let form = update(&"student".to_string(), None, pw(), Some("e".to_string()), None, None, None, None);
    assert_eq!(form.salt, None);
    assert_eq!(form.hash, None);
    assert_eq!(form.email, Some("e".to_string()));
    let form = update(&"sup".to_string(), None, None, None, Some("r".to_string()), None, None, None);
    assert_eq!(form.salt, None);
    assert_eq!(form.role, Some("r".to_string()));
}

#[test]
fn days_of_seconds() {
    assert_eq!(day_of(0), 0);
    assert_eq!(day_of(86399), 0);
    assert_eq!(day_of(86400), 1);
    assert_eq!(day_of(-1), -1);
    assert_eq!(day_of(-86400), -1);
    assert_eq!(day_of(-86401), -2);
    assert_eq!(day_of(1_700_000_000), 19675);
    for secs in [i64::MIN, i64::MIN + 1, -172800, -5, 7, 172800, i64::MAX] {
        assert_eq!(day_of(secs), secs.div_euclid(86400));
    }
}

#[test]
fn submissions_are_counted_day_by_day() {
    let day = 86400;
    let times = vec![at(5 * day + 9), at(5 * day + 3), at(5 * day), at(4 * day + 7), at(2 * day + 1), at(2 * day), at(5 * day)];
    let days = get_submissions_time(&times);
    assert_eq!(
        days,
        vec![
            UserSubmissionTime { date: 5, count: 3 },
            UserSubmissionTime { date: 4, count: 1 },
            UserSubmissionTime { date: 2, count: 2 },
            UserSubmissionTime { date: 5, count: 1 },
        ]
    );
    assert_eq!(get_submissions_time(&vec![]), vec![]);
    assert_eq!(get_submissions_time(&vec![at(-1)]), vec![UserSubmissionTime { date: -1, count: 1 }]);
}

#[test]
fn reset_tokens() {
    assert!(check_reset_interval(None, at(10)).is_ok());
    assert!(check_reset_interval(Some(at(10)), at(10)).is_ok());
    assert!(check_reset_interval(Some(at(10)), at(11)).is_ok());
    assert_eq!(bad_request(check_reset_interval(Some(at(10)), at(9))), "两小时之内只能发送一封验证邮件");
    assert_eq!(token_expiration(Timestamp::new(100, 7)), Timestamp::new(7300, 7));
    for _ in 0..200 {
        let token = new_reset_token();
        assert_eq!(token.len(), 6);
        let n: i32 = token.parse().unwrap();
        assert!(100000 <= n && n < 999999);
    }
}

#[test]
fn reset_by_token() {
    let stored = Some(vec![1u8, 2]);
    assert!(reset_password_by_email_token(&stored, Some(at(100)), at(100), &vec![1, 2]).is_ok());
    assert!(reset_password_by_email_token(&stored, Some(at(100)), at(99), &vec![1, 2]).is_ok());
    assert_eq!(
        bad_request(reset_password_by_email_token(&stored, Some(at(100)), at(101), &vec![1, 2])),
        "验证码已过期, 请重新发送验证码."
    );
    assert_eq!(bad_request(reset_password_by_email_token(&stored, Some(at(100)), at(100), &vec![1, 3])), "验证码错误.");
    assert_eq!(bad_request(reset_password_by_email_token(&None, None, at(100), &vec![1, 2])), "未发送验证码.");
    assert_eq!(bad_request(reset_password_by_email_token(&None, Some(at(100)), at(100), &vec![1, 2])), "未发送验证码.");
    assert_eq!(
        bad_request(reset_password_by_email_token(&stored, Some(at(100)), at(101), &vec![9])),
        "验证码已过期, 请重新发送验证码."
    );
}

#[test]
fn reset_by_old_password() {
    assert!(reset_password_by_old_password(&Some(vec![4]), &vec![4]).is_ok());
    assert_eq!(bad_request(reset_password_by_old_password(&Some(vec![4]), &vec![5])), "Password is wrong.");
    assert_eq!(bad_request(reset_password_by_old_password(&None, &vec![])), "Password is wrong.");
}

#[test]
fn region_kinds() {
    assert_eq!(get_self_type(1, 0).unwrap(), "problem_set");
    assert_eq!(get_self_type(1, 1).unwrap(), "problem_set");
    assert_eq!(get_self_type(0, 1).unwrap(), "contest");
    assert_eq!(get_self_type(2, 1).unwrap(), "contest");
    for (sets, contests) in [(0, 0), (2, 0), (0, 2), (-1, 3)] {
        match get_self_type(sets, contests) {
            Err(ServiceError::InternalServerErrorWithHint(h)) => assert_eq!(h, "Not Found."),
            other => panic!("expected an internal error, got {:?}", other),
        }
    }
}

#[test]
fn links_are_numbered_without_gaps() {
    let link = region_link("cup".to_string(), 3, 40, None);
    assert_eq!(link.region, "cup");
    assert_eq!(link.inner_id, 3);
    assert_eq!(link.problem_id, 40);
    assert_eq!(link.score, Some(100));
    assert_eq!(region_link("cup".to_string(), 3, 40, Some(25)).score, Some(25));
    let mut ids = InnerIds::after(2).unwrap();
    assert_eq!(ids.next, 3);
    let a = ids.record(40, true);
    assert_eq!((a.problem_id, a.inner_id, a.is_success), (40, Some(3), true));
    let b = ids.record(41, false);
    assert_eq!((b.problem_id, b.inner_id, b.is_success), (41, None, false));
    let c = ids.record(42, true);
    assert_eq!((c.problem_id, c.inner_id, c.is_success), (42, Some(4), true));
    assert_eq!(ids.next, 5);
    assert_eq!(InnerIds::after(0).unwrap().next, 1);
    assert!(InnerIds::after(-1).is_none());
    assert!(InnerIds::after(i32::MAX as i64).is_none());
    assert_eq!(InnerIds::after(i32::MAX as i64 - 1).unwrap().next, i32::MAX);
    assert_eq!(renumber_after_delete(2, 5), Some((5, 2)));
    assert_eq!(renumber_after_delete(5, 5), None);
}

#[test]
fn list_orders_and_bands() {
    assert_eq!(column_order(None, None, None), ColumnOrder::Unordered);
    assert_eq!(column_order(Some(true), Some(false), Some(false)), ColumnOrder::InnerIdAscending);
    assert_eq!(column_order(Some(false), None, None), ColumnOrder::InnerIdDescending);
    assert_eq!(column_order(None, Some(true), Some(false)), ColumnOrder::ProblemIdAscending);
    assert_eq!(column_order(None, Some(false), None), ColumnOrder::ProblemIdDescending);
    assert_eq!(column_order(None, None, Some(true)), ColumnOrder::DifficultyAscending);
    assert_eq!(column_order(None, None, Some(false)), ColumnOrder::DifficultyDescending);
    let band = |s: &str| DifficultyBand::parse(Some(&s.to_string()));
    assert_eq!(DifficultyBand::parse(None), DifficultyBand::All);
    assert_eq!(band("Navie"), DifficultyBand::Navie);
    assert_eq!(band("Easy"), DifficultyBand::Easy);
    assert_eq!(band("Middle"), DifficultyBand::Middle);
    assert_eq!(band("Hard"), DifficultyBand::Hard);
    assert_eq!(band("Naive"), DifficultyBand::All);
    assert_eq!(DifficultyBand::All.bounds_in_quarters(), (0, 40));
    assert_eq!(DifficultyBand::Navie.bounds_in_quarters(), (0, 10));
    assert_eq!(DifficultyBand::Easy.bounds_in_quarters(), (10, 20));
    assert_eq!(DifficultyBand::Middle.bounds_in_quarters(), (20, 30));
    assert_eq!(DifficultyBand::Hard.bounds_in_quarters(), (30, 40));
    assert!(is_accepted_by(Some(3), &vec![1, 3]));
    assert!(!is_accepted_by(Some(2), &vec![1, 3]));
    assert!(!is_accepted_by(None, &vec![1, 3]));
}

#[test]
fn tag_names_are_looked_up() {
    let tags = vec![
        ProblemTag { id: 1, name: "dp".to_string() },
        ProblemTag { id: 2, name: "old".to_string() },
        ProblemTag { id: 3, name: "math".to_string() },
        ProblemTag { id: 2, name: "graph".to_string() },
    ];
    let names = apply_changes(&tags);
    assert_eq!(names.len(), 3);
    assert_eq!(tag_names(&vec![3, 9, 2, 1, 3], &names), vec!["math", "graph", "dp", "math"]);
    assert_eq!(tag_names(&vec![], &names), Vec::<String>::new());
    assert!(apply_changes(&vec![]).is_empty());
    assert!(delete_tag(0).is_ok());
    assert_eq!(bad_request(delete_tag(2)), "标签已和题目关联，无法删除");
}

#[test]
fn conversions_between_rows() {
    let out = OutGroup::from(Group { id: 4, title: "g".to_string(), introduction: Some("i".to_string()) });
    assert_eq!((out.id, out.title.as_str()), (4, "g"));
    let slim = SlimUser::from(user(7, None));
    assert_eq!((slim.id, slim.role.as_str()), (7, "teacher"));
    let logged = LoggedUser::from(slim.clone());
    assert_eq!(logged.0.unwrap().id, 7);
    assert!(LoggedUser::default().0.is_none());
    let ann = OutAnnouncement::from(Announcement {
        id: 2,
        title: "t".to_string(),
        author: "a".to_string(),
        contents: "long".to_string(),
        release_time: Some(at(5)),
        last_update_time: at(6),
    });
    assert_eq!((ann.id, ann.title.as_str(), ann.author.as_str()), (2, "t", "a"));
    assert_eq!((ann.release_time, ann.last_update_time), (Some(at(5)), at(6)));
    let picture = ProfilePicture { url: Some("u".to_string()), delete_url: Some("d".to_string()) };
    let out = OutUser::from_user(user(7, None), picture);
    assert_eq!(out.id, 7);
    assert_eq!(out.username, "ann");
    assert_eq!(out.email, "ann@example.org");
    assert_eq!(out.role, "teacher");
    assert_eq!(out.real_name, Some("Ann".to_string()));
    assert_eq!(out.school, None);
    assert_eq!(out.student_number, Some("007".to_string()));
    assert_eq!(out.profile_picture_url, Some("u".to_string()));
}

#[test]
fn batch_user_row() {
    let body = BatchCreateUserBody { student_number: "2020".to_string(), real_name: "Li".to_string() };
    let row = InsertableUser::from_batch(body, "salt".to_string(), vec![1, 2], "{}".to_string());
    assert_eq!(row.salt, Some("salt".to_string()));
    assert_eq!(row.hash, Some(vec![1, 2]));
    assert_eq!(row.username, "2020");
    assert_eq!(row.email, "2020");
    assert_eq!(row.role, "student");
    assert_eq!(row.real_name, Some("Li".to_string()));
    assert_eq!(row.school, Some("上海大学".to_string()));
    assert_eq!(row.student_number, Some("2020".to_string()));
    assert_eq!(row.profile_picture, "{}");
    assert_eq!(row.reset_password_token_hash, None);
    assert_eq!(row.reset_password_token_expiration_time, None);
}

#[test]
fn results_are_added_up() {
    let v = |user_id: i32, is_accepted: Option<bool>| Verdict { user_id, is_accepted };
    let verdicts = vec![
        v(3, Some(false)),
        v(1, Some(true)),
        v(3, Some(true)),
        v(2, None),
        v(1, Some(true)),
        v(4, Some(false)),
        v(3, Some(true)),
    ];
    let s = get_results(&verdicts);
    assert_eq!(s.submit_times, 7);
    assert_eq!(s.accept_times, 4);
    assert_eq!(s.error_times, 2);
    assert_eq!(s.accepted_user_list, vec![1, 3]);
    let empty = get_results(&vec![]);
    assert_eq!((empty.submit_times, empty.accept_times, empty.error_times), (0, 0, 0));
    assert_eq!(empty.accepted_user_list, Vec::<i32>::new());
}
