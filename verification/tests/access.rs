use judge_backend::auth::region::{
    check_acl, check_solve_right, check_view_right, is_manager, RegionRecord,
};
use judge_backend::errors::ServiceError;
use judge_backend::models::access_control_list::{add_entry, group_ids, AccessControlListColumn};
use judge_backend::models::contests::{Contest, ContestSettings};
use judge_backend::models::group_links::GroupLink;
use judge_backend::models::users::{LoggedUser, SlimUser};
use judge_backend::services::group::is_in_group;
use judge_backend::time::Timestamp;

fn at(secs: i64) -> Timestamp {
    Timestamp::new(secs, 0)
}

fn user_row(region: &str, id: i32, manager: bool) -> AccessControlListColumn {
    AccessControlListColumn::for_user(region.to_string(), id, Some(false), manager)
}

fn group_row(region: &str, id: i32) -> AccessControlListColumn {
    AccessControlListColumn::for_group(region.to_string(), id)
}

fn link(group_id: i32, user_id: i32) -> GroupLink {
    GroupLink { group_id, user_id }
}

fn logged(id: i32) -> LoggedUser {
    LoggedUser(Some(SlimUser { id, role: "student".to_string() }))
}

fn hint(res: Result<(), ServiceError>) -> String {
    match res {
        Err(ServiceError::UnauthorizedWithHint(h)) => h,
        other => panic!("expected a refusal with a hint, got {:?}", other),
    }
}

const ALL_ON: ContestSettings = ContestSettings {
    register_after_start: true,
    unrate_after_start: true,
    view_before_start: true,
    view_after_end: true,
    public_after_end: true,
    submit_after_end: true,
};

const ALL_OFF: ContestSettings = ContestSettings {
    register_after_start: false,
    unrate_after_start: false,
    view_before_start: false,
    view_after_end: false,
    public_after_end: false,
    submit_after_end: false,
};

fn contest(settings: ContestSettings, password: bool) -> Contest {
    Contest {
        region: "cup".to_string(),
        title: "Cup".to_string(),
        self_type: "open_contest".to_string(),
        introduction: None,
        start_time: at(1000),
        end_time: Some(at(3000)),
        seal_time: None,
        settings,
        state: String::new(),
        salt: if password { Some("salt".to_string()) } else { None },
        hash: if password { Some(vec![9, 9]) } else { None },
    }
}

fn record(settings: ContestSettings, password: bool, acls: Vec<AccessControlListColumn>) -> RegionRecord {
    RegionRecord {
        region: "cup".to_string(),
        is_problem_set: false,
        contest: Some(contest(settings, password)),
        acls,
        group_links: vec![link(5, 42)],
    }
}

#[test]
fn acl_grants_direct_user_row() {
    let acls = vec![user_row("cup", 7, false), user_row("cup", 42, false)];
    assert!(check_acl(&acls, &vec![], 42, &"cup".to_string()).is_ok());
}

#[test]
fn acl_grants_through_group_membership() {
    let acls = vec![group_row("cup", 5)];
    let links = vec![link(5, 42), link(6, 43)];
    assert!(check_acl(&acls, &links, 42, &"cup".to_string()).is_ok());
    assert_eq!(hint(check_acl(&acls, &links, 43, &"cup".to_string())), "Not in ACL.");
}

#[test]
fn acl_denies_with_stable_hint() {
    let acls = vec![user_row("cup", 7, false), group_row("cup", 5)];
    assert_eq!(hint(check_acl(&acls, &vec![], 42, &"cup".to_string())), "Not in ACL.");
    assert_eq!(hint(check_acl(&vec![], &vec![], 42, &"cup".to_string())), "Not in ACL.");
}

#[test]
fn acl_passes_over_rows_of_other_regions() {
    let acls = vec![user_row("other", 42, false)];
    assert_eq!(hint(check_acl(&acls, &vec![], 42, &"cup".to_string())), "Not in ACL.");
}

#[test]
fn acl_does_not_confuse_group_ids_with_user_ids() {
    let acls = vec![group_row("cup", 42)];
    assert!(check_acl(&acls, &vec![], 42, &"cup".to_string()).is_err());
    let acls = vec![user_row("cup", 5, false)];
    assert!(check_acl(&acls, &vec![link(5, 42)], 42, &"cup".to_string()).is_err());
}

#[test]
fn acl_is_insensitive_to_row_order() {
    let links = vec![link(5, 42)];
    let rows = || vec![user_row("cup", 7, false), group_row("cup", 5), user_row("cup", 9, true)];
    let orders: [[usize; 3]; 6] = [[0, 1, 2], [0, 2, 1], [1, 0, 2], [1, 2, 0], [2, 0, 1], [2, 1, 0]];
    for user in [7, 9, 42, 100] {
        let expected = check_acl(&rows(), &links, user, &"cup".to_string()).is_ok();
        for order in orders {
            let base = rows();
            let shuffled: Vec<AccessControlListColumn> = order.iter().map(|i| base[*i].clone()).collect();
            assert_eq!(check_acl(&shuffled, &links, user, &"cup".to_string()).is_ok(), expected);
        }
    }
}

#[test]
fn group_membership_needs_exactly_one_link() {
    assert!(is_in_group(&vec![link(5, 42)], 5, 42));
    assert!(!is_in_group(&vec![], 5, 42));
    assert!(!is_in_group(&vec![link(5, 41), link(4, 42)], 5, 42));
    assert!(!is_in_group(&vec![link(5, 42), link(5, 42)], 5, 42));
}

#[test]
fn manager_needs_exactly_one_manager_row() {
    let region = "cup".to_string();
    assert!(is_manager(&vec![user_row("cup", 42, true)], 42, &region));
    assert!(!is_manager(&vec![user_row("cup", 42, false)], 42, &region));
    assert!(!is_manager(&vec![user_row("other", 42, true)], 42, &region));
    assert!(!is_manager(&vec![user_row("cup", 41, true)], 42, &region));
    assert!(!is_manager(&vec![user_row("cup", 42, true), user_row("cup", 42, true)], 42, &region));
    assert!(!is_manager(&vec![], 42, &region));
}

#[test]
fn problem_set_is_open_to_all() {
    let rec = RegionRecord {
        region: "set".to_string(),
        is_problem_set: true,
        contest: None,
        acls: vec![],
        group_links: vec![],
    };
    assert!(check_view_right(&rec, &LoggedUser(None), at(0)).is_ok());
    assert!(check_solve_right(&rec, &LoggedUser(None), at(0)).is_ok());
}

#[test]
fn contest_wants_login() {
    let rec = record(ALL_ON, false, vec![]);
    assert!(matches!(check_view_right(&rec, &LoggedUser(None), at(1500)), Err(ServiceError::Unauthorized)));
    assert!(matches!(check_solve_right(&rec, &LoggedUser(None), at(1500)), Err(ServiceError::Unauthorized)));
}

#[test]
fn manager_passes_whatever_the_state() {
    let rec = record(ALL_OFF, true, vec![user_row("cup", 1, true)]);
    for now in [0, 1500, 5000] {
        assert!(check_view_right(&rec, &logged(1), at(now)).is_ok());
        assert!(check_solve_right(&rec, &logged(1), at(now)).is_ok());
    }
}

#[test]
fn unknown_region_is_not_found() {
    let rec = RegionRecord {
        region: "nowhere".to_string(),
        is_problem_set: false,
        contest: None,
        acls: vec![],
        group_links: vec![],
    };
    assert!(matches!(check_view_right(&rec, &logged(1), at(0)), Err(ServiceError::NotFound)));
    assert!(matches!(check_solve_right(&rec, &logged(1), at(0)), Err(ServiceError::NotFound)));
}

#[test]
fn view_before_start_follows_setting() {
    let rec = record(ALL_OFF, false, vec![]);
    assert_eq!(
        hint(check_view_right(&rec, &logged(42), at(999))),
        "Contest do not allows viewing before start."
    );
    let rec = record(ContestSettings { view_before_start: true, ..ALL_OFF }, false, vec![]);
    assert!(check_view_right(&rec, &logged(42), at(999)).is_ok());
}

#[test]
fn view_after_end_follows_settings() {
    let rec = record(ALL_OFF, false, vec![]);
    assert_eq!(
        hint(check_view_right(&rec, &logged(42), at(3000))),
        "Contest do not allows viewing after end."
    );
    let visible = ContestSettings { view_after_end: true, ..ALL_OFF };
    let rec = record(visible, true, vec![]);
    assert_eq!(hint(check_view_right(&rec, &logged(42), at(3000))), "Not in ACL.");
    let public = ContestSettings { view_after_end: true, public_after_end: true, ..ALL_OFF };
    let rec = record(public, true, vec![]);
    assert!(check_view_right(&rec, &logged(42), at(3000)).is_ok());
    let hidden_public = ContestSettings { public_after_end: true, ..ALL_OFF };
    let rec = record(hidden_public, true, vec![]);
    assert_eq!(
        hint(check_view_right(&rec, &logged(42), at(3000))),
        "Contest do not allows viewing after end."
    );
}

#[test]
fn running_contest_with_password_asks_the_acl() {
    let rec = record(ALL_OFF, true, vec![group_row("cup", 5)]);
    assert!(check_view_right(&rec, &logged(42), at(1500)).is_ok());
    assert!(check_solve_right(&rec, &logged(42), at(1500)).is_ok());
    assert_eq!(hint(check_view_right(&rec, &logged(43), at(1500))), "Not in ACL.");
    assert_eq!(hint(check_solve_right(&rec, &logged(43), at(1500))), "Not in ACL.");
}

#[test]
fn running_contest_without_password_is_open() {
    let rec = record(ALL_OFF, false, vec![]);
    assert!(check_view_right(&rec, &logged(43), at(1000)).is_ok());
    assert!(check_solve_right(&rec, &logged(43), at(1000)).is_ok());
}

#[test]
fn solving_before_start_is_always_refused() {
    let rec = record(ALL_ON, false, vec![user_row("cup", 42, false)]);
    assert_eq!(
        hint(check_solve_right(&rec, &logged(42), at(999))),
        "Contest do not allows visiting problems before start."
    );
}

#[test]
fn solving_after_end_follows_setting() {
    let rec = record(ALL_OFF, false, vec![]);
    assert_eq!(
        hint(check_solve_right(&rec, &logged(42), at(3000))),
        "Contest do not allows visiting problems before start."
    );
    let late = ContestSettings { submit_after_end: true, ..ALL_OFF };
    let rec = record(late, false, vec![]);
    assert!(check_solve_right(&rec, &logged(42), at(3000)).is_ok());
    let rec = record(late, true, vec![]);
    assert_eq!(hint(check_solve_right(&rec, &logged(42), at(3000))), "Not in ACL.");
    let rec = record(ContestSettings { public_after_end: true, ..late }, true, vec![]);
    assert_eq!(hint(check_solve_right(&rec, &logged(42), at(3000))), "Not in ACL.");
}

#[test]
fn acl_keeps_every_principal_once() {
    let mut acls = Vec::new();
    assert!(add_entry(&mut acls, user_row("cup", 42, false)).is_ok());
    assert!(add_entry(&mut acls, user_row("cup", 43, false)).is_ok());
    assert!(add_entry(&mut acls, user_row("other", 42, false)).is_ok());
    assert!(add_entry(&mut acls, group_row("cup", 42)).is_ok());
    assert_eq!(acls.len(), 4);
    match add_entry(&mut acls, user_row("cup", 42, true)) {
        Err(ServiceError::BadRequest(h)) => assert_eq!(h, "Already in ACL."),
        other => panic!("expected a refusal, got {:?}", other),
    }
    assert_eq!(acls.len(), 4);
    assert!(!acls[0].is_manager);
    assert!(add_entry(&mut acls, group_row("cup", 42)).is_err());
    assert_eq!(acls.len(), 4);
}

#[test]
fn acl_row_builders() {
    let u = user_row("cup", 3, true);
    assert_eq!(u.self_type, "user");
    assert_eq!(u.id, 3);
    assert_eq!(u.region, "cup");
    assert!(u.is_manager);
    assert_eq!(u.is_unrated, Some(false));
    let g = group_row("cup", 4);
    assert_eq!(g.self_type, "group");
    assert_eq!(g.id, 4);
    assert!(!g.is_manager);
    assert_eq!(g.is_unrated, Some(false));
}

#[test]
fn group_ids_of_a_list() {
    let acls = vec![
        user_row("cup", 7, false),
        group_row("cup", 5),
        user_row("cup", 5, true),
        group_row("other", 9),
        group_row("cup", 5),
    ];
    assert_eq!(group_ids(&acls), vec![5, 9, 5]);
    assert_eq!(group_ids(&vec![]), Vec::<i32>::new());
    assert_eq!(group_ids(&vec![user_row("cup", 1, false)]), Vec::<i32>::new());
}
