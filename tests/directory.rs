use iam_admin::directory::{
    check_group_exists, check_user_exists, get_paginated_users, get_user_by_email,
    list_paginated_applications, update_user_by_email, user_matches_pattern, Directory,
};
use iam_admin::models::{ApiError, App, UpdateUserRequest, User, UserResponse};
use iam_admin::paging::resolve_page;
use iam_admin::search::{contains_folded, field_matches};

fn user(email: &str, first: Option<&str>, last: Option<&str>, created_at: i64) -> User {
    User {
        id: created_at,
        first_name: first.map(|s| s.to_string()),
        middle_name: None,
        last_name: last.map(|s| s.to_string()),
        email_id: email.to_string(),
        is_root: false,
        is_active: false,
        created_at,
    }
}

fn app(client_id: &str, name: &str, id: i64) -> App {
    App {
        id,
        client_id: client_id.to_string(),
        name: name.to_string(),
        logo_url: None,
        disabled: false,
        group_id: Some(7),
        tnc_link: None,
        allow_registration: true,
    }
}

fn directory_with_users(n: i64) -> Directory {
    let mut d = Directory::new();
    for i in 0..n {
        let email = format!("user{}@x.com", i);
        assert!(d.insert_user(user(&email, Some("Name"), None, i)).is_ok());
    }
    d
}

fn emails(data: &[UserResponse]) -> Vec<String> {
    data.iter().map(|u| u.email_id.clone()).collect()
}

#[test]
fn page_length_matches_formula() {
    let d = directory_with_users(25);
    for page in 1..6usize {
        for size in 1..12usize {
            let r = get_paginated_users(&d, Some(page), Some(size), None).unwrap();
            assert_eq!(r.total_count, 25);
            let rest = 25i64 - ((page as i64 - 1) * size as i64);
            let expected = std::cmp::min(size as i64, std::cmp::max(0, rest));
            assert_eq!(r.data.len() as i64, expected);
        }
    }
}

#[test]
fn third_page_of_twenty_five_holds_five_oldest() {
    let d = directory_with_users(25);
    let r = get_paginated_users(&d, Some(3), Some(10), None).unwrap();
    assert_eq!(r.total_count, 25);
    assert_eq!(
        emails(&r.data),
        vec!["user4@x.com", "user3@x.com", "user2@x.com", "user1@x.com", "user0@x.com"]
    );
}

#[test]
fn page_beyond_results_is_empty_with_count() {
    let d = directory_with_users(5);
    let r = get_paginated_users(&d, Some(9), Some(10), None).unwrap();
    assert_eq!(r.total_count, 5);
    assert!(r.data.is_empty());
}

#[test]
fn huge_page_is_empty_not_a_failure() {
    let d = directory_with_users(3);
    let r = get_paginated_users(&d, Some(usize::MAX), Some(usize::MAX), None).unwrap();
    assert_eq!(r.total_count, 3);
    assert!(r.data.is_empty());
}

#[test]
fn defaults_are_first_page_of_ten() {
    let d = directory_with_users(12);
    let r = get_paginated_users(&d, None, None, None).unwrap();
    assert_eq!(r.total_count, 12);
    assert_eq!(r.data.len(), 10);
    assert_eq!(r.data[0].email_id, "user11@x.com");
}

#[test]
fn zero_page_size_is_rejected_for_any_page() {
    let d = directory_with_users(3);
    for page in [None, Some(0), Some(1), Some(2), Some(1000)] {
        assert!(matches!(
            get_paginated_users(&d, page, Some(0), None),
            Err(ApiError::Validation)
        ));
        assert!(matches!(
            list_paginated_applications(&d, page, Some(0), None),
            Err(ApiError::Validation)
        ));
    }
}

#[test]
fn zero_page_is_rejected() {
    let d = directory_with_users(3);
    assert!(matches!(
        get_paginated_users(&d, Some(0), Some(5), None),
        Err(ApiError::Validation)
    ));
    assert!(matches!(resolve_page(Some(0), None), Err(ApiError::Validation)));
    assert!(matches!(resolve_page(Some(3), Some(4)), Ok((4, Some(8)))));
}

#[test]
fn search_matches_any_of_four_fields_ignoring_case() {
    let mut d = Directory::new();
    d.insert_user(user("alpha@x.com", Some("Zed"), None, 1)).unwrap();
    d.insert_user(user("b@x.com", Some("ALPHONSE"), None, 2)).unwrap();
    d.insert_user(user("c@x.com", None, Some("Alphaville"), 3)).unwrap();
    let mut m = user("d@x.com", None, None, 4);
    m.middle_name = Some("aLpHa".to_string());
    d.insert_user(m).unwrap();
    d.insert_user(user("e@x.com", Some("Bob"), Some("Smith"), 5)).unwrap();
    let r = get_paginated_users(&d, Some(1), Some(10), Some("ALPH".to_string())).unwrap();
    assert_eq!(r.total_count, 4);
    assert_eq!(emails(&r.data), vec!["d@x.com", "c@x.com", "b@x.com", "alpha@x.com"]);
    let r = get_paginated_users(&d, Some(2), Some(3), Some("alph".to_string())).unwrap();
    assert_eq!(r.total_count, 4);
    assert_eq!(emails(&r.data), vec!["alpha@x.com"]);
    let r = get_paginated_users(&d, None, None, Some("nobody".to_string())).unwrap();
    assert_eq!(r.total_count, 0);
    assert!(r.data.is_empty());
}

#[test]
fn folding_changes_case_before_matching() {
    assert!(field_matches("ALICE@X.COM", "alice"));
    assert!(field_matches("alice", "LIC"));
    assert!(!field_matches("alice", "bob"));
    assert!(contains_folded("alice", "lic"));
    assert!(!contains_folded("alice", "LIC"));
    assert!(contains_folded("alice", ""));
    let u = user("x@y.com", None, Some("McDonald"), 1);
    assert!(user_matches_pattern(&u, "MCD"));
    assert!(!user_matches_pattern(&u, "zz"));
}

#[test]
fn total_count_grows_as_users_are_added() {
    let mut d = directory_with_users(2);
    let before = get_paginated_users(&d, None, None, None).unwrap().total_count;
    d.insert_user(user("new@x.com", None, None, 1)).unwrap();
    let after = get_paginated_users(&d, None, None, None).unwrap().total_count;
    assert_eq!(before, 2);
    assert_eq!(after, 3);
}

#[test]
fn same_creation_time_keeps_insertion_order() {
    let mut d = Directory::new();
    d.insert_user(user("a@x.com", None, None, 5)).unwrap();
    d.insert_user(user("b@x.com", None, None, 5)).unwrap();
    d.insert_user(user("c@x.com", None, None, 9)).unwrap();
    let r = get_paginated_users(&d, None, None, None).unwrap();
    assert_eq!(emails(&r.data), vec!["c@x.com", "a@x.com", "b@x.com"]);
}

#[test]
fn duplicate_email_is_refused() {
    let mut d = directory_with_users(1);
    assert_eq!(d.insert_user(user("user0@x.com", None, None, 3)), Err(ApiError::Validation));
    assert_eq!(get_paginated_users(&d, None, None, None).unwrap().total_count, 1);
}

#[test]
fn update_of_unknown_email_is_not_found_and_changes_nothing() {
    let mut d = directory_with_users(3);
    let req = UpdateUserRequest {
        first_name: Some("Jo".to_string()),
        middle_name: None,
        last_name: None,
        is_active: true,
        is_root: true,
    };
    let r = update_user_by_email(&mut d, "ghost@x.com".to_string(), req);
    assert!(matches!(r, Err(ApiError::NotFound)));
    let all = get_paginated_users(&d, None, None, None).unwrap();
    assert_eq!(all.total_count, 3);
    for u in &all.data {
        assert_eq!(u.first_name.as_deref(), Some("Name"));
        assert!(!u.is_active);
        assert!(!u.is_root);
    }
}

#[test]
fn update_replaces_all_five_fields() {
    let mut d = Directory::new();
    let mut u = user("a@x.com", Some("Old"), Some("Name"), 1);
    u.middle_name = Some("Mid".to_string());
    u.is_root = true;
    d.insert_user(u).unwrap();
    let req = UpdateUserRequest {
        first_name: Some("Jo".to_string()),
        middle_name: None,
        last_name: Some("Doe".to_string()),
        is_active: true,
        is_root: false,
    };
    let r = update_user_by_email(&mut d, "a@x.com".to_string(), req).unwrap();
    assert_eq!(r.first_name.as_deref(), Some("Jo"));
    assert_eq!(r.last_name.as_deref(), Some("Doe"));
    assert_eq!(r.middle_name, None);
    assert!(r.is_active);
    assert!(!r.is_root);
    assert_eq!(r.email_id, "a@x.com");
    let g = get_user_by_email(&d, "a@x.com".to_string()).unwrap();
    assert_eq!(g.first_name.as_deref(), Some("Jo"));
    assert_eq!(g.middle_name, None);
}

#[test]
fn lookup_by_email() {
    let d = directory_with_users(2);
    let u = get_user_by_email(&d, "user1@x.com".to_string()).unwrap();
    assert_eq!(u.email_id, "user1@x.com");
    assert_eq!(u.first_name.as_deref(), Some("Name"));
    assert!(matches!(
        get_user_by_email(&d, "nobody@x.com".to_string()),
        Err(ApiError::NotFound)
    ));
    assert!(check_user_exists("user0@x.com".to_string(), &d));
    assert!(!check_user_exists("USER0@x.com".to_string(), &d));
}

#[test]
fn group_existence() {
    let mut d = Directory::new();
    d.insert_group("g-1".to_string());
    d.insert_group("g-2".to_string());
    assert!(check_group_exists("g-2".to_string(), &d));
    assert!(!check_group_exists("g-3".to_string(), &d));
}

#[test]
fn applications_ordered_by_name_descending_and_searchable() {
    let mut d = Directory::new();
    d.insert_app(app("c1", "Beta", 1)).unwrap();
    d.insert_app(app("c2", "alpha", 2)).unwrap();
    d.insert_app(app("c3", "Gamma", 3)).unwrap();
    d.insert_app(app("web-app", "Beta", 4)).unwrap();
    assert_eq!(d.insert_app(app("c1", "Other", 5)), Err(ApiError::Validation));
    let r = list_paginated_applications(&d, None, None, None).unwrap();
    assert_eq!(r.total_count, 4);
    let names: Vec<&str> = r.data.iter().map(|a| a.name.as_str()).collect();
    assert_eq!(names, vec!["alpha", "Gamma", "Beta", "Beta"]);
    assert_eq!(r.data[2].client_id, "c1");
    assert_eq!(r.data[3].id, 4);
    assert_eq!(r.data[0].group_id, Some(7));
    let r = list_paginated_applications(&d, Some(1), Some(5), Some("WEB".to_string())).unwrap();
    assert_eq!(r.total_count, 1);
    assert_eq!(r.data[0].client_id, "web-app");
    let r = list_paginated_applications(&d, Some(1), Some(5), Some("ET".to_string())).unwrap();
    assert_eq!(r.total_count, 2);
    let r = list_paginated_applications(&d, Some(2), Some(3), None).unwrap();
    assert_eq!(r.total_count, 4);
    assert_eq!(r.data.len(), 1);
}

#[test]
fn error_status_codes() {
    assert_eq!(ApiError::Validation.status_code(), 400);
    assert_eq!(ApiError::NotFound.status_code(), 404);
    assert_eq!(ApiError::BackendUnavailable.status_code(), 503);
    assert_eq!(ApiError::Configuration.status_code(), 500);
}
