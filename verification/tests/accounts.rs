//! Account management: validation, creation, partial updates, and the
//! full admin-creates-user-then-user-works scenario.

use testflow_core::auth::{authenticate, verify_token, AuthUser};
use testflow_core::dto::{CreateTaskRequest, CreateUserRequest, PaginationParams, UpdateUserRequest};
use testflow_core::errors::AppError;
use testflow_core::models::{TaskStatus, TaskUrgency, User, UserRole};
use testflow_core::policy::can_delete_task;
use testflow_core::tasks::{create_task_checked, create_task_record, delete_task_decision};
use testflow_core::users::{
    apply_user_update, create_user_checked, delete_user_outcome, list_users, new_user_record,
    require_admin, user_to_response, validate_create_user, validate_update_user,
};

const SECRET: &str = "test-secret-key";

fn admin() -> AuthUser {
    AuthUser { user_id: 1, username: "root".to_string(), role: UserRole::Admin }
}

fn bob_request() -> CreateUserRequest {
    CreateUserRequest {
        username: "bob".to_string(),
        email: "bob@example.com".to_string(),
        password: "secret123".to_string(),
        full_name: "Bob Stone".to_string(),
        role: UserRole::Tester,
    }
}

#[test]
fn creation_request_validation() {
    assert!(validate_create_user(&bob_request()).is_ok());
    let mut short_name = bob_request();
    short_name.username = "ab".to_string();
    assert!(matches!(validate_create_user(&short_name), Err(AppError::BadRequest(_))));
    let mut bad_email = bob_request();
    bad_email.email = "missing-at-sign".to_string();
    assert!(matches!(validate_create_user(&bad_email), Err(AppError::BadRequest(_))));
    let mut short_password = bob_request();
    short_password.password = "12345".to_string();
    assert!(matches!(validate_create_user(&short_password), Err(AppError::BadRequest(_))));
    let mut no_name = bob_request();
    no_name.full_name = "".to_string();
    assert!(matches!(validate_create_user(&no_name), Err(AppError::BadRequest(_))));
}

#[test]
fn user_creation_admission() {
    assert!(create_user_checked(&admin(), &bob_request(), false).is_ok());
    assert!(matches!(
        create_user_checked(&admin(), &bob_request(), true),
        Err(AppError::Conflict(_))
    ));
    let manager = AuthUser { user_id: 2, username: "mia".to_string(), role: UserRole::Manager };
    assert!(matches!(
        create_user_checked(&manager, &bob_request(), false),
        Err(AppError::Forbidden(_))
    ));
    assert!(require_admin(&admin()).is_ok());
    assert!(matches!(require_admin(&manager), Err(AppError::Forbidden(_))));
}

#[test]
fn response_projection_has_no_hash() {
    let u = new_user_record(bob_request(), 7, 100).unwrap();
    let hash = u.password_hash.clone();
    let resp = user_to_response(u);
    assert_eq!(resp.id, 7);
    assert_eq!(resp.username, "bob");
    assert_eq!(resp.role, UserRole::Tester);
    assert!(resp.is_active);
    // the stored hash is a PHC string and is not part of the projection type
    assert!(hash.starts_with("$argon2"));
}

#[test]
fn update_merges_present_fields_only() {
    let u = new_user_record(bob_request(), 7, 100).unwrap();
    let old_hash = u.password_hash.clone();
    let upd = UpdateUserRequest {
        username: None,
        email: Some("new@example.com".to_string()),
        password: None,
        full_name: None,
        role: Some(UserRole::Developer),
        is_active: Some(false),
    };
    assert!(validate_update_user(&upd).is_ok());
    let v = apply_user_update(u, upd, 900).unwrap();
    assert_eq!(v.username, "bob");
    assert_eq!(v.email, "new@example.com");
    assert_eq!(v.role, UserRole::Developer);
    assert!(!v.is_active);
    assert_eq!(v.password_hash, old_hash);
    assert_eq!(v.created_at, 100);
    assert_eq!(v.updated_at, 900);
}

#[test]
fn update_rehashes_a_given_password() {
    let u = new_user_record(bob_request(), 7, 100).unwrap();
    let old_hash = u.password_hash.clone();
    let upd = UpdateUserRequest {
        username: None,
        email: None,
        password: Some("brand-new-pw".to_string()),
        full_name: None,
        role: None,
        is_active: None,
    };
    let v = apply_user_update(u, upd, 900).unwrap();
    assert_ne!(v.password_hash, old_hash);
    // the new credential works, the old one does not
    let now = 1_700_000_000u64;
    assert!(authenticate(Some(v), &"brand-new-pw".to_string(), SECRET, 24, now).is_ok());
}

#[test]
fn update_request_validation() {
    let bad = UpdateUserRequest {
        username: Some("x".to_string()),
        email: None,
        password: None,
        full_name: None,
        role: None,
        is_active: None,
    };
    assert!(matches!(validate_update_user(&bad), Err(AppError::BadRequest(_))));
}

#[test]
fn user_listing_orders_and_pages() {
    let mk = |id: u128, created_at: i64| User {
        id,
        username: format!("u{}", id),
        email: format!("u{}@example.com", id),
        password_hash: "irrelevant".to_string(),
        full_name: format!("User {}", id),
        role: UserRole::Tester,
        is_active: true,
        created_at,
        updated_at: created_at,
    };
    let users = vec![mk(1, 100), mk(2, 300), mk(3, 200), mk(4, 300)];
    let rows = list_users(users, &PaginationParams { page: None, per_page: None });
    let ids: Vec<u128> = rows.iter().map(|r| r.id).collect();
    assert_eq!(ids, vec![2, 4, 3, 1]);
    let users2 = vec![mk(1, 100), mk(2, 300), mk(3, 200), mk(4, 300)];
    let page2 = list_users(users2, &PaginationParams { page: Some(2), per_page: Some(3) });
    let ids2: Vec<u128> = page2.iter().map(|r| r.id).collect();
    assert_eq!(ids2, vec![1]);
}

#[test]
fn deletion_outcome_maps_rows() {
    assert!(delete_user_outcome(1).is_ok());
    assert!(matches!(delete_user_outcome(0), Err(AppError::NotFound(_))));
}

#[test]
fn admin_creates_bob_who_logs_in_and_works() {
    let now = 1_700_000_000u64;
    // admin creates bob/secret123 as a Tester
    assert!(create_user_checked(&admin(), &bob_request(), false).is_ok());
    let bob = new_user_record(bob_request(), 42, now as i64).unwrap();
    // login as bob succeeds and the token's decoded role is tester
    let resp = authenticate(Some(bob), &"secret123".to_string(), SECRET, 24, now).unwrap();
    let claims = verify_token(&resp.token, SECRET, now).unwrap();
    assert_eq!(claims.role, "tester");
    assert_eq!(claims.sub, 42);
    // bob creates a task: allowed, and he is its creator
    let bob_auth = AuthUser { user_id: 42, username: "bob".to_string(), role: UserRole::Tester };
    let req = CreateTaskRequest {
        title: "verify the release".to_string(),
        description: None,
        tester_id: None,
        urgency: None,
        acceptance_criteria: None,
        evaluation_criteria: None,
        comment: None,
    };
    assert!(create_task_checked(&bob_auth, &req).is_ok());
    let t = create_task_record(req, 100, 1, bob_auth.user_id, now as i64);
    assert_eq!(t.assigned_by, 42);
    assert_eq!(t.status, TaskStatus::New);
    assert_eq!(t.urgency, TaskUrgency::Medium);
    // bob tries to delete a task created by someone else while not a manager
    let foreign = create_task_record(
        CreateTaskRequest {
            title: "someone else's".to_string(),
            description: None,
            tester_id: None,
            urgency: None,
            acceptance_criteria: None,
            evaluation_criteria: None,
            comment: None,
        },
        101,
        2,
        7,
        now as i64,
    );
    assert!(!can_delete_task(UserRole::Tester, foreign.assigned_by, bob_auth.user_id));
    assert!(matches!(
        delete_task_decision(&bob_auth, Some(&foreign)),
        Err(AppError::Forbidden(_))
    ));
}
