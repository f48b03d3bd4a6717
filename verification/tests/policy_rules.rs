//! Role and ownership rules: task authorship, deletion, statistics access,
//! the self-delete guard.

use testflow_core::auth::AuthUser;
use testflow_core::errors::AppError;
use testflow_core::models::{Task, TaskStatus, TaskUrgency, UserRole};
use testflow_core::policy::{
    can_create_or_edit_task, can_delete_task, can_manage_users, can_view_statistics,
};
use testflow_core::tasks::delete_task_decision;
use testflow_core::users::delete_user_check;

fn auth(user_id: u128, role: UserRole) -> AuthUser {
    AuthUser { user_id, username: "someone".to_string(), role }
}

fn task(id: u128, creator: u128) -> Task {
    Task {
        id,
        task_number: 1,
        title: "fix the build".to_string(),
        description: None,
        assigned_by: creator,
        tester_id: None,
        status: TaskStatus::New,
        urgency: TaskUrgency::Medium,
        created_at: 1_650_000_000,
        closed_at: None,
        acceptance_criteria: None,
        evaluation_criteria: None,
        comment: None,
    }
}

#[test]
fn every_role_but_admin_authors_tasks() {
    assert!(!can_create_or_edit_task(UserRole::Admin));
    assert!(can_create_or_edit_task(UserRole::Manager));
    assert!(can_create_or_edit_task(UserRole::Tester));
    assert!(can_create_or_edit_task(UserRole::Developer));
}

#[test]
fn only_admin_manages_users() {
    assert!(can_manage_users(UserRole::Admin));
    assert!(!can_manage_users(UserRole::Manager));
    assert!(!can_manage_users(UserRole::Tester));
    assert!(!can_manage_users(UserRole::Developer));
}

#[test]
fn statistics_for_manager_and_admin_only() {
    assert!(can_view_statistics(UserRole::Admin));
    assert!(can_view_statistics(UserRole::Manager));
    assert!(!can_view_statistics(UserRole::Tester));
    assert!(!can_view_statistics(UserRole::Developer));
}

#[test]
fn task_deletion_policy() {
    // creator may delete, whatever the (non-admin) role
    assert!(can_delete_task(UserRole::Developer, 5, 5));
    assert!(can_delete_task(UserRole::Tester, 5, 5));
    // any manager may delete
    assert!(can_delete_task(UserRole::Manager, 5, 9));
    // a stranger may not
    assert!(!can_delete_task(UserRole::Developer, 5, 9));
    assert!(!can_delete_task(UserRole::Tester, 5, 9));
    // admin never deletes tasks, not even "their own"
    assert!(!can_delete_task(UserRole::Admin, 5, 5));
    assert!(!can_delete_task(UserRole::Admin, 5, 9));
}

#[test]
fn delete_task_as_stranger_is_forbidden() {
    let t = task(1, 5);
    let r = delete_task_decision(&auth(9, UserRole::Developer), Some(&t));
    assert!(matches!(r, Err(AppError::Forbidden(_))));
}

#[test]
fn delete_task_as_creator_or_manager_succeeds() {
    let t = task(1, 5);
    assert!(delete_task_decision(&auth(5, UserRole::Developer), Some(&t)).is_ok());
    assert!(delete_task_decision(&auth(9, UserRole::Manager), Some(&t)).is_ok());
}

#[test]
fn delete_task_as_admin_is_forbidden_even_before_lookup() {
    let t = task(1, 5);
    assert!(matches!(
        delete_task_decision(&auth(5, UserRole::Admin), Some(&t)),
        Err(AppError::Forbidden(_))
    ));
    assert!(matches!(
        delete_task_decision(&auth(5, UserRole::Admin), None),
        Err(AppError::Forbidden(_))
    ));
}

#[test]
fn delete_missing_task_is_not_found() {
    let r = delete_task_decision(&auth(5, UserRole::Manager), None);
    assert!(matches!(r, Err(AppError::NotFound(_))));
}

#[test]
fn self_delete_is_bad_request_even_for_admin() {
    let r = delete_user_check(&auth(3, UserRole::Admin), 3);
    assert!(matches!(r, Err(AppError::BadRequest(_))));
}

#[test]
fn delete_other_user_as_admin_passes_the_guard() {
    assert!(delete_user_check(&auth(3, UserRole::Admin), 4).is_ok());
}

#[test]
fn delete_user_as_non_admin_is_forbidden() {
    let r = delete_user_check(&auth(3, UserRole::Manager), 4);
    assert!(matches!(r, Err(AppError::Forbidden(_))));
}
