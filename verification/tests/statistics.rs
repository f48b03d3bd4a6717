//! The statistics report: access, grouping, ordering and counts.

use testflow_core::auth::AuthUser;
use testflow_core::errors::AppError;
use testflow_core::models::{Task, TaskStatus, TaskUrgency, User, UserRole};
use testflow_core::stats::{employee_stats_rows, stats_checked};

fn auth(role: UserRole) -> AuthUser {
    AuthUser { user_id: 1, username: "caller".to_string(), role }
}

fn user(id: u128, full_name: &str, role: UserRole) -> User {
    User {
        id,
        username: format!("user{}", id),
        email: format!("user{}@example.com", id),
        password_hash: "irrelevant".to_string(),
        full_name: full_name.to_string(),
        role,
        is_active: true,
        created_at: 0,
        updated_at: 0,
    }
}

fn tested_task(id: u128, tester: Option<u128>, status: TaskStatus) -> Task {
    Task {
        id,
        task_number: id as i32,
        title: "t".to_string(),
        description: None,
        assigned_by: 1,
        tester_id: tester,
        status,
        urgency: TaskUrgency::Medium,
        created_at: 0,
        closed_at: None,
        acceptance_criteria: None,
        evaluation_criteria: None,
        comment: None,
    }
}

#[test]
fn statistics_access() {
    assert!(matches!(stats_checked(&auth(UserRole::Tester)), Err(AppError::Forbidden(_))));
    assert!(matches!(stats_checked(&auth(UserRole::Developer)), Err(AppError::Forbidden(_))));
    assert!(stats_checked(&auth(UserRole::Manager)).is_ok());
    assert!(stats_checked(&auth(UserRole::Admin)).is_ok());
}

#[test]
fn one_row_per_non_admin_user_with_correct_counts() {
    let users = vec![
        user(1, "Root Admin", UserRole::Admin),
        user(2, "Zoe Fields", UserRole::Tester),
        user(3, "Adam Banks", UserRole::Developer),
        user(4, "Mia Chen", UserRole::Manager),
    ];
    let tasks = vec![
        tested_task(10, Some(2), TaskStatus::Done),
        tested_task(11, Some(2), TaskStatus::Closed),
        tested_task(12, Some(2), TaskStatus::InProgress),
        tested_task(13, Some(2), TaskStatus::New),
        tested_task(14, Some(3), TaskStatus::Testing),
        tested_task(15, None, TaskStatus::InProgress),
        tested_task(16, Some(99), TaskStatus::Done),
    ];
    let rows = employee_stats_rows(users, &tasks);
    // the admin is excluded; rows are ordered by full name
    let names: Vec<&str> = rows.iter().map(|r| r.full_name.as_str()).collect();
    assert_eq!(names, vec!["Adam Banks", "Mia Chen", "Zoe Fields"]);
    let zoe = &rows[2];
    assert_eq!(zoe.user_id, 2);
    assert_eq!(zoe.total_tasks, 4);
    assert_eq!(zoe.completed_tasks, 2);
    assert_eq!(zoe.in_progress_tasks, 1);
    let adam = &rows[0];
    assert_eq!((adam.total_tasks, adam.completed_tasks, adam.in_progress_tasks), (1, 0, 0));
    let mia = &rows[1];
    assert_eq!((mia.total_tasks, mia.completed_tasks, mia.in_progress_tasks), (0, 0, 0));
}

#[test]
fn name_ties_are_broken_by_id() {
    let users = vec![
        user(8, "Same Name", UserRole::Tester),
        user(3, "Same Name", UserRole::Tester),
    ];
    let rows = employee_stats_rows(users, &vec![]);
    let ids: Vec<u128> = rows.iter().map(|r| r.user_id).collect();
    assert_eq!(ids, vec![3, 8]);
}
