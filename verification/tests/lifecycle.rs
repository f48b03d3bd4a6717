//! Task lifecycle: creation defaults, merge semantics, the closing
//! timestamp, listing and pagination.

use testflow_core::auth::AuthUser;
use testflow_core::dto::{CreateTaskRequest, TaskFilterParams, UpdateTaskRequest};
use testflow_core::errors::AppError;
use testflow_core::models::{Task, TaskStatus, TaskUrgency, UserRole};
use testflow_core::tasks::{
    clamp_pagination, create_task_checked, create_task_record, list_tasks, update_task_decision,
};

fn dev(user_id: u128) -> AuthUser {
    AuthUser { user_id, username: "dev".to_string(), role: UserRole::Developer }
}

fn create_req(title: &str, urgency: Option<TaskUrgency>) -> CreateTaskRequest {
    CreateTaskRequest {
        title: title.to_string(),
        description: None,
        tester_id: None,
        urgency,
        acceptance_criteria: None,
        evaluation_criteria: None,
        comment: None,
    }
}

fn empty_update() -> UpdateTaskRequest {
    UpdateTaskRequest {
        title: None,
        description: None,
        tester_id: None,
        status: None,
        urgency: None,
        acceptance_criteria: None,
        evaluation_criteria: None,
        comment: None,
    }
}

fn task(id: u128, created_at: i64) -> Task {
    create_task_record(create_req("some work", None), id, id as i32, 5, created_at)
}

#[test]
fn creation_defaults() {
    let t = create_task_record(create_req("new task", None), 1, 10, 5, 1_650_000_000);
    assert_eq!(t.urgency, TaskUrgency::Medium);
    assert_eq!(t.status, TaskStatus::New);
    assert_eq!(t.closed_at, None);
    assert_eq!(t.assigned_by, 5);
    assert_eq!(t.created_at, 1_650_000_000);
    let t2 = create_task_record(create_req("urgent", Some(TaskUrgency::Critical)), 2, 11, 5, 0);
    assert_eq!(t2.urgency, TaskUrgency::Critical);
}

#[test]
fn creation_admission() {
    assert!(create_task_checked(&dev(5), &create_req("ok", None)).is_ok());
    let admin = AuthUser { user_id: 1, username: "root".to_string(), role: UserRole::Admin };
    assert!(matches!(
        create_task_checked(&admin, &create_req("ok", None)),
        Err(AppError::Forbidden(_))
    ));
    assert!(matches!(
        create_task_checked(&dev(5), &create_req("", None)),
        Err(AppError::BadRequest(_))
    ));
    let long = "x".repeat(256);
    assert!(matches!(
        create_task_checked(&dev(5), &create_req(&long, None)),
        Err(AppError::BadRequest(_))
    ));
}

#[test]
fn omitted_title_keeps_prior_title() {
    let t = task(1, 100);
    let mut upd = empty_update();
    upd.urgency = Some(TaskUrgency::High);
    let u = update_task_decision(&dev(5), Some(t), upd, 200).unwrap();
    assert_eq!(u.title, "some work");
    assert_eq!(u.urgency, TaskUrgency::High);
    assert_eq!(u.created_at, 100);
}

#[test]
fn closing_stamps_once_and_reclosing_keeps_the_stamp() {
    let t = task(1, 100);
    let mut close = empty_update();
    close.status = Some(TaskStatus::Closed);
    let once = update_task_decision(&dev(5), Some(t), close, 500).unwrap();
    assert_eq!(once.closed_at, Some(500));
    let mut close_again = empty_update();
    close_again.status = Some(TaskStatus::Closed);
    let twice = update_task_decision(&dev(5), Some(once), close_again, 900).unwrap();
    assert_eq!(twice.closed_at, Some(500));
}

#[test]
fn done_also_stamps_and_reopening_keeps_the_stamp() {
    let t = task(1, 100);
    let mut done = empty_update();
    done.status = Some(TaskStatus::Done);
    let closed = update_task_decision(&dev(5), Some(t), done, 500).unwrap();
    assert_eq!(closed.closed_at, Some(500));
    let mut reopen = empty_update();
    reopen.status = Some(TaskStatus::InProgress);
    let reopened = update_task_decision(&dev(5), Some(closed), reopen, 900).unwrap();
    // deliberate quirk: the stamp is not cleared on reopening
    assert_eq!(reopened.closed_at, Some(500));
    assert_eq!(reopened.status, TaskStatus::InProgress);
}

#[test]
fn update_admission() {
    let admin = AuthUser { user_id: 1, username: "root".to_string(), role: UserRole::Admin };
    assert!(matches!(
        update_task_decision(&admin, Some(task(1, 100)), empty_update(), 200),
        Err(AppError::Forbidden(_))
    ));
    assert!(matches!(
        update_task_decision(&dev(5), None, empty_update(), 200),
        Err(AppError::NotFound(_))
    ));
    let mut bad = empty_update();
    bad.title = Some("".to_string());
    assert!(matches!(
        update_task_decision(&dev(5), Some(task(1, 100)), bad, 200),
        Err(AppError::BadRequest(_))
    ));
}

#[test]
fn pagination_is_clamped() {
    assert_eq!(clamp_pagination(None, Some(500)), (1, 100));
    assert_eq!(clamp_pagination(Some(3), Some(0)), (3, 1));
    assert_eq!(clamp_pagination(Some(0), None), (1, 20));
    assert_eq!(clamp_pagination(Some(-7), Some(-1)), (1, 1));
    assert_eq!(clamp_pagination(Some(2), Some(50)), (2, 50));
}

fn filter(
    status: Option<TaskStatus>,
    tester_id: Option<u128>,
    page: Option<i64>,
    per_page: Option<i64>,
) -> TaskFilterParams {
    TaskFilterParams { page, per_page, status, urgency: None, tester_id, assigned_by: None }
}

#[test]
fn listing_orders_newest_first_with_id_ties() {
    let tasks = vec![task(1, 100), task(2, 300), task(3, 200), task(4, 300)];
    let rows = list_tasks(tasks, &filter(None, None, None, None));
    let ids: Vec<u128> = rows.iter().map(|r| r.id).collect();
    // newest first; the two tasks created at 300 tie and come in id order
    assert_eq!(ids, vec![2, 4, 3, 1]);
}

#[test]
fn listing_filters_and_pages() {
    let mut a = task(1, 100);
    a.status = TaskStatus::InProgress;
    a.tester_id = Some(9);
    let mut b = task(2, 200);
    b.status = TaskStatus::InProgress;
    let c = task(3, 300);
    let rows = list_tasks(
        vec![a, b, c],
        &filter(Some(TaskStatus::InProgress), None, None, None),
    );
    let ids: Vec<u128> = rows.iter().map(|r| r.id).collect();
    assert_eq!(ids, vec![2, 1]);

    let mut a2 = task(1, 100);
    a2.tester_id = Some(9);
    let rows2 = list_tasks(
        vec![a2, task(2, 200)],
        &filter(None, Some(9), None, None),
    );
    assert_eq!(rows2.len(), 1);
    assert_eq!(rows2[0].id, 1);

    let many: Vec<Task> = (1..=5).map(|i| task(i as u128, i * 10)).collect();
    let page2 = list_tasks(many, &filter(None, None, Some(2), Some(2)));
    let ids2: Vec<u128> = page2.iter().map(|r| r.id).collect();
    // sorted newest-first: 5,4,3,2,1 — page 2 of size 2 is [3, 2]
    assert_eq!(ids2, vec![3, 2]);
}

#[test]
fn listing_beyond_the_end_is_empty() {
    let rows = list_tasks(vec![task(1, 100)], &filter(None, None, Some(99), Some(100)));
    assert!(rows.is_empty());
}
