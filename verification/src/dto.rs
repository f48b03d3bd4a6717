//! Request and response shapes exchanged with the transport layer.
//!
//! Identifiers are 128-bit UUID values and instants are unix timestamps in
//! seconds; the transport layer owns their outward textual form. The response
//! shapes carry no password hash: the projection itself is the guarantee that
//! a stored hash never leaves the service.

use vstd::prelude::*;

use crate::models::{TaskStatus, TaskUrgency, UserRole};

verus! {

/// Credentials presented to `authenticate`.
#[derive(Debug)]
pub struct LoginRequest {
    pub username: String,
    pub password: String,
}

/// Public-safe projection of a user record.
#[derive(Debug)]
pub struct UserResponse {
    pub id: u128,
    pub username: String,
    pub email: String,
    pub full_name: String,
    pub role: UserRole,
    pub is_active: bool,
    pub created_at: i64,
    pub updated_at: i64,
}

/// Successful login: the signed token and the public user projection.
#[derive(Debug)]
pub struct LoginResponse {
    pub token: String,
    pub token_type: String,
    pub user: UserResponse,
}

/// Fields of a new user account.
#[derive(Debug)]
pub struct CreateUserRequest {
    pub username: String,
    pub email: String,
    pub password: String,
    pub full_name: String,
    pub role: UserRole,
}

/// Partial update of a user account: present fields replace, absent fields
/// are kept.
#[derive(Debug)]
pub struct UpdateUserRequest {
    pub username: Option<String>,
    pub email: Option<String>,
    pub password: Option<String>,
    pub full_name: Option<String>,
    pub role: Option<UserRole>,
    pub is_active: Option<bool>,
}

/// Fields of a new task.
#[derive(Debug)]
pub struct CreateTaskRequest {
    pub title: String,
    pub description: Option<String>,
    pub tester_id: Option<u128>,
    pub urgency: Option<TaskUrgency>,
    pub acceptance_criteria: Option<String>,
    pub evaluation_criteria: Option<String>,
    pub comment: Option<String>,
}

/// Partial update of a task: present fields replace, absent fields are kept.
#[derive(Debug)]
pub struct UpdateTaskRequest {
    pub title: Option<String>,
    pub description: Option<String>,
    pub tester_id: Option<u128>,
    pub status: Option<TaskStatus>,
    pub urgency: Option<TaskUrgency>,
    pub acceptance_criteria: Option<String>,
    pub evaluation_criteria: Option<String>,
    pub comment: Option<String>,
}

/// Full task detail, with the creator's and tester's display names resolved
/// by the caller.
#[derive(Debug)]
pub struct TaskResponse {
    pub id: u128,
    pub task_number: i32,
    pub title: String,
    pub description: Option<String>,
    pub assigned_by: u128,
    pub assigned_by_name: Option<String>,
    pub tester_id: Option<u128>,
    pub tester_name: Option<String>,
    pub status: TaskStatus,
    pub urgency: TaskUrgency,
    pub created_at: i64,
    pub closed_at: Option<i64>,
    pub acceptance_criteria: Option<String>,
    pub evaluation_criteria: Option<String>,
    pub comment: Option<String>,
}

/// Row of a task listing.
#[derive(Debug)]
pub struct TaskListItem {
    pub id: u128,
    pub task_number: i32,
    pub title: String,
    pub status: TaskStatus,
    pub urgency: TaskUrgency,
}

/// Per-employee task counts, keyed by tester assignment.
#[derive(Debug)]
pub struct EmployeeStats {
    pub user_id: u128,
    pub full_name: String,
    pub total_tasks: i64,
    pub completed_tasks: i64,
    pub in_progress_tasks: i64,
}

/// Page selection for user listings.
#[derive(Debug)]
pub struct PaginationParams {
    pub page: Option<i64>,
    pub per_page: Option<i64>,
}

/// Page selection and filters for task listings.
#[derive(Debug)]
pub struct TaskFilterParams {
    pub page: Option<i64>,
    pub per_page: Option<i64>,
    pub status: Option<TaskStatus>,
    pub urgency: Option<TaskUrgency>,
    pub tester_id: Option<u128>,
    pub assigned_by: Option<u128>,
}

} // verus!
