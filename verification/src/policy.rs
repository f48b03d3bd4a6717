//! Access control policy: pure decisions over a caller's role and identity.
//!
//! Administrators manage accounts but are deliberately excluded from task
//! authorship (separation of duties); tasks are deleted only by their creator
//! or a manager; statistics are for managers and administrators; nobody may
//! delete their own account.

use vstd::prelude::*;

use crate::models::UserRole;

verus! {

/// Only administrators manage user accounts.
pub open spec fn may_manage_users(role: UserRole) -> bool {
    role == UserRole::Admin
}

/// Every role except Admin may create or edit tasks.
pub open spec fn may_create_or_edit_task(role: UserRole) -> bool {
    role != UserRole::Admin
}

/// A task is deleted by a manager or by its creator; an administrator never
/// deletes tasks, not even ones it would own.
pub open spec fn may_delete_task(role: UserRole, creator_id: u128, caller_id: u128) -> bool {
    role == UserRole::Manager || (role != UserRole::Admin && caller_id == creator_id)
}

/// Statistics are visible to managers and administrators only.
pub open spec fn may_view_statistics(role: UserRole) -> bool {
    role == UserRole::Manager || role == UserRole::Admin
}

/// No caller may delete their own account, whatever the role.
pub open spec fn may_delete_user(caller_role: UserRole, caller_id: u128, target_id: u128) -> bool {
    may_manage_users(caller_role) && caller_id != target_id
}

/// Decides `may_manage_users`.
pub fn can_manage_users(role: UserRole) -> (r: bool)
    ensures
        r == may_manage_users(role),
{
    role == UserRole::Admin
}

/// Decides `may_create_or_edit_task`: true for every role except Admin.
pub fn can_create_or_edit_task(role: UserRole) -> (r: bool)
    ensures
        r == may_create_or_edit_task(role),
{
    role != UserRole::Admin
}

/// Decides `may_delete_task`.
pub fn can_delete_task(role: UserRole, creator_id: u128, caller_id: u128) -> (r: bool)
    ensures
        r == may_delete_task(role, creator_id, caller_id),
{
    role == UserRole::Manager || (role != UserRole::Admin && caller_id == creator_id)
}

/// Decides `may_view_statistics`.
pub fn can_view_statistics(role: UserRole) -> (r: bool)
    ensures
        r == may_view_statistics(role),
{
    role == UserRole::Manager || role == UserRole::Admin
}

/// Separation of duties: task authorship belongs to every role but Admin, and
/// an administrator can delete no task at all, own or not.
pub proof fn lemma_admin_excluded_from_tasks(role: UserRole, creator_id: u128, caller_id: u128)
    ensures
        may_create_or_edit_task(role) <==> role != UserRole::Admin,
        !may_delete_task(UserRole::Admin, creator_id, caller_id),
{
}

} // verus!
