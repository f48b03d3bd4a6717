//! Data model: roles, task status and urgency with their wire strings, and
//! the user and task records.
//!
//! Identifiers are the 128-bit values of the storage layer's UUIDs; instants
//! are unix timestamps in seconds.

use vstd::prelude::*;

verus! {

/// Role of a user account.
#[derive(Clone, Copy, Debug, PartialEq, Eq, Structural)]
pub enum UserRole {
    Admin,
    Manager,
    Tester,
    Developer,
}

/// Priority classification of a task, independent of workflow status.
#[derive(Clone, Copy, Debug, PartialEq, Eq, Structural)]
pub enum TaskUrgency {
    Low,
    Medium,
    High,
    Critical,
}

/// Workflow stage of a task.
#[derive(Clone, Copy, Debug, PartialEq, Eq, Structural)]
pub enum TaskStatus {
    New,
    InProgress,
    Testing,
    Done,
    Closed,
}

/// The wire string of a role.
pub open spec fn role_wire_spec(r: UserRole) -> Seq<char> {
    match r {
        UserRole::Admin => "admin"@,
        UserRole::Manager => "manager"@,
        UserRole::Tester => "tester"@,
        UserRole::Developer => "developer"@,
    }
}

/// The wire string of an urgency.
pub open spec fn urgency_wire_spec(u: TaskUrgency) -> Seq<char> {
    match u {
        TaskUrgency::Low => "low"@,
        TaskUrgency::Medium => "medium"@,
        TaskUrgency::High => "high"@,
        TaskUrgency::Critical => "critical"@,
    }
}

/// The wire string of a status.
pub open spec fn status_wire_spec(s: TaskStatus) -> Seq<char> {
    match s {
        TaskStatus::New => "new"@,
        TaskStatus::InProgress => "in_progress"@,
        TaskStatus::Testing => "testing"@,
        TaskStatus::Done => "done"@,
        TaskStatus::Closed => "closed"@,
    }
}

impl UserRole {
    /// Wire representation, as used in tokens and by the storage layer.
    pub fn wire_str(&self) -> (r: &'static str)
        ensures
            r@ == role_wire_spec(*self),
    {
        match self {
            UserRole::Admin => "admin",
            UserRole::Manager => "manager",
            UserRole::Tester => "tester",
            UserRole::Developer => "developer",
        }
    }

    /// Maps a wire string back to a role; unknown strings are rejected.
    pub fn from_wire(s: &String) -> (r: Option<UserRole>)
        ensures
            r == role_from_wire_spec(s@),
    {
        if *s == String::from_str("admin") {
            Some(UserRole::Admin)
        } else if *s == String::from_str("manager") {
            Some(UserRole::Manager)
        } else if *s == String::from_str("tester") {
            Some(UserRole::Tester)
        } else if *s == String::from_str("developer") {
            Some(UserRole::Developer)
        } else {
            None
        }
    }
}

/// Role denoted by a wire string, if any.
pub open spec fn role_from_wire_spec(s: Seq<char>) -> Option<UserRole> {
    if s == "admin"@ {
        Some(UserRole::Admin)
    } else if s == "manager"@ {
        Some(UserRole::Manager)
    } else if s == "tester"@ {
        Some(UserRole::Tester)
    } else if s == "developer"@ {
        Some(UserRole::Developer)
    } else {
        None
    }
}

impl TaskUrgency {
    /// Wire representation, as used by the storage layer.
    pub fn wire_str(&self) -> (r: &'static str)
        ensures
            r@ == urgency_wire_spec(*self),
    {
        match self {
            TaskUrgency::Low => "low",
            TaskUrgency::Medium => "medium",
            TaskUrgency::High => "high",
            TaskUrgency::Critical => "critical",
        }
    }

    /// Maps a wire string back to an urgency; unknown strings are rejected.
    pub fn from_wire(s: &String) -> (r: Option<TaskUrgency>)
        ensures
            r == urgency_from_wire_spec(s@),
    {
        if *s == String::from_str("low") {
            Some(TaskUrgency::Low)
        } else if *s == String::from_str("medium") {
            Some(TaskUrgency::Medium)
        } else if *s == String::from_str("high") {
            Some(TaskUrgency::High)
        } else if *s == String::from_str("critical") {
            Some(TaskUrgency::Critical)
        } else {
            None
        }
    }
}

/// Urgency denoted by a wire string, if any.
pub open spec fn urgency_from_wire_spec(s: Seq<char>) -> Option<TaskUrgency> {
    if s == "low"@ {
        Some(TaskUrgency::Low)
    } else if s == "medium"@ {
        Some(TaskUrgency::Medium)
    } else if s == "high"@ {
        Some(TaskUrgency::High)
    } else if s == "critical"@ {
        Some(TaskUrgency::Critical)
    } else {
        None
    }
}

impl TaskStatus {
    /// True for the two stages that count as completed work.
    pub fn is_terminal(&self) -> (r: bool)
        ensures
            r == status_is_terminal(*self),
    {
        match self {
            TaskStatus::Done => true,
            TaskStatus::Closed => true,
            _ => false,
        }
    }

    /// Wire representation, as used by the storage layer.
    pub fn wire_str(&self) -> (r: &'static str)
        ensures
            r@ == status_wire_spec(*self),
    {
        match self {
            TaskStatus::New => "new",
            TaskStatus::InProgress => "in_progress",
            TaskStatus::Testing => "testing",
            TaskStatus::Done => "done",
            TaskStatus::Closed => "closed",
        }
    }

    /// Maps a wire string back to a status; unknown strings are rejected.
    pub fn from_wire(s: &String) -> (r: Option<TaskStatus>)
        ensures
            r == status_from_wire_spec(s@),
    {
        if *s == String::from_str("new") {
            Some(TaskStatus::New)
        } else if *s == String::from_str("in_progress") {
            Some(TaskStatus::InProgress)
        } else if *s == String::from_str("testing") {
            Some(TaskStatus::Testing)
        } else if *s == String::from_str("done") {
            Some(TaskStatus::Done)
        } else if *s == String::from_str("closed") {
            Some(TaskStatus::Closed)
        } else {
            None
        }
    }
}

/// Status denoted by a wire string, if any.
pub open spec fn status_from_wire_spec(s: Seq<char>) -> Option<TaskStatus> {
    if s == "new"@ {
        Some(TaskStatus::New)
    } else if s == "in_progress"@ {
        Some(TaskStatus::InProgress)
    } else if s == "testing"@ {
        Some(TaskStatus::Testing)
    } else if s == "done"@ {
        Some(TaskStatus::Done)
    } else if s == "closed"@ {
        Some(TaskStatus::Closed)
    } else {
        None
    }
}

/// The four wire words denote four different roles: mapping a role to its
/// word and back yields the role.
pub proof fn lemma_role_wire_round_trip(r: UserRole)
    ensures
        role_from_wire_spec(role_wire_spec(r)) == Some(r),
{
    reveal_strlit("admin");
    reveal_strlit("manager");
    reveal_strlit("tester");
    reveal_strlit("developer");
    assert("admin"@.len() == 5);
    assert("manager"@.len() == 7);
    assert("tester"@.len() == 6);
    assert("developer"@.len() == 9);
    match r {
        UserRole::Admin => {
            assert(role_from_wire_spec("admin"@) == Some(UserRole::Admin));
        },
        UserRole::Manager => {
            assert("manager"@ != "admin"@);
            assert(role_from_wire_spec("manager"@) == Some(UserRole::Manager));
        },
        UserRole::Tester => {
            assert("tester"@ != "admin"@);
            assert("tester"@ != "manager"@);
            assert(role_from_wire_spec("tester"@) == Some(UserRole::Tester));
        },
        UserRole::Developer => {
            assert("developer"@ != "admin"@);
            assert("developer"@ != "manager"@);
            assert("developer"@ != "tester"@);
            assert(role_from_wire_spec("developer"@) == Some(UserRole::Developer));
        },
    }
}

/// Done and Closed are the stages on which the closing timestamp is derived.
pub open spec fn status_is_terminal(s: TaskStatus) -> bool {
    s == TaskStatus::Done || s == TaskStatus::Closed
}

/// A persisted user account.
#[derive(Debug)]
pub struct User {
    pub id: u128,
    pub username: String,
    pub email: String,
    pub password_hash: String,
    pub full_name: String,
    pub role: UserRole,
    pub is_active: bool,
    pub created_at: i64,
    pub updated_at: i64,
}

/// A persisted task.
#[derive(Debug)]
pub struct Task {
    pub id: u128,
    pub task_number: i32,
    pub title: String,
    pub description: Option<String>,
    pub assigned_by: u128,
    pub tester_id: Option<u128>,
    pub status: TaskStatus,
    pub urgency: TaskUrgency,
    pub created_at: i64,
    pub closed_at: Option<i64>,
    pub acceptance_criteria: Option<String>,
    pub evaluation_criteria: Option<String>,
    pub comment: Option<String>,
}

/// Immutable service configuration, established once at startup.
#[derive(Debug)]
pub struct AppConfig {
    pub jwt_secret: String,
    pub jwt_expiration_hours: i64,
}

} // verus!
