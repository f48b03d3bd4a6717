//! Wire-string mappings of the closed enumerations.

use testflow_core::models::{TaskStatus, TaskUrgency, UserRole};

#[test]
fn role_wire_round_trip() {
    for role in [UserRole::Admin, UserRole::Manager, UserRole::Tester, UserRole::Developer] {
        let s = role.wire_str().to_string();
        assert_eq!(UserRole::from_wire(&s), Some(role));
    }
    assert_eq!(UserRole::from_wire(&"ceo".to_string()), None);
    assert_eq!(UserRole::from_wire(&"Admin".to_string()), None);
    assert_eq!(UserRole::from_wire(&"".to_string()), None);
}

#[test]
fn status_wire_round_trip() {
    for status in [
        TaskStatus::New,
        TaskStatus::InProgress,
        TaskStatus::Testing,
        TaskStatus::Done,
        TaskStatus::Closed,
    ] {
        let s = status.wire_str().to_string();
        assert_eq!(TaskStatus::from_wire(&s), Some(status));
    }
    assert_eq!(TaskStatus::from_wire(&"archived".to_string()), None);
    assert_eq!(TaskStatus::wire_str(&TaskStatus::InProgress), "in_progress");
}

#[test]
fn urgency_wire_round_trip() {
    for urgency in
        [TaskUrgency::Low, TaskUrgency::Medium, TaskUrgency::High, TaskUrgency::Critical] {
        let s = urgency.wire_str().to_string();
        assert_eq!(TaskUrgency::from_wire(&s), Some(urgency));
    }
    assert_eq!(TaskUrgency::from_wire(&"urgent".to_string()), None);
}

#[test]
fn terminal_statuses() {
    assert!(TaskStatus::Done.is_terminal());
    assert!(TaskStatus::Closed.is_terminal());
    assert!(!TaskStatus::New.is_terminal());
    assert!(!TaskStatus::InProgress.is_terminal());
    assert!(!TaskStatus::Testing.is_terminal());
}
