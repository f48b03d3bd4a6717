//! Verified core of a task-tracking service: credential checking and signed
//! session tokens, role- and ownership-based access control, and the task
//! lifecycle rules (status transitions, the derived closing timestamp, field
//! merge semantics, listing and statistics).
//!
//! Storage and HTTP transport are collaborators: callers load records, pass
//! them in as plain values, and persist what comes back.

pub mod auth;
pub mod codec;
pub mod tasks;
pub mod users;
pub mod stats;
pub mod dto;
pub mod errors;
pub mod models;
pub mod password;
pub mod policy;
