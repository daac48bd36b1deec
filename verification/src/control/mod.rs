//! The control plane: reading and writing the policy.
//!
//! A write is one unit of three parts: the transaction, the rebuilt snapshot and the
//! audit record. Whatever fails, nothing is committed, and the caller is told that the
//! write failed.

pub mod approvals;
pub mod audit_read;
pub mod auth;
pub mod dto;
pub mod endpoints;
pub mod fields;
pub mod handlers;
pub mod laws;
pub mod repo;
pub mod router;
pub mod verify;

use crate::control::fields::Field;
use vstd::prelude::*;

verus! {

/// Who writes.
#[derive(Debug)]
pub enum Actor {
    /// An authenticated operator.
    Operator(String),
    /// The daemon itself.
    System,
}

impl Clone for Actor {
    fn clone(&self) -> (copy: Self)
        ensures
            copy == self,
    {
        match self {
            Actor::Operator(id) => Actor::Operator(id.clone()),
            Actor::System => Actor::System,
        }
    }
}

/// A write to the policy: the entity, its fields, and the version that the writer
/// expects. A write without one takes no optimistic lock.
#[derive(Debug)]
pub struct WriteIntent {
    pub entity: &'static str,
    pub fields: Vec<(&'static str, Field)>,
    pub expected_version: Option<i64>,
}

/// What a write came to.
#[derive(Clone, Copy, Debug, PartialEq, Eq, Structural)]
pub struct WriteOutcome {
    pub version: i64,
    pub policy_rev: u64,
}

/// Why a write failed. Nothing of a failed write stays.
#[derive(Clone, Copy, Debug, PartialEq, Eq, Structural)]
pub enum WriteError {
    /// The expected version is not the current one.
    VersionConflict,
    /// There is no such write yet.
    NotImplemented,
    /// The write refers to a resource that does not exist.
    ResourceNotFound,
    /// The transaction failed.
    Transaction,
    /// The snapshot could not be rebuilt.
    SnapshotRebuild,
    /// The audit record could not be written.
    Audit,
}

impl WriteError {
    /// The text of the error.
    pub fn message(&self) -> (text: &'static str)
        ensures
            text@ == match *self {
                WriteError::VersionConflict => "version conflict"@,
                WriteError::NotImplemented => "not implemented"@,
                WriteError::ResourceNotFound => "resource not found"@,
                WriteError::Transaction => "transaction failed"@,
                WriteError::SnapshotRebuild => "snapshot rebuild failed"@,
                WriteError::Audit => "audit write failed"@,
            },
    {
        match self {
            WriteError::VersionConflict => "version conflict",
            WriteError::NotImplemented => "not implemented",
            WriteError::ResourceNotFound => "resource not found",
            WriteError::Transaction => "transaction failed",
            WriteError::SnapshotRebuild => "snapshot rebuild failed",
            WriteError::Audit => "audit write failed",
        }
    }
}

/// What becomes of a request for more rights: it is refused, always.
#[derive(Clone, Copy, Debug, PartialEq, Eq, Structural)]
pub enum ApprovalOutcome {
    Denied,
}

/// A request for more rights that waits for a person.
#[derive(Debug)]
pub struct PendingApproval {
    pub principal: u64,
    pub resource: String,
}

} // verus!
