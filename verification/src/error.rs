//! The daemon's errors, and the stage that each downstream failure is charged to.

use crate::domain::{AuditError, AuthError, Stage};
use vstd::prelude::*;

verus! {

/// A failure of the daemon itself, as opposed to the refusal of a request.
#[derive(Clone, Copy, Debug, PartialEq, Eq, Structural)]
pub enum DaemonError {
    /// A step of the boot sequence failed.
    Boot,
    /// A listener could not be bound or served.
    Listener,
    /// A connection could not be had, reused or checked.
    Pool,
    /// The exit filter refused to let a response through.
    Sanitize,
    /// The control plane has no such capability yet.
    NotImplemented,
}

impl DaemonError {
    /// The text of the error.
    pub fn message(&self) -> (text: &'static str)
        ensures
            text@ == match *self {
                DaemonError::Boot => "boot stage failed"@,
                DaemonError::Listener => "listener failed"@,
                DaemonError::Pool => "connection pool failed"@,
                DaemonError::Sanitize => "sanitize failed"@,
                DaemonError::NotImplemented => "control capability not implemented"@,
            },
    {
        match self {
            DaemonError::Boot => "boot stage failed",
            DaemonError::Listener => "listener failed",
            DaemonError::Pool => "connection pool failed",
            DaemonError::Sanitize => "sanitize failed",
            DaemonError::NotImplemented => "control capability not implemented",
        }
    }
}

/// The code of a capability that the control plane does not have yet.
pub const NOT_IMPLEMENTED_CODE: &'static str = "not_implemented";

/// The code of a response that tells: done, but the audit record was lost.
pub const OUTCOME_DOWNGRADED_CODE: &'static str = "executed_but_audit_downgraded";

/// The operation was done and its audit record was lost.
#[derive(Clone, Copy, Debug, PartialEq, Eq, Structural)]
pub struct OutcomeDegraded {
    pub cause: AuditError,
}

/// The code of a lost audit record.
pub open spec fn cause_code(cause: AuditError) -> Seq<char> {
    match cause {
        AuditError::WriteFailed => "audit_write_failed"@,
        AuditError::StorageUnavailable => "audit_storage_unavailable"@,
    }
}

impl OutcomeDegraded {
    /// The code of the failure that lost the record.
    pub fn cause_code(&self) -> (code: &'static str)
        ensures
            code@ == cause_code(self.cause),
    {
        match self.cause {
            AuditError::WriteFailed => "audit_write_failed",
            AuditError::StorageUnavailable => "audit_storage_unavailable",
        }
    }

    /// The text of the condition.
    pub fn message(&self) -> (text: &'static str)
        ensures
            text@ == "executed but audit downgraded"@,
    {
        "executed but audit downgraded"
    }
}

/// The response to an operation that was done while its audit record was lost.
#[derive(Debug)]
pub struct DowngradeEnvelope {
    pub downgraded: &'static str,
    pub cause: &'static str,
    pub payload: Vec<u8>,
}

impl DowngradeEnvelope {
    /// Wraps the scrubbed result of the operation under the downgrade code.
    pub fn new(cause: &'static str, payload: Vec<u8>) -> (envelope: Self)
        ensures
            envelope.downgraded@ == OUTCOME_DOWNGRADED_CODE@,
            envelope.cause@ == cause@,
            envelope.payload == payload,
    {
        DowngradeEnvelope { downgraded: OUTCOME_DOWNGRADED_CODE, cause, payload }
    }
}

/// A failure of what the evaluation of a request rests on.
#[derive(Clone, Copy, Debug, PartialEq, Eq, Structural)]
pub enum DownstreamError {
    /// The caller could not be authenticated.
    Auth(AuthError),
    /// The adapter could not classify the intent.
    Classify,
    /// The adapter could not check a constraint.
    Constraint,
    /// A condition could not be evaluated.
    Predicate,
    /// No credential for the resource could be had.
    Credential,
    /// The transport could not open or keep the connection.
    Transport,
    /// The resource code resolves to no address.
    Resolve,
    /// The adapter could not execute the intent.
    Exec,
    /// The audit record could not be written.
    Audit(AuditError),
    /// The adapter could not discover the backend's objects.
    Discover,
}

/// The stage that a downstream failure is charged to. Whatever keeps a backend
/// from being reached counts as a failure to connect.
pub open spec fn stage_of_failure(err: DownstreamError) -> Stage {
    match err {
        DownstreamError::Auth(_) => Stage::Auth,
        DownstreamError::Classify => Stage::Classify,
        DownstreamError::Constraint => Stage::Constraint,
        DownstreamError::Predicate => Stage::Condition,
        DownstreamError::Credential => Stage::Transport,
        DownstreamError::Transport => Stage::Transport,
        DownstreamError::Resolve => Stage::Transport,
        DownstreamError::Exec => Stage::Exec,
        DownstreamError::Audit(_) => Stage::Audit,
        DownstreamError::Discover => Stage::Discover,
    }
}

/// The stage that a downstream failure is charged to.
pub fn deny_stage(err: &DownstreamError) -> (stage: Stage)
    ensures
        stage == stage_of_failure(*err),
{
    match err {
        DownstreamError::Auth(_) => Stage::Auth,
        DownstreamError::Classify => Stage::Classify,
        DownstreamError::Constraint => Stage::Constraint,
        DownstreamError::Predicate => Stage::Condition,
        DownstreamError::Credential => Stage::Transport,
        DownstreamError::Transport => Stage::Transport,
        DownstreamError::Resolve => Stage::Transport,
        DownstreamError::Exec => Stage::Exec,
        DownstreamError::Audit(_) => Stage::Audit,
        DownstreamError::Discover => Stage::Discover,
    }
}

} // verus!
