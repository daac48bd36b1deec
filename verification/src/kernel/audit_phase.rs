//! When a request leaves its marks in the audit log.
//!
//! A reading verb leaves one record, after it ran; without it there is no
//! response. A verb with side effects leaves a record of the intent before it runs,
//! and without it does not run; after it ran it leaves a record of the outcome, and
//! without that the response says so.

use crate::domain::{AuditError, Capability};
use crate::error::{DaemonError, OutcomeDegraded};
use vstd::prelude::*;

verus! {

/// The two ways in which verbs are audited.
#[derive(Clone, Copy, Debug, PartialEq, Eq, Structural)]
pub enum AuditClass {
    /// One record, after the verb ran.
    Read,
    /// A record of the intent before, and one of the outcome after.
    SideEffecting,
}

/// The way in which a verb is audited.
pub open spec fn audit_class(capability: Capability) -> AuditClass {
    match capability {
        Capability::Observe | Capability::Query => AuditClass::Read,
        _ => AuditClass::SideEffecting,
    }
}

impl AuditClass {
    /// The way in which a verb is audited.
    pub fn of(capability: Capability) -> (class: AuditClass)
        ensures
            class == audit_class(capability),
    {
        match capability {
            Capability::Observe => AuditClass::Read,
            Capability::Query => AuditClass::Read,
            Capability::Mutate => AuditClass::SideEffecting,
            Capability::Execute => AuditClass::SideEffecting,
            Capability::Manage => AuditClass::SideEffecting,
            Capability::Destroy => AuditClass::SideEffecting,
        }
    }
}

/// What the result of a write to the audit log means, by its place in the sequence.
pub struct AuditPhase {}

impl AuditPhase {
    /// The result of a write that ran on another thread; `None` where that thread
    /// did not come back with one, which counts as a failed write.
    pub fn record_blocking(joined: Option<Result<(), AuditError>>) -> (written: Result<
        (),
        AuditError,
    >)
        ensures
            written == match joined {
                Some(result) => result,
                None => Err(AuditError::WriteFailed),
            },
    {
        match joined {
            Some(result) => result,
            None => Err(AuditError::WriteFailed),
        }
    }

    /// The record of an intent: without it the verb does not run.
    pub fn record_intent(written: Result<(), AuditError>) -> (result: Result<(), DaemonError>)
        ensures
            result == match written {
                Ok(_) => Ok(()),
                Err(_) => Err(DaemonError::Boot),
            },
    {
        match written {
            Ok(()) => Ok(()),
            Err(_) => Err(DaemonError::Boot),
        }
    }

    /// The record of an outcome: without it the response is a downgraded one.
    pub fn record_outcome(written: Result<(), AuditError>) -> (result: Result<(), OutcomeDegraded>)
        ensures
            result == match written {
                Ok(_) => Ok(()),
                Err(cause) => Err(OutcomeDegraded { cause }),
            },
    {
        match written {
            Ok(()) => Ok(()),
            Err(cause) => Err(OutcomeDegraded { cause }),
        }
    }

    /// The one record of a reading verb: without it there is no response.
    pub fn record_read(written: Result<(), AuditError>) -> (result: Result<(), DaemonError>)
        ensures
            result == match written {
                Ok(_) => Ok(()),
                Err(_) => Err(DaemonError::Boot),
            },
    {
        match written {
            Ok(()) => Ok(()),
            Err(_) => Err(DaemonError::Boot),
        }
    }
}

} // verus!
