//! What the control plane takes and gives over its socket.
//!
//! Ids and policy revisions go as decimal text, so that no client loses digits.

use super::WriteOutcome;
use crate::text::{decimal, decimal_of};
use vstd::prelude::*;

verus! {

/// The answer to a write that succeeded.
#[derive(Debug)]
pub struct WriteAck {
    pub policy_rev: String,
}

impl WriteAck {
    /// The answer for an outcome.
    pub fn from_outcome(outcome: &WriteOutcome) -> (ack: Self)
        ensures
            ack.policy_rev@ == decimal(outcome.policy_rev as nat),
    {
        Self { policy_rev: decimal_of(outcome.policy_rev) }
    }
}

/// An error, as clients see it.
#[derive(Debug)]
pub struct ApiErrorBody {
    pub error: ApiError,
}

/// The code of an error for programs, and a message for people.
#[derive(Debug)]
pub struct ApiError {
    pub code: String,
    pub message: String,
}

impl ApiErrorBody {
    /// An error with a code and a message.
    pub fn new(code: &str, message: &str) -> (body: Self)
        ensures
            body.error.code@ == code@,
            body.error.message@ == message@,
    {
        Self { error: ApiError { code: code.to_owned(), message: message.to_owned() } }
    }
}

/// An error answer: a status and a body.
#[derive(Debug)]
pub struct HttpError {
    pub status: u16,
    pub body: ApiErrorBody,
}

/// Whether an error answer has a status, a code and a message.
pub open spec fn error_is(
    error: HttpError,
    status: u16,
    code: Seq<char>,
    message: Seq<char>,
) -> bool {
    &&& error.status == status
    &&& error.body.error.code@ == code
    &&& error.body.error.message@ == message
}

impl HttpError {
    /// An error answer.
    pub fn new(status: u16, code: &str, message: &str) -> (error: Self)
        ensures
            error_is(error, status, code@, message@),
    {
        Self { status, body: ApiErrorBody::new(code, message) }
    }
}

/// An id as text.
pub fn id_to_string(id: u64) -> (text: String)
    ensures
        text@ == decimal(id as nat),
{
    decimal_of(id)
}

/// A principal.
#[derive(Debug)]
pub struct PrincipalDto {
    pub id: String,
    pub name: String,
    pub kind: String,
    pub version: i64,
}

/// A role.
#[derive(Debug)]
pub struct RoleDto {
    pub id: String,
    pub name: String,
    pub description: Option<String>,
    pub version: i64,
}

/// A resource, by its code.
#[derive(Debug)]
pub struct ResourceDto {
    pub id: String,
    pub code: String,
    pub adapter: String,
    pub transport: String,
    pub version: i64,
}

/// A binding of a principal to a role.
#[derive(Debug)]
pub struct BindingDto {
    pub id: String,
    pub principal_id: String,
    pub role_id: String,
    pub version: i64,
}

/// A constraint on a resource, by the resource's id.
#[derive(Debug)]
pub struct ConstraintDto {
    pub id: String,
    pub resource: String,
    pub capability: String,
    pub kind: String,
    pub spec: Option<String>,
    pub version: i64,
}

/// A condition.
#[derive(Debug)]
pub struct ConditionDto {
    pub id: String,
    pub resource: Option<String>,
    pub capability: Option<String>,
    pub predicate: String,
    pub spec: Option<String>,
    pub version: i64,
}

/// A note on a refusal.
#[derive(Debug)]
pub struct DenyNoteDto {
    pub id: String,
    pub resource: String,
    pub capability: String,
    pub note: String,
    pub version: i64,
}

/// A setting, with what is known of it.
#[derive(Debug)]
pub struct SettingDto {
    pub key: String,
    pub value: String,
    pub default: String,
    pub writable: bool,
    pub version: i64,
    pub kind: String,
}

/// A mode, of a resource or of all.
#[derive(Debug)]
pub struct ModeRowDto {
    pub id: String,
    pub scope: Option<String>,
    pub mode: String,
    pub expires_at: Option<String>,
    pub version: i64,
}

/// A grant for a time.
#[derive(Debug)]
pub struct TempGrantDto {
    pub id: String,
    pub principal: String,
    pub resource: String,
    pub capability: String,
    pub granted_at: String,
    pub expires_at: String,
    pub ended_at: Option<String>,
    pub end_reason: Option<String>,
    pub version: i64,
}

/// An audit record.
#[derive(Debug)]
pub struct AuditEventDto {
    pub id: String,
    pub v: u32,
    pub kind: String,
    pub ts: String,
    pub entry: String,
    pub origin: String,
    pub decision: String,
    pub resource: String,
    pub policy_rev: String,
}

/// How often a resource was refused.
#[derive(Debug)]
pub struct DenialSummaryDto {
    pub resource: String,
    pub count: u64,
    pub policy_rev: String,
}

/// A request to create a principal.
#[derive(Debug)]
pub struct CreatePrincipalReq {
    pub name: String,
    pub kind: String,
}

/// A request to create a role.
#[derive(Debug)]
pub struct CreateRoleReq {
    pub name: String,
    pub description: Option<String>,
}

/// A request to create a resource.
#[derive(Debug)]
pub struct CreateResourceReq {
    pub code: String,
    pub adapter: String,
    pub transport: String,
}

/// A request to bind a principal to a role.
#[derive(Debug)]
pub struct CreateBindingReq {
    pub principal_id: String,
    pub role_id: String,
}

/// A request to create a constraint, or with an expected version to delete one.
#[derive(Debug)]
pub struct WriteConstraintReq {
    pub resource_id: Option<String>,
    pub capability: Option<String>,
    pub kind: Option<String>,
    pub spec: Option<String>,
    pub id: Option<String>,
    pub expected_version: Option<i64>,
}

/// A request to create a condition, or with an expected version to delete one.
#[derive(Debug)]
pub struct WriteConditionReq {
    pub resource_id: Option<String>,
    pub capability: Option<String>,
    pub predicate: Option<String>,
    pub spec: Option<String>,
    pub id: Option<String>,
    pub expected_version: Option<i64>,
}

/// A request to create a note on a refusal, or with an expected version to delete
/// one.
#[derive(Debug)]
pub struct WriteDenyNoteReq {
    pub resource_id: Option<String>,
    pub capability: Option<String>,
    pub note: Option<String>,
    pub id: Option<String>,
    pub expected_version: Option<i64>,
}

/// An error answer is told by its status, its code and its message, all three.
pub proof fn errors_are_told_by_status_code_and_message(
    error: HttpError,
    status: u16,
    code: Seq<char>,
    message: Seq<char>,
)
    ensures
        error_is(error, status, code, message) <==> error.status == status && error.body.error.code@
            == code && error.body.error.message@ == message,
{
}

} // verus!
