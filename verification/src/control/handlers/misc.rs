//! Credentials, constraints, conditions, notes, settings, audit, approvals, export,
//! import and shutdown.

use super::{
    answer_read, answer_write, answers_failed_read, answers_read, answers_write, failed_read,
    not_implemented_response, WritePlan, CONTROL_OPERATOR, NOT_ENABLED_MESSAGE,
};
use crate::control::dto::{
    error_is, AuditEventDto, ConditionDto, ConstraintDto, DenialSummaryDto, DenyNoteDto, HttpError,
    SettingDto, WriteAck, WriteConditionReq, WriteConstraintReq, WriteDenyNoteReq,
};
use crate::control::endpoints::{
    page_query, validate_import_on_timeout, validate_settings_on_timeout, WriteHttp,
};
use crate::control::fields::{text_field, text_or_null, Field};
use crate::control::{Actor, WriteIntent};
use crate::domain::{ConnOrigin, Page, PageQuery, PAGE_SIZE_DEFAULT, PAGE_SIZE_MAX};
use crate::error::{DaemonError, NOT_IMPLEMENTED_CODE};
use crate::text::same_text;
use vstd::prelude::*;

verus! {

/// The origin of a write of the control plane itself.
pub fn control_origin() -> (origin: ConnOrigin)
    ensures
        origin == (ConnOrigin::UnixPeer { uid: 0, gid: 0 }),
{
    ConnOrigin::UnixPeer { uid: 0, gid: 0 }
}

/// Whether an actor is the control plane itself.
pub open spec fn is_control_actor(actor: Actor) -> bool {
    actor matches Actor::Operator(id) && id@ == CONTROL_OPERATOR@
}

/// The actor of a write of the control plane itself.
pub fn control_actor() -> (actor: Actor)
    ensures
        is_control_actor(actor),
{
    Actor::Operator(CONTROL_OPERATOR.to_owned())
}

fn control_write(intent: WriteIntent) -> (plan: WritePlan)
    ensures
        plan.origin == (ConnOrigin::UnixPeer { uid: 0, gid: 0 }),
        is_control_actor(plan.actor),
        plan.intent == intent,
{
    WritePlan { origin: control_origin(), actor: control_actor(), intent }
}

/// Credentials cannot be written yet.
pub fn create_credential() -> (error: HttpError)
    ensures
        error_is(
            error,
            501,
            "credentials_not_enabled"@,
            "credential enrollment is not enabled (D2c)"@,
        ),
{
    HttpError::new(501, "credentials_not_enabled", "credential enrollment is not enabled (D2c)")
}

/// Credentials cannot be read yet.
pub fn list_credentials() -> (error: HttpError)
    ensures
        error_is(error, 501, NOT_IMPLEMENTED_CODE@, NOT_ENABLED_MESSAGE@),
{
    not_implemented_response()
}

/// Answers with a collection.
pub fn list_response<T>(read: Result<Page<T>, DaemonError>) -> (answer: Result<Page<T>, HttpError>)
    ensures
        answers_read(answer, read, true, "read_failed"@, "list read failed"@),
{
    answer_read(read, true, "read_failed", "list read failed")
}

/// Answers with the constraints.
pub fn list_constraints(read: Result<Page<ConstraintDto>, DaemonError>) -> (answer: Result<
    Page<ConstraintDto>,
    HttpError,
>)
    ensures
        answers_read(answer, read, true, "read_failed"@, "list read failed"@),
{
    list_response(read)
}

/// Answers with the conditions.
pub fn list_conditions(read: Result<Page<ConditionDto>, DaemonError>) -> (answer: Result<
    Page<ConditionDto>,
    HttpError,
>)
    ensures
        answers_read(answer, read, true, "read_failed"@, "list read failed"@),
{
    list_response(read)
}

/// Answers with the notes on refusals.
pub fn list_deny_notes(read: Result<Page<DenyNoteDto>, DaemonError>) -> (answer: Result<
    Page<DenyNoteDto>,
    HttpError,
>)
    ensures
        answers_read(answer, read, true, "read_failed"@, "list read failed"@),
{
    list_response(read)
}

/// Answers with the audit records.
pub fn list_audit(read: Result<Page<AuditEventDto>, DaemonError>) -> (answer: Result<
    Page<AuditEventDto>,
    HttpError,
>)
    ensures
        answers_read(answer, read, true, "read_failed"@, "list read failed"@),
{
    list_response(read)
}

/// Answers with the refusals by resource.
pub fn denials_summary(read: Result<Page<DenialSummaryDto>, DaemonError>) -> (answer: Result<
    Page<DenialSummaryDto>,
    HttpError,
>)
    ensures
        answers_read(answer, read, true, "read_failed"@, "list read failed"@),
{
    list_response(read)
}

/// Plans to create or to delete a constraint.
pub fn create_constraint(body: WriteConstraintReq) -> (plan: WritePlan)
    ensures
        plan.origin == (ConnOrigin::UnixPeer { uid: 0, gid: 0 }),
        is_control_actor(plan.actor),
        plan.intent.entity@ == "constraints"@,
        plan.intent.fields@ == seq![
            ("resource_id", text_or_null(body.resource_id)),
            ("capability", text_or_null(body.capability)),
            ("kind", text_or_null(body.kind)),
            ("spec", text_or_null(body.spec)),
            ("id", text_or_null(body.id)),
        ],
        plan.intent.expected_version == body.expected_version,
{
    control_write(
        WriteIntent {
            entity: "constraints",
            fields: vec![
                ("resource_id", text_field(body.resource_id)),
                ("capability", text_field(body.capability)),
                ("kind", text_field(body.kind)),
                ("spec", text_field(body.spec)),
                ("id", text_field(body.id)),
            ],
            expected_version: body.expected_version,
        },
    )
}

/// Plans to create or to delete a condition.
pub fn create_condition(body: WriteConditionReq) -> (plan: WritePlan)
    ensures
        plan.origin == (ConnOrigin::UnixPeer { uid: 0, gid: 0 }),
        is_control_actor(plan.actor),
        plan.intent.entity@ == "conditions"@,
        plan.intent.fields@ == seq![
            ("resource_id", text_or_null(body.resource_id)),
            ("capability", text_or_null(body.capability)),
            ("predicate", text_or_null(body.predicate)),
            ("spec", text_or_null(body.spec)),
            ("id", text_or_null(body.id)),
        ],
        plan.intent.expected_version == body.expected_version,
{
    control_write(
        WriteIntent {
            entity: "conditions",
            fields: vec![
                ("resource_id", text_field(body.resource_id)),
                ("capability", text_field(body.capability)),
                ("predicate", text_field(body.predicate)),
                ("spec", text_field(body.spec)),
                ("id", text_field(body.id)),
            ],
            expected_version: body.expected_version,
        },
    )
}

/// Plans to create or to delete a note on a refusal.
pub fn create_deny_note(body: WriteDenyNoteReq) -> (plan: WritePlan)
    ensures
        plan.origin == (ConnOrigin::UnixPeer { uid: 0, gid: 0 }),
        is_control_actor(plan.actor),
        plan.intent.entity@ == "deny_notes"@,
        plan.intent.fields@ == seq![
            ("resource_id", text_or_null(body.resource_id)),
            ("capability", text_or_null(body.capability)),
            ("note", text_or_null(body.note)),
            ("id", text_or_null(body.id)),
        ],
        plan.intent.expected_version == body.expected_version,
{
    control_write(
        WriteIntent {
            entity: "deny_notes",
            fields: vec![
                ("resource_id", text_field(body.resource_id)),
                ("capability", text_field(body.capability)),
                ("note", text_field(body.note)),
                ("id", text_field(body.id)),
            ],
            expected_version: body.expected_version,
        },
    )
}

/// The page that holds all settings.
pub fn settings_page() -> (query: PageQuery)
    ensures
        query.page_no == 1,
        query.page_size == PAGE_SIZE_MAX,
{
    page_query(Some(1), Some(PAGE_SIZE_MAX))
}

/// Answers with the settings, without the page around them.
pub fn list_settings(read: Result<Page<SettingDto>, DaemonError>) -> (answer: Result<
    Vec<SettingDto>,
    HttpError,
>)
    ensures
        match read {
            Ok(page) => answer == Ok::<_, HttpError>(page.items),
            Err(err) => answer matches Err(e) && answers_failed_read(
                e,
                err,
                true,
                "read_failed"@,
                "settings read failed"@,
            ),
        },
{
    match read {
        Ok(page) => Ok(page.items),
        Err(err) => Err(failed_read(err, true, "read_failed", "settings read failed")),
    }
}

/// A request to write a setting.
#[derive(Debug)]
pub struct WriteSettingsReq {
    pub key: String,
    pub value: String,
    pub on_timeout: Option<String>,
    pub expected_version: Option<i64>,
}

/// The setting that says what becomes of an escalation that times out.
pub const ON_TIMEOUT_KEY: &'static str = "approval.on_timeout";

/// Whether a request would have an escalation that times out end in anything but a
/// refusal.
pub open spec fn loosens_timeout(body: WriteSettingsReq) -> bool {
    ||| body.on_timeout is Some && body.on_timeout->0@ != "deny"@
    ||| body.key@ == ON_TIMEOUT_KEY@ && body.value@ != "deny"@
}

/// Plans to write a setting. What becomes of an escalation that times out cannot be
/// changed.
pub fn write_settings(body: WriteSettingsReq) -> (plan: Result<WritePlan, HttpError>)
    ensures
        match plan {
            Ok(p) => {
                &&& !loosens_timeout(body)
                &&& p.origin == (ConnOrigin::UnixPeer { uid: 0, gid: 0 })
                &&& is_control_actor(p.actor)
                &&& p.intent.entity@ == "settings"@
                &&& p.intent.fields@ == seq![
                    ("key", Field::Text(body.key)),
                    ("value", Field::Text(body.value)),
                ]
                &&& p.intent.expected_version == body.expected_version
            },
            Err(e) => loosens_timeout(body) && error_is(
                e,
                400,
                "on_timeout_allow_rejected"@,
                "settings on_timeout=allow is rejected (escalation timeout is always deny)"@,
            ),
        },
{
    let mut loosens: bool = false;
    if let Some(on_timeout) = &body.on_timeout {
        if validate_settings_on_timeout(on_timeout.as_str()).is_err() {
            loosens = true;
        }
    }
    if same_text(body.key.as_str(), ON_TIMEOUT_KEY) && validate_settings_on_timeout(
        body.value.as_str(),
    ).is_err() {
        loosens = true;
    }
    if loosens {
        return Err(
            HttpError::new(
                400,
                "on_timeout_allow_rejected",
                "settings on_timeout=allow is rejected (escalation timeout is always deny)",
            ),
        );
    }
    Ok(
        control_write(
            WriteIntent {
                entity: "settings",
                fields: vec![("key", Field::Text(body.key)), ("value", Field::Text(body.value))],
                expected_version: body.expected_version,
            },
        ),
    )
}

/// Tells what a write came to.
pub fn write_response(http: WriteHttp) -> (answer: Result<WriteAck, HttpError>)
    ensures
        answers_write(answer, http, "stale optimistic-lock version"@, "policy write failed"@),
{
    answer_write(http, "stale optimistic-lock version", "policy write failed")
}

/// A request about approvals: to list them, or to adjudicate one.
#[derive(Debug)]
pub struct ApprovalsReq {
    pub op: Option<String>,
}

/// Approvals are switched off: none waits, and none can be adjudicated.
pub fn approvals(body: Option<ApprovalsReq>) -> (answer: Result<Page<Field>, HttpError>)
    ensures
        if body is Some && body->0.op is Some && body->0.op->0@ == "adjudicate"@ {
            answer matches Err(e) && error_is(
                e,
                409,
                "approvals_disabled"@,
                "approvals are disabled; escalations are denied (on_timeout=deny)"@,
            )
        } else {
            answer matches Ok(page) && {
                &&& page.items@.len() == 0
                &&& page.page_no == 1
                &&& page.page_size == PAGE_SIZE_DEFAULT
                &&& page.total == 0
            }
        },
{
    if let Some(request) = body {
        if let Some(op) = request.op {
            if same_text(op.as_str(), "adjudicate") {
                return Err(
                    HttpError::new(
                        409,
                        "approvals_disabled",
                        "approvals are disabled; escalations are denied (on_timeout=deny)",
                    ),
                );
            }
        }
    }
    Ok(Page { items: Vec::new(), page_no: 1, page_size: PAGE_SIZE_DEFAULT, total: 0 })
}

/// The exported policy, which is empty so far.
pub fn export_policy() -> (toml: String)
    ensures
        toml@.len() == 0,
{
    String::new()
}

/// A request to import a policy.
#[derive(Debug)]
pub struct ImportReq {
    pub on_timeout: Option<String>,
}

/// What an import changed.
#[derive(Clone, Copy, Debug, PartialEq, Eq, Structural)]
pub struct ImportReport {
    pub added: u64,
    pub changed: u64,
    pub deleted: u64,
    pub applied: bool,
}

/// Imports a policy, so far without a change. One that would have an escalation that
/// times out end in anything but a refusal is turned away.
pub fn import_policy(body: Option<ImportReq>) -> (answer: Result<ImportReport, HttpError>)
    ensures
        if body is Some && body->0.on_timeout is Some && body->0.on_timeout->0@ != "deny"@ {
            answer matches Err(e) && error_is(
                e,
                400,
                "on_timeout_allow_rejected"@,
                "import on_timeout=allow is rejected (escalation timeout is always deny)"@,
            )
        } else {
            answer == Ok::<_, HttpError>(
                ImportReport { added: 0, changed: 0, deleted: 0, applied: true },
            )
        },
{
    if let Some(request) = body {
        if let Some(on_timeout) = request.on_timeout {
            if validate_import_on_timeout(on_timeout.as_str()).is_err() {
                return Err(
                    HttpError::new(
                        400,
                        "on_timeout_allow_rejected",
                        "import on_timeout=allow is rejected (escalation timeout is always deny)",
                    ),
                );
            }
        }
    }
    Ok(ImportReport { added: 0, changed: 0, deleted: 0, applied: true })
}

/// Shutdown is not enabled yet.
pub fn shutdown() -> (error: HttpError)
    ensures
        error_is(error, 501, NOT_IMPLEMENTED_CODE@, NOT_ENABLED_MESSAGE@),
{
    not_implemented_response()
}

/// What becomes of an escalation that times out can be written only as a refusal: a
/// request that names anything else for it, beside its key or as the value of the setting
/// itself, is turned away, and no other request is.
pub proof fn timeouts_stay_refusals(body: WriteSettingsReq)
    ensures
        loosens_timeout(body) <==> (body.on_timeout is Some && body.on_timeout->0@ != "deny"@) || (
        body.key@ == "approval.on_timeout"@ && body.value@ != "deny"@),
{
}

/// A write of the control plane itself is charged to the operator `control`.
pub proof fn control_plane_writes_as_control(actor: Actor)
    ensures
        is_control_actor(actor) <==> (actor matches Actor::Operator(id) && id@ == "control"@),
{
}

} // verus!
