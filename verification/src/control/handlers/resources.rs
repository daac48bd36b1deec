//! Resources, by their codes.

use super::misc::{control_actor, control_origin, is_control_actor};
use super::{answer_read, answer_write, answers_read, answers_write, WritePlan};
use crate::control::dto::{error_is, CreateResourceReq, HttpError, ResourceDto, WriteAck};
use crate::control::endpoints::WriteHttp;
use crate::control::fields::Field;
use crate::control::WriteIntent;
use crate::domain::{ConnOrigin, Page};
use crate::error::DaemonError;
use vstd::prelude::*;

verus! {

/// Answers with the resources.
pub fn list_resources(read: Result<Page<ResourceDto>, DaemonError>) -> (answer: Result<
    Page<ResourceDto>,
    HttpError,
>)
    ensures
        answers_read(answer, read, false, "read_failed"@, "failed to read resources"@),
{
    answer_read(read, false, "read_failed", "failed to read resources")
}

/// Plans to create a resource.
pub fn create_resource(body: CreateResourceReq) -> (plan: WritePlan)
    ensures
        plan.origin == (ConnOrigin::UnixPeer { uid: 0, gid: 0 }),
        is_control_actor(plan.actor),
        plan.intent.entity@ == "resources"@,
        plan.intent.fields@ == seq![
            ("code", Field::Text(body.code)),
            ("adapter", Field::Text(body.adapter)),
            ("transport", Field::Text(body.transport)),
        ],
        plan.intent.expected_version is None,
{
    let intent = WriteIntent {
        entity: "resources",
        fields: vec![
            ("code", Field::Text(body.code)),
            ("adapter", Field::Text(body.adapter)),
            ("transport", Field::Text(body.transport)),
        ],
        expected_version: None,
    };
    WritePlan { origin: control_origin(), actor: control_actor(), intent }
}

/// Tells what the creation of a resource came to.
pub fn write_response(http: WriteHttp) -> (answer: Result<WriteAck, HttpError>)
    ensures
        answers_write(
            answer,
            http,
            "resource was modified concurrently; retry with the current version"@,
            "failed to write resource"@,
        ),
{
    answer_write(
        http,
        "resource was modified concurrently; retry with the current version",
        "failed to write resource",
    )
}

/// Discovery is not enabled, whatever the resource.
pub fn discover_resource() -> (error: HttpError)
    ensures
        error_is(
            error,
            501,
            "discover_not_enabled"@,
            "resource discovery is not enabled (data-plane wiring pending)"@,
        ),
{
    HttpError::new(
        501,
        "discover_not_enabled",
        "resource discovery is not enabled (data-plane wiring pending)",
    )
}

} // verus!
