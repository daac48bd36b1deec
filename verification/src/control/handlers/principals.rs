//! Principals.

use super::{
    answer_read, answer_write, answers_read, answers_write, charged_to, origin_of_write,
    resolve_actor, resolve_origin, WritePlan,
};
use crate::control::dto::{error_is, CreatePrincipalReq, HttpError, PrincipalDto, WriteAck};
use crate::control::endpoints::WriteHttp;
use crate::control::fields::Field;
use crate::control::{Actor, WriteIntent};
use crate::domain::{ConnOrigin, Page};
use crate::error::DaemonError;
use vstd::prelude::*;

verus! {

/// Answers with the principals.
pub fn list_principals(read: Result<Page<PrincipalDto>, DaemonError>) -> (answer: Result<
    Page<PrincipalDto>,
    HttpError,
>)
    ensures
        answers_read(answer, read, false, "list_failed"@, "failed to read principals"@),
{
    answer_read(read, false, "list_failed", "failed to read principals")
}

/// Plans to create a principal.
pub fn create_principal(
    origin: Option<ConnOrigin>,
    local: Option<ConnOrigin>,
    actor: Option<Actor>,
    body: CreatePrincipalReq,
) -> (plan: Result<WritePlan, HttpError>)
    ensures
        match plan {
            Ok(p) => {
                &&& origin_of_write(origin, local) == Some(p.origin)
                &&& charged_to(p.actor, actor)
                &&& p.intent.entity@ == "principals"@
                &&& p.intent.fields@ == seq![
                    ("name", Field::Text(body.name)),
                    ("kind", Field::Text(body.kind)),
                ]
                &&& p.intent.expected_version is None
            },
            Err(e) => origin_of_write(origin, local) is None && error_is(
                e,
                500,
                "write_failed"@,
                "failed to write principal"@,
            ),
        },
{
    let origin = match resolve_origin(origin, local, "failed to write principal") {
        Ok(origin) => origin,
        Err(e) => {
            return Err(e);
        },
    };
    let actor = resolve_actor(actor);
    let intent = WriteIntent {
        entity: "principals",
        fields: vec![("name", Field::Text(body.name)), ("kind", Field::Text(body.kind))],
        expected_version: None,
    };
    Ok(WritePlan { origin, actor, intent })
}

/// Tells what the creation of a principal came to.
pub fn write_response(http: WriteHttp) -> (answer: Result<WriteAck, HttpError>)
    ensures
        answers_write(
            answer,
            http,
            "the resource was modified concurrently; reload and retry"@,
            "failed to write principal"@,
        ),
{
    answer_write(
        http,
        "the resource was modified concurrently; reload and retry",
        "failed to write principal",
    )
}

} // verus!
