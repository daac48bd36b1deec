//! Roles.

use super::{
    answer_read, answer_write, answers_read, answers_write, charged_to, origin_of_write,
    resolve_actor, resolve_origin, WritePlan,
};
use crate::control::dto::{
    error_is, id_to_string, CreateRoleReq, HttpError, RoleDto, WriteAck,
};
use crate::control::endpoints::WriteHttp;
use crate::control::fields::{text_field, text_or_null, Field};
use crate::control::{Actor, WriteIntent};
use crate::domain::{ConnOrigin, Page};
use crate::error::DaemonError;
use crate::text::decimal;
use vstd::prelude::*;

verus! {

/// Answers with the roles.
pub fn list_roles(read: Result<Page<RoleDto>, DaemonError>) -> (answer: Result<
    Page<RoleDto>,
    HttpError,
>)
    ensures
        answers_read(answer, read, false, "read_failed"@, "failed to read policy"@),
{
    answer_read(read, false, "read_failed", "failed to read policy")
}

/// Plans to create a role.
pub fn create_role(
    origin: Option<ConnOrigin>,
    local: Option<ConnOrigin>,
    actor: Option<Actor>,
    body: CreateRoleReq,
) -> (plan: Result<WritePlan, HttpError>)
    ensures
        match plan {
            Ok(p) => {
                &&& origin_of_write(origin, local) == Some(p.origin)
                &&& charged_to(p.actor, actor)
                &&& p.intent.entity@ == "roles"@
                &&& p.intent.fields@ == seq![
                    ("name", Field::Text(body.name)),
                    ("description", text_or_null(body.description)),
                ]
                &&& p.intent.expected_version is None
            },
            Err(e) => origin_of_write(origin, local) is None && error_is(
                e,
                500,
                "write_failed"@,
                "failed to write policy"@,
            ),
        },
{
    let origin = match resolve_origin(origin, local, "failed to write policy") {
        Ok(origin) => origin,
        Err(e) => {
            return Err(e);
        },
    };
    let actor = resolve_actor(actor);
    let intent = WriteIntent {
        entity: "roles",
        fields: vec![
            ("name", Field::Text(body.name)),
            ("description", text_field(body.description)),
        ],
        expected_version: None,
    };
    Ok(WritePlan { origin, actor, intent })
}

/// Tells what the write of a role or a binding came to.
pub fn write_response(http: WriteHttp) -> (answer: Result<WriteAck, HttpError>)
    ensures
        answers_write(
            answer,
            http,
            "the resource was modified concurrently; reload and retry"@,
            "failed to write policy"@,
        ),
{
    answer_write(
        http,
        "the resource was modified concurrently; reload and retry",
        "failed to write policy",
    )
}

/// A role as clients see it.
pub fn role_dto(id: u64, name: String, description: Option<String>, version: i64) -> (dto: RoleDto)
    ensures
        dto.id@ == decimal(id as nat),
        dto.name == name,
        dto.description == description,
        dto.version == version,
{
    RoleDto { id: id_to_string(id), name, description, version }
}

} // verus!
