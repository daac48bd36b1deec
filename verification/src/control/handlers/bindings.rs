//! Bindings of principals to roles.

use super::{
    answer_read, answers_read, charged_to, origin_of_write, resolve_actor, resolve_origin,
    WritePlan,
};
use crate::control::dto::{error_is, id_to_string, BindingDto, CreateBindingReq, HttpError};
use crate::control::fields::Field;
use crate::control::{Actor, WriteIntent};
use crate::domain::{ConnOrigin, Page};
use crate::error::DaemonError;
use crate::text::decimal;
use vstd::prelude::*;

verus! {

/// Answers with the bindings.
pub fn list_bindings(read: Result<Page<BindingDto>, DaemonError>) -> (answer: Result<
    Page<BindingDto>,
    HttpError,
>)
    ensures
        answers_read(answer, read, true, "read_failed"@, "failed to read policy"@),
{
    answer_read(read, true, "read_failed", "failed to read policy")
}

/// Plans to bind a principal to a role.
pub fn create_binding(
    origin: Option<ConnOrigin>,
    local: Option<ConnOrigin>,
    actor: Option<Actor>,
    body: CreateBindingReq,
) -> (plan: Result<WritePlan, HttpError>)
    ensures
        match plan {
            Ok(p) => {
                &&& origin_of_write(origin, local) == Some(p.origin)
                &&& charged_to(p.actor, actor)
                &&& p.intent.entity@ == "bindings"@
                &&& p.intent.fields@ == seq![
                    ("principal_id", Field::Text(body.principal_id)),
                    ("role_id", Field::Text(body.role_id)),
                ]
                &&& p.intent.expected_version is None
            },
            Err(e) => origin_of_write(origin, local) is None && error_is(
                e,
                500,
                "write_failed"@,
                "failed to write policy"@,
            ),
        },
{
    let origin = match resolve_origin(origin, local, "failed to write policy") {
        Ok(origin) => origin,
        Err(e) => {
            return Err(e);
        },
    };
    let actor = resolve_actor(actor);
    let intent = WriteIntent {
        entity: "bindings",
        fields: vec![
            ("principal_id", Field::Text(body.principal_id)),
            ("role_id", Field::Text(body.role_id)),
        ],
        expected_version: None,
    };
    Ok(WritePlan { origin, actor, intent })
}

/// A binding as clients see it.
pub fn binding_dto(id: u64, principal_id: u64, role_id: u64, version: i64) -> (dto: BindingDto)
    ensures
        dto.id@ == decimal(id as nat),
        dto.principal_id@ == decimal(principal_id as nat),
        dto.role_id@ == decimal(role_id as nat),
        dto.version == version,
{
    BindingDto {
        id: id_to_string(id),
        principal_id: id_to_string(principal_id),
        role_id: id_to_string(role_id),
        version,
    }
}

} // verus!
