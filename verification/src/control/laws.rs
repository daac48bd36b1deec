//! What the handlers plan is what the store is asked for.

use super::fields::{field_of, text_or_null, Field};
use super::handlers::mode_grants::{sets_mode, ModeRequest};
use super::handlers::WritePlan;
use super::repo::{
    collections_are_read_from_their_own_tables, elevation, planned, target_of, ListTarget, StoreWrite,
};
use super::{Actor, WriteError, WriteIntent};
use crate::domain::ConnOrigin;
use crate::text::long_number_in;
use vstd::prelude::*;

verus! {

/// The first field of a name is the one that is found.
proof fn lemma_field_at(fields: Seq<(&'static str, Field)>, key: Seq<char>, i: int)
    requires
        0 <= i < fields.len(),
        fields[i].0@ == key,
        forall|j: int| 0 <= j < i ==> (#[trigger] fields[j]).0@ != key,
    ensures
        field_of(fields, key) == Some(fields[i].1),
    decreases i,
{
    if i > 0 {
        assert(fields[0].0@ != key);
        let rest = fields.skip(1);
        assert forall|j: int| 0 <= j < i - 1 implies (#[trigger] rest[j]).0@ != key by {
            assert(rest[j] == fields[j + 1]);
        }
        lemma_field_at(rest, key, i - 1);
    }
}

/// The names of the entities differ.
proof fn lemma_entities()
    ensures
        "principals"@ != "grants"@,
        "roles"@ != "grants"@,
        "roles"@ != "principals"@,
        "resources"@ != "grants"@,
        "resources"@ != "principals"@,
        "resources"@ != "roles"@,
        "bindings"@ != "grants"@,
        "bindings"@ != "principals"@,
        "bindings"@ != "roles"@,
        "bindings"@ != "resources"@,
        "constraints"@ != "grants"@,
        "constraints"@ != "principals"@,
        "constraints"@ != "roles"@,
        "constraints"@ != "resources"@,
        "constraints"@ != "bindings"@,
        "conditions"@ != "grants"@,
        "conditions"@ != "principals"@,
        "conditions"@ != "roles"@,
        "conditions"@ != "resources"@,
        "conditions"@ != "bindings"@,
        "conditions"@ != "constraints"@,
        "deny_notes"@ != "grants"@,
        "deny_notes"@ != "principals"@,
        "deny_notes"@ != "roles"@,
        "deny_notes"@ != "resources"@,
        "deny_notes"@ != "bindings"@,
        "deny_notes"@ != "constraints"@,
        "deny_notes"@ != "conditions"@,
        "mode"@ != "grants"@,
        "mode"@ != "principals"@,
        "mode"@ != "roles"@,
        "mode"@ != "resources"@,
        "mode"@ != "bindings"@,
        "mode"@ != "constraints"@,
        "mode"@ != "conditions"@,
        "mode"@ != "deny_notes"@,
        "settings"@ != "grants"@,
        "settings"@ != "principals"@,
        "settings"@ != "roles"@,
        "settings"@ != "resources"@,
        "settings"@ != "bindings"@,
        "settings"@ != "constraints"@,
        "settings"@ != "conditions"@,
        "settings"@ != "deny_notes"@,
        "settings"@ != "mode"@,
{
    reveal_strlit("grants");
    assert("grants"@.len() == 6);
    reveal_strlit("principals");
    assert("principals"@.len() == 10);
    reveal_strlit("roles");
    assert("roles"@.len() == 5);
    reveal_strlit("resources");
    assert("resources"@.len() == 9);
    reveal_strlit("bindings");
    assert("bindings"@.len() == 8);
    reveal_strlit("constraints");
    assert("constraints"@.len() == 11);
    reveal_strlit("conditions");
    assert("conditions"@.len() == 10);
    reveal_strlit("deny_notes");
    assert("deny_notes"@.len() == 10);
    reveal_strlit("mode");
    assert("mode"@.len() == 4);
    reveal_strlit("settings");
    assert("settings"@.len() == 8);
    assert("principals"@[0] == 'p' && "conditions"@[0] == 'c' && "deny_notes"@[0] == 'd');
    assert("bindings"@[0] == 'b' && "settings"@[0] == 's');
}

/// The names of the fields of one request differ.
proof fn lemma_keys()
    ensures
        "name"@ != "kind"@,
        "name"@ != "description"@,
        "code"@ != "adapter"@,
        "code"@ != "transport"@,
        "adapter"@ != "transport"@,
        "principal_id"@ != "role_id"@,
        "key"@ != "value"@,
        "scope"@ != "mode"@,
        "scope"@ != "ttl_ms"@,
        "scope"@ != "expires_at"@,
        "mode"@ != "ttl_ms"@,
        "mode"@ != "expires_at"@,
        "ttl_ms"@ != "expires_at"@,
        "op"@ != "principal"@,
        "op"@ != "resource"@,
        "op"@ != "capability"@,
        "op"@ != "ttl_ms"@,
        "principal"@ != "resource"@,
        "principal"@ != "capability"@,
        "principal"@ != "ttl_ms"@,
        "resource"@ != "capability"@,
        "resource"@ != "ttl_ms"@,
        "capability"@ != "ttl_ms"@,
        "op"@ != "id"@,
        "resource_id"@ != "capability"@,
        "resource_id"@ != "kind"@,
        "resource_id"@ != "spec"@,
        "resource_id"@ != "id"@,
        "capability"@ != "kind"@,
        "capability"@ != "spec"@,
        "capability"@ != "id"@,
        "kind"@ != "spec"@,
        "kind"@ != "id"@,
        "spec"@ != "id"@,
        "resource_id"@ != "predicate"@,
        "capability"@ != "predicate"@,
        "predicate"@ != "spec"@,
        "predicate"@ != "id"@,
        "resource_id"@ != "note"@,
        "capability"@ != "note"@,
        "note"@ != "id"@,
        "elevate"@ != "revoke"@,
{
    reveal_strlit("name");
    assert("name"@.len() == 4);
    reveal_strlit("kind");
    assert("kind"@.len() == 4);
    reveal_strlit("description");
    assert("description"@.len() == 11);
    reveal_strlit("code");
    assert("code"@.len() == 4);
    reveal_strlit("adapter");
    assert("adapter"@.len() == 7);
    reveal_strlit("transport");
    assert("transport"@.len() == 9);
    reveal_strlit("principal_id");
    assert("principal_id"@.len() == 12);
    reveal_strlit("role_id");
    assert("role_id"@.len() == 7);
    reveal_strlit("key");
    assert("key"@.len() == 3);
    reveal_strlit("value");
    assert("value"@.len() == 5);
    reveal_strlit("scope");
    assert("scope"@.len() == 5);
    reveal_strlit("mode");
    assert("mode"@.len() == 4);
    reveal_strlit("ttl_ms");
    assert("ttl_ms"@.len() == 6);
    reveal_strlit("expires_at");
    assert("expires_at"@.len() == 10);
    reveal_strlit("op");
    assert("op"@.len() == 2);
    reveal_strlit("principal");
    assert("principal"@.len() == 9);
    reveal_strlit("resource");
    assert("resource"@.len() == 8);
    reveal_strlit("capability");
    assert("capability"@.len() == 10);
    reveal_strlit("id");
    assert("id"@.len() == 2);
    reveal_strlit("resource_id");
    assert("resource_id"@.len() == 11);
    reveal_strlit("spec");
    assert("spec"@.len() == 4);
    reveal_strlit("predicate");
    assert("predicate"@.len() == 9);
    reveal_strlit("note");
    assert("note"@.len() == 4);
    reveal_strlit("elevate");
    assert("elevate"@.len() == 7);
    reveal_strlit("revoke");
    assert("revoke"@.len() == 6);
    assert("name"@[0] == 'n' && "kind"@[0] == 'k');
    assert("op"@[0] == 'o' && "id"@[0] == 'i');
    assert("kind"@[0] == 'k' && "spec"@[0] == 's');
}

/// A principal that a handler plans to create is created under its name and kind.
pub proof fn planned_principal_is_stored(intent: WriteIntent, name: String, kind: String)
    requires
        intent.entity@ == "principals"@,
        intent.fields@ == seq![("name", Field::Text(name)), ("kind", Field::Text(kind))],
        intent.expected_version is None,
    ensures
        planned(intent) == Ok::<_, WriteError>(StoreWrite::CreatePrincipal { name, kind }),
{
    lemma_entities();
    lemma_keys();
    lemma_field_at(intent.fields@, "name"@, 0);
    lemma_field_at(intent.fields@, "kind"@, 1);
}

/// A role that a handler plans to create is created under its name, with its
/// description if it has one.
pub proof fn planned_role_is_stored(intent: WriteIntent, name: String, description: Option<String>)
    requires
        intent.entity@ == "roles"@,
        intent.fields@ == seq![
            ("name", Field::Text(name)),
            ("description", text_or_null(description)),
        ],
        intent.expected_version is None,
    ensures
        planned(intent) == Ok::<_, WriteError>(StoreWrite::CreateRole { name, description }),
{
    lemma_entities();
    lemma_keys();
    lemma_field_at(intent.fields@, "name"@, 0);
    lemma_field_at(intent.fields@, "description"@, 1);
}

/// A resource that a handler plans to create is created under its code, with its
/// adapter and transport.
pub proof fn planned_resource_is_stored(
    intent: WriteIntent,
    code: String,
    adapter: String,
    transport: String,
)
    requires
        intent.entity@ == "resources"@,
        intent.fields@ == seq![
            ("code", Field::Text(code)),
            ("adapter", Field::Text(adapter)),
            ("transport", Field::Text(transport)),
        ],
        intent.expected_version is None,
    ensures
        planned(intent) == Ok::<_, WriteError>(
            StoreWrite::CreateResource { code, adapter, transport },
        ),
{
    lemma_entities();
    lemma_keys();
    lemma_field_at(intent.fields@, "code"@, 0);
    lemma_field_at(intent.fields@, "adapter"@, 1);
    lemma_field_at(intent.fields@, "transport"@, 2);
}

/// A binding that a handler plans to create is created where both ids are numbers,
/// and is a failed transaction where they are not.
pub proof fn planned_binding_is_stored(
    intent: WriteIntent,
    principal_id: String,
    role_id: String,
)
    requires
        intent.entity@ == "bindings"@,
        intent.fields@ == seq![
            ("principal_id", Field::Text(principal_id)),
            ("role_id", Field::Text(role_id)),
        ],
        intent.expected_version is None,
    ensures
        planned(intent) == match (long_number_in(principal_id@), long_number_in(role_id@)) {
            (Some(p), Some(r)) => Ok(StoreWrite::CreateBinding { principal_id: p, role_id: r }),
            _ => Err(WriteError::Transaction),
        },
{
    lemma_entities();
    lemma_keys();
    lemma_field_at(intent.fields@, "principal_id"@, 0);
    lemma_field_at(intent.fields@, "role_id"@, 1);
}

/// A setting that a handler plans to write is written under its key.
pub proof fn planned_setting_is_stored(intent: WriteIntent, key: String, value: String)
    requires
        intent.entity@ == "settings"@,
        intent.fields@ == seq![("key", Field::Text(key)), ("value", Field::Text(value))],
    ensures
        planned(intent) == Ok::<_, WriteError>(StoreWrite::SetSetting { key, value }),
{
    lemma_entities();
    lemma_keys();
    lemma_field_at(intent.fields@, "key"@, 0);
    lemma_field_at(intent.fields@, "value"@, 1);
}

/// A mode that a handler plans to set is set with its end: where the request has a
/// time to live the mode expires, and where it has none the mode does not.
pub proof fn planned_mode_is_stored(
    plan: WritePlan,
    origin: ConnOrigin,
    actor: Actor,
    body: ModeRequest,
    expires_at: Option<String>,
)
    requires
        sets_mode(plan, origin, actor, body, expires_at),
        body.mode is Some,
        body.scope is Some ==> long_number_in(body.scope->0@) is Some,
    ensures
        planned(plan.intent) == Ok::<_, WriteError>(
            StoreWrite::SetMode {
                scope: match body.scope {
                    Some(s) => long_number_in(s@),
                    None => None,
                },
                mode: body.mode->0,
                expires_at: if body.ttl_ms is Some {
                    expires_at
                } else {
                    None
                },
            },
        ),
{
    lemma_entities();
    lemma_keys();
    let fields = plan.intent.fields@;
    lemma_field_at(fields, "scope"@, 0);
    lemma_field_at(fields, "mode"@, 1);
    lemma_field_at(fields, "expires_at"@, 3);
}

/// A grant that a handler plans to give is first a search for its resource; once that
/// is found, the grant is given with its time to live.
pub proof fn planned_grant_is_stored(
    intent: WriteIntent,
    principal: String,
    resource: String,
    capability: String,
    ttl_ms: i64,
    found: u64,
)
    requires
        intent.entity@ == "grants"@,
        intent.fields@.len() == 5,
        intent.fields@[0].0@ == "op"@,
        intent.fields@[0].1 matches Field::Text(op) && op@ == "elevate"@,
        intent.fields@.skip(1) == seq![
            ("principal", Field::Text(principal)),
            ("resource", Field::Text(resource)),
            ("capability", Field::Text(capability)),
            ("ttl_ms", Field::Int(ttl_ms)),
        ],
        long_number_in(principal@) is Some,
        ttl_ms > 0,
    ensures
        planned(intent) == Ok::<_, WriteError>(StoreWrite::FindResource { code: resource }),
        elevation(intent, Ok(Some(found))) == Ok::<_, WriteError>(
            StoreWrite::ElevateGrant {
                principal_id: long_number_in(principal@)->0,
                resource_id: found,
                capability,
                ttl_ms: ttl_ms as u64,
            },
        ),
        elevation(intent, Ok(None)) == Err::<StoreWrite, _>(WriteError::ResourceNotFound),
{
    lemma_keys();
    let fields = intent.fields@;
    let rest = fields.skip(1);
    assert(fields[1] == rest[0]);
    assert(fields[2] == rest[1]);
    assert(fields[3] == rest[2]);
    assert(fields[4] == rest[3]);
    lemma_field_at(fields, "op"@, 0);
    lemma_field_at(fields, "principal"@, 1);
    lemma_field_at(fields, "resource"@, 2);
    lemma_field_at(fields, "capability"@, 3);
    lemma_field_at(fields, "ttl_ms"@, 4);
}

/// A grant that a handler plans to take back is taken back by its id and the version
/// that the request names.
pub proof fn planned_revocation_is_stored(intent: WriteIntent, id: String, version: i64)
    requires
        intent.entity@ == "grants"@,
        intent.fields@.len() == 2,
        intent.fields@[0].0@ == "op"@,
        intent.fields@[0].1 matches Field::Text(op) && op@ == "revoke"@,
        intent.fields@.skip(1) == seq![("id", Field::Text(id))],
        intent.expected_version == Some(version),
    ensures
        planned(intent) == match long_number_in(id@) {
            Some(n) => Ok(StoreWrite::RevokeGrant { id: n, expected: version }),
            None => Err(WriteError::Transaction),
        },
{
    lemma_keys();
    let fields = intent.fields@;
    assert(fields[1] == fields.skip(1)[0]);
    lemma_field_at(fields, "op"@, 0);
    lemma_field_at(fields, "id"@, 1);
}

/// A constraint without an expected version is created, and with one deleted.
pub proof fn planned_constraint_is_stored(
    intent: WriteIntent,
    resource_id: Option<String>,
    capability: Option<String>,
    kind: Option<String>,
    spec: Option<String>,
    id: Option<String>,
)
    requires
        intent.entity@ == "constraints"@,
        intent.fields@ == seq![
            ("resource_id", text_or_null(resource_id)),
            ("capability", text_or_null(capability)),
            ("kind", text_or_null(kind)),
            ("spec", text_or_null(spec)),
            ("id", text_or_null(id)),
        ],
    ensures
        planned(intent) == match intent.expected_version {
            None => match (resource_id, capability, kind) {
                (Some(r), Some(capability), Some(kind)) => match long_number_in(r@) {
                    Some(resource_id) => Ok(
                        StoreWrite::CreateConstraint { resource_id, capability, kind, spec },
                    ),
                    None => Err(WriteError::Transaction),
                },
                _ => Err(WriteError::Transaction),
            },
            Some(expected) => match id {
                Some(text) => match long_number_in(text@) {
                    Some(id) => Ok(StoreWrite::DeleteConstraint { id, expected }),
                    None => Err(WriteError::Transaction),
                },
                None => Err(WriteError::Transaction),
            },
        },
{
    lemma_entities();
    lemma_keys();
    let fields = intent.fields@;
    lemma_field_at(fields, "resource_id"@, 0);
    lemma_field_at(fields, "capability"@, 1);
    lemma_field_at(fields, "kind"@, 2);
    lemma_field_at(fields, "spec"@, 3);
    lemma_field_at(fields, "id"@, 4);
}

/// A condition without an expected version is created, and with one deleted.
pub proof fn planned_condition_is_stored(
    intent: WriteIntent,
    resource_id: Option<String>,
    capability: Option<String>,
    predicate: Option<String>,
    spec: Option<String>,
    id: Option<String>,
)
    requires
        intent.entity@ == "conditions"@,
        intent.fields@ == seq![
            ("resource_id", text_or_null(resource_id)),
            ("capability", text_or_null(capability)),
            ("predicate", text_or_null(predicate)),
            ("spec", text_or_null(spec)),
            ("id", text_or_null(id)),
        ],
    ensures
        planned(intent) == match intent.expected_version {
            None => if predicate is None || (resource_id is Some && long_number_in(
                resource_id->0@,
            ) is None) {
                Err(WriteError::Transaction)
            } else {
                Ok(
                    StoreWrite::CreateCondition {
                        on_resource: match resource_id {
                            Some(r) => long_number_in(r@),
                            None => None,
                        },
                        on_capability: capability,
                        predicate: predicate->0,
                        spec,
                    },
                )
            },
            Some(expected) => match id {
                Some(text) => match long_number_in(text@) {
                    Some(id) => Ok(StoreWrite::DeleteCondition { id, expected }),
                    None => Err(WriteError::Transaction),
                },
                None => Err(WriteError::Transaction),
            },
        },
{
    lemma_entities();
    lemma_keys();
    let fields = intent.fields@;
    lemma_field_at(fields, "resource_id"@, 0);
    lemma_field_at(fields, "capability"@, 1);
    lemma_field_at(fields, "predicate"@, 2);
    lemma_field_at(fields, "spec"@, 3);
    lemma_field_at(fields, "id"@, 4);
}

/// A note on a refusal without an expected version is created, and with one deleted.
pub proof fn planned_deny_note_is_stored(
    intent: WriteIntent,
    resource_id: Option<String>,
    capability: Option<String>,
    note: Option<String>,
    id: Option<String>,
)
    requires
        intent.entity@ == "deny_notes"@,
        intent.fields@ == seq![
            ("resource_id", text_or_null(resource_id)),
            ("capability", text_or_null(capability)),
            ("note", text_or_null(note)),
            ("id", text_or_null(id)),
        ],
    ensures
        planned(intent) == match intent.expected_version {
            None => match (resource_id, capability, note) {
                (Some(r), Some(capability), Some(note)) => match long_number_in(r@) {
                    Some(resource_id) => Ok(
                        StoreWrite::CreateDenyNote { resource_id, capability, note },
                    ),
                    None => Err(WriteError::Transaction),
                },
                _ => Err(WriteError::Transaction),
            },
            Some(expected) => match id {
                Some(text) => match long_number_in(text@) {
                    Some(id) => Ok(StoreWrite::DeleteDenyNote { id, expected }),
                    None => Err(WriteError::Transaction),
                },
                None => Err(WriteError::Transaction),
            },
        },
{
    lemma_entities();
    lemma_keys();
    let fields = intent.fields@;
    lemma_field_at(fields, "resource_id"@, 0);
    lemma_field_at(fields, "capability"@, 1);
    lemma_field_at(fields, "note"@, 2);
    lemma_field_at(fields, "id"@, 3);
}

/// A write changes what a list of the same entity shows: the call of the store is one
/// on the table that the collection of that name is read from. An entity without a
/// table is not written, and neither are the records of the audit log.
pub proof fn writes_change_what_is_listed(intent: WriteIntent)
    ensures
        intent.entity@ == "principals"@ ==> target_of(intent.entity@) == Some(ListTarget::Principals) && (planned(
            intent,
        ) matches Ok(write) ==> write is CreatePrincipal || write is RenamePrincipal),
        intent.entity@ == "roles"@ ==> target_of(intent.entity@) == Some(ListTarget::Roles) && (planned(
            intent,
        ) matches Ok(write) ==> write is CreateRole),
        intent.entity@ == "resources"@ ==> target_of(intent.entity@) == Some(ListTarget::Resources) && (planned(
            intent,
        ) matches Ok(write) ==> write is CreateResource),
        intent.entity@ == "bindings"@ ==> target_of(intent.entity@) == Some(ListTarget::Bindings) && (planned(
            intent,
        ) matches Ok(write) ==> write is CreateBinding),
        intent.entity@ == "constraints"@ ==> target_of(intent.entity@) == Some(ListTarget::Constraints) && (planned(
            intent,
        ) matches Ok(write) ==> write is CreateConstraint || write is DeleteConstraint),
        intent.entity@ == "conditions"@ ==> target_of(intent.entity@) == Some(ListTarget::Conditions) && (planned(
            intent,
        ) matches Ok(write) ==> write is CreateCondition || write is DeleteCondition),
        intent.entity@ == "deny_notes"@ ==> target_of(intent.entity@) == Some(ListTarget::DenyNotes) && (planned(
            intent,
        ) matches Ok(write) ==> write is CreateDenyNote || write is DeleteDenyNote),
        intent.entity@ == "mode"@ ==> target_of(intent.entity@) == Some(ListTarget::Mode) && (planned(
            intent,
        ) matches Ok(write) ==> write is SetMode),
        intent.entity@ == "settings"@ ==> target_of(intent.entity@) == Some(ListTarget::Settings) && (planned(
            intent,
        ) matches Ok(write) ==> write is SetSetting),
        intent.entity@ == "grants"@ ==> target_of(intent.entity@) == Some(ListTarget::Grants) && (planned(
            intent,
        ) matches Ok(write) ==> write is FindResource || write is RevokeGrant),
        planned(intent) matches Ok(write) && (write is CreatePrincipal || write is RenamePrincipal)
            ==> intent.entity@ == "principals"@,
        planned(intent) matches Ok(write) && (write is CreateRole)
            ==> intent.entity@ == "roles"@,
        planned(intent) matches Ok(write) && (write is CreateResource)
            ==> intent.entity@ == "resources"@,
        planned(intent) matches Ok(write) && (write is CreateBinding)
            ==> intent.entity@ == "bindings"@,
        planned(intent) matches Ok(write) && (write is CreateConstraint || write is DeleteConstraint)
            ==> intent.entity@ == "constraints"@,
        planned(intent) matches Ok(write) && (write is CreateCondition || write is DeleteCondition)
            ==> intent.entity@ == "conditions"@,
        planned(intent) matches Ok(write) && (write is CreateDenyNote || write is DeleteDenyNote)
            ==> intent.entity@ == "deny_notes"@,
        planned(intent) matches Ok(write) && (write is SetMode)
            ==> intent.entity@ == "mode"@,
        planned(intent) matches Ok(write) && (write is SetSetting)
            ==> intent.entity@ == "settings"@,
        planned(intent) matches Ok(write) && (write is FindResource || write is RevokeGrant)
            ==> intent.entity@ == "grants"@,
        planned(intent) is Ok ==> target_of(intent.entity@) is Some,
        intent.entity@ == "audit"@ || intent.entity@ == "denials_summary"@ ==> planned(intent)
            is Err,
        planned(intent) matches Ok(write) ==> !(write is ElevateGrant),
{
    lemma_entities();
    collections_are_read_from_their_own_tables(intent.entity@, "audit"@);
    collections_are_read_from_their_own_tables(intent.entity@, "denials_summary"@);
    reveal_strlit("audit");
    reveal_strlit("denials_summary");
}

/// A principal is renamed, and not created, where the write names a version: by its id, at
/// that version, to the new name.
pub proof fn planned_rename_is_stored(intent: WriteIntent, id: String, name: String, version: i64)
    requires
        intent.entity@ == "principals"@,
        field_of(intent.fields@, "id"@) == Some(Field::Text(id)),
        field_of(intent.fields@, "name"@) == Some(Field::Text(name)),
        intent.expected_version == Some(version),
    ensures
        planned(intent) == match long_number_in(id@) {
            Some(n) => Ok(StoreWrite::RenamePrincipal { id: n, expected: version, name }),
            None => Err(WriteError::Transaction),
        },
{
    lemma_entities();
}

/// A write that lacks a field which it has to carry, or that is about an entity which
/// cannot be written, is a failed transaction.
pub proof fn writes_without_their_fields_fail(intent: WriteIntent, key: Seq<char>)
    requires
        !(field_of(intent.fields@, key) matches Some(Field::Text(_))),
        ({
            let fresh = intent.expected_version is None;
            ||| intent.entity@ == "principals"@ && (key == "name"@ || (fresh && key == "kind"@) || (
            !fresh && key == "id"@))
            ||| intent.entity@ == "roles"@ && key == "name"@
            ||| intent.entity@ == "resources"@ && (key == "code"@ || key == "adapter"@ || key
                == "transport"@)
            ||| intent.entity@ == "bindings"@ && (key == "principal_id"@ || key == "role_id"@)
            ||| intent.entity@ == "constraints"@ && ((fresh && (key == "resource_id"@ || key
                == "capability"@ || key == "kind"@)) || (!fresh && key == "id"@))
            ||| intent.entity@ == "conditions"@ && ((fresh && key == "predicate"@) || (!fresh && key
                == "id"@))
            ||| intent.entity@ == "deny_notes"@ && ((fresh && (key == "resource_id"@ || key
                == "capability"@ || key == "note"@)) || (!fresh && key == "id"@))
            ||| intent.entity@ == "mode"@ && key == "mode"@
            ||| intent.entity@ == "settings"@ && (key == "key"@ || key == "value"@)
            ||| intent.entity@ == "grants"@ && key == "op"@
        }),
    ensures
        planned(intent) == Err::<StoreWrite, _>(WriteError::Transaction),
{
    lemma_entities();
}

/// A grant is given or taken back and nothing else: any other operation is a failed
/// transaction, and so is to take one back without a version.
pub proof fn grants_are_given_or_taken_back(intent: WriteIntent, op: String)
    requires
        intent.entity@ == "grants"@,
        field_of(intent.fields@, "op"@) == Some(Field::Text(op)),
    ensures
        op@ != "elevate"@ && op@ != "revoke"@ ==> planned(intent) == Err::<StoreWrite, _>(
            WriteError::Transaction,
        ),
        op@ == "revoke"@ && intent.expected_version is None ==> planned(intent) == Err::<
            StoreWrite,
            _,
        >(WriteError::Transaction),
        planned(intent) matches Ok(write) ==> (write is FindResource <==> op@ == "elevate"@) && (
        write is RevokeGrant <==> op@ == "revoke"@),
{
    lemma_keys();
}

} // verus!
