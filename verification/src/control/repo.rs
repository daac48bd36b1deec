//! Writes and reads of the policy, as calls of the store.

use super::dto::{
    id_to_string, BindingDto, ConditionDto, ConstraintDto, DenyNoteDto, ModeRowDto, PrincipalDto,
    ResourceDto, RoleDto, SettingDto, TempGrantDto,
};
use super::fields::{
    field_id, field_id_opt, field_of, field_str, field_str_opt, get, optional_id, optional_text,
    required_id, required_text, text_of, Field,
};
use super::{WriteError, WriteIntent, WriteOutcome};
use crate::domain::{Page, PageQuery, StoreError, PAGE_SIZE_MAX};
use crate::error::DaemonError;
use crate::text::{decimal, same_text};
use vstd::prelude::*;

verus! {

/// What a failure of the store means for a write: a conflict of versions stays one,
/// anything else has failed the transaction.
pub open spec fn write_error(err: StoreError) -> WriteError {
    match err {
        StoreError::VersionConflict => WriteError::VersionConflict,
        StoreError::ConstraintViolation => WriteError::Transaction,
        StoreError::Io => WriteError::Transaction,
        StoreError::UnknownSchemaVersion => WriteError::Transaction,
        StoreError::IdGen => WriteError::Transaction,
    }
}

/// What a failure of the store means for a write.
pub fn to_write_error(err: StoreError) -> (e: WriteError)
    ensures
        e == write_error(err),
{
    match err {
        StoreError::VersionConflict => WriteError::VersionConflict,
        StoreError::ConstraintViolation => WriteError::Transaction,
        StoreError::Io => WriteError::Transaction,
        StoreError::UnknownSchemaVersion => WriteError::Transaction,
        StoreError::IdGen => WriteError::Transaction,
    }
}

/// A call of the store that writes, each with the rebuild of the snapshot.
#[derive(Debug)]
pub enum StoreWrite {
    CreatePrincipal { name: String, kind: String },
    RenamePrincipal { id: u64, expected: i64, name: String },
    CreateRole { name: String, description: Option<String> },
    CreateResource { code: String, adapter: String, transport: String },
    CreateBinding { principal_id: u64, role_id: u64 },
    CreateConstraint { resource_id: u64, capability: String, kind: String, spec: Option<String> },
    DeleteConstraint { id: u64, expected: i64 },
    CreateCondition {
        on_resource: Option<u64>,
        on_capability: Option<String>,
        predicate: String,
        spec: Option<String>,
    },
    DeleteCondition { id: u64, expected: i64 },
    CreateDenyNote { resource_id: u64, capability: String, note: String },
    DeleteDenyNote { id: u64, expected: i64 },
    SetMode { scope: Option<u64>, mode: String, expires_at: Option<String> },
    SetSetting { key: String, value: String },
    /// The resource of a code has to be found first.
    FindResource { code: String },
    ElevateGrant { principal_id: u64, resource_id: u64, capability: String, ttl_ms: u64 },
    RevokeGrant { id: u64, expected: i64 },
}

/// The write of a principal: without an expected version a new one, with one a new
/// name.
pub open spec fn principal_write(intent: WriteIntent) -> Result<StoreWrite, StoreError> {
    let f = intent.fields@;
    match intent.expected_version {
        None => match (required_text(f, "name"@), required_text(f, "kind"@)) {
            (Ok(name), Ok(kind)) => Ok(StoreWrite::CreatePrincipal { name, kind }),
            _ => Err(StoreError::ConstraintViolation),
        },
        Some(expected) => match (required_id(f, "id"@), required_text(f, "name"@)) {
            (Ok(id), Ok(name)) => Ok(StoreWrite::RenamePrincipal { id, expected, name }),
            _ => Err(StoreError::ConstraintViolation),
        },
    }
}

/// The write of a role.
pub open spec fn role_write(intent: WriteIntent) -> Result<StoreWrite, StoreError> {
    match required_text(intent.fields@, "name"@) {
        Ok(name) => Ok(
            StoreWrite::CreateRole { name, description: text_of(intent.fields@, "description"@) },
        ),
        Err(e) => Err(e),
    }
}

/// The write of a resource.
pub open spec fn resource_write(intent: WriteIntent) -> Result<StoreWrite, StoreError> {
    let f = intent.fields@;
    match (required_text(f, "code"@), required_text(f, "adapter"@), required_text(f, "transport"@)) {
        (Ok(code), Ok(adapter), Ok(transport)) => Ok(
            StoreWrite::CreateResource { code, adapter, transport },
        ),
        _ => Err(StoreError::ConstraintViolation),
    }
}

/// The write of a binding.
pub open spec fn binding_write(intent: WriteIntent) -> Result<StoreWrite, StoreError> {
    let f = intent.fields@;
    match (required_id(f, "principal_id"@), required_id(f, "role_id"@)) {
        (Ok(principal_id), Ok(role_id)) => Ok(StoreWrite::CreateBinding { principal_id, role_id }),
        _ => Err(StoreError::ConstraintViolation),
    }
}

/// The write of a constraint: without an expected version a new one, with one a
/// deletion.
pub open spec fn constraint_write(intent: WriteIntent) -> Result<StoreWrite, StoreError> {
    let f = intent.fields@;
    match intent.expected_version {
        None => match (
            required_id(f, "resource_id"@),
            required_text(f, "capability"@),
            required_text(f, "kind"@),
            optional_text(f, "spec"@),
        ) {
            (Ok(resource_id), Ok(capability), Ok(kind), Ok(spec)) => Ok(
                StoreWrite::CreateConstraint { resource_id, capability, kind, spec },
            ),
            _ => Err(StoreError::ConstraintViolation),
        },
        Some(expected) => match required_id(f, "id"@) {
            Ok(id) => Ok(StoreWrite::DeleteConstraint { id, expected }),
            Err(e) => Err(e),
        },
    }
}

/// The write of a condition: without an expected version a new one, with one a
/// deletion.
pub open spec fn condition_write(intent: WriteIntent) -> Result<StoreWrite, StoreError> {
    let f = intent.fields@;
    match intent.expected_version {
        None => match (
            optional_id(f, "resource_id"@),
            optional_text(f, "capability"@),
            required_text(f, "predicate"@),
            optional_text(f, "spec"@),
        ) {
            (Ok(on_resource), Ok(on_capability), Ok(predicate), Ok(spec)) => Ok(
                StoreWrite::CreateCondition { on_resource, on_capability, predicate, spec },
            ),
            _ => Err(StoreError::ConstraintViolation),
        },
        Some(expected) => match required_id(f, "id"@) {
            Ok(id) => Ok(StoreWrite::DeleteCondition { id, expected }),
            Err(e) => Err(e),
        },
    }
}

/// The write of a note on a refusal: without an expected version a new one, with one
/// a deletion.
pub open spec fn deny_note_write(intent: WriteIntent) -> Result<StoreWrite, StoreError> {
    let f = intent.fields@;
    match intent.expected_version {
        None => match (
            required_id(f, "resource_id"@),
            required_text(f, "capability"@),
            required_text(f, "note"@),
        ) {
            (Ok(resource_id), Ok(capability), Ok(note)) => Ok(
                StoreWrite::CreateDenyNote { resource_id, capability, note },
            ),
            _ => Err(StoreError::ConstraintViolation),
        },
        Some(expected) => match required_id(f, "id"@) {
            Ok(id) => Ok(StoreWrite::DeleteDenyNote { id, expected }),
            Err(e) => Err(e),
        },
    }
}

/// The write of a mode, of a resource or of all.
pub open spec fn mode_write(intent: WriteIntent) -> Result<StoreWrite, StoreError> {
    let f = intent.fields@;
    match (
        optional_id(f, "scope"@),
        required_text(f, "mode"@),
        optional_text(f, "expires_at"@),
    ) {
        (Ok(scope), Ok(mode), Ok(expires_at)) => Ok(
            StoreWrite::SetMode { scope, mode, expires_at },
        ),
        _ => Err(StoreError::ConstraintViolation),
    }
}

/// The write of a setting.
pub open spec fn setting_write(intent: WriteIntent) -> Result<StoreWrite, StoreError> {
    let f = intent.fields@;
    match (required_text(f, "key"@), required_text(f, "value"@)) {
        (Ok(key), Ok(value)) => Ok(StoreWrite::SetSetting { key, value }),
        _ => Err(StoreError::ConstraintViolation),
    }
}

/// The write of a grant for a time: giving one asks for the resource first, taking
/// one back needs the expected version.
pub open spec fn grant_write(intent: WriteIntent) -> Result<StoreWrite, WriteError> {
    let f = intent.fields@;
    match required_text(f, "op"@) {
        Err(_) => Err(WriteError::Transaction),
        Ok(op) => if op@ == "elevate"@ {
            match (required_id(f, "principal"@), required_text(f, "resource"@)) {
                (Ok(_), Ok(code)) => Ok(StoreWrite::FindResource { code }),
                _ => Err(WriteError::Transaction),
            }
        } else if op@ == "revoke"@ {
            match (required_id(f, "id"@), intent.expected_version) {
                (Ok(id), Some(expected)) => Ok(StoreWrite::RevokeGrant { id, expected }),
                _ => Err(WriteError::Transaction),
            }
        } else {
            Err(WriteError::Transaction)
        },
    }
}

/// The call that a write asks for.
pub open spec fn planned(intent: WriteIntent) -> Result<StoreWrite, WriteError> {
    if intent.entity@ == "grants"@ {
        grant_write(intent)
    } else {
        let write = if intent.entity@ == "principals"@ {
            principal_write(intent)
        } else if intent.entity@ == "roles"@ {
            role_write(intent)
        } else if intent.entity@ == "resources"@ {
            resource_write(intent)
        } else if intent.entity@ == "bindings"@ {
            binding_write(intent)
        } else if intent.entity@ == "constraints"@ {
            constraint_write(intent)
        } else if intent.entity@ == "conditions"@ {
            condition_write(intent)
        } else if intent.entity@ == "deny_notes"@ {
            deny_note_write(intent)
        } else if intent.entity@ == "mode"@ {
            mode_write(intent)
        } else if intent.entity@ == "settings"@ {
            setting_write(intent)
        } else {
            Err(StoreError::ConstraintViolation)
        };
        match write {
            Ok(w) => Ok(w),
            Err(e) => Err(write_error(e)),
        }
    }
}

fn commit_principal(intent: &WriteIntent) -> (write: Result<StoreWrite, StoreError>)
    ensures
        write == principal_write(*intent),
{
    match intent.expected_version {
        None => {
            let name = field_str(&intent.fields, "name")?;
            let kind = field_str(&intent.fields, "kind")?;
            Ok(StoreWrite::CreatePrincipal { name, kind })
        },
        Some(expected) => {
            let id: u64 = field_id(&intent.fields, "id")?;
            let name = field_str(&intent.fields, "name")?;
            Ok(StoreWrite::RenamePrincipal { id, expected, name })
        },
    }
}

fn commit_role(intent: &WriteIntent) -> (write: Result<StoreWrite, StoreError>)
    ensures
        write == role_write(*intent),
{
    let name = field_str(&intent.fields, "name")?;
    let description = match get(&intent.fields, "description") {
        Some(Field::Text(s)) => Some(s.clone()),
        _ => None,
    };
    Ok(StoreWrite::CreateRole { name, description })
}

fn commit_resource(intent: &WriteIntent) -> (write: Result<StoreWrite, StoreError>)
    ensures
        write == resource_write(*intent),
{
    let code = field_str(&intent.fields, "code")?;
    let adapter = field_str(&intent.fields, "adapter")?;
    let transport = field_str(&intent.fields, "transport")?;
    Ok(StoreWrite::CreateResource { code, adapter, transport })
}

fn commit_binding(intent: &WriteIntent) -> (write: Result<StoreWrite, StoreError>)
    ensures
        write == binding_write(*intent),
{
    let principal_id: u64 = field_id(&intent.fields, "principal_id")?;
    let role_id: u64 = field_id(&intent.fields, "role_id")?;
    Ok(StoreWrite::CreateBinding { principal_id, role_id })
}

fn commit_constraint(intent: &WriteIntent) -> (write: Result<StoreWrite, StoreError>)
    ensures
        write == constraint_write(*intent),
{
    match intent.expected_version {
        None => {
            let resource_id: u64 = field_id(&intent.fields, "resource_id")?;
            let capability = field_str(&intent.fields, "capability")?;
            let kind = field_str(&intent.fields, "kind")?;
            let spec = field_str_opt(&intent.fields, "spec")?;
            Ok(StoreWrite::CreateConstraint { resource_id, capability, kind, spec })
        },
        Some(expected) => {
            let id: u64 = field_id(&intent.fields, "id")?;
            Ok(StoreWrite::DeleteConstraint { id, expected })
        },
    }
}

fn commit_condition(intent: &WriteIntent) -> (write: Result<StoreWrite, StoreError>)
    ensures
        write == condition_write(*intent),
{
    match intent.expected_version {
        None => {
            let on_resource: Option<u64> = field_id_opt(&intent.fields, "resource_id")?;
            let on_capability = field_str_opt(&intent.fields, "capability")?;
            let predicate = field_str(&intent.fields, "predicate")?;
            let spec = field_str_opt(&intent.fields, "spec")?;
            Ok(StoreWrite::CreateCondition { on_resource, on_capability, predicate, spec })
        },
        Some(expected) => {
            let id: u64 = field_id(&intent.fields, "id")?;
            Ok(StoreWrite::DeleteCondition { id, expected })
        },
    }
}

fn commit_deny_note(intent: &WriteIntent) -> (write: Result<StoreWrite, StoreError>)
    ensures
        write == deny_note_write(*intent),
{
    match intent.expected_version {
        None => {
            let resource_id: u64 = field_id(&intent.fields, "resource_id")?;
            let capability = field_str(&intent.fields, "capability")?;
            let note = field_str(&intent.fields, "note")?;
            Ok(StoreWrite::CreateDenyNote { resource_id, capability, note })
        },
        Some(expected) => {
            let id: u64 = field_id(&intent.fields, "id")?;
            Ok(StoreWrite::DeleteDenyNote { id, expected })
        },
    }
}

fn commit_mode(intent: &WriteIntent) -> (write: Result<StoreWrite, StoreError>)
    ensures
        write == mode_write(*intent),
{
    let scope: Option<u64> = field_id_opt(&intent.fields, "scope")?;
    let mode = field_str(&intent.fields, "mode")?;
    let expires_at = field_str_opt(&intent.fields, "expires_at")?;
    Ok(StoreWrite::SetMode { scope, mode, expires_at })
}

fn commit_setting(intent: &WriteIntent) -> (write: Result<StoreWrite, StoreError>)
    ensures
        write == setting_write(*intent),
{
    let key = field_str(&intent.fields, "key")?;
    let value = field_str(&intent.fields, "value")?;
    Ok(StoreWrite::SetSetting { key, value })
}

fn commit_grant(intent: &WriteIntent) -> (write: Result<StoreWrite, WriteError>)
    ensures
        write == grant_write(*intent),
{
    let op = match field_str(&intent.fields, "op") {
        Ok(op) => op,
        Err(e) => {
            return Err(to_write_error(e));
        },
    };
    if same_text(op.as_str(), "elevate") {
        if let Err(e) = field_id(&intent.fields, "principal") {
            return Err(to_write_error(e));
        }
        match field_str(&intent.fields, "resource") {
            Ok(code) => Ok(StoreWrite::FindResource { code }),
            Err(e) => Err(to_write_error(e)),
        }
    } else if same_text(op.as_str(), "revoke") {
        let id: u64 = match field_id(&intent.fields, "id") {
            Ok(id) => id,
            Err(e) => {
                return Err(to_write_error(e));
            },
        };
        match intent.expected_version {
            Some(expected) => Ok(StoreWrite::RevokeGrant { id, expected }),
            None => Err(WriteError::Transaction),
        }
    } else {
        Err(WriteError::Transaction)
    }
}

/// Turns a write into a call of the store. An entity that is not known is refused.
pub fn plan_write(intent: &WriteIntent) -> (write: Result<StoreWrite, WriteError>)
    ensures
        write == planned(*intent),
{
    if same_text(intent.entity, "grants") {
        return commit_grant(intent);
    }
    let write = if same_text(intent.entity, "principals") {
        commit_principal(intent)
    } else if same_text(intent.entity, "roles") {
        commit_role(intent)
    } else if same_text(intent.entity, "resources") {
        commit_resource(intent)
    } else if same_text(intent.entity, "bindings") {
        commit_binding(intent)
    } else if same_text(intent.entity, "constraints") {
        commit_constraint(intent)
    } else if same_text(intent.entity, "conditions") {
        commit_condition(intent)
    } else if same_text(intent.entity, "deny_notes") {
        commit_deny_note(intent)
    } else if same_text(intent.entity, "mode") {
        commit_mode(intent)
    } else if same_text(intent.entity, "settings") {
        commit_setting(intent)
    } else {
        Err(StoreError::ConstraintViolation)
    };
    match write {
        Ok(w) => Ok(w),
        Err(e) => Err(to_write_error(e)),
    }
}

/// The grant that is given once its resource was looked for. A resource that does
/// not exist is told apart from a failed transaction, and a grant without an end is
/// not given.
pub open spec fn elevation(intent: WriteIntent, found: Result<Option<u64>, StoreError>) -> Result<
    StoreWrite,
    WriteError,
> {
    let f = intent.fields@;
    match (required_id(f, "principal"@), found) {
        (Ok(principal_id), Ok(Some(resource_id))) => match (
            required_text(f, "capability"@),
            field_of(f, "ttl_ms"@),
        ) {
            (Ok(capability), Some(Field::Int(ttl))) => if ttl > 0 {
                Ok(
                    StoreWrite::ElevateGrant {
                        principal_id,
                        resource_id,
                        capability,
                        ttl_ms: ttl as u64,
                    },
                )
            } else {
                Err(WriteError::Transaction)
            },
            _ => Err(WriteError::Transaction),
        },
        (Ok(_), Ok(None)) => Err(WriteError::ResourceNotFound),
        (Ok(_), Err(e)) => Err(write_error(e)),
        (Err(e), _) => Err(write_error(e)),
    }
}

/// Goes on with giving a grant once its resource was looked for.
pub fn plan_elevation(intent: &WriteIntent, found: Result<Option<u64>, StoreError>) -> (write:
    Result<StoreWrite, WriteError>)
    ensures
        write == elevation(*intent, found),
{
    let principal_id: u64 = match field_id(&intent.fields, "principal") {
        Ok(id) => id,
        Err(e) => {
            return Err(to_write_error(e));
        },
    };
    let resource_id: u64 = match found {
        Ok(Some(id)) => id,
        Ok(None) => {
            return Err(WriteError::ResourceNotFound);
        },
        Err(e) => {
            return Err(to_write_error(e));
        },
    };
    let capability = match field_str(&intent.fields, "capability") {
        Ok(capability) => capability,
        Err(e) => {
            return Err(to_write_error(e));
        },
    };
    match get(&intent.fields, "ttl_ms") {
        Some(Field::Int(ttl)) => if *ttl > 0 {
            Ok(
                StoreWrite::ElevateGrant {
                    principal_id,
                    resource_id,
                    capability,
                    ttl_ms: *ttl as u64,
                },
            )
        } else {
            Err(WriteError::Transaction)
        },
        _ => Err(WriteError::Transaction),
    }
}

/// What the store's answer means for a write.
pub fn commit_write(stored: Result<(i64, u64), StoreError>) -> (outcome: Result<
    WriteOutcome,
    WriteError,
>)
    ensures
        outcome == match stored {
            Ok((version, policy_rev)) => Ok(WriteOutcome { version, policy_rev }),
            Err(e) => Err(write_error(e)),
        },
{
    match stored {
        Ok((version, policy_rev)) => Ok(WriteOutcome { version, policy_rev }),
        Err(e) => Err(to_write_error(e)),
    }
}

/// Every grant that is given ends: its time to live is positive.
pub proof fn elevations_end(intent: WriteIntent, found: Result<Option<u64>, StoreError>)
    ensures
        elevation(intent, found) matches Ok(write) ==> {
            write matches StoreWrite::ElevateGrant { ttl_ms, .. } && ttl_ms > 0
        },
{
}

/// What is deleted, renamed or taken back goes by the version that the writer
/// expects.
pub proof fn changes_take_the_lock(intent: WriteIntent)
    ensures
        planned(intent) matches Ok(write) ==> match write {
            StoreWrite::RenamePrincipal { expected, .. } => intent.expected_version == Some(
                expected,
            ),
            StoreWrite::DeleteConstraint { expected, .. } => intent.expected_version == Some(
                expected,
            ),
            StoreWrite::DeleteCondition { expected, .. } => intent.expected_version == Some(
                expected,
            ),
            StoreWrite::DeleteDenyNote { expected, .. } => intent.expected_version == Some(
                expected,
            ),
            StoreWrite::RevokeGrant { expected, .. } => intent.expected_version == Some(expected),
            _ => true,
        },
{
}

/// A row of the store that is shown to clients in another form.
pub trait Project: Sized {
    type Dto;

    /// Whether a row is shown so.
    spec fn projects(self, dto: Self::Dto) -> bool;

    /// The row as clients see it.
    fn project(self) -> (dto: Self::Dto)
        ensures
            self.projects(dto),
    ;
}

/// Shows a page of rows. A page that could not be read is a failure, not an empty
/// page.
pub fn project_page<R: Project>(page: Result<Page<R>, StoreError>) -> (shown: Result<
    Page<R::Dto>,
    DaemonError,
>)
    ensures
        match page {
            Ok(rows) => shown matches Ok(dtos) && {
                &&& dtos.items@.len() == rows.items@.len()
                &&& forall|i: int|
                    0 <= i < rows.items@.len() ==> (#[trigger] rows.items@[i]).projects(
                        dtos.items@[i],
                    )
                &&& dtos.page_no == rows.page_no
                &&& dtos.page_size == rows.page_size
                &&& dtos.total == rows.total
            },
            Err(_) => shown == Err::<Page<R::Dto>, _>(DaemonError::Boot),
        },
{
    match page {
        Ok(rows) => {
            let mut items: Vec<R::Dto> = Vec::new();
            let ghost all = rows.items@;
            for row in it: rows.items
                invariant
                    it.seq() == all,
                    items@.len() == it.index(),
                    forall|i: int| 0 <= i < it.index() ==> (#[trigger] all[i]).projects(items@[i]),
            {
                items.push(row.project());
            }
            Ok(
                Page {
                    items,
                    page_no: rows.page_no,
                    page_size: rows.page_size,
                    total: rows.total,
                },
            )
        },
        Err(_) => Err(DaemonError::Boot),
    }
}

/// Whether an optional id is shown as a text.
pub open spec fn shows_id(id: Option<u64>, text: Option<String>) -> bool {
    match (id, text) {
        (Some(n), Some(s)) => s@ == decimal(n as nat),
        (None, None) => true,
        _ => false,
    }
}

fn show_id(id: Option<u64>) -> (text: Option<String>)
    ensures
        shows_id(id, text),
{
    match id {
        Some(n) => Some(id_to_string(n)),
        None => None,
    }
}

/// A principal in the store.
#[derive(Debug)]
pub struct PrincipalRow {
    pub id: u64,
    pub name: String,
    pub kind: String,
    pub version: i64,
}

impl Project for PrincipalRow {
    type Dto = PrincipalDto;

    open spec fn projects(self, dto: PrincipalDto) -> bool {
        &&& dto.id@ == decimal(self.id as nat)
        &&& dto.name == self.name
        &&& dto.kind == self.kind
        &&& dto.version == self.version
    }

    fn project(self) -> (dto: PrincipalDto) {
        PrincipalDto {
            id: id_to_string(self.id),
            name: self.name,
            kind: self.kind,
            version: self.version,
        }
    }
}

/// A role in the store.
#[derive(Debug)]
pub struct RoleRow {
    pub id: u64,
    pub name: String,
    pub description: Option<String>,
    pub version: i64,
}

impl Project for RoleRow {
    type Dto = RoleDto;

    open spec fn projects(self, dto: RoleDto) -> bool {
        &&& dto.id@ == decimal(self.id as nat)
        &&& dto.name == self.name
        &&& dto.description == self.description
        &&& dto.version == self.version
    }

    fn project(self) -> (dto: RoleDto) {
        RoleDto {
            id: id_to_string(self.id),
            name: self.name,
            description: self.description,
            version: self.version,
        }
    }
}

/// A resource in the store.
#[derive(Debug)]
pub struct ResourceRow {
    pub id: u64,
    pub codename: String,
    pub adapter: String,
    pub transport: String,
    pub version: i64,
}

impl Project for ResourceRow {
    type Dto = ResourceDto;

    open spec fn projects(self, dto: ResourceDto) -> bool {
        &&& dto.id@ == decimal(self.id as nat)
        &&& dto.code == self.codename
        &&& dto.adapter == self.adapter
        &&& dto.transport == self.transport
        &&& dto.version == self.version
    }

    fn project(self) -> (dto: ResourceDto) {
        ResourceDto {
            id: id_to_string(self.id),
            code: self.codename,
            adapter: self.adapter,
            transport: self.transport,
            version: self.version,
        }
    }
}

/// A binding in the store.
#[derive(Debug)]
pub struct BindingRow {
    pub id: u64,
    pub principal_id: u64,
    pub role_id: u64,
    pub version: i64,
}

impl Project for BindingRow {
    type Dto = BindingDto;

    open spec fn projects(self, dto: BindingDto) -> bool {
        &&& dto.id@ == decimal(self.id as nat)
        &&& dto.principal_id@ == decimal(self.principal_id as nat)
        &&& dto.role_id@ == decimal(self.role_id as nat)
        &&& dto.version == self.version
    }

    fn project(self) -> (dto: BindingDto) {
        BindingDto {
            id: id_to_string(self.id),
            principal_id: id_to_string(self.principal_id),
            role_id: id_to_string(self.role_id),
            version: self.version,
        }
    }
}

/// A constraint in the store.
#[derive(Debug)]
pub struct ConstraintRow {
    pub id: u64,
    pub resource_id: u64,
    pub capability: String,
    pub kind: String,
    pub spec: Option<String>,
    pub version: i64,
}

impl Project for ConstraintRow {
    type Dto = ConstraintDto;

    open spec fn projects(self, dto: ConstraintDto) -> bool {
        &&& dto.id@ == decimal(self.id as nat)
        &&& dto.resource@ == decimal(self.resource_id as nat)
        &&& dto.capability == self.capability
        &&& dto.kind == self.kind
        &&& dto.spec == self.spec
        &&& dto.version == self.version
    }

    fn project(self) -> (dto: ConstraintDto) {
        ConstraintDto {
            id: id_to_string(self.id),
            resource: id_to_string(self.resource_id),
            capability: self.capability,
            kind: self.kind,
            spec: self.spec,
            version: self.version,
        }
    }
}

/// A condition in the store.
#[derive(Debug)]
pub struct ConditionRow {
    pub id: u64,
    pub resource_id: Option<u64>,
    pub capability: Option<String>,
    pub predicate: String,
    pub spec: Option<String>,
    pub version: i64,
}

impl Project for ConditionRow {
    type Dto = ConditionDto;

    open spec fn projects(self, dto: ConditionDto) -> bool {
        &&& dto.id@ == decimal(self.id as nat)
        &&& shows_id(self.resource_id, dto.resource)
        &&& dto.capability == self.capability
        &&& dto.predicate == self.predicate
        &&& dto.spec == self.spec
        &&& dto.version == self.version
    }

    fn project(self) -> (dto: ConditionDto) {
        ConditionDto {
            id: id_to_string(self.id),
            resource: show_id(self.resource_id),
            capability: self.capability,
            predicate: self.predicate,
            spec: self.spec,
            version: self.version,
        }
    }
}

/// A note on a refusal in the store.
#[derive(Debug)]
pub struct DenyNoteRow {
    pub id: u64,
    pub resource_id: u64,
    pub capability: String,
    pub note: String,
    pub version: i64,
}

impl Project for DenyNoteRow {
    type Dto = DenyNoteDto;

    open spec fn projects(self, dto: DenyNoteDto) -> bool {
        &&& dto.id@ == decimal(self.id as nat)
        &&& dto.resource@ == decimal(self.resource_id as nat)
        &&& dto.capability == self.capability
        &&& dto.note == self.note
        &&& dto.version == self.version
    }

    fn project(self) -> (dto: DenyNoteDto) {
        DenyNoteDto {
            id: id_to_string(self.id),
            resource: id_to_string(self.resource_id),
            capability: self.capability,
            note: self.note,
            version: self.version,
        }
    }
}

/// A mode in the store.
#[derive(Debug)]
pub struct ModeStateRow {
    pub id: u64,
    pub scope_resource_id: Option<u64>,
    pub mode: String,
    pub expires_at: Option<String>,
    pub version: i64,
}

impl Project for ModeStateRow {
    type Dto = ModeRowDto;

    open spec fn projects(self, dto: ModeRowDto) -> bool {
        &&& dto.id@ == decimal(self.id as nat)
        &&& shows_id(self.scope_resource_id, dto.scope)
        &&& dto.mode == self.mode
        &&& dto.expires_at == self.expires_at
        &&& dto.version == self.version
    }

    fn project(self) -> (dto: ModeRowDto) {
        ModeRowDto {
            id: id_to_string(self.id),
            scope: show_id(self.scope_resource_id),
            mode: self.mode,
            expires_at: self.expires_at,
            version: self.version,
        }
    }
}

/// A grant for a time in the store.
#[derive(Debug)]
pub struct TempGrantRow {
    pub id: u64,
    pub principal_id: u64,
    pub resource_id: u64,
    pub capability: String,
    pub granted_at: String,
    pub expires_at: String,
    pub ended_at: Option<String>,
    pub end_reason: Option<String>,
    pub version: i64,
}

impl Project for TempGrantRow {
    type Dto = TempGrantDto;

    open spec fn projects(self, dto: TempGrantDto) -> bool {
        &&& dto.id@ == decimal(self.id as nat)
        &&& dto.principal@ == decimal(self.principal_id as nat)
        &&& dto.resource@ == decimal(self.resource_id as nat)
        &&& dto.capability == self.capability
        &&& dto.granted_at == self.granted_at
        &&& dto.expires_at == self.expires_at
        &&& dto.ended_at == self.ended_at
        &&& dto.end_reason == self.end_reason
        &&& dto.version == self.version
    }

    fn project(self) -> (dto: TempGrantDto) {
        TempGrantDto {
            id: id_to_string(self.id),
            principal: id_to_string(self.principal_id),
            resource: id_to_string(self.resource_id),
            capability: self.capability,
            granted_at: self.granted_at,
            expires_at: self.expires_at,
            ended_at: self.ended_at,
            end_reason: self.end_reason,
            version: self.version,
        }
    }
}

/// What a collection is read from.
#[derive(Clone, Copy, Debug, PartialEq, Eq, Structural)]
pub enum ListTarget {
    Principals,
    Roles,
    Resources,
    Bindings,
    Constraints,
    Conditions,
    DenyNotes,
    Settings,
    Mode,
    Grants,
    Audit,
    DenialsSummary,
}

/// What a collection of a given name is read from.
pub open spec fn target_of(entity: Seq<char>) -> Option<ListTarget> {
    if entity == "principals"@ {
        Some(ListTarget::Principals)
    } else if entity == "roles"@ {
        Some(ListTarget::Roles)
    } else if entity == "resources"@ {
        Some(ListTarget::Resources)
    } else if entity == "bindings"@ {
        Some(ListTarget::Bindings)
    } else if entity == "constraints"@ {
        Some(ListTarget::Constraints)
    } else if entity == "conditions"@ {
        Some(ListTarget::Conditions)
    } else if entity == "deny_notes"@ {
        Some(ListTarget::DenyNotes)
    } else if entity == "settings"@ {
        Some(ListTarget::Settings)
    } else if entity == "mode"@ {
        Some(ListTarget::Mode)
    } else if entity == "grants"@ {
        Some(ListTarget::Grants)
    } else if entity == "audit"@ {
        Some(ListTarget::Audit)
    } else if entity == "denials_summary"@ {
        Some(ListTarget::DenialsSummary)
    } else {
        None
    }
}

/// Finds what a collection is read from. One that is not known is a failure.
pub fn plan_list(entity: &str) -> (target: Result<ListTarget, DaemonError>)
    ensures
        target == match target_of(entity@) {
            Some(t) => Ok(t),
            None => Err(DaemonError::Boot),
        },
        entity@ == "principals"@ <==> target == Ok::<_, DaemonError>(ListTarget::Principals),
        entity@ == "roles"@ <==> target == Ok::<_, DaemonError>(ListTarget::Roles),
        entity@ == "resources"@ <==> target == Ok::<_, DaemonError>(ListTarget::Resources),
        entity@ == "bindings"@ <==> target == Ok::<_, DaemonError>(ListTarget::Bindings),
        entity@ == "constraints"@ <==> target == Ok::<_, DaemonError>(ListTarget::Constraints),
        entity@ == "conditions"@ <==> target == Ok::<_, DaemonError>(ListTarget::Conditions),
        entity@ == "deny_notes"@ <==> target == Ok::<_, DaemonError>(ListTarget::DenyNotes),
        entity@ == "settings"@ <==> target == Ok::<_, DaemonError>(ListTarget::Settings),
        entity@ == "mode"@ <==> target == Ok::<_, DaemonError>(ListTarget::Mode),
        entity@ == "grants"@ <==> target == Ok::<_, DaemonError>(ListTarget::Grants),
        entity@ == "audit"@ <==> target == Ok::<_, DaemonError>(ListTarget::Audit),
        entity@ == "denials_summary"@ <==> target == Ok::<_, DaemonError>(ListTarget::DenialsSummary),
        target matches Err(e) ==> e == DaemonError::Boot,
{
    proof {
        lemma_collections();
    }
    if same_text(entity, "principals") {
        Ok(ListTarget::Principals)
    } else if same_text(entity, "roles") {
        Ok(ListTarget::Roles)
    } else if same_text(entity, "resources") {
        Ok(ListTarget::Resources)
    } else if same_text(entity, "bindings") {
        Ok(ListTarget::Bindings)
    } else if same_text(entity, "constraints") {
        Ok(ListTarget::Constraints)
    } else if same_text(entity, "conditions") {
        Ok(ListTarget::Conditions)
    } else if same_text(entity, "deny_notes") {
        Ok(ListTarget::DenyNotes)
    } else if same_text(entity, "settings") {
        Ok(ListTarget::Settings)
    } else if same_text(entity, "mode") {
        Ok(ListTarget::Mode)
    } else if same_text(entity, "grants") {
        Ok(ListTarget::Grants)
    } else if same_text(entity, "audit") {
        Ok(ListTarget::Audit)
    } else if same_text(entity, "denials_summary") {
        Ok(ListTarget::DenialsSummary)
    } else {
        Err(DaemonError::Boot)
    }
}

/// The names of the collections differ.
proof fn lemma_collections()
    ensures
        "principals"@ != "roles"@,
        "principals"@ != "resources"@,
        "principals"@ != "bindings"@,
        "principals"@ != "constraints"@,
        "principals"@ != "conditions"@,
        "principals"@ != "deny_notes"@,
        "principals"@ != "settings"@,
        "principals"@ != "mode"@,
        "principals"@ != "grants"@,
        "principals"@ != "audit"@,
        "principals"@ != "denials_summary"@,
        "roles"@ != "resources"@,
        "roles"@ != "bindings"@,
        "roles"@ != "constraints"@,
        "roles"@ != "conditions"@,
        "roles"@ != "deny_notes"@,
        "roles"@ != "settings"@,
        "roles"@ != "mode"@,
        "roles"@ != "grants"@,
        "roles"@ != "audit"@,
        "roles"@ != "denials_summary"@,
        "resources"@ != "bindings"@,
        "resources"@ != "constraints"@,
        "resources"@ != "conditions"@,
        "resources"@ != "deny_notes"@,
        "resources"@ != "settings"@,
        "resources"@ != "mode"@,
        "resources"@ != "grants"@,
        "resources"@ != "audit"@,
        "resources"@ != "denials_summary"@,
        "bindings"@ != "constraints"@,
        "bindings"@ != "conditions"@,
        "bindings"@ != "deny_notes"@,
        "bindings"@ != "settings"@,
        "bindings"@ != "mode"@,
        "bindings"@ != "grants"@,
        "bindings"@ != "audit"@,
        "bindings"@ != "denials_summary"@,
        "constraints"@ != "conditions"@,
        "constraints"@ != "deny_notes"@,
        "constraints"@ != "settings"@,
        "constraints"@ != "mode"@,
        "constraints"@ != "grants"@,
        "constraints"@ != "audit"@,
        "constraints"@ != "denials_summary"@,
        "conditions"@ != "deny_notes"@,
        "conditions"@ != "settings"@,
        "conditions"@ != "mode"@,
        "conditions"@ != "grants"@,
        "conditions"@ != "audit"@,
        "conditions"@ != "denials_summary"@,
        "deny_notes"@ != "settings"@,
        "deny_notes"@ != "mode"@,
        "deny_notes"@ != "grants"@,
        "deny_notes"@ != "audit"@,
        "deny_notes"@ != "denials_summary"@,
        "settings"@ != "mode"@,
        "settings"@ != "grants"@,
        "settings"@ != "audit"@,
        "settings"@ != "denials_summary"@,
        "mode"@ != "grants"@,
        "mode"@ != "audit"@,
        "mode"@ != "denials_summary"@,
        "grants"@ != "audit"@,
        "grants"@ != "denials_summary"@,
        "audit"@ != "denials_summary"@,
{
    reveal_strlit("principals");
    assert("principals"@.len() == 10);
    reveal_strlit("roles");
    assert("roles"@.len() == 5);
    reveal_strlit("resources");
    assert("resources"@.len() == 9);
    reveal_strlit("bindings");
    assert("bindings"@.len() == 8);
    reveal_strlit("constraints");
    assert("constraints"@.len() == 11);
    reveal_strlit("conditions");
    assert("conditions"@.len() == 10);
    reveal_strlit("deny_notes");
    assert("deny_notes"@.len() == 10);
    reveal_strlit("settings");
    assert("settings"@.len() == 8);
    reveal_strlit("mode");
    assert("mode"@.len() == 4);
    reveal_strlit("grants");
    assert("grants"@.len() == 6);
    reveal_strlit("audit");
    assert("audit"@.len() == 5);
    reveal_strlit("denials_summary");
    assert("denials_summary"@.len() == 15);
    assert("principals"@[0] == 'p' && "conditions"@[0] == 'c' && "deny_notes"@[0] == 'd');
    assert("roles"@[0] == 'r' && "audit"@[0] == 'a');
    assert("bindings"@[0] == 'b' && "settings"@[0] == 's');
}

/// Each collection is read from its own table: no two names are read from the same
/// one, and a name that is none of the twelve is read from none.
pub proof fn collections_are_read_from_their_own_tables(entity: Seq<char>, other: Seq<char>)
    ensures
        target_of("principals"@) == Some(ListTarget::Principals),
        target_of("roles"@) == Some(ListTarget::Roles),
        target_of("resources"@) == Some(ListTarget::Resources),
        target_of("bindings"@) == Some(ListTarget::Bindings),
        target_of("constraints"@) == Some(ListTarget::Constraints),
        target_of("conditions"@) == Some(ListTarget::Conditions),
        target_of("deny_notes"@) == Some(ListTarget::DenyNotes),
        target_of("settings"@) == Some(ListTarget::Settings),
        target_of("mode"@) == Some(ListTarget::Mode),
        target_of("grants"@) == Some(ListTarget::Grants),
        target_of("audit"@) == Some(ListTarget::Audit),
        target_of("denials_summary"@) == Some(ListTarget::DenialsSummary),
        target_of(entity) is Some && target_of(entity) == target_of(other) ==> entity == other,
        target_of(entity) is Some <==> entity == "principals"@
            || entity == "roles"@
            || entity == "resources"@
            || entity == "bindings"@
            || entity == "constraints"@
            || entity == "conditions"@
            || entity == "deny_notes"@
            || entity == "settings"@
            || entity == "mode"@
            || entity == "grants"@
            || entity == "audit"@
            || entity == "denials_summary"@,
{
    lemma_collections();
}

/// What is known of a setting: its key, its default, whether it can be written, and
/// its type.
#[derive(Clone, Copy, Debug)]
pub struct KnownSetting {
    pub key: &'static str,
    pub default: &'static str,
    pub writable: bool,
    pub kind: &'static str,
}

/// The settings that there are.
pub open spec fn known_settings() -> Seq<KnownSetting> {
    seq![
        KnownSetting {
            key: "approval.enabled",
            default: "false",
            writable: true,
            kind: "bool",
        },
        KnownSetting {
            key: "approval.on_timeout",
            default: "deny",
            writable: false,
            kind: "enum",
        },
        KnownSetting { key: "audit.fsync", default: "always", writable: true, kind: "enum" },
        KnownSetting { key: "audit.retention_days", default: "30", writable: true, kind: "int" },
        KnownSetting {
            key: "audit.exporter.otel.enabled",
            default: "false",
            writable: true,
            kind: "bool",
        },
    ]
}

/// The settings that there are.
pub fn settings_catalog() -> (catalog: Vec<KnownSetting>)
    ensures
        catalog@ == known_settings(),
{
    let catalog: Vec<KnownSetting> = vec![
        KnownSetting {
            key: "approval.enabled",
            default: "false",
            writable: true,
            kind: "bool",
        },
        KnownSetting {
            key: "approval.on_timeout",
            default: "deny",
            writable: false,
            kind: "enum",
        },
        KnownSetting { key: "audit.fsync", default: "always", writable: true, kind: "enum" },
        KnownSetting { key: "audit.retention_days", default: "30", writable: true, kind: "int" },
        KnownSetting {
            key: "audit.exporter.otel.enabled",
            default: "false",
            writable: true,
            kind: "bool",
        },
    ];
    assert(catalog@ =~= known_settings());
    catalog
}

/// A setting in the store.
#[derive(Debug)]
pub struct SettingRow {
    pub key: String,
    pub value: String,
    pub version: i64,
}

/// The row of a setting, if the store has one; the last, if it has several.
pub open spec fn stored_setting(rows: Seq<SettingRow>, key: Seq<char>) -> Option<SettingRow>
    decreases rows.len(),
{
    if rows.len() == 0 {
        None
    } else if rows.last().key@ == key {
        Some(rows.last())
    } else {
        stored_setting(rows.drop_last(), key)
    }
}

/// Whether a setting is shown so: with what the store holds, or else with its default
/// and version zero.
pub open spec fn shows_setting(known: KnownSetting, rows: Seq<SettingRow>, dto: SettingDto) -> bool {
    &&& dto.key@ == known.key@
    &&& dto.default@ == known.default@
    &&& dto.writable == known.writable
    &&& dto.kind@ == known.kind@
    &&& match stored_setting(rows, known.key@) {
        Some(row) => dto.value == row.value && dto.version == row.version,
        None => dto.value@ == known.default@ && dto.version == 0,
    }
}

fn find_setting<'a>(rows: &'a Vec<SettingRow>, key: &str) -> (found: Option<&'a SettingRow>)
    ensures
        match found {
            Some(row) => stored_setting(rows@, key@) == Some(*row),
            None => stored_setting(rows@, key@) is None,
        },
{
    let mut i: usize = rows.len();
    assert(rows@.take(i as int) =~= rows@);
    while i > 0
        invariant
            i <= rows@.len(),
            stored_setting(rows@, key@) == stored_setting(rows@.take(i as int), key@),
        decreases i,
    {
        assert(rows@.take(i as int).drop_last() =~= rows@.take(i - 1));
        assert(rows@.take(i as int).last() == rows@[i - 1]);
        if same_text(rows[i - 1].key.as_str(), key) {
            return Some(&rows[i - 1]);
        }
        i = i - 1;
    }
    None
}

/// The page that holds all settings in the store.
pub fn settings_query() -> (query: PageQuery)
    ensures
        query.page_no == 1,
        query.page_size == PAGE_SIZE_MAX,
{
    PageQuery { page_no: 1, page_size: PAGE_SIZE_MAX }
}

/// Shows the settings: all that there are, each with what the store holds of it.
pub fn list_settings(stored: Result<Page<SettingRow>, StoreError>) -> (shown: Result<
    Page<SettingDto>,
    DaemonError,
>)
    ensures
        match stored {
            Ok(page) => shown matches Ok(dtos) && {
                &&& dtos.items@.len() == known_settings().len()
                &&& forall|i: int|
                    0 <= i < known_settings().len() ==> shows_setting(
                        #[trigger] known_settings()[i],
                        page.items@,
                        dtos.items@[i],
                    )
                &&& dtos.page_no == 1
                &&& dtos.page_size == known_settings().len()
                &&& dtos.total == known_settings().len()
            },
            Err(_) => shown == Err::<Page<SettingDto>, _>(DaemonError::Boot),
        },
{
    let page = match stored {
        Ok(page) => page,
        Err(_) => {
            return Err(DaemonError::Boot);
        },
    };
    let catalog = settings_catalog();
    let mut items: Vec<SettingDto> = Vec::new();
    let mut i: usize = 0;
    while i < catalog.len()
        invariant
            i <= catalog@.len(),
            catalog@ == known_settings(),
            items@.len() == i,
            forall|j: int|
                0 <= j < i ==> shows_setting(
                    #[trigger] known_settings()[j],
                    page.items@,
                    items@[j],
                ),
        decreases catalog@.len() - i,
    {
        let known = &catalog[i];
        let (value, version) = match find_setting(&page.items, known.key) {
            Some(row) => (row.value.clone(), row.version),
            None => (known.default.to_owned(), 0i64),
        };
        items.push(
            SettingDto {
                key: known.key.to_owned(),
                value,
                default: known.default.to_owned(),
                writable: known.writable,
                version,
                kind: known.kind.to_owned(),
            },
        );
        i = i + 1;
    }
    let n: usize = catalog.len();
    assert(n == 5);
    Ok(Page { items, page_no: 1, page_size: n as u32, total: n as u64 })
}

/// A conflict of versions stays one; every other failure of the store has failed the
/// transaction.
pub proof fn only_conflicts_are_told_apart(err: StoreError)
    ensures
        write_error(err) == WriteError::VersionConflict <==> err == StoreError::VersionConflict,
        err != StoreError::VersionConflict ==> write_error(err) == WriteError::Transaction,
{
}

/// There are five settings, each with its default and its type. All can be written but
/// what becomes of an escalation that times out, which is a refusal.
pub proof fn five_settings_are_known()
    ensures
        known_settings().len() == 5,
        known_settings()[0].key@ == "approval.enabled"@ && known_settings()[0].default@ == "false"@
            && known_settings()[0].writable == true && known_settings()[0].kind@ == "bool"@,
        known_settings()[1].key@ == "approval.on_timeout"@ && known_settings()[1].default@ == "deny"@
            && known_settings()[1].writable == false && known_settings()[1].kind@ == "enum"@,
        known_settings()[2].key@ == "audit.fsync"@ && known_settings()[2].default@ == "always"@
            && known_settings()[2].writable == true && known_settings()[2].kind@ == "enum"@,
        known_settings()[3].key@ == "audit.retention_days"@ && known_settings()[3].default@ == "30"@
            && known_settings()[3].writable == true && known_settings()[3].kind@ == "int"@,
        known_settings()[4].key@ == "audit.exporter.otel.enabled"@ && known_settings()[4].default@ == "false"@
            && known_settings()[4].writable == true && known_settings()[4].kind@ == "bool"@,
{
    let all = known_settings();
    assert(all[0].key == "approval.enabled" && all[0].default == "false" && all[0].writable == true && all[0].kind
        == "bool");
    assert(all[1].key == "approval.on_timeout" && all[1].default == "deny" && all[1].writable == false && all[1].kind
        == "enum");
    assert(all[2].key == "audit.fsync" && all[2].default == "always" && all[2].writable == true && all[2].kind
        == "enum");
    assert(all[3].key == "audit.retention_days" && all[3].default == "30" && all[3].writable == true && all[3].kind
        == "int");
    assert(all[4].key == "audit.exporter.otel.enabled" && all[4].default == "false" && all[4].writable == true && all[4].kind
        == "bool");
}

/// Of a setting the last row with its key counts, whatever stands before it; without such a
/// row the store has none.
pub proof fn last_row_of_a_setting_counts(rows: Seq<SettingRow>, key: Seq<char>, i: int)
    requires
        -1 <= i < rows.len(),
        i >= 0 ==> rows[i].key@ == key,
        forall|j: int| i < j < rows.len() ==> (#[trigger] rows[j]).key@ != key,
    ensures
        i >= 0 ==> stored_setting(rows, key) == Some(rows[i]),
        i < 0 ==> stored_setting(rows, key) is None,
    decreases rows.len(),
{
    if rows.len() > 0 && i < rows.len() - 1 {
        assert(rows[rows.len() - 1].key@ != key);
        last_row_of_a_setting_counts(rows.drop_last(), key, i);
    }
}

/// A setting is shown under its key with its default and its type. Its value and version
/// are those of the last row with its key, and the default at version zero where there is
/// no such row.
pub proof fn settings_are_shown_with_what_is_stored(
    known: KnownSetting,
    rows: Seq<SettingRow>,
    dto: SettingDto,
    i: int,
)
    requires
        shows_setting(known, rows, dto),
        -1 <= i < rows.len(),
        i >= 0 ==> rows[i].key@ == known.key@,
        forall|j: int| i < j < rows.len() ==> (#[trigger] rows[j]).key@ != known.key@,
    ensures
        dto.key@ == known.key@,
        dto.default@ == known.default@,
        dto.writable == known.writable,
        dto.kind@ == known.kind@,
        i >= 0 ==> dto.value@ == rows[i].value@ && dto.version == rows[i].version,
        i < 0 ==> dto.value@ == known.default@ && dto.version == 0,
{
    last_row_of_a_setting_counts(rows, known.key@, i);
}

/// An id that is there is shown in decimal, and one that is not is not shown.
pub proof fn ids_are_shown_in_decimal(id: Option<u64>, text: Option<String>)
    requires
        shows_id(id, text),
    ensures
        id is Some <==> text is Some,
        id is Some ==> text->0@ == decimal(id->0 as nat),
{
}

/// Principals, roles, resources and bindings are shown field by field, with their ids in
/// decimal.
pub proof fn policy_rows_are_shown_field_by_field(
    principal: PrincipalRow,
    principal_dto: PrincipalDto,
    role: RoleRow,
    role_dto: RoleDto,
    resource: ResourceRow,
    resource_dto: ResourceDto,
    binding: BindingRow,
    binding_dto: BindingDto,
)
    requires
        principal.projects(principal_dto),
        role.projects(role_dto),
        resource.projects(resource_dto),
        binding.projects(binding_dto),
    ensures
        principal_dto.id@ == decimal(principal.id as nat),
        principal_dto.name@ == principal.name@,
        principal_dto.kind@ == principal.kind@,
        principal_dto.version == principal.version,
        role_dto.id@ == decimal(role.id as nat),
        role_dto.name@ == role.name@,
        role_dto.description == role.description,
        role_dto.version == role.version,
        resource_dto.id@ == decimal(resource.id as nat),
        resource_dto.code@ == resource.codename@,
        resource_dto.adapter@ == resource.adapter@,
        resource_dto.transport@ == resource.transport@,
        resource_dto.version == resource.version,
        binding_dto.id@ == decimal(binding.id as nat),
        binding_dto.principal_id@ == decimal(binding.principal_id as nat),
        binding_dto.role_id@ == decimal(binding.role_id as nat),
        binding_dto.version == binding.version,
{
}

/// Constraints, conditions and notes are shown field by field, each under the id of its
/// resource in decimal; a condition on no resource in particular is shown without one.
pub proof fn rule_rows_are_shown_field_by_field(
    constraint: ConstraintRow,
    constraint_dto: ConstraintDto,
    condition: ConditionRow,
    condition_dto: ConditionDto,
    note: DenyNoteRow,
    note_dto: DenyNoteDto,
)
    requires
        constraint.projects(constraint_dto),
        condition.projects(condition_dto),
        note.projects(note_dto),
    ensures
        constraint_dto.id@ == decimal(constraint.id as nat),
        constraint_dto.resource@ == decimal(constraint.resource_id as nat),
        constraint_dto.capability@ == constraint.capability@,
        constraint_dto.kind@ == constraint.kind@,
        constraint_dto.spec == constraint.spec,
        constraint_dto.version == constraint.version,
        condition_dto.id@ == decimal(condition.id as nat),
        condition.resource_id is Some <==> condition_dto.resource is Some,
        condition.resource_id is Some ==> condition_dto.resource->0@ == decimal(
            condition.resource_id->0 as nat,
        ),
        condition_dto.capability == condition.capability,
        condition_dto.predicate@ == condition.predicate@,
        condition_dto.spec == condition.spec,
        condition_dto.version == condition.version,
        note_dto.id@ == decimal(note.id as nat),
        note_dto.resource@ == decimal(note.resource_id as nat),
        note_dto.capability@ == note.capability@,
        note_dto.note@ == note.note@,
        note_dto.version == note.version,
{
}

/// Modes and grants for a time are shown field by field, with their ids in decimal; a mode
/// of all resources is shown without a scope.
pub proof fn timed_rows_are_shown_field_by_field(
    mode: ModeStateRow,
    mode_dto: ModeRowDto,
    grant: TempGrantRow,
    grant_dto: TempGrantDto,
)
    requires
        mode.projects(mode_dto),
        grant.projects(grant_dto),
    ensures
        mode_dto.id@ == decimal(mode.id as nat),
        mode.scope_resource_id is Some <==> mode_dto.scope is Some,
        mode.scope_resource_id is Some ==> mode_dto.scope->0@ == decimal(
            mode.scope_resource_id->0 as nat,
        ),
        mode_dto.mode@ == mode.mode@,
        mode_dto.expires_at == mode.expires_at,
        mode_dto.version == mode.version,
        grant_dto.id@ == decimal(grant.id as nat),
        grant_dto.principal@ == decimal(grant.principal_id as nat),
        grant_dto.resource@ == decimal(grant.resource_id as nat),
        grant_dto.capability@ == grant.capability@,
        grant_dto.granted_at@ == grant.granted_at@,
        grant_dto.expires_at@ == grant.expires_at@,
        grant_dto.ended_at == grant.ended_at,
        grant_dto.end_reason == grant.end_reason,
        grant_dto.version == grant.version,
{
}

/// A grant is given to the principal of the request, on the resource that was found, for
/// its capability and its time to live. Without any of these, or with a time to live that
/// is not positive, it is a failed transaction; a resource that does not exist is told
/// apart, and so is a conflict of versions in the search.
pub proof fn grants_are_given_as_requested(
    intent: WriteIntent,
    principal: String,
    capability: String,
    ttl: i64,
    id: u64,
    resource: u64,
    err: StoreError,
)
    requires
        field_of(intent.fields@, "principal"@) == Some(Field::Text(principal)),
        crate::text::long_number_in(principal@) == Some(id),
    ensures
        field_of(intent.fields@, "capability"@) == Some(Field::Text(capability)) && field_of(
            intent.fields@,
            "ttl_ms"@,
        ) == Some(Field::Int(ttl)) && ttl > 0 ==> elevation(intent, Ok(Some(resource))) == Ok::<
            _,
            WriteError,
        >(
            StoreWrite::ElevateGrant {
                principal_id: id,
                resource_id: resource,
                capability,
                ttl_ms: ttl as u64,
            },
        ),
        field_of(intent.fields@, "ttl_ms"@) == Some(Field::Int(ttl)) && ttl <= 0 ==> elevation(
            intent,
            Ok(Some(resource)),
        ) == Err::<StoreWrite, _>(WriteError::Transaction),
        !(field_of(intent.fields@, "ttl_ms"@) matches Some(Field::Int(_))) ==> elevation(
            intent,
            Ok(Some(resource)),
        ) == Err::<StoreWrite, _>(WriteError::Transaction),
        !(field_of(intent.fields@, "capability"@) matches Some(Field::Text(_))) ==> elevation(
            intent,
            Ok(Some(resource)),
        ) == Err::<StoreWrite, _>(WriteError::Transaction),
        elevation(intent, Ok(None)) == Err::<StoreWrite, _>(WriteError::ResourceNotFound),
        err == StoreError::VersionConflict ==> elevation(intent, Err(err)) == Err::<StoreWrite, _>(
            WriteError::VersionConflict,
        ),
        err != StoreError::VersionConflict ==> elevation(intent, Err(err)) == Err::<StoreWrite, _>(
            WriteError::Transaction,
        ),
{
}

} // verus!
