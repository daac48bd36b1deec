//! Reading the audit log: records as clients see them.

use super::dto::{AuditEventDto, DenialSummaryDto};
use super::repo::Project;
use crate::text::{decimal, decimal_of, joined3};
use vstd::prelude::*;

verus! {

/// Where a recorded request came from.
#[derive(Debug)]
pub enum OriginEnvelope {
    UnixPeer { uid: u32, gid: u32 },
    Tcp { remote: String },
}

/// A record as the log keeps it. `count` is how many refusals were folded into one.
#[derive(Debug)]
pub struct AuditRecord {
    pub id: String,
    pub v: u32,
    pub kind: String,
    pub ts: String,
    pub entry: String,
    pub origin: OriginEnvelope,
    pub decision: String,
    pub resource: String,
    pub policy_rev: u64,
    pub count: Option<u64>,
}

/// An origin as clients see it: of a local peer its uid and gid, of a remote one
/// nothing but that it is remote.
pub open spec fn origin_shown(origin: OriginEnvelope) -> Seq<char> {
    match origin {
        OriginEnvelope::UnixPeer { uid, gid } => "unix:"@ + decimal(uid as nat) + (":"@ + decimal(
            gid as nat,
        )),
        OriginEnvelope::Tcp { .. } => "tcp"@,
    }
}

/// An origin as clients see it.
pub fn origin_text(origin: &OriginEnvelope) -> (text: String)
    ensures
        text@ == origin_shown(*origin),
{
    match origin {
        OriginEnvelope::UnixPeer { uid, gid } => {
            let u = decimal_of(*uid as u64);
            let g = decimal_of(*gid as u64);
            let tail = crate::text::joined(":", g.as_str());
            joined3("unix:", u.as_str(), tail.as_str())
        },
        OriginEnvelope::Tcp { .. } => "tcp".to_owned(),
    }
}

/// The address of a remote peer is not shown.
pub proof fn remote_addresses_are_not_shown(one: String, other: String)
    ensures
        origin_shown(OriginEnvelope::Tcp { remote: one }) == origin_shown(
            OriginEnvelope::Tcp { remote: other },
        ),
{
}

impl Project for AuditRecord {
    type Dto = AuditEventDto;

    open spec fn projects(self, dto: AuditEventDto) -> bool {
        &&& dto.id == self.id
        &&& dto.v == self.v
        &&& dto.kind == self.kind
        &&& dto.ts == self.ts
        &&& dto.entry == self.entry
        &&& dto.origin@ == origin_shown(self.origin)
        &&& dto.decision == self.decision
        &&& dto.resource == self.resource
        &&& dto.policy_rev@ == decimal(self.policy_rev as nat)
    }

    fn project(self) -> (dto: AuditEventDto) {
        AuditEventDto {
            id: self.id,
            v: self.v,
            kind: self.kind,
            ts: self.ts,
            entry: self.entry,
            origin: origin_text(&self.origin),
            decision: self.decision,
            resource: self.resource,
            policy_rev: decimal_of(self.policy_rev),
        }
    }
}

/// A recorded refusal.
#[derive(Debug)]
pub struct DenialRecord(pub AuditRecord);

impl Project for DenialRecord {
    type Dto = DenialSummaryDto;

    open spec fn projects(self, dto: DenialSummaryDto) -> bool {
        &&& dto.resource == self.0.resource
        &&& dto.count == match self.0.count {
            Some(n) => n,
            None => 1,
        }
        &&& dto.policy_rev@ == decimal(self.0.policy_rev as nat)
    }

    fn project(self) -> (dto: DenialSummaryDto) {
        DenialSummaryDto {
            resource: self.0.resource,
            count: self.0.count.unwrap_or(1),
            policy_rev: decimal_of(self.0.policy_rev),
        }
    }
}

/// A local origin is shown with its uid and its gid in decimal, and a remote one as remote
/// and no more.
pub proof fn origins_are_shown_by_their_numbers(uid: u32, gid: u32, remote: String)
    ensures
        origin_shown(OriginEnvelope::UnixPeer { uid, gid }) == "unix:"@ + decimal(uid as nat)
            + ":"@ + decimal(gid as nat),
        origin_shown(OriginEnvelope::Tcp { remote }) == "tcp"@,
{
    assert("unix:"@ + decimal(uid as nat) + (":"@ + decimal(gid as nat)) =~= "unix:"@ + decimal(
        uid as nat,
    ) + ":"@ + decimal(gid as nat));
}

/// A record is shown field by field, with its revision in decimal; a refusal with its
/// resource, its revision and how many were folded into it, one where nothing is said.
pub proof fn records_are_shown_field_by_field(
    record: AuditRecord,
    dto: AuditEventDto,
    denial: DenialRecord,
    summary: DenialSummaryDto,
)
    requires
        record.projects(dto),
        denial.projects(summary),
    ensures
        dto.id@ == record.id@,
        dto.v == record.v,
        dto.kind@ == record.kind@,
        dto.ts@ == record.ts@,
        dto.entry@ == record.entry@,
        dto.origin@ == origin_shown(record.origin),
        dto.decision@ == record.decision@,
        dto.resource@ == record.resource@,
        dto.policy_rev@ == decimal(record.policy_rev as nat),
        summary.resource@ == denial.0.resource@,
        denial.0.count matches Some(n) ==> summary.count == n,
        denial.0.count is None ==> summary.count == 1,
        summary.policy_rev@ == decimal(denial.0.policy_rev as nat),
{
}

} // verus!
