//! The vocabulary that the daemon shares with its policy, its store and its
//! adapters. Resources, credential tiers and protocols are named by text;
//! identifiers, versions and instants are numbers.

use vstd::prelude::*;

verus! {

/// The step of a request's evaluation at which it was refused.
#[derive(Clone, Copy, Debug, PartialEq, Eq, Structural)]
pub enum Stage {
    Auth,
    Classify,
    Rbac,
    Constraint,
    Condition,
    Tier,
    Transport,
    Exec,
    Audit,
    Discover,
}

/// The name of a stage in refusals and audit records. Every failure to reach a
/// backend goes by the name `connect`.
pub open spec fn stage_name(stage: Stage) -> Seq<char> {
    match stage {
        Stage::Auth => "auth"@,
        Stage::Classify => "classify"@,
        Stage::Rbac => "rbac"@,
        Stage::Constraint => "constraint"@,
        Stage::Condition => "condition"@,
        Stage::Tier => "tier"@,
        Stage::Transport => "connect"@,
        Stage::Exec => "exec"@,
        Stage::Audit => "audit"@,
        Stage::Discover => "discover"@,
    }
}

impl Stage {
    /// The name of the stage.
    pub fn as_str(&self) -> (name: &'static str)
        ensures
            name@ == stage_name(*self),
    {
        match self {
            Stage::Auth => "auth",
            Stage::Classify => "classify",
            Stage::Rbac => "rbac",
            Stage::Constraint => "constraint",
            Stage::Condition => "condition",
            Stage::Tier => "tier",
            Stage::Transport => "connect",
            Stage::Exec => "exec",
            Stage::Audit => "audit",
            Stage::Discover => "discover",
        }
    }
}

/// What a request asks a backend to do.
#[derive(Clone, Copy, Debug, PartialEq, Eq, Structural)]
pub enum Capability {
    Observe,
    Query,
    Mutate,
    Execute,
    Manage,
    Destroy,
}

/// Where a connection comes from, as observed by the daemon.
#[derive(Debug)]
pub enum ConnOrigin {
    /// A local peer.
    UnixPeer { uid: u32, gid: u32 },
    /// A remote peer.
    Tcp { remote: String },
}

impl Clone for ConnOrigin {
    fn clone(&self) -> (copy: Self)
        ensures
            copy == self,
    {
        match self {
            ConnOrigin::UnixPeer { uid, gid } => ConnOrigin::UnixPeer { uid: *uid, gid: *gid },
            ConnOrigin::Tcp { remote } => ConnOrigin::Tcp { remote: remote.clone() },
        }
    }
}

/// A list of texts, each by its characters.
pub open spec fn texts(list: Seq<String>) -> Seq<Seq<char>> {
    list.map_values(|s: String| s@)
}

/// A copy of a list of texts.
pub fn copy_texts(list: &Vec<String>) -> (copy: Vec<String>)
    ensures
        copy@ == list@,
{
    let mut out: Vec<String> = Vec::new();
    let mut i: usize = 0;
    while i < list.len()
        invariant
            i <= list@.len(),
            out@ == list@.take(i as int),
        decreases list@.len() - i,
    {
        out.push(list[i].clone());
        i = i + 1;
    }
    assert(out@ =~= list@);
    out
}

/// A copy of some bytes.
pub fn copy_bytes(bytes: &[u8]) -> (copy: Vec<u8>)
    ensures
        copy@ == bytes@,
{
    let mut out: Vec<u8> = Vec::new();
    let mut i: usize = 0;
    while i < bytes.len()
        invariant
            i <= bytes@.len(),
            out@ == bytes@.take(i as int),
        decreases bytes@.len() - i,
    {
        out.push(bytes[i]);
        i = i + 1;
    }
    assert(out@ =~= bytes@);
    out
}

/// A text, if there is one, by its characters.
pub open spec fn text_view(text: Option<String>) -> Option<Seq<char>> {
    match text {
        Some(t) => Some(t@),
        None => None,
    }
}

/// One record for the audit log.
#[derive(Debug)]
pub struct AuditEvent {
    pub v: u32,
    pub kind: String,
    pub entry: String,
    pub origin: ConnOrigin,
    pub principal: Option<u64>,
    pub resource: String,
    pub capability: Option<Capability>,
    pub objects: Vec<String>,
    pub decision: String,
    pub stage: Option<Stage>,
    pub reason: String,
    pub policy_rev: u64,
}

/// What an audit record says.
pub struct AuditFacts {
    pub v: u32,
    pub kind: Seq<char>,
    pub entry: Seq<char>,
    pub origin: ConnOrigin,
    pub principal: Option<u64>,
    pub resource: Seq<char>,
    pub capability: Option<Capability>,
    pub objects: Seq<Seq<char>>,
    pub decision: Seq<char>,
    pub stage: Option<Stage>,
    pub reason: Seq<char>,
    pub policy_rev: u64,
}

impl View for AuditEvent {
    type V = AuditFacts;

    open spec fn view(&self) -> AuditFacts {
        AuditFacts {
            v: self.v,
            kind: self.kind@,
            entry: self.entry@,
            origin: self.origin,
            principal: self.principal,
            resource: self.resource@,
            capability: self.capability,
            objects: texts(self.objects@),
            decision: self.decision@,
            stage: self.stage,
            reason: self.reason@,
            policy_rev: self.policy_rev,
        }
    }
}

/// Why an audit record could not be written.
#[derive(Clone, Copy, Debug, PartialEq, Eq, Structural)]
pub enum AuditError {
    WriteFailed,
    StorageUnavailable,
}

/// Why an identity was not accepted.
#[derive(Clone, Copy, Debug, PartialEq, Eq, Structural)]
pub enum AuthError {
    UndeterminableOrigin,
    InvalidCredential,
    ExpiredCredential,
    RevokedCredential,
    TrustDomainMismatch,
}

/// A credential on file. Which principal it stands for, by which kind of
/// authenticator it is checked, what it is checked against, and until when it is
/// good. Instants are Unix milliseconds.
#[derive(Debug)]
pub struct CredentialMeta {
    pub principal: u64,
    pub kind: String,
    pub secret_hash: String,
    pub expires_at: Option<u64>,
    pub revoked_at: Option<u64>,
}

/// A credential as the caller presents it.
#[derive(Debug)]
pub struct PresentedCredential {
    pub kind: String,
    pub secret: Vec<u8>,
}

/// A request in the form that the kernel takes from every entrance.
#[derive(Debug)]
pub struct NormalizedRequest {
    pub presented: PresentedCredential,
    pub origin: ConnOrigin,
    pub resource: String,
    pub intent: Vec<u8>,
}

/// What a normalized request says.
pub struct RequestFacts {
    pub kind: Seq<char>,
    pub secret: Seq<u8>,
    pub origin: ConnOrigin,
    pub resource: Seq<char>,
    pub intent: Seq<u8>,
}

impl View for NormalizedRequest {
    type V = RequestFacts;

    open spec fn view(&self) -> RequestFacts {
        RequestFacts {
            kind: self.presented.kind@,
            secret: self.presented.secret@,
            origin: self.origin,
            resource: self.resource@,
            intent: self.intent@,
        }
    }
}

/// What an adapter makes of an intent.
#[derive(Debug)]
pub struct ClassifiedIntent {
    pub capability: Capability,
    pub objects: Vec<String>,
}

/// What a classified intent says.
pub struct IntentFacts {
    pub capability: Capability,
    pub objects: Seq<Seq<char>>,
}

impl View for ClassifiedIntent {
    type V = IntentFacts;

    open spec fn view(&self) -> IntentFacts {
        IntentFacts { capability: self.capability, objects: texts(self.objects@) }
    }
}

/// What a grant lets a principal do.
#[derive(Clone, Copy, Debug, PartialEq, Eq, Structural)]
pub enum GrantAction {
    Allow,
    Escalate,
}

/// The grant of one capability on one resource, with its constraints.
#[derive(Debug)]
pub struct GrantCell {
    pub resource: String,
    pub capability: Capability,
    pub action: GrantAction,
    pub constraints: Vec<String>,
}

/// The grants of one principal, in the order of resource and capability.
#[derive(Debug)]
pub struct PrincipalGrants {
    pub principal: u64,
    pub cells: Vec<GrantCell>,
}

/// The policy in force, principals in the order of their ids.
#[derive(Debug)]
pub struct PolicySnapshot {
    pub policy_rev: u64,
    pub grants: Vec<PrincipalGrants>,
}

/// One step of an evaluation.
#[derive(Debug)]
pub struct TraceStep {
    pub stage: Stage,
    pub detail: String,
}

/// The steps of an evaluation, up to the one that decided it.
#[derive(Debug)]
pub struct EvalTrace {
    pub steps: Vec<TraceStep>,
}

impl EvalTrace {
    /// The stage at which the evaluation ended.
    pub fn final_stage(&self) -> (stage: Option<Stage>)
        ensures
            stage == if self.steps@.len() == 0 {
                None
            } else {
                Some(self.steps@.last().stage)
            },
    {
        if self.steps.len() == 0 {
            None
        } else {
            Some(self.steps[self.steps.len() - 1].stage)
        }
    }
}

/// What the policy decides on a request.
#[derive(Debug)]
pub enum Decision {
    /// Granted on a resource, to be carried by a credential tier.
    Allow { resource: String, tier: String },
    /// Refused.
    Deny,
    /// Refused until a person agrees.
    Escalate,
}

/// The smallest and the largest size of a page, and the one of a page that none was
/// asked for.
pub const PAGE_SIZE_MIN: u32 = 1;

pub const PAGE_SIZE_DEFAULT: u32 = 20;

pub const PAGE_SIZE_MAX: u32 = 200;

/// Which page of a collection is asked for.
#[derive(Clone, Copy, Debug, PartialEq, Eq, Structural)]
pub struct PageQuery {
    pub page_no: u32,
    pub page_size: u32,
}

/// A page number, which counts from one.
pub open spec fn page_no_of(page_no: u32) -> u32 {
    if page_no < 1 {
        1
    } else {
        page_no
    }
}

/// A page size within its limits.
pub open spec fn page_size_of(page_size: u32) -> u32 {
    if page_size < PAGE_SIZE_MIN {
        PAGE_SIZE_MIN
    } else if page_size > PAGE_SIZE_MAX {
        PAGE_SIZE_MAX
    } else {
        page_size
    }
}

impl PageQuery {
    /// The query within the limits.
    pub fn clamp(self) -> (query: Self)
        ensures
            query.page_no == page_no_of(self.page_no),
            query.page_size == page_size_of(self.page_size),
            query.page_no >= 1,
            PAGE_SIZE_MIN <= query.page_size <= PAGE_SIZE_MAX,
    {
        let page_no: u32 = if self.page_no < 1 {
            1
        } else {
            self.page_no
        };
        let page_size: u32 = if self.page_size < PAGE_SIZE_MIN {
            PAGE_SIZE_MIN
        } else if self.page_size > PAGE_SIZE_MAX {
            PAGE_SIZE_MAX
        } else {
            self.page_size
        };
        PageQuery { page_no, page_size }
    }
}

/// One page of a collection.
#[derive(Debug)]
pub struct Page<T> {
    pub items: Vec<T>,
    pub page_no: u32,
    pub page_size: u32,
    pub total: u64,
}

/// Why the store refused a call.
#[derive(Clone, Copy, Debug, PartialEq, Eq, Structural)]
pub enum StoreError {
    VersionConflict,
    ConstraintViolation,
    Io,
    UnknownSchemaVersion,
    IdGen,
}

/// How far the data plane is restricted.
#[derive(Clone, Copy, Debug, PartialEq, Eq, Structural)]
pub enum Mode {
    Normal,
    Observe,
    Maintain,
    Freeze,
}

/// Each stage goes by its own name.
pub proof fn stages_have_their_own_names(stage: Stage, other: Stage)
    ensures
        stage == Stage::Auth ==> stage_name(stage) == "auth"@,
        stage == Stage::Classify ==> stage_name(stage) == "classify"@,
        stage == Stage::Rbac ==> stage_name(stage) == "rbac"@,
        stage == Stage::Constraint ==> stage_name(stage) == "constraint"@,
        stage == Stage::Condition ==> stage_name(stage) == "condition"@,
        stage == Stage::Tier ==> stage_name(stage) == "tier"@,
        stage == Stage::Transport ==> stage_name(stage) == "connect"@,
        stage == Stage::Exec ==> stage_name(stage) == "exec"@,
        stage == Stage::Audit ==> stage_name(stage) == "audit"@,
        stage == Stage::Discover ==> stage_name(stage) == "discover"@,
        stage_name(stage) == stage_name(other) ==> stage == other,
{
    reveal_strlit("auth");
    assert("auth"@.len() == 4);
    reveal_strlit("classify");
    assert("classify"@.len() == 8);
    reveal_strlit("rbac");
    assert("rbac"@.len() == 4);
    reveal_strlit("constraint");
    assert("constraint"@.len() == 10);
    reveal_strlit("condition");
    assert("condition"@.len() == 9);
    reveal_strlit("tier");
    assert("tier"@.len() == 4);
    reveal_strlit("connect");
    assert("connect"@.len() == 7);
    reveal_strlit("exec");
    assert("exec"@.len() == 4);
    reveal_strlit("audit");
    assert("audit"@.len() == 5);
    reveal_strlit("discover");
    assert("discover"@.len() == 8);
    assert("auth"@[0] == 'a' && "rbac"@[0] == 'r' && "tier"@[0] == 't' && "exec"@[0] == 'e');
    assert("classify"@[0] == 'c' && "discover"@[0] == 'd');
}

/// A page counts from one, and holds between one row and two hundred: a size within
/// these limits is kept, and any other becomes the limit that it passes.
pub proof fn pages_are_kept_within_their_limits(page_no: u32, page_size: u32)
    ensures
        page_no_of(0) == 1,
        page_no >= 1 ==> page_no_of(page_no) == page_no,
        page_size_of(0) == 1,
        1 <= page_size <= 200 ==> page_size_of(page_size) == page_size,
        page_size > 200 ==> page_size_of(page_size) == 200,
        PAGE_SIZE_MIN == 1,
        PAGE_SIZE_DEFAULT == 20,
        PAGE_SIZE_MAX == 200,
{
}

/// The texts of a list are those of its elements, one for one.
pub proof fn texts_are_those_of_the_elements(list: Seq<String>)
    ensures
        texts(list).len() == list.len(),
        forall|i: int| 0 <= i < list.len() ==> (#[trigger] texts(list)[i]) == list[i]@,
{
}

/// A text that is there is seen by its characters, and one that is not is none.
pub proof fn missing_text_is_none(text: String)
    ensures
        text_view(Some(text)) == Some(text@),
        text_view(None) is None,
{
}

/// An audit record says what its fields hold, each under its own name.
pub proof fn records_say_what_they_hold(event: AuditEvent)
    ensures
        event@.v == event.v,
        event@.kind == event.kind@,
        event@.entry == event.entry@,
        event@.origin == event.origin,
        event@.principal == event.principal,
        event@.resource == event.resource@,
        event@.capability == event.capability,
        event@.objects == texts(event.objects@),
        event@.decision == event.decision@,
        event@.stage == event.stage,
        event@.reason == event.reason@,
        event@.policy_rev == event.policy_rev,
{
}

/// A request says what was presented, from where, at what and with what, and a classified
/// intent its capability and its objects.
pub proof fn requests_say_what_they_hold(request: NormalizedRequest, intent: ClassifiedIntent)
    ensures
        request@.kind == request.presented.kind@,
        request@.secret == request.presented.secret@,
        request@.origin == request.origin,
        request@.resource == request.resource@,
        request@.intent == request.intent@,
        intent@.capability == intent.capability,
        intent@.objects == texts(intent.objects@),
{
}

} // verus!
