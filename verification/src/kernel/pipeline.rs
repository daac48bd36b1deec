//! The pipeline: the fixed order in which a request is classified, checked,
//! evaluated, connected, executed, scrubbed and recorded.
//!
//! Every step lets the request go on or refuses it at that step's stage. What the
//! steps do (adapters, policy, connections, the audit log, the exit filter) is done
//! around the kernel: [`Kernel::submit`] and [`Kernel::advance`] say what comes
//! next, and take the reply.

use super::audit_phase::{audit_class, AuditClass, AuditPhase};
use crate::domain::{
    copy_bytes, copy_texts, stage_name, texts, AuditError, AuditEvent, AuditFacts, Capability,
    ClassifiedIntent, ConnOrigin, Decision, EvalTrace, GrantCell, IntentFacts, NormalizedRequest,
    PolicySnapshot, PrincipalGrants, Stage, TraceStep,
};
use crate::error::{
    cause_code, deny_stage, DowngradeEnvelope, DownstreamError, OUTCOME_DOWNGRADED_CODE,
};
use crate::registry::AdapterRegistry;
use crate::table::lookup_of_row;
use crate::text::{joined, same_text, stands_at, starts_with};
use vstd::prelude::*;
use vstd::string::StringSliceAdditionalSpecFns;

verus! {

/// Whether a cell grants `capability` on `resource`.
pub open spec fn cell_covers(cell: GrantCell, resource: Seq<char>, capability: Capability) -> bool {
    cell.resource@ == resource && cell.capability == capability
}

/// The first of some cells that covers a resource and a capability.
pub open spec fn first_cell(
    cells: Seq<GrantCell>,
    resource: Seq<char>,
    capability: Capability,
) -> Option<GrantCell>
    decreases cells.len(),
{
    if cells.len() == 0 {
        None
    } else if cell_covers(cells[0], resource, capability) {
        Some(cells[0])
    } else {
        first_cell(cells.skip(1), resource, capability)
    }
}

/// The constraints on a resource and a capability: those of the first principal
/// with a cell for them, none where no principal has one.
pub open spec fn constraints_on(
    grants: Seq<PrincipalGrants>,
    resource: Seq<char>,
    capability: Capability,
) -> Seq<Seq<char>>
    decreases grants.len(),
{
    if grants.len() == 0 {
        Seq::empty()
    } else {
        match first_cell(grants[0].cells@, resource, capability) {
            Some(cell) => texts(cell.constraints@),
            None => constraints_on(grants.skip(1), resource, capability),
        }
    }
}

/// The first resource that the policy names, empty where it names none.
pub open spec fn first_resource(grants: Seq<PrincipalGrants>) -> Seq<char>
    decreases grants.len(),
{
    if grants.len() == 0 {
        Seq::empty()
    } else if grants[0].cells@.len() > 0 {
        grants[0].cells@[0].resource@
    } else {
        first_resource(grants.skip(1))
    }
}

/// Whether an evaluation ended because the grant asks for a person's consent.
pub open spec fn is_escalated(steps: Seq<TraceStep>) -> bool {
    &&& steps.len() > 0
    &&& steps.last().stage == Stage::Tier
    &&& stands_at(steps.last().detail@, "escalate"@, 0)
}

/// The stage at which an evaluation refused a request.
pub open spec fn refusing_stage(steps: Seq<TraceStep>) -> Stage {
    if steps.len() == 0 {
        Stage::Rbac
    } else {
        steps.last().stage
    }
}

/// The reason that a refusal gives.
pub open spec fn reason_at(stage: Stage) -> Seq<char> {
    "denied at "@ + stage_name(stage)
}

/// How the audit log words a refusal.
#[derive(Clone, Copy, Debug, PartialEq, Eq, Structural)]
pub enum DenyWord {
    Deny,
    EscalateDenied,
}

/// The word for a refusal in the audit log.
pub open spec fn deny_word(word: DenyWord) -> Seq<char> {
    match word {
        DenyWord::Deny => "deny"@,
        DenyWord::EscalateDenied => "escalate_denied"@,
    }
}

/// Which step a submission has reached: the one whose reply it waits for.
#[derive(Clone, Copy, Debug, PartialEq, Eq, Structural)]
pub enum Phase {
    Classifying,
    Constraining { at: usize },
    Evaluating,
    Acquiring,
    RecordingIntent,
    Executing,
    ScrubbingResponse,
    RecordingResult,
    Wrapping,
    ScrubbingDowngraded,
    AssemblingRefusal { stage: Stage, word: DenyWord, record: bool },
    ScrubbingRefusal { stage: Stage, word: DenyWord, record: bool },
    RecordingRefusal { stage: Stage },
    Done,
}

/// What an adapter says of a constraint.
#[derive(Clone, Copy, Debug, PartialEq, Eq, Structural)]
pub enum ConstraintReply {
    Met,
    Unmet,
    Failed,
}

/// The reply to an action.
pub enum Reply {
    /// What the adapter made of the intent; `None` where it failed.
    Classified(Option<ClassifiedIntent>),
    /// What the adapter says of the constraint.
    Constraint(ConstraintReply),
    /// What the policy decided, and by which steps.
    Evaluated { decision: Decision, trace: EvalTrace },
    /// Whether a connection was had.
    Acquired(bool),
    /// What the adapter got from executing the intent; `None` where it failed.
    Executed(Option<Vec<u8>>),
    /// The serialized envelope; `None` where it could not be serialized.
    Wrapped(Option<Vec<u8>>),
    /// The refusal was assembled: its bytes, `None` where it could not be serialized.
    Assembled(Option<Vec<u8>>),
    /// What the exit filter left of the bytes.
    Scrubbed(Vec<u8>),
    /// Whether the audit record was written.
    Recorded(Result<(), AuditError>),
}

/// The answer to a request.
#[derive(Debug)]
pub enum Answer {
    /// These bytes.
    Response(Vec<u8>),
    /// The refusal that was assembled last, as it was assembled.
    Refusal { stage: Stage },
}

/// What an answer says.
pub enum AnswerFacts {
    Response(Seq<u8>),
    Refusal { stage: Stage },
}

impl View for Answer {
    type V = AnswerFacts;

    open spec fn view(&self) -> AnswerFacts {
        match *self {
            Answer::Response(bytes) => AnswerFacts::Response(bytes@),
            Answer::Refusal { stage } => AnswerFacts::Refusal { stage },
        }
    }
}

/// What an audit record marks.
#[derive(Clone, Copy, Debug, PartialEq, Eq, Structural)]
pub enum Mark {
    Intent,
    Outcome,
    Read,
    Refusal,
}

/// What is to be done next.
pub enum Action {
    /// Have the first registered adapter classify the intent.
    Classify,
    /// Have the adapter check a constraint.
    CheckConstraint { spec: String },
    /// Have the policy evaluate the request; `passed` tells whether the constraints
    /// are met.
    Evaluate { passed: bool },
    /// Get a connection for a resource and a tier.
    Acquire { resource: String, tier: String },
    /// Have the adapter execute the intent.
    Execute,
    /// Serialize the envelope around a result whose record was lost.
    Wrap { envelope: DowngradeEnvelope },
    /// Assemble a refusal and serialize it.
    Refuse { facts: DenyFacts },
    /// Pass bytes through the exit filter.
    Scrub { payload: Vec<u8> },
    /// Write an audit record.
    Record { mark: Mark, event: AuditEvent },
    /// Answer the request.
    Leave(Answer),
}

/// What an action says.
pub enum ActionFacts {
    Classify,
    CheckConstraint { spec: Seq<char> },
    Evaluate { passed: bool },
    Acquire { resource: Seq<char>, tier: Seq<char> },
    Execute,
    Wrap { code: Seq<char>, cause: Seq<char>, payload: Seq<u8> },
    Refuse { facts: RefusalFacts },
    Scrub { payload: Seq<u8> },
    Record { mark: Mark, event: AuditFacts },
    Leave(AnswerFacts),
}

impl View for Action {
    type V = ActionFacts;

    open spec fn view(&self) -> ActionFacts {
        match *self {
            Action::Classify => ActionFacts::Classify,
            Action::CheckConstraint { spec } => ActionFacts::CheckConstraint { spec: spec@ },
            Action::Evaluate { passed } => ActionFacts::Evaluate { passed },
            Action::Acquire { resource, tier } => ActionFacts::Acquire {
                resource: resource@,
                tier: tier@,
            },
            Action::Execute => ActionFacts::Execute,
            Action::Wrap { envelope } => ActionFacts::Wrap {
                code: envelope.downgraded@,
                cause: envelope.cause@,
                payload: envelope.payload@,
            },
            Action::Refuse { facts } => ActionFacts::Refuse { facts: facts@ },
            Action::Scrub { payload } => ActionFacts::Scrub { payload: payload@ },
            Action::Record { mark, event } => ActionFacts::Record { mark, event: event@ },
            Action::Leave(answer) => ActionFacts::Leave(answer@),
        }
    }
}

/// A request on its way through the kernel.
pub struct Submission {
    phase: Phase,
    intent: ClassifiedIntent,
    constraints: Vec<String>,
    granted: String,
    payload: Vec<u8>,
}

/// What is known of a request on its way.
#[verifier::ext_equal]
pub struct SubmissionFacts {
    /// The step that it has reached.
    pub phase: Phase,
    /// What the adapter made of the intent.
    pub intent: IntentFacts,
    /// The constraints to be checked.
    pub constraints: Seq<Seq<char>>,
    /// The resource that the policy granted.
    pub granted: Seq<char>,
    /// What the exit filter left of the result.
    pub payload: Seq<u8>,
}

impl View for Submission {
    type V = SubmissionFacts;

    closed spec fn view(&self) -> SubmissionFacts {
        SubmissionFacts {
            phase: self.phase,
            intent: self.intent@,
            constraints: texts(self.constraints@),
            granted: self.granted@,
            payload: self.payload@,
        }
    }
}

/// An intent before it is classified.
pub open spec fn unclassified() -> IntentFacts {
    IntentFacts { capability: Capability::Observe, objects: Seq::empty() }
}

/// The record of an intent or of a request that went through.
pub open spec fn allow_facts(
    policy: PolicySnapshot,
    request: NormalizedRequest,
    s: SubmissionFacts,
    word: Seq<char>,
) -> AuditFacts {
    AuditFacts {
        v: 1,
        kind: "request"@,
        entry: "data"@,
        origin: request.origin,
        principal: None,
        resource: s.granted,
        capability: Some(s.intent.capability),
        objects: s.intent.objects,
        decision: word,
        stage: None,
        reason: Seq::empty(),
        policy_rev: policy.policy_rev,
    }
}

/// The record of a refusal.
pub open spec fn deny_facts(
    policy: PolicySnapshot,
    s: SubmissionFacts,
    stage: Stage,
    word: DenyWord,
) -> AuditFacts {
    AuditFacts {
        v: 1,
        kind: "request"@,
        entry: "data"@,
        origin: ConnOrigin::UnixPeer { uid: 0, gid: 0 },
        principal: None,
        resource: first_resource(policy.grants@),
        capability: Some(s.intent.capability),
        objects: s.intent.objects,
        decision: deny_word(word),
        stage: Some(stage),
        reason: reason_at(stage),
        policy_rev: policy.policy_rev,
    }
}

/// A step to `phase`, and the action that goes with it.
pub open spec fn to(s: SubmissionFacts, phase: Phase, action: ActionFacts) -> (
    SubmissionFacts,
    ActionFacts,
) {
    (SubmissionFacts { phase, ..s }, action)
}

/// What a refusal at a stage is assembled from.
pub open spec fn refusal_of(
    policy: PolicySnapshot,
    s: SubmissionFacts,
    stage: Stage,
) -> RefusalFacts {
    RefusalFacts {
        principal: UNATTRIBUTED,
        resource: first_resource(policy.grants@),
        capability: s.intent.capability,
        objects: s.intent.objects,
        reason: reason_at(stage),
    }
}

/// The way to a refusal, which leaves a record or not.
pub open spec fn refuse(
    policy: PolicySnapshot,
    s: SubmissionFacts,
    stage: Stage,
    word: DenyWord,
    record: bool,
) -> (SubmissionFacts, ActionFacts) {
    to(
        s,
        Phase::AssemblingRefusal { stage, word, record },
        ActionFacts::Refuse { facts: refusal_of(policy, s, stage) },
    )
}

/// The bytes of a refusal that go through the exit filter.
pub open spec fn refusal_bytes(serialized: Option<Vec<u8>>) -> Seq<u8> {
    match serialized {
        Some(refusal) => refusal@,
        None => Seq::empty(),
    }
}

/// The bytes of a downgraded response that go through the exit filter.
pub open spec fn downgraded_bytes(serialized: Option<Vec<u8>>) -> Seq<u8> {
    match serialized {
        Some(envelope) => envelope@,
        None => OUTCOME_DOWNGRADED_CODE.spec_bytes(),
    }
}

/// The way on from a constraint: to the next one, or to the evaluation.
pub open spec fn constrain(s: SubmissionFacts, at: int) -> (SubmissionFacts, ActionFacts) {
    if at < s.constraints.len() {
        to(
            s,
            Phase::Constraining { at: at as usize },
            ActionFacts::CheckConstraint { spec: s.constraints[at] },
        )
    } else {
        to(s, Phase::Evaluating, ActionFacts::Evaluate { passed: true })
    }
}

/// A submission that checks a constraint has that constraint.
pub open spec fn on_course(s: SubmissionFacts) -> bool {
    s.phase matches Phase::Constraining { at } ==> at < s.constraints.len()
}

/// Whether a reply answers the action that the submission waits on.
pub open spec fn answers(phase: Phase, reply: Reply) -> bool {
    match phase {
        Phase::Classifying => reply is Classified,
        Phase::Constraining { .. } => reply is Constraint,
        Phase::Evaluating => reply is Evaluated,
        Phase::Acquiring => reply is Acquired,
        Phase::RecordingIntent => reply is Recorded,
        Phase::Executing => reply is Executed,
        Phase::ScrubbingResponse => reply is Scrubbed,
        Phase::RecordingResult => reply is Recorded,
        Phase::Wrapping => reply is Wrapped,
        Phase::ScrubbingDowngraded => reply is Scrubbed,
        Phase::AssemblingRefusal { .. } => reply is Assembled,
        Phase::ScrubbingRefusal { .. } => reply is Scrubbed,
        Phase::RecordingRefusal { .. } => reply is Recorded,
        Phase::Done => false,
    }
}

/// The kernel's rule: what follows on a reply.
pub open spec fn advanced(
    policy: PolicySnapshot,
    request: NormalizedRequest,
    s: SubmissionFacts,
    reply: Reply,
) -> (SubmissionFacts, ActionFacts) {
    let side_effects = audit_class(s.intent.capability) == AuditClass::SideEffecting;
    match (s.phase, reply) {
        (Phase::Classifying, Reply::Classified(Some(intent))) => constrain(
            SubmissionFacts {
                intent: intent@,
                constraints: constraints_on(
                    policy.grants@,
                    request.resource@,
                    intent.capability,
                ),
                ..s
            },
            0,
        ),
        (Phase::Classifying, _) => refuse(policy, s, Stage::Classify, DenyWord::Deny, true),
        (Phase::Constraining { at }, Reply::Constraint(ConstraintReply::Met)) => constrain(
            s,
            at + 1,
        ),
        (Phase::Constraining { .. }, Reply::Constraint(ConstraintReply::Unmet)) => to(
            s,
            Phase::Evaluating,
            ActionFacts::Evaluate { passed: false },
        ),
        (Phase::Constraining { .. }, _) => refuse(
            policy,
            s,
            Stage::Constraint,
            DenyWord::Deny,
            true,
        ),
        (
            Phase::Evaluating,
            Reply::Evaluated { decision: Decision::Allow { resource, tier }, .. },
        ) => to(
            SubmissionFacts { granted: resource@, ..s },
            Phase::Acquiring,
            ActionFacts::Acquire { resource: resource@, tier: tier@ },
        ),
        (Phase::Evaluating, Reply::Evaluated { trace, .. }) => refuse(
            policy,
            s,
            refusing_stage(trace.steps@),
            if is_escalated(trace.steps@) {
                DenyWord::EscalateDenied
            } else {
                DenyWord::Deny
            },
            true,
        ),
        (Phase::Acquiring, Reply::Acquired(true)) => if side_effects {
            to(
                s,
                Phase::RecordingIntent,
                ActionFacts::Record {
                    mark: Mark::Intent,
                    event: allow_facts(policy, request, s, "intent"@),
                },
            )
        } else {
            to(s, Phase::Executing, ActionFacts::Execute)
        },
        (Phase::Acquiring, _) => refuse(policy, s, Stage::Transport, DenyWord::Deny, true),
        (Phase::RecordingIntent, Reply::Recorded(Ok(_))) => to(
            s,
            Phase::Executing,
            ActionFacts::Execute,
        ),
        (Phase::RecordingIntent, _) => refuse(policy, s, Stage::Audit, DenyWord::Deny, false),
        (Phase::Executing, Reply::Executed(Some(raw))) => to(
            s,
            Phase::ScrubbingResponse,
            ActionFacts::Scrub { payload: raw@ },
        ),
        (Phase::Executing, _) => refuse(policy, s, Stage::Exec, DenyWord::Deny, true),
        (Phase::ScrubbingResponse, Reply::Scrubbed(clean)) => to(
            SubmissionFacts { payload: clean@, ..s },
            Phase::RecordingResult,
            ActionFacts::Record {
                mark: if side_effects {
                    Mark::Outcome
                } else {
                    Mark::Read
                },
                event: allow_facts(policy, request, s, "allow"@),
            },
        ),
        (Phase::RecordingResult, Reply::Recorded(Ok(_))) => to(
            s,
            Phase::Done,
            ActionFacts::Leave(AnswerFacts::Response(s.payload)),
        ),
        (Phase::RecordingResult, Reply::Recorded(Err(cause))) => if side_effects {
            to(
                s,
                Phase::Wrapping,
                ActionFacts::Wrap {
                    code: OUTCOME_DOWNGRADED_CODE@,
                    cause: cause_code(cause),
                    payload: s.payload,
                },
            )
        } else {
            refuse(policy, s, Stage::Audit, DenyWord::Deny, true)
        },
        (Phase::Wrapping, Reply::Wrapped(serialized)) => to(
            s,
            Phase::ScrubbingDowngraded,
            ActionFacts::Scrub { payload: downgraded_bytes(serialized) },
        ),
        (Phase::ScrubbingDowngraded, Reply::Scrubbed(clean)) => to(
            s,
            Phase::Done,
            ActionFacts::Leave(AnswerFacts::Response(clean@)),
        ),
        (Phase::AssemblingRefusal { stage, word, record }, Reply::Assembled(serialized)) => to(
            s,
            Phase::ScrubbingRefusal { stage, word, record },
            ActionFacts::Scrub { payload: refusal_bytes(serialized) },
        ),
        (Phase::ScrubbingRefusal { stage, word, record }, _) => if record {
            to(
                s,
                Phase::RecordingRefusal { stage },
                ActionFacts::Record {
                    mark: Mark::Refusal,
                    event: deny_facts(policy, s, stage, word),
                },
            )
        } else {
            to(s, Phase::Done, ActionFacts::Leave(AnswerFacts::Refusal { stage }))
        },
        (Phase::RecordingRefusal { stage }, _) => to(
            s,
            Phase::Done,
            ActionFacts::Leave(AnswerFacts::Refusal { stage }),
        ),
        _ => (s, ActionFacts::Leave(AnswerFacts::Response(s.payload))),
    }
}

/// The first step of a request: to the adapter, or to a refusal where none is
/// registered.
pub open spec fn submitted(policy: PolicySnapshot, has_adapter: bool) -> (
    SubmissionFacts,
    ActionFacts,
) {
    let s = SubmissionFacts {
        phase: Phase::Classifying,
        intent: unclassified(),
        constraints: Seq::empty(),
        granted: Seq::empty(),
        payload: Seq::empty(),
    };
    if has_adapter {
        (s, ActionFacts::Classify)
    } else {
        refuse(policy, s, Stage::Classify, DenyWord::Deny, true)
    }
}

impl Submission {
    /// The step that the submission has reached.
    pub fn phase(&self) -> (phase: Phase)
        ensures
            phase == self@.phase,
    {
        self.phase
    }

    /// What the adapter made of the intent.
    pub fn intent(&self) -> (intent: &ClassifiedIntent)
        ensures
            intent@ == self@.intent,
    {
        &self.intent
    }

    /// Whether a reply answers the action that the submission waits on.
    pub fn expects(&self, reply: &Reply) -> (fits: bool)
        ensures
            fits == answers(self@.phase, *reply),
    {
        match self.phase {
            Phase::Classifying => matches!(reply, Reply::Classified(_)),
            Phase::Constraining { .. } => matches!(reply, Reply::Constraint(_)),
            Phase::Evaluating => matches!(reply, Reply::Evaluated { .. }),
            Phase::Acquiring => matches!(reply, Reply::Acquired(_)),
            Phase::RecordingIntent => matches!(reply, Reply::Recorded(_)),
            Phase::Executing => matches!(reply, Reply::Executed(_)),
            Phase::ScrubbingResponse => matches!(reply, Reply::Scrubbed(_)),
            Phase::RecordingResult => matches!(reply, Reply::Recorded(_)),
            Phase::Wrapping => matches!(reply, Reply::Wrapped(_)),
            Phase::ScrubbingDowngraded => matches!(reply, Reply::Scrubbed(_)),
            Phase::AssemblingRefusal { .. } => matches!(reply, Reply::Assembled(_)),
            Phase::ScrubbingRefusal { .. } => matches!(reply, Reply::Scrubbed(_)),
            Phase::RecordingRefusal { .. } => matches!(reply, Reply::Recorded(_)),
            Phase::Done => false,
        }
    }

    fn constrain(&mut self, at: usize) -> (action: Action)
        requires
            at <= old(self)@.constraints.len(),
        ensures
            (final(self)@, action@) == constrain(old(self)@, at as int),
    {
        if at < self.constraints.len() {
            self.phase = Phase::Constraining { at };
            Action::CheckConstraint { spec: self.constraints[at].clone() }
        } else {
            self.phase = Phase::Evaluating;
            Action::Evaluate { passed: true }
        }
    }
}

/// Whether an evaluation ended because the grant asks for a person's consent.
pub fn escalated(trace: &EvalTrace) -> (yes: bool)
    ensures
        yes == is_escalated(trace.steps@),
{
    if trace.steps.len() == 0 {
        return false;
    }
    let last = &trace.steps[trace.steps.len() - 1];
    last.stage == Stage::Tier && starts_with(last.detail.as_str(), "escalate")
}

/// The reason that a refusal gives.
pub fn deny_reason(stage: Stage) -> (reason: String)
    ensures
        reason@ == reason_at(stage),
{
    joined("denied at ", stage.as_str())
}

/// What a refusal is assembled from.
#[derive(Debug)]
pub struct DenyFacts {
    /// The principal whose grants the refusal may list: no one.
    pub principal: u64,
    pub resource: String,
    pub capability: Capability,
    pub objects: Vec<String>,
    pub reason: String,
}

/// What a refusal is assembled from.
#[verifier::ext_equal]
pub struct RefusalFacts {
    pub principal: u64,
    pub resource: Seq<char>,
    pub capability: Capability,
    pub objects: Seq<Seq<char>>,
    pub reason: Seq<char>,
}

impl View for DenyFacts {
    type V = RefusalFacts;

    open spec fn view(&self) -> RefusalFacts {
        RefusalFacts {
            principal: self.principal,
            resource: self.resource@,
            capability: self.capability,
            objects: texts(self.objects@),
            reason: self.reason@,
        }
    }
}

/// The principal that stands for no one.
pub const UNATTRIBUTED: u64 = 0;

/// The bytes of a refusal that go through the exit filter: the serialized refusal, or
/// none where it could not be serialized.
pub fn refusal_egress(serialized: Option<Vec<u8>>) -> (bytes: Vec<u8>)
    ensures
        bytes@ == refusal_bytes(serialized),
{
    match serialized {
        Some(refusal) => refusal,
        None => Vec::new(),
    }
}

/// The bytes of a downgraded response: the serialized envelope, or the bare code
/// where it could not be serialized.
pub fn downgraded_egress(serialized: Option<Vec<u8>>) -> (bytes: Vec<u8>)
    ensures
        bytes@ == downgraded_bytes(serialized),
{
    match serialized {
        Some(envelope) => envelope,
        None => copy_bytes(OUTCOME_DOWNGRADED_CODE.as_bytes()),
    }
}

/// The data plane's kernel: the registered adapters and the policy in force.
pub struct Kernel<A> {
    adapters: AdapterRegistry<A>,
    snapshot: PolicySnapshot,
}

impl<A> Kernel<A> {
    /// The registered adapters.
    pub closed spec fn adapters(&self) -> AdapterRegistry<A> {
        self.adapters
    }

    /// The policy in force.
    pub closed spec fn policy(&self) -> PolicySnapshot {
        self.snapshot
    }

    /// The adapters are registered in order.
    pub open spec fn wf(&self) -> bool {
        self.adapters().wf()
    }

    /// A kernel over some adapters and a policy.
    pub fn new(adapters: AdapterRegistry<A>, snapshot: PolicySnapshot) -> (kernel: Self)
        requires
            adapters.wf(),
        ensures
            kernel.wf(),
            kernel.adapters() == adapters,
            kernel.policy() == snapshot,
    {
        Kernel { adapters, snapshot }
    }

    /// The adapter that interprets requests: the one whose protocol comes first.
    pub fn adapter_for_request(&self) -> (adapter: Option<&A>)
        requires
            self.wf(),
        ensures
            match adapter {
                Some(found) => self.adapters().rows().len() > 0 && *found
                    == self.adapters().rows()[0].1,
                None => self.adapters().rows().len() == 0,
            },
    {
        let protocols = self.adapters.protocols();
        if protocols.len() == 0 {
            return None;
        }
        proof {
            lookup_of_row(self.adapters.rows(), 0);
        }
        self.adapters.adapter_for(protocols[0].as_str())
    }

    /// Takes a request in and says what comes first.
    pub fn submit(&self) -> (started: (Submission, Action))
        requires
            self.wf(),
        ensures
            (started.0@, started.1@) == submitted(
                self.policy(),
                self.adapters().rows().len() > 0,
            ),
            on_course(started.0@),
    {
        let intent = ClassifiedIntent { capability: Capability::Observe, objects: Vec::new() };
        let mut submission = Submission {
            phase: Phase::Classifying,
            intent,
            constraints: Vec::new(),
            granted: String::new(),
            payload: Vec::new(),
        };
        proof {
            assert(texts(submission.intent.objects@) =~= Seq::<Seq<char>>::empty());
            assert(texts(submission.constraints@) =~= Seq::<Seq<char>>::empty());
        }
        match self.adapter_for_request() {
            Some(_) => (submission, Action::Classify),
            None => {
                let action = self.refuse(&mut submission, Stage::Classify, DenyWord::Deny, true);
                (submission, action)
            },
        }
    }

    fn constraints_for(&self, resource: &str, capability: Capability) -> (constraints: Vec<String>)
        ensures
            texts(constraints@) == constraints_on(self.policy().grants@, resource@, capability),
    {
        let ghost grants = self.snapshot.grants@;
        let mut i: usize = 0;
        assert(grants.skip(0) =~= grants);
        while i < self.snapshot.grants.len()
            invariant
                i <= grants.len(),
                grants == self.snapshot.grants@,
                constraints_on(grants, resource@, capability) == constraints_on(
                    grants.skip(i as int),
                    resource@,
                    capability,
                ),
            decreases grants.len() - i,
        {
            let cells = &self.snapshot.grants[i].cells;
            let mut j: usize = 0;
            assert(cells@.skip(0) =~= cells@);
            assert(grants.skip(i as int).skip(1) =~= grants.skip(i + 1));
            while j < cells.len()
                invariant
                    j <= cells@.len(),
                    i < grants.len(),
                    grants == self.snapshot.grants@,
                    cells == grants[i as int].cells,
                    first_cell(cells@, resource@, capability) == first_cell(
                        cells@.skip(j as int),
                        resource@,
                        capability,
                    ),
                    constraints_on(grants, resource@, capability) == constraints_on(
                        grants.skip(i as int),
                        resource@,
                        capability,
                    ),
                decreases cells@.len() - j,
            {
                let cell = &cells[j];
                if same_text(cell.resource.as_str(), resource) && cell.capability == capability {
                    return copy_texts(&cell.constraints);
                }
                assert(cells@.skip(j as int).skip(1) =~= cells@.skip(j + 1));
                j = j + 1;
            }
            i = i + 1;
        }
        let none: Vec<String> = Vec::new();
        assert(texts(none@) =~= Seq::<Seq<char>>::empty());
        none
    }

    /// The resource that a refusal names: the first one of the policy.
    pub fn snapshot_resource_or(&self) -> (resource: String)
        ensures
            resource@ == first_resource(self.policy().grants@),
    {
        let ghost grants = self.snapshot.grants@;
        let mut i: usize = 0;
        assert(grants.skip(0) =~= grants);
        while i < self.snapshot.grants.len()
            invariant
                i <= grants.len(),
                grants == self.snapshot.grants@,
                first_resource(grants) == first_resource(grants.skip(i as int)),
            decreases grants.len() - i,
        {
            assert(grants.skip(i as int).skip(1) =~= grants.skip(i + 1));
            let cells = &self.snapshot.grants[i].cells;
            if cells.len() > 0 {
                return cells[0].resource.clone();
            }
            i = i + 1;
        }
        String::new()
    }

    /// What a refusal at a stage is assembled from.
    pub fn deny_facts(&self, s: &Submission, stage: Stage) -> (facts: DenyFacts)
        ensures
            facts@ == refusal_of(self.policy(), s@, stage),
    {
        DenyFacts {
            principal: UNATTRIBUTED,
            resource: self.snapshot_resource_or(),
            capability: s.intent.capability,
            objects: copy_texts(&s.intent.objects),
            reason: deny_reason(stage),
        }
    }

    fn refuse(&self, s: &mut Submission, stage: Stage, word: DenyWord, record: bool) -> (action:
        Action)
        ensures
            (final(s)@, action@) == refuse(self.policy(), old(s)@, stage, word, record),
    {
        let facts = self.deny_facts(s, stage);
        s.phase = Phase::AssemblingRefusal { stage, word, record };
        Action::Refuse { facts }
    }

    fn refuse_downstream(&self, s: &mut Submission, err: DownstreamError) -> (action: Action)
        ensures
            (final(s)@, action@) == refuse(
                self.policy(),
                old(s)@,
                crate::error::stage_of_failure(err),
                DenyWord::Deny,
                true,
            ),
    {
        let stage: Stage = deny_stage(&err);
        self.refuse(s, stage, DenyWord::Deny, true)
    }

    fn allow_event(&self, request: &NormalizedRequest, s: &Submission, word: &str) -> (event:
        AuditEvent)
        ensures
            event@ == allow_facts(self.policy(), *request, s@, word@),
    {
        AuditEvent {
            v: 1,
            kind: "request".to_owned(),
            entry: "data".to_owned(),
            origin: request.origin.clone(),
            principal: None,
            resource: s.granted.clone(),
            capability: Some(s.intent.capability),
            objects: copy_texts(&s.intent.objects),
            decision: word.to_owned(),
            stage: None,
            reason: String::new(),
            policy_rev: self.snapshot.policy_rev,
        }
    }

    fn deny_event(&self, s: &Submission, stage: Stage, word: DenyWord) -> (event: AuditEvent)
        ensures
            event@ == deny_facts(self.policy(), s@, stage, word),
    {
        let decision: &str = match word {
            DenyWord::Deny => "deny",
            DenyWord::EscalateDenied => "escalate_denied",
        };
        AuditEvent {
            v: 1,
            kind: "request".to_owned(),
            entry: "data".to_owned(),
            origin: ConnOrigin::UnixPeer { uid: 0, gid: 0 },
            principal: None,
            resource: self.snapshot_resource_or(),
            capability: Some(s.intent.capability),
            objects: copy_texts(&s.intent.objects),
            decision: decision.to_owned(),
            stage: Some(stage),
            reason: deny_reason(stage),
            policy_rev: self.snapshot.policy_rev,
        }
    }

    /// Takes the reply to the last action and says what comes next.
    pub fn advance(&self, request: &NormalizedRequest, s: &mut Submission, reply: Reply) -> (action:
        Action)
        requires
            answers(old(s)@.phase, reply),
            on_course(old(s)@),
        ensures
            (final(s)@, action@) == advanced(self.policy(), *request, old(s)@, reply),
            on_course(final(s)@),
    {
        let class: AuditClass = AuditClass::of(s.intent.capability);
        match (s.phase, reply) {
            (Phase::Classifying, Reply::Classified(Some(intent))) => {
                s.constraints =
                    self.constraints_for(request.resource.as_str(), intent.capability);
                s.intent = intent;
                s.constrain(0)
            },
            (Phase::Classifying, _) => self.refuse_downstream(s, DownstreamError::Classify),
            (Phase::Constraining { at }, Reply::Constraint(ConstraintReply::Met)) => {
                let n: usize = s.constraints.len();
                assert(at < n);
                s.constrain(at + 1)
            },
            (Phase::Constraining { .. }, Reply::Constraint(ConstraintReply::Unmet)) => {
                s.phase = Phase::Evaluating;
                Action::Evaluate { passed: false }
            },
            (Phase::Constraining { .. }, _) => self.refuse_downstream(s, DownstreamError::Constraint),
            (Phase::Evaluating, Reply::Evaluated { decision, trace }) => match decision {
                Decision::Allow { resource, tier } => {
                    s.phase = Phase::Acquiring;
                    s.granted = resource.clone();
                    Action::Acquire { resource, tier }
                },
                _ => {
                    let stage: Stage = match trace.final_stage() {
                        Some(stage) => stage,
                        None => Stage::Rbac,
                    };
                    let word: DenyWord = if escalated(&trace) {
                        DenyWord::EscalateDenied
                    } else {
                        DenyWord::Deny
                    };
                    self.refuse(s, stage, word, true)
                },
            },
            (Phase::Acquiring, Reply::Acquired(true)) => match class {
                AuditClass::SideEffecting => {
                    let event = self.allow_event(request, s, "intent");
                    s.phase = Phase::RecordingIntent;
                    Action::Record { mark: Mark::Intent, event }
                },
                AuditClass::Read => {
                    s.phase = Phase::Executing;
                    Action::Execute
                },
            },
            (Phase::Acquiring, _) => self.refuse_downstream(s, DownstreamError::Transport),
            (Phase::RecordingIntent, Reply::Recorded(written)) => match AuditPhase::record_intent(
                written,
            ) {
                Ok(()) => {
                    s.phase = Phase::Executing;
                    Action::Execute
                },
                Err(_) => self.refuse(s, Stage::Audit, DenyWord::Deny, false),
            },
            (Phase::Executing, Reply::Executed(Some(raw))) => {
                s.phase = Phase::ScrubbingResponse;
                Action::Scrub { payload: raw }
            },
            (Phase::Executing, _) => self.refuse_downstream(s, DownstreamError::Exec),
            (Phase::ScrubbingResponse, Reply::Scrubbed(clean)) => {
                let event = self.allow_event(request, s, "allow");
                let mark: Mark = match class {
                    AuditClass::SideEffecting => Mark::Outcome,
                    AuditClass::Read => Mark::Read,
                };
                s.payload = clean;
                s.phase = Phase::RecordingResult;
                Action::Record { mark, event }
            },
            (Phase::RecordingResult, Reply::Recorded(written)) => match class {
                AuditClass::SideEffecting => match AuditPhase::record_outcome(written) {
                    Ok(()) => {
                        s.phase = Phase::Done;
                        Action::Leave(Answer::Response(copy_bytes(s.payload.as_slice())))
                    },
                    Err(degraded) => {
                        let payload = copy_bytes(s.payload.as_slice());
                        s.phase = Phase::Wrapping;
                        Action::Wrap {
                            envelope: DowngradeEnvelope::new(degraded.cause_code(), payload),
                        }
                    },
                },
                AuditClass::Read => match AuditPhase::record_read(written) {
                    Ok(()) => {
                        s.phase = Phase::Done;
                        Action::Leave(Answer::Response(copy_bytes(s.payload.as_slice())))
                    },
                    Err(_) => self.refuse(s, Stage::Audit, DenyWord::Deny, true),
                },
            },
            (Phase::Wrapping, Reply::Wrapped(serialized)) => {
                s.phase = Phase::ScrubbingDowngraded;
                Action::Scrub { payload: downgraded_egress(serialized) }
            },
            (Phase::ScrubbingDowngraded, Reply::Scrubbed(clean)) => {
                s.phase = Phase::Done;
                Action::Leave(Answer::Response(clean))
            },
            (Phase::AssemblingRefusal { stage, word, record }, Reply::Assembled(serialized)) => {
                s.phase = Phase::ScrubbingRefusal { stage, word, record };
                Action::Scrub { payload: refusal_egress(serialized) }
            },
            (Phase::ScrubbingRefusal { stage, word, record }, _) => {
                if record {
                    let event = self.deny_event(s, stage, word);
                    s.phase = Phase::RecordingRefusal { stage };
                    Action::Record { mark: Mark::Refusal, event }
                } else {
                    s.phase = Phase::Done;
                    Action::Leave(Answer::Refusal { stage })
                }
            },
            (Phase::RecordingRefusal { stage }, _) => {
                s.phase = Phase::Done;
                Action::Leave(Answer::Refusal { stage })
            },
            _ => Action::Leave(Answer::Response(copy_bytes(s.payload.as_slice()))),
        }
    }
}

/// The state and the actions so far of a request that got some replies.
pub open spec fn course(
    policy: PolicySnapshot,
    request: NormalizedRequest,
    has_adapter: bool,
    replies: Seq<Reply>,
) -> (SubmissionFacts, Seq<ActionFacts>)
    decreases replies.len(),
{
    if replies.len() == 0 {
        let (s, action) = submitted(policy, has_adapter);
        (s, seq![action])
    } else {
        let (s, actions) = course(policy, request, has_adapter, replies.drop_last());
        let (next, action) = advanced(policy, request, s, replies.last());
        (next, actions.push(action))
    }
}

/// Each reply answers the action before it.
pub open spec fn in_turn(
    policy: PolicySnapshot,
    request: NormalizedRequest,
    has_adapter: bool,
    replies: Seq<Reply>,
) -> bool
    decreases replies.len(),
{
    replies.len() == 0 || {
        &&& in_turn(policy, request, has_adapter, replies.drop_last())
        &&& answers(
            course(policy, request, has_adapter, replies.drop_last()).0.phase,
            replies.last(),
        )
    }
}

/// Whether the request's verb has side effects.
pub open spec fn has_side_effects(s: SubmissionFacts) -> bool {
    audit_class(s.intent.capability) == AuditClass::SideEffecting
}

/// Whether an action writes an audit record of a kind.
pub open spec fn marks(action: ActionFacts, mark: Mark) -> bool {
    action matches ActionFacts::Record { mark: m, .. } && m == mark
}

/// Whether a reply says that an audit record was written.
pub open spec fn is_written(reply: Reply) -> bool {
    reply matches Reply::Recorded(Ok(_))
}

/// Whether a reply says that an audit record could not be written.
pub open spec fn is_failed_write(reply: Reply) -> bool {
    reply matches Reply::Recorded(Err(_))
}

/// Whether a reply says that the policy allows the request.
pub open spec fn is_allowed(reply: Reply) -> bool {
    reply matches Reply::Evaluated { decision, .. } && decision is Allow
}

/// Whether a reply says that the intent was executed.
pub open spec fn is_executed(reply: Reply) -> bool {
    reply matches Reply::Executed(Some(_))
}

/// Whether a reply says that the exit filter left these bytes.
pub open spec fn scrubbed_to(reply: Reply, bytes: Seq<u8>) -> bool {
    reply matches Reply::Scrubbed(clean) && clean@ == bytes
}

/// Whether an action goes towards a refusal.
pub open spec fn refusing(action: ActionFacts) -> bool {
    ||| action is Refuse
    ||| action matches ActionFacts::Leave(AnswerFacts::Refusal { .. })
}

/// Whether the intent was executed at `at`, and its result passed the exit filter,
/// which left `payload` of it.
pub open spec fn filtered_at(
    actions: Seq<ActionFacts>,
    replies: Seq<Reply>,
    at: int,
    payload: Seq<u8>,
) -> bool {
    &&& 0 <= at && at + 1 < replies.len()
    &&& actions[at] is Execute
    &&& replies[at] matches Reply::Executed(Some(raw)) && actions[at + 1] == (ActionFacts::Scrub {
        payload: raw@,
    })
    &&& scrubbed_to(replies[at + 1], payload)
}

/// Whether the filtered result `payload` was wrapped at `at`, because the record of
/// the outcome was lost right before.
pub open spec fn wrapped_at(
    actions: Seq<ActionFacts>,
    replies: Seq<Reply>,
    at: int,
    payload: Seq<u8>,
) -> bool {
    &&& 3 <= at <= replies.len()
    &&& filtered_at(actions, replies, at - 3, payload)
    &&& marks(actions[at - 1], Mark::Outcome)
    &&& replies[at - 1] matches Reply::Recorded(Err(cause)) && actions[at] == (
    ActionFacts::Wrap { code: OUTCOME_DOWNGRADED_CODE@, cause: cause_code(cause), payload })
}

/// Whether the envelope from `at` on was serialized and went to the exit filter.
pub open spec fn envelope_scrubbed(
    actions: Seq<ActionFacts>,
    replies: Seq<Reply>,
    at: int,
) -> bool {
    &&& 0 <= at < replies.len()
    &&& replies[at] matches Reply::Wrapped(serialized) && actions[at + 1] == (
    ActionFacts::Scrub { payload: downgraded_bytes(serialized) })
}

/// Whether a refusal was assembled at `at`, and its bytes went to the exit filter.
pub open spec fn refused_from(
    facts: RefusalFacts,
    actions: Seq<ActionFacts>,
    replies: Seq<Reply>,
    at: int,
) -> bool {
    &&& 0 <= at < replies.len()
    &&& actions[at] == (ActionFacts::Refuse { facts })
    &&& replies[at] matches Reply::Assembled(serialized) && actions[at + 1] == (
    ActionFacts::Scrub { payload: refusal_bytes(serialized) })
}

/// Whether the record of the intent was tried at `at`, and lost.
pub open spec fn intent_lost(
    actions: Seq<ActionFacts>,
    replies: Seq<Reply>,
    at: int,
) -> bool {
    &&& 0 <= at < replies.len()
    &&& marks(actions[at], Mark::Intent)
    &&& is_failed_write(replies[at])
}

/// What the state tells of the actions and replies behind it.
spec fn consistent(
    policy: PolicySnapshot,
    s: SubmissionFacts,
    actions: Seq<ActionFacts>,
    replies: Seq<Reply>,
) -> bool {
    let n = actions.len() as int;
    let last = actions.last();
    &&& n == replies.len() + 1
    &&& forall|i: int|
        0 <= i < n && (#[trigger] actions[i]) is Leave ==> i == n - 1 && s.phase == Phase::Done
    &&& (exists|i: int| 0 <= i < n && refusing(#[trigger] actions[i])) ==> match s.phase {
        Phase::AssemblingRefusal { .. }
        | Phase::ScrubbingRefusal { .. }
        | Phase::RecordingRefusal { .. } => true,
        Phase::Done => refusing(last),
        _ => false,
    }
    &&& has_side_effects(s) && (exists|i: int|
        0 <= i < replies.len() && is_executed(#[trigger] replies[i])) ==> match s.phase {
        Phase::ScrubbingResponse
        | Phase::RecordingResult
        | Phase::Wrapping
        | Phase::ScrubbingDowngraded => true,
        Phase::Done => last matches ActionFacts::Leave(AnswerFacts::Response(_)),
        _ => false,
    }
    &&& match s.phase {
        Phase::Classifying => last is Classify && n == 1,
        Phase::Constraining { .. } => last is CheckConstraint,
        Phase::Evaluating => last is Evaluate,
        Phase::Acquiring => last is Acquire && n >= 2 && is_allowed(replies.last()),
        Phase::RecordingIntent => {
            &&& marks(last, Mark::Intent)
            &&& has_side_effects(s)
            &&& n >= 3
            &&& replies.last() == Reply::Acquired(true)
            &&& is_allowed(replies[n - 3])
        },
        Phase::Executing => {
            &&& last is Execute
            &&& n >= 3
            &&& if has_side_effects(s) {
                &&& n >= 4
                &&& marks(actions[n - 2], Mark::Intent)
                &&& is_written(replies.last())
                &&& replies[n - 3] == Reply::Acquired(true)
                &&& is_allowed(replies[n - 4])
            } else {
                &&& replies.last() == Reply::Acquired(true)
                &&& is_allowed(replies[n - 3])
            }
        },
        Phase::ScrubbingResponse => {
            &&& n >= 2
            &&& actions[n - 2] is Execute
            &&& replies.last() matches Reply::Executed(Some(raw)) && last == (ActionFacts::Scrub {
                payload: raw@,
            })
        },
        Phase::RecordingResult => {
            &&& filtered_at(actions, replies, n - 3, s.payload)
            &&& marks(
                last,
                if has_side_effects(s) {
                    Mark::Outcome
                } else {
                    Mark::Read
                },
            )
        },
        Phase::Wrapping => {
            &&& has_side_effects(s)
            &&& wrapped_at(actions, replies, n - 1, s.payload)
        },
        Phase::ScrubbingDowngraded => {
            &&& has_side_effects(s)
            &&& wrapped_at(actions, replies, n - 2, s.payload)
            &&& envelope_scrubbed(actions, replies, n - 2)
        },
        Phase::AssemblingRefusal { stage, record, .. } => {
            &&& last == (ActionFacts::Refuse { facts: refusal_of(policy, s, stage) })
            &&& !record ==> stage == Stage::Audit && intent_lost(actions, replies, n - 2)
        },
        Phase::ScrubbingRefusal { stage, record, .. } => {
            &&& refused_from(refusal_of(policy, s, stage), actions, replies, n - 2)
            &&& !record ==> stage == Stage::Audit && intent_lost(actions, replies, n - 3)
        },
        Phase::RecordingRefusal { stage } => {
            &&& refused_from(refusal_of(policy, s, stage), actions, replies, n - 3)
            &&& marks(last, Mark::Refusal)
        },
        Phase::Done => match last {
            ActionFacts::Leave(AnswerFacts::Response(bytes)) => {
                ||| {
                    &&& is_written(replies.last())
                    &&& marks(
                        actions[n - 2],
                        if has_side_effects(s) {
                            Mark::Outcome
                        } else {
                            Mark::Read
                        },
                    )
                    &&& filtered_at(actions, replies, n - 4, bytes)
                }
                ||| {
                    &&& has_side_effects(s)
                    &&& wrapped_at(actions, replies, n - 3, s.payload)
                    &&& envelope_scrubbed(actions, replies, n - 3)
                    &&& scrubbed_to(replies.last(), bytes)
                }
            },
            ActionFacts::Leave(AnswerFacts::Refusal { stage }) => {
                ||| {
                    &&& refused_from(refusal_of(policy, s, stage), actions, replies, n - 4)
                    &&& marks(actions[n - 2], Mark::Refusal)
                }
                ||| {
                    &&& stage == Stage::Audit
                    &&& refused_from(refusal_of(policy, s, stage), actions, replies, n - 3)
                    &&& intent_lost(actions, replies, n - 4)
                }
            },
            _ => false,
        },
    }
}

#[verifier::spinoff_prover]
#[verifier::rlimit(90)]
proof fn lemma_course(
    policy: PolicySnapshot,
    request: NormalizedRequest,
    has_adapter: bool,
    replies: Seq<Reply>,
)
    requires
        in_turn(policy, request, has_adapter, replies),
    ensures
        consistent(
            policy,
            course(policy, request, has_adapter, replies).0,
            course(policy, request, has_adapter, replies).1,
            replies,
        ),
    decreases replies.len(),
{
    if replies.len() > 0 {
        let earlier = replies.drop_last();
        lemma_course(policy, request, has_adapter, earlier);
        let (s, actions) = course(policy, request, has_adapter, earlier);
        let (next, action) = advanced(policy, request, s, replies.last());
        let all = actions.push(action);
        assert(forall|i: int| 0 <= i < actions.len() ==> all[i] == actions[i]);
        assert(forall|i: int| 0 <= i < earlier.len() ==> replies[i] == earlier[i]);
        if exists|i: int| 0 <= i < replies.len() && is_executed(#[trigger] replies[i]) {
            let i = choose|i: int| 0 <= i < replies.len() && is_executed(#[trigger] replies[i]);
            if i < earlier.len() {
                assert(is_executed(earlier[i]));
            }
        }
        if exists|i: int| 0 <= i < all.len() && refusing(#[trigger] all[i]) {
            let i = choose|i: int| 0 <= i < all.len() && refusing(#[trigger] all[i]);
            if i < actions.len() {
                assert(refusing(actions[i]));
            }
        }
    }
}

/// What the state tells of executions and of records of an intent.
spec fn executed_once(s: SubmissionFacts, actions: Seq<ActionFacts>) -> bool {
    let n = actions.len() as int;
    &&& n > 0
    &&& s.phase is Classifying ==> n == 1
    &&& forall|i: int|
        0 <= i < n && marks(#[trigger] actions[i], Mark::Intent) ==> has_side_effects(s)
    &&& forall|i: int, j: int|
        0 <= i < j < n ==> !((#[trigger] actions[i]) is Execute && (
        #[trigger] actions[j]) is Execute)
    &&& match s.phase {
        Phase::Classifying
        | Phase::Constraining { .. }
        | Phase::Evaluating
        | Phase::Acquiring
        | Phase::RecordingIntent => forall|i: int|
            0 <= i < n ==> (#[trigger] actions[i]) !is Execute,
        _ => true,
    }
}

#[verifier::spinoff_prover]
#[verifier::rlimit(40)]
proof fn lemma_executed_once(
    policy: PolicySnapshot,
    request: NormalizedRequest,
    has_adapter: bool,
    replies: Seq<Reply>,
)
    requires
        in_turn(policy, request, has_adapter, replies),
    ensures
        executed_once(
            course(policy, request, has_adapter, replies).0,
            course(policy, request, has_adapter, replies).1,
        ),
    decreases replies.len(),
{
    if replies.len() > 0 {
        let earlier = replies.drop_last();
        lemma_executed_once(policy, request, has_adapter, earlier);
        lemma_course(policy, request, has_adapter, earlier);
        let (s, actions) = course(policy, request, has_adapter, earlier);
        let (next, action) = advanced(policy, request, s, replies.last());
        let all = actions.push(action);
        assert(forall|i: int| 0 <= i < actions.len() ==> all[i] == actions[i]);
    }
}

/// Whether the first `n` constraints were checked one after the other, right after
/// the intent was classified, and all of them are met but for the last, which came to
/// `last`.
pub open spec fn constraints_checked(
    s: SubmissionFacts,
    actions: Seq<ActionFacts>,
    replies: Seq<Reply>,
    n: int,
    last: ConstraintReply,
) -> bool {
    &&& 0 <= n <= s.constraints.len()
    &&& replies.len() == n + 1
    &&& actions.len() == n + 2
    &&& forall|j: int|
        1 <= j <= n ==> #[trigger] actions[j] == (ActionFacts::CheckConstraint {
            spec: s.constraints[j - 1],
        })
    &&& forall|j: int|
        1 <= j <= n ==> #[trigger] replies[j] == Reply::Constraint(
            if j == n {
                last
            } else {
                ConstraintReply::Met
            },
        )
}

/// What the state tells of the constraints, up to the evaluation.
spec fn constraints_in_order(
    policy: PolicySnapshot,
    request: NormalizedRequest,
    s: SubmissionFacts,
    actions: Seq<ActionFacts>,
    replies: Seq<Reply>,
) -> bool {
    let listed = s.constraints == constraints_on(
        policy.grants@,
        request.resource@,
        s.intent.capability,
    );
    let last = actions.last();
    &&& actions.len() == replies.len() + 1
    &&& s.phase is Classifying ==> replies.len() == 0
    &&& s.phase matches Phase::Constraining { at } ==> {
        &&& listed
        &&& at < s.constraints.len()
        &&& last == (ActionFacts::CheckConstraint { spec: s.constraints[at as int] })
        &&& constraints_checked(
            s,
            actions,
            replies,
            at as int,
            ConstraintReply::Met,
        )
    }
    &&& s.phase is Evaluating ==> {
        &&& listed
        &&& {
            ||| last == (ActionFacts::Evaluate { passed: true }) && constraints_checked(
                s,
                actions,
                replies,
                s.constraints.len() as int,
                ConstraintReply::Met,
            )
            ||| last == (ActionFacts::Evaluate { passed: false }) && replies.len() >= 2
                && constraints_checked(
                s,
                actions,
                replies,
                replies.len() - 1,
                ConstraintReply::Unmet,
            )
        }
    }
    &&& last is Evaluate ==> s.phase is Evaluating
}

proof fn lemma_constraints_fit(
    grants: Seq<PrincipalGrants>,
    resource: Seq<char>,
    capability: Capability,
)
    ensures
        constraints_on(grants, resource, capability).len() <= usize::MAX,
    decreases grants.len(),
{
    if grants.len() > 0 {
        match first_cell(grants[0].cells@, resource, capability) {
            Some(cell) => {
                assert(cell.constraints.len() == cell.constraints@.len());
            },
            None => {
                lemma_constraints_fit(grants.skip(1), resource, capability);
            },
        }
    }
}

#[verifier::spinoff_prover]
#[verifier::rlimit(40)]
proof fn lemma_constraints(
    policy: PolicySnapshot,
    request: NormalizedRequest,
    has_adapter: bool,
    replies: Seq<Reply>,
)
    requires
        in_turn(policy, request, has_adapter, replies),
    ensures
        constraints_in_order(
            policy,
            request,
            course(policy, request, has_adapter, replies).0,
            course(policy, request, has_adapter, replies).1,
            replies,
        ),
    decreases replies.len(),
{
    if replies.len() > 0 {
        let earlier = replies.drop_last();
        lemma_constraints(policy, request, has_adapter, earlier);
        let (s, actions) = course(policy, request, has_adapter, earlier);
        let (next, action) = advanced(policy, request, s, replies.last());
        let all = actions.push(action);
        assert(forall|i: int| 0 <= i < actions.len() ==> all[i] == actions[i]);
        assert(forall|i: int| 0 <= i < earlier.len() ==> replies[i] == earlier[i]);
        lemma_constraints_fit(policy.grants@, request.resource@, next.intent.capability);
    }
}

/// The policy is asked only once the constraints on the request were checked, in
/// order: it is told that they passed where every one of them is met, and that they
/// did not where one is not, which is then the last that was checked.
pub proof fn constraints_come_before_the_decision(
    policy: PolicySnapshot,
    request: NormalizedRequest,
    has_adapter: bool,
    replies: Seq<Reply>,
    passed: bool,
)
    requires
        in_turn(policy, request, has_adapter, replies),
        course(policy, request, has_adapter, replies).1.last() == (ActionFacts::Evaluate {
            passed,
        }),
    ensures
        ({
            let (s, actions) = course(policy, request, has_adapter, replies);
            &&& s.constraints == constraints_on(
                policy.grants@,
                request.resource@,
                s.intent.capability,
            )
            &&& if passed {
                constraints_checked(
                    s,
                    actions,
                    replies,
                    s.constraints.len() as int,
                    ConstraintReply::Met,
                )
            } else {
                constraints_checked(
                    s,
                    actions,
                    replies,
                    replies.len() - 1,
                    ConstraintReply::Unmet,
                )
            }
        }),
{
    lemma_constraints(policy, request, has_adapter, replies);
}

/// An intent with side effects is executed only right after its record was
/// written.
pub proof fn intent_is_recorded_before_effects(
    policy: PolicySnapshot,
    request: NormalizedRequest,
    has_adapter: bool,
    replies: Seq<Reply>,
)
    requires
        in_turn(policy, request, has_adapter, replies),
        course(policy, request, has_adapter, replies).1.last() is Execute,
        has_side_effects(course(policy, request, has_adapter, replies).0),
    ensures
        is_written(replies.last()),
        ({
            let actions = course(policy, request, has_adapter, replies).1;
            actions.len() >= 2 && marks(actions[actions.len() - 2], Mark::Intent)
        }),
{
    lemma_course(policy, request, has_adapter, replies);
}

/// Whether the policy allowed the request right before `at`, and at `at` a connection
/// was had for the very resource and tier that it granted.
pub open spec fn acquired_as_granted(
    actions: Seq<ActionFacts>,
    replies: Seq<Reply>,
    at: int,
    granted: Seq<char>,
) -> bool {
    &&& 1 <= at < replies.len()
    &&& replies[at] == Reply::Acquired(true)
    &&& replies[at - 1] matches Reply::Evaluated {
        decision: Decision::Allow { resource, tier },
        ..
    } && resource@ == granted && actions[at] == (ActionFacts::Acquire {
        resource: resource@,
        tier: tier@,
    })
}

/// Whether the adapter classified the intent, as what the state holds, and no check of
/// a constraint failed.
pub open spec fn classified_and_checked(s: SubmissionFacts, replies: Seq<Reply>) -> bool {
    &&& replies.len() >= 1
    &&& replies[0] matches Reply::Classified(Some(intent)) && intent@ == s.intent
    &&& forall|i: int|
        0 <= i < replies.len() ==> #[trigger] replies[i] != Reply::Constraint(
            ConstraintReply::Failed,
        )
}

/// What the state tells of the way to an execution.
spec fn on_the_way(s: SubmissionFacts, actions: Seq<ActionFacts>, replies: Seq<Reply>) -> bool {
    let n = replies.len() as int;
    &&& actions.len() == n + 1
    &&& match s.phase {
        Phase::Classifying => n == 0,
        Phase::Constraining { .. } | Phase::Evaluating => classified_and_checked(s, replies),
        Phase::Acquiring => {
            &&& classified_and_checked(s, replies)
            &&& replies.last() matches Reply::Evaluated {
                decision: Decision::Allow { resource, tier },
                ..
            } && resource@ == s.granted && actions.last() == (ActionFacts::Acquire {
                resource: resource@,
                tier: tier@,
            })
        },
        Phase::RecordingIntent => {
            &&& classified_and_checked(s, replies)
            &&& acquired_as_granted(actions, replies, n - 1, s.granted)
        },
        Phase::Executing => {
            &&& classified_and_checked(s, replies)
            &&& acquired_as_granted(
                actions,
                replies,
                if has_side_effects(s) {
                    n - 2
                } else {
                    n - 1
                },
                s.granted,
            )
        },
        _ => true,
    }
}

#[verifier::spinoff_prover]
#[verifier::rlimit(40)]
proof fn lemma_on_the_way(
    policy: PolicySnapshot,
    request: NormalizedRequest,
    has_adapter: bool,
    replies: Seq<Reply>,
)
    requires
        in_turn(policy, request, has_adapter, replies),
    ensures
        on_the_way(
            course(policy, request, has_adapter, replies).0,
            course(policy, request, has_adapter, replies).1,
            replies,
        ),
    decreases replies.len(),
{
    if replies.len() > 0 {
        let earlier = replies.drop_last();
        lemma_on_the_way(policy, request, has_adapter, earlier);
        let (s, actions) = course(policy, request, has_adapter, earlier);
        let (next, action) = advanced(policy, request, s, replies.last());
        let all = actions.push(action);
        assert(forall|i: int| 0 <= i < actions.len() ==> all[i] == actions[i]);
        assert(forall|i: int| 0 <= i < earlier.len() ==> replies[i] == earlier[i]);
        assert(actions.len() > 0 ==> all[actions.len() - 1] == actions.last());
        if earlier.len() > 0 {
            assert(replies[earlier.len() - 1] == earlier.last());
        }
    }
}

/// An intent is executed only after it was classified, no check of a constraint
/// failed, the policy allowed it, and a connection was had for the very resource and
/// tier that the policy granted.
pub proof fn execution_needs_grant_and_connection(
    policy: PolicySnapshot,
    request: NormalizedRequest,
    has_adapter: bool,
    replies: Seq<Reply>,
)
    requires
        in_turn(policy, request, has_adapter, replies),
        course(policy, request, has_adapter, replies).1.last() is Execute,
    ensures
        ({
            let (s, actions) = course(policy, request, has_adapter, replies);
            &&& classified_and_checked(s, replies)
            &&& exists|at: int| #[trigger] acquired_as_granted(actions, replies, at, s.granted)
        }),
{
    lemma_course(policy, request, has_adapter, replies);
    lemma_on_the_way(policy, request, has_adapter, replies);
    let (s, actions) = course(policy, request, has_adapter, replies);
    let n = replies.len() as int;
    if has_side_effects(s) {
        assert(acquired_as_granted(actions, replies, n - 2, s.granted));
    } else {
        assert(acquired_as_granted(actions, replies, n - 1, s.granted));
    }
}

/// An intent is executed at most once.
pub proof fn executed_at_most_once(
    policy: PolicySnapshot,
    request: NormalizedRequest,
    has_adapter: bool,
    replies: Seq<Reply>,
    i: int,
    j: int,
)
    requires
        in_turn(policy, request, has_adapter, replies),
        0 <= i <= replies.len(),
        0 <= j <= replies.len(),
        course(policy, request, has_adapter, replies).1[i] is Execute,
        course(policy, request, has_adapter, replies).1[j] is Execute,
    ensures
        i == j,
{
    lemma_course(policy, request, has_adapter, replies);
    lemma_executed_once(policy, request, has_adapter, replies);
}

/// Once an operation with side effects was executed, its request is not refused:
/// nothing that was done for it goes towards a refusal.
pub proof fn executed_effects_are_never_refused(
    policy: PolicySnapshot,
    request: NormalizedRequest,
    has_adapter: bool,
    replies: Seq<Reply>,
    executed: int,
    i: int,
)
    requires
        in_turn(policy, request, has_adapter, replies),
        has_side_effects(course(policy, request, has_adapter, replies).0),
        0 <= executed < replies.len(),
        is_executed(replies[executed]),
        0 <= i <= replies.len(),
    ensures
        !refusing(course(policy, request, has_adapter, replies).1[i]),
{
    lemma_course(policy, request, has_adapter, replies);
}

/// Once a refusal is on its way, nothing is connected or executed any more.
pub proof fn refused_requests_are_not_executed(
    policy: PolicySnapshot,
    request: NormalizedRequest,
    has_adapter: bool,
    replies: Seq<Reply>,
    i: int,
)
    requires
        in_turn(policy, request, has_adapter, replies),
        0 <= i <= replies.len(),
        course(policy, request, has_adapter, replies).1[i] is Refuse,
    ensures
        course(policy, request, has_adapter, replies).1.last() !is Execute,
        course(policy, request, has_adapter, replies).1.last() !is Acquire,
{
    lemma_course(policy, request, has_adapter, replies);
    assert(refusing(course(policy, request, has_adapter, replies).1[i]));
}

/// A reading verb leaves no record of an intent: where any action records one, the
/// verb has side effects.
pub proof fn reading_leaves_no_intent(
    policy: PolicySnapshot,
    request: NormalizedRequest,
    has_adapter: bool,
    replies: Seq<Reply>,
    i: int,
)
    requires
        in_turn(policy, request, has_adapter, replies),
        0 <= i <= replies.len(),
        marks(course(policy, request, has_adapter, replies).1[i], Mark::Intent),
    ensures
        has_side_effects(course(policy, request, has_adapter, replies).0),
{
    lemma_course(policy, request, has_adapter, replies);
    lemma_executed_once(policy, request, has_adapter, replies);
}

/// A response is what the exit filter left last, of the result or of the envelope
/// around it. (A refusal leaves as it was assembled: see
/// [`refusals_are_filtered_as_copies`].)
pub proof fn responses_passed_the_exit_filter(
    policy: PolicySnapshot,
    request: NormalizedRequest,
    has_adapter: bool,
    replies: Seq<Reply>,
    bytes: Seq<u8>,
)
    requires
        in_turn(policy, request, has_adapter, replies),
        course(policy, request, has_adapter, replies).1.last() == ActionFacts::Leave(
            AnswerFacts::Response(bytes),
        ),
    ensures
        exists|i: int|
            {
                &&& 0 <= i < replies.len()
                &&& course(policy, request, has_adapter, replies).1[i] is Scrub
                &&& #[trigger] scrubbed_to(replies[i], bytes)
                &&& forall|j: int| i < j < replies.len() ==> (#[trigger] replies[j]) !is Scrubbed
            },
{
    lemma_course(policy, request, has_adapter, replies);
    let n = replies.len() as int;
    if is_written(replies.last()) {
        assert(scrubbed_to(replies[n - 2], bytes));
    } else {
        assert(scrubbed_to(replies[n - 1], bytes));
    }
}

/// A refusal leaves as it was assembled. Before it does, its bytes passed the exit
/// filter like those of any answer; what the filter left of them is dropped.
pub proof fn refusals_are_filtered_as_copies(
    policy: PolicySnapshot,
    request: NormalizedRequest,
    has_adapter: bool,
    replies: Seq<Reply>,
    stage: Stage,
)
    requires
        in_turn(policy, request, has_adapter, replies),
        course(policy, request, has_adapter, replies).1.last() == ActionFacts::Leave(
            AnswerFacts::Refusal { stage },
        ),
    ensures
        ({
            let (s, actions) = course(policy, request, has_adapter, replies);
            exists|i: int| #[trigger]
                refused_from(refusal_of(policy, s, stage), actions, replies, i)
        }),
{
    lemma_course(policy, request, has_adapter, replies);
    let (s, actions) = course(policy, request, has_adapter, replies);
    let n = actions.len() as int;
    assert(refused_from(refusal_of(policy, s, stage), actions, replies, n - 4) || refused_from(
        refusal_of(policy, s, stage),
        actions,
        replies,
        n - 3,
    ));
}

/// A response that was not wrapped is the filtered result, and is given only after
/// its record was written.
pub proof fn clean_response_is_recorded(
    policy: PolicySnapshot,
    request: NormalizedRequest,
    has_adapter: bool,
    replies: Seq<Reply>,
    bytes: Seq<u8>,
)
    requires
        in_turn(policy, request, has_adapter, replies),
        course(policy, request, has_adapter, replies).1.last() == ActionFacts::Leave(
            AnswerFacts::Response(bytes),
        ),
        forall|i: int|
            0 <= i <= replies.len() ==> (#[trigger] course(
                policy,
                request,
                has_adapter,
                replies,
            ).1[i]) !is Wrap,
    ensures
        is_written(replies.last()),
        filtered_at(
            course(policy, request, has_adapter, replies).1,
            replies,
            replies.len() - 3,
            bytes,
        ),
{
    lemma_course(policy, request, has_adapter, replies);
    let actions = course(policy, request, has_adapter, replies).1;
    let n = actions.len() as int;
    if !is_written(replies.last()) {
        assert(actions[n - 3] is Wrap);
    }
}

/// Where the record of an outcome is lost, the request is answered all the same:
/// the envelope holds the downgrade code, the cause and the filtered result, and the
/// answer is what the exit filter leaves of the serialized envelope.
pub proof fn lost_outcome_record_downgrades(
    policy: PolicySnapshot,
    request: NormalizedRequest,
    s: SubmissionFacts,
    cause: AuditError,
    serialized: Option<Vec<u8>>,
    clean: Vec<u8>,
)
    requires
        s.phase is RecordingResult,
        has_side_effects(s),
    ensures
        ({
            let (wrapping, wrap) = advanced(policy, request, s, Reply::Recorded(Err(cause)));
            let (scrubbing, scrub) = advanced(
                policy,
                request,
                wrapping,
                Reply::Wrapped(serialized),
            );
            let (done, leave) = advanced(policy, request, scrubbing, Reply::Scrubbed(clean));
            &&& wrap == (ActionFacts::Wrap {
                code: OUTCOME_DOWNGRADED_CODE@,
                cause: cause_code(cause),
                payload: s.payload,
            })
            &&& scrub == (ActionFacts::Scrub { payload: downgraded_bytes(serialized) })
            &&& leave == ActionFacts::Leave(AnswerFacts::Response(clean@))
            &&& done.phase is Done
        }),
{
}

/// A response that is given although the last write to the audit log is not behind
/// it tells so: the record of the outcome was lost, and the response is what the
/// exit filter left of the envelope around the filtered result.
pub proof fn unrecorded_responses_are_wrapped(
    policy: PolicySnapshot,
    request: NormalizedRequest,
    has_adapter: bool,
    replies: Seq<Reply>,
    bytes: Seq<u8>,
)
    requires
        in_turn(policy, request, has_adapter, replies),
        course(policy, request, has_adapter, replies).1.last() == ActionFacts::Leave(
            AnswerFacts::Response(bytes),
        ),
        !is_written(replies.last()),
    ensures
        ({
            let (s, actions) = course(policy, request, has_adapter, replies);
            let at = replies.len() - 2;
            &&& has_side_effects(s)
            &&& wrapped_at(actions, replies, at, s.payload)
            &&& envelope_scrubbed(actions, replies, at)
            &&& scrubbed_to(replies.last(), bytes)
        }),
{
    lemma_course(policy, request, has_adapter, replies);
}

/// Every refusal was handed to the audit log, but for the one that a failed record
/// of an intent brought about: there the log was tried already.
pub proof fn refusals_are_recorded(
    policy: PolicySnapshot,
    request: NormalizedRequest,
    has_adapter: bool,
    replies: Seq<Reply>,
    stage: Stage,
)
    requires
        in_turn(policy, request, has_adapter, replies),
        course(policy, request, has_adapter, replies).1.last() == ActionFacts::Leave(
            AnswerFacts::Refusal { stage },
        ),
    ensures
        ({
            let actions = course(policy, request, has_adapter, replies).1;
            let n = actions.len() as int;
            &&& n >= 4
            &&& {
                ||| marks(actions[n - 2], Mark::Refusal)
                ||| stage == Stage::Audit && intent_lost(actions, replies, n - 4)
            }
        }),
{
    lemma_course(policy, request, has_adapter, replies);
}

} // verus!
