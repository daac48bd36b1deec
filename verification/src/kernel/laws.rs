//! What the kernel does, stated of requests and replies: what follows on each reply,
//! what is recorded, and what a refusal says.

use super::audit_phase::{audit_class, AuditClass};
use super::pipeline::{
    advanced, answers, constraints_on, first_cell, first_resource, submitted, Action, ActionFacts,
    Answer, AnswerFacts, ConstraintReply, DenyFacts, DenyWord, Mark, Phase, Reply, SubmissionFacts,
};
use crate::domain::{
    stage_name, texts, AuditError, AuditEvent, Capability, ClassifiedIntent, ConnOrigin, Decision, GrantCell,
    NormalizedRequest, PolicySnapshot, PrincipalGrants, Stage, TraceStep,
};
use crate::error::{stage_of_failure, DowngradeEnvelope, DownstreamError};
use crate::text::{stands_at, text_stands_where_its_characters_do};
use vstd::prelude::*;
use vstd::string::StringSliceAdditionalSpecFns;

verus! {

/// Observing and querying are audited as reading; to mutate, to execute, to manage and
/// to destroy are audited as having side effects.
pub proof fn only_observing_and_querying_read(capability: Capability)
    ensures
        audit_class(capability) == AuditClass::Read <==> capability == Capability::Observe
            || capability == Capability::Query,
        audit_class(capability) == AuditClass::SideEffecting <==> capability == Capability::Mutate
            || capability == Capability::Execute || capability == Capability::Manage || capability
            == Capability::Destroy,
{
}

proof fn lemma_first_cell(
    cells: Seq<GrantCell>,
    resource: Seq<char>,
    capability: Capability,
    c: int,
)
    requires
        0 <= c <= cells.len(),
        forall|d: int|
            0 <= d < c ==> (#[trigger] cells[d]).resource@ != resource || cells[d].capability
                != capability,
    ensures
        c < cells.len() && cells[c].resource@ == resource && cells[c].capability == capability
            ==> first_cell(cells, resource, capability) == Some(cells[c]),
        c == cells.len() ==> first_cell(cells, resource, capability) is None,
    decreases c,
{
    if c > 0 {
        assert(cells[0].resource@ != resource || cells[0].capability != capability);
        assert forall|d: int| 0 <= d < c - 1 implies (#[trigger] cells.skip(1)[d]).resource@
            != resource || cells.skip(1)[d].capability != capability by {
            assert(cells[d + 1].resource@ != resource || cells[d + 1].capability != capability);
        }
        lemma_first_cell(cells.skip(1), resource, capability, c - 1);
    }
}

/// The constraints on a resource and a capability are those of one cell, all of them and
/// in order: of the first principal that has a cell with exactly that resource and that
/// capability, the first such cell.
pub proof fn constraints_are_those_of_the_first_grant(
    grants: Seq<PrincipalGrants>,
    resource: Seq<char>,
    capability: Capability,
    p: int,
    c: int,
)
    requires
        0 <= p < grants.len(),
        0 <= c < grants[p].cells@.len(),
        grants[p].cells@[c].resource@ == resource,
        grants[p].cells@[c].capability == capability,
        forall|d: int|
            0 <= d < c ==> (#[trigger] grants[p].cells@[d]).resource@ != resource
                || grants[p].cells@[d].capability != capability,
        forall|q: int, d: int|
            0 <= q < p && 0 <= d < grants[q].cells@.len() ==> (#[trigger] grants[q].cells@[d]).resource@
                != resource || grants[q].cells@[d].capability != capability,
    ensures
        constraints_on(grants, resource, capability).len() == grants[p].cells@[c].constraints@.len(),
        forall|k: int|
            0 <= k < grants[p].cells@[c].constraints@.len() ==> #[trigger] constraints_on(
                grants,
                resource,
                capability,
            )[k] == grants[p].cells@[c].constraints@[k]@,
    decreases p,
{
    if p == 0 {
        lemma_first_cell(grants[0].cells@, resource, capability, c);
    } else {
        let cells = grants[0].cells@;
        assert forall|d: int| 0 <= d < cells.len() implies (#[trigger] cells[d]).resource@
            != resource || cells[d].capability != capability by {
            assert(grants[0].cells@[d].resource@ != resource || grants[0].cells@[d].capability
                != capability);
        }
        lemma_first_cell(cells, resource, capability, cells.len() as int);
        let rest = grants.skip(1);
        assert(rest[p - 1] == grants[p]);
        assert forall|q: int, d: int|
            0 <= q < p - 1 && 0 <= d < rest[q].cells@.len() implies (
        #[trigger] rest[q].cells@[d]).resource@ != resource || rest[q].cells@[d].capability
            != capability by {
            assert(grants[q + 1].cells@[d].resource@ != resource || grants[q
                + 1].cells@[d].capability != capability);
        }
        constraints_are_those_of_the_first_grant(rest, resource, capability, p - 1, c);
    }
}

/// A resource and a capability that no cell of any principal has together are under no
/// constraint.
pub proof fn what_no_cell_grants_has_no_constraint(
    grants: Seq<PrincipalGrants>,
    resource: Seq<char>,
    capability: Capability,
)
    requires
        forall|q: int, d: int|
            0 <= q < grants.len() && 0 <= d < grants[q].cells@.len() ==> (
            #[trigger] grants[q].cells@[d]).resource@ != resource || grants[q].cells@[d].capability
                != capability,
    ensures
        constraints_on(grants, resource, capability).len() == 0,
    decreases grants.len(),
{
    if grants.len() > 0 {
        let cells = grants[0].cells@;
        assert forall|d: int| 0 <= d < cells.len() implies (#[trigger] cells[d]).resource@
            != resource || cells[d].capability != capability by {
            assert(grants[0].cells@[d].resource@ != resource || grants[0].cells@[d].capability
                != capability);
        }
        lemma_first_cell(cells, resource, capability, cells.len() as int);
        let rest = grants.skip(1);
        assert forall|q: int, d: int|
            0 <= q < rest.len() && 0 <= d < rest[q].cells@.len() implies (
        #[trigger] rest[q].cells@[d]).resource@ != resource || rest[q].cells@[d].capability
            != capability by {
            assert(grants[q + 1].cells@[d].resource@ != resource || grants[q
                + 1].cells@[d].capability != capability);
        }
        what_no_cell_grants_has_no_constraint(rest, resource, capability);
    }
}

/// Once a request is classified, whatever its capability, the constraints of the first
/// cell for its resource and that capability are checked from the first one on; where
/// that cell has none, the policy is asked at once.
pub proof fn classified_request_has_its_constraints_checked(
    policy: PolicySnapshot,
    request: NormalizedRequest,
    s: SubmissionFacts,
    intent: ClassifiedIntent,
    p: int,
    c: int,
)
    requires
        s.phase == Phase::Classifying,
        0 <= p < policy.grants@.len(),
        0 <= c < policy.grants@[p].cells@.len(),
        policy.grants@[p].cells@[c].resource@ == request.resource@,
        policy.grants@[p].cells@[c].capability == intent.capability,
        forall|d: int|
            0 <= d < c ==> (#[trigger] policy.grants@[p].cells@[d]).resource@ != request.resource@
                || policy.grants@[p].cells@[d].capability != intent.capability,
        forall|q: int, d: int|
            0 <= q < p && 0 <= d < policy.grants@[q].cells@.len() ==> (
            #[trigger] policy.grants@[q].cells@[d]).resource@ != request.resource@
                || policy.grants@[q].cells@[d].capability != intent.capability,
    ensures
        ({
            let wanted = policy.grants@[p].cells@[c].constraints@;
            let (next, action) = advanced(policy, request, s, Reply::Classified(Some(intent)));
            &&& next.intent.capability == intent.capability
            &&& next.constraints.len() == wanted.len()
            &&& forall|k: int| 0 <= k < wanted.len() ==> (#[trigger] next.constraints[k]) == wanted[k]@
            &&& wanted.len() > 0 ==> next.phase == (Phase::Constraining { at: 0 }) && action == (
            ActionFacts::CheckConstraint { spec: wanted[0]@ })
            &&& wanted.len() == 0 ==> next.phase == Phase::Evaluating && action == (
            ActionFacts::Evaluate { passed: true })
        }),
{
    constraints_are_those_of_the_first_grant(
        policy.grants@,
        request.resource@,
        intent.capability,
        p,
        c,
    );
}

/// A classified request on a resource that no cell grants that capability on goes to the
/// policy without a check.
pub proof fn request_without_a_cell_goes_to_the_policy(
    policy: PolicySnapshot,
    request: NormalizedRequest,
    s: SubmissionFacts,
    intent: ClassifiedIntent,
)
    requires
        s.phase == Phase::Classifying,
        forall|q: int, d: int|
            0 <= q < policy.grants@.len() && 0 <= d < policy.grants@[q].cells@.len() ==> (
            #[trigger] policy.grants@[q].cells@[d]).resource@ != request.resource@
                || policy.grants@[q].cells@[d].capability != intent.capability,
    ensures
        advanced(policy, request, s, Reply::Classified(Some(intent))).0.phase == Phase::Evaluating,
        advanced(policy, request, s, Reply::Classified(Some(intent))).1 == (ActionFacts::Evaluate {
            passed: true,
        }),
{
    what_no_cell_grants_has_no_constraint(policy.grants@, request.resource@, intent.capability);
}

/// What the adapter made of the intent is what the rest of the way goes by: its
/// capability, and its objects in order.
pub proof fn classification_is_kept(
    policy: PolicySnapshot,
    request: NormalizedRequest,
    s: SubmissionFacts,
    intent: ClassifiedIntent,
)
    requires
        s.phase == Phase::Classifying,
    ensures
        ({
            let next = advanced(policy, request, s, Reply::Classified(Some(intent))).0;
            &&& next.intent.capability == intent.capability
            &&& next.intent.objects.len() == intent.objects@.len()
            &&& forall|k: int|
                0 <= k < intent.objects@.len() ==> (#[trigger] next.intent.objects[k])
                    == intent.objects@[k]@
            &&& next.granted == s.granted
            &&& next.payload == s.payload
        }),
{
}

/// A constraint that is met is followed by the next one, and the last one by the policy,
/// which is told that all are met; one that is not met goes to the policy at once, which
/// is told so.
pub proof fn constraints_are_checked_in_turn(
    policy: PolicySnapshot,
    request: NormalizedRequest,
    s: SubmissionFacts,
    at: usize,
)
    requires
        s.phase == (Phase::Constraining { at }),
        at < s.constraints.len() <= usize::MAX,
    ensures
        at + 1 < s.constraints.len() ==> advanced(
            policy,
            request,
            s,
            Reply::Constraint(ConstraintReply::Met),
        ) == (
            SubmissionFacts { phase: Phase::Constraining { at: (at + 1) as usize }, ..s },
            ActionFacts::CheckConstraint { spec: s.constraints[at + 1] },
        ),
        at + 1 == s.constraints.len() ==> advanced(
            policy,
            request,
            s,
            Reply::Constraint(ConstraintReply::Met),
        ) == (
            SubmissionFacts { phase: Phase::Evaluating, ..s },
            ActionFacts::Evaluate { passed: true },
        ),
        advanced(policy, request, s, Reply::Constraint(ConstraintReply::Unmet)) == (
            SubmissionFacts { phase: Phase::Evaluating, ..s },
            ActionFacts::Evaluate { passed: false },
        ),
{
}

/// Whatever keeps a step from being done refuses the request at that step: a failed
/// classification, a constraint that could not be checked, a decision against it, a
/// connection that was not had, an intent that was not recorded, a failed execution, a
/// reading verb that was not recorded. Only the lost record of an intent is not recorded
/// in its turn.
pub proof fn failed_steps_refuse_at_their_stage(
    policy: PolicySnapshot,
    request: NormalizedRequest,
    s: SubmissionFacts,
    reply: Reply,
)
    ensures
        s.phase == Phase::Classifying && reply == Reply::Classified(None) ==> advanced(
            policy,
            request,
            s,
            reply,
        ).0 == (SubmissionFacts {
            phase: Phase::AssemblingRefusal {
                stage: Stage::Classify,
                word: DenyWord::Deny,
                record: true,
            },
            ..s
        }),
        s.phase is Constraining && reply == Reply::Constraint(ConstraintReply::Failed) ==> advanced(
            policy,
            request,
            s,
            reply,
        ).0 == (SubmissionFacts {
            phase: Phase::AssemblingRefusal {
                stage: Stage::Constraint,
                word: DenyWord::Deny,
                record: true,
            },
            ..s
        }),
        s.phase == Phase::Acquiring && reply == Reply::Acquired(false) ==> advanced(
            policy,
            request,
            s,
            reply,
        ).0 == (SubmissionFacts {
            phase: Phase::AssemblingRefusal {
                stage: Stage::Transport,
                word: DenyWord::Deny,
                record: true,
            },
            ..s
        }),
        s.phase == Phase::RecordingIntent && (reply matches Reply::Recorded(Err(_))) ==> advanced(
            policy,
            request,
            s,
            reply,
        ).0 == (SubmissionFacts {
            phase: Phase::AssemblingRefusal {
                stage: Stage::Audit,
                word: DenyWord::Deny,
                record: false,
            },
            ..s
        }),
        s.phase == Phase::Executing && reply == Reply::Executed(None) ==> advanced(
            policy,
            request,
            s,
            reply,
        ).0 == (SubmissionFacts {
            phase: Phase::AssemblingRefusal {
                stage: Stage::Exec,
                word: DenyWord::Deny,
                record: true,
            },
            ..s
        }),
        s.phase == Phase::RecordingResult && (reply matches Reply::Recorded(Err(_))) && (
        s.intent.capability == Capability::Observe || s.intent.capability == Capability::Query)
            ==> advanced(policy, request, s, reply).0 == (SubmissionFacts {
            phase: Phase::AssemblingRefusal {
                stage: Stage::Audit,
                word: DenyWord::Deny,
                record: true,
            },
            ..s
        }),
        s.phase == Phase::Evaluating && (reply matches Reply::Evaluated { decision, trace }
            && !(decision is Allow)) ==> (advanced(policy, request, s, reply).0.phase matches
            Phase::AssemblingRefusal { record, .. } && record),
{
}

/// A decision against a request is charged to the last step of its evaluation, and to
/// the grants where there was no step. It is worded as an escalation exactly where that
/// step is the tier and its detail begins with `escalate`.
pub proof fn decisions_are_charged_to_the_last_step(
    policy: PolicySnapshot,
    request: NormalizedRequest,
    s: SubmissionFacts,
    reply: Reply,
    steps: Seq<TraceStep>,
)
    requires
        s.phase == Phase::Evaluating,
        reply matches Reply::Evaluated { decision, trace } && !(decision is Allow) && trace.steps@
            == steps,
    ensures
        steps.len() == 0 ==> advanced(policy, request, s, reply).0.phase == (
        Phase::AssemblingRefusal { stage: Stage::Rbac, word: DenyWord::Deny, record: true }),
        steps.len() > 0 ==> (advanced(policy, request, s, reply).0.phase matches
            Phase::AssemblingRefusal { stage, word, record } && stage == steps[steps.len()
            - 1].stage && record && (word == DenyWord::EscalateDenied <==> steps[steps.len()
            - 1].stage == Stage::Tier && "escalate"@.len() <= steps[steps.len()
            - 1].detail@.len() && (forall|i: int|
            0 <= i < "escalate"@.len() ==> steps[steps.len() - 1].detail@[i]
                == #[trigger] "escalate"@[i]))),
{
    if steps.len() > 0 {
        text_stands_where_its_characters_do(steps.last().detail@, "escalate"@, 0);
        if stands_at(steps.last().detail@, "escalate"@, 0) {
            assert forall|i: int| 0 <= i < "escalate"@.len() implies steps[steps.len()
                - 1].detail@[i] == #[trigger] "escalate"@[i] by {
                assert(steps.last().detail@[0 + i] == "escalate"@[i]);
            }
        } else if "escalate"@.len() <= steps.last().detail@.len() && (forall|i: int|
            0 <= i < "escalate"@.len() ==> steps[steps.len() - 1].detail@[i]
                == #[trigger] "escalate"@[i]) {
            assert forall|j: int| 0 <= j < "escalate"@.len() implies steps.last().detail@[0 + j]
                == #[trigger] "escalate"@[j] by {}
        }
    }
}

/// A granted request gets a connection for the very resource and tier of the grant.
pub proof fn granted_request_is_connected(
    policy: PolicySnapshot,
    request: NormalizedRequest,
    s: SubmissionFacts,
    reply: Reply,
)
    requires
        s.phase == Phase::Evaluating,
        reply matches Reply::Evaluated { decision, .. } && decision is Allow,
    ensures
        reply matches Reply::Evaluated { decision: Decision::Allow { resource, tier }, .. }
            && advanced(policy, request, s, reply) == (
            SubmissionFacts { phase: Phase::Acquiring, granted: resource@, ..s },
            ActionFacts::Acquire { resource: resource@, tier: tier@ },
        ),
{
}

/// Once connected, a reading verb is executed and any other is recorded first, as an
/// intent on the granted resource; once that is recorded it is executed.
pub proof fn connected_request_is_executed(
    policy: PolicySnapshot,
    request: NormalizedRequest,
    s: SubmissionFacts,
)
    ensures
        s.phase == Phase::Acquiring && (s.intent.capability == Capability::Observe
            || s.intent.capability == Capability::Query) ==> advanced(
            policy,
            request,
            s,
            Reply::Acquired(true),
        ) == (SubmissionFacts { phase: Phase::Executing, ..s }, ActionFacts::Execute),
        s.phase == Phase::Acquiring && (s.intent.capability == Capability::Mutate
            || s.intent.capability == Capability::Execute || s.intent.capability
            == Capability::Manage || s.intent.capability == Capability::Destroy) ==> {
            let (next, action) = advanced(policy, request, s, Reply::Acquired(true));
            &&& next == (SubmissionFacts { phase: Phase::RecordingIntent, ..s })
            &&& action matches ActionFacts::Record { mark, event } && mark == Mark::Intent
                && event.decision == "intent"@ && event.kind == "request"@ && event.entry == "data"@
                && event.v == 1 && event.origin == request.origin && event.principal is None
                && event.resource == s.granted && event.capability == Some(s.intent.capability)
                && event.objects == s.intent.objects && event.stage is None && event.reason.len()
                == 0 && event.policy_rev == policy.policy_rev
        },
        s.phase == Phase::RecordingIntent ==> advanced(
            policy,
            request,
            s,
            Reply::Recorded(Ok(())),
        ) == (SubmissionFacts { phase: Phase::Executing, ..s }, ActionFacts::Execute),
{
}

/// What an execution gives goes through the exit filter; what the filter leaves is kept,
/// and the request is recorded as allowed on the granted resource, as read where the verb
/// reads and as an outcome where it does not. What was kept is the response.
pub proof fn result_is_filtered_and_recorded(
    policy: PolicySnapshot,
    request: NormalizedRequest,
    s: SubmissionFacts,
    bytes: Vec<u8>,
)
    ensures
        s.phase == Phase::Executing ==> advanced(
            policy,
            request,
            s,
            Reply::Executed(Some(bytes)),
        ) == (
            SubmissionFacts { phase: Phase::ScrubbingResponse, ..s },
            ActionFacts::Scrub { payload: bytes@ },
        ),
        s.phase == Phase::ScrubbingResponse ==> {
            let (next, action) = advanced(policy, request, s, Reply::Scrubbed(bytes));
            &&& next == (SubmissionFacts { phase: Phase::RecordingResult, payload: bytes@, ..s })
            &&& action matches ActionFacts::Record { mark, event } && (mark == Mark::Read
                <==> s.intent.capability == Capability::Observe || s.intent.capability
                == Capability::Query) && (mark == Mark::Outcome <==> s.intent.capability
                == Capability::Mutate || s.intent.capability == Capability::Execute
                || s.intent.capability == Capability::Manage || s.intent.capability
                == Capability::Destroy) && event.decision == "allow"@ && event.kind == "request"@
                && event.entry == "data"@ && event.v == 1 && event.origin == request.origin
                && event.principal is None && event.resource == s.granted && event.capability
                == Some(s.intent.capability) && event.objects == s.intent.objects && event.stage
                is None && event.reason.len() == 0 && event.policy_rev == policy.policy_rev
        },
        s.phase == Phase::RecordingResult ==> advanced(
            policy,
            request,
            s,
            Reply::Recorded(Ok(())),
        ) == (
            SubmissionFacts { phase: Phase::Done, ..s },
            ActionFacts::Leave(AnswerFacts::Response(s.payload)),
        ),
{
}

/// Where the outcome of a verb with side effects could not be recorded, the result is
/// wrapped under the code of a downgraded response, with the code of the failure. The
/// envelope goes through the exit filter, or the bare code where there is none, and what
/// the filter leaves is the response.
pub proof fn lost_outcomes_are_told(
    policy: PolicySnapshot,
    request: NormalizedRequest,
    s: SubmissionFacts,
    cause: AuditError,
    bytes: Vec<u8>,
)
    ensures
        s.phase == Phase::RecordingResult && s.intent.capability != Capability::Observe
            && s.intent.capability != Capability::Query ==> {
            let (next, action) = advanced(policy, request, s, Reply::Recorded(Err(cause)));
            &&& next == (SubmissionFacts { phase: Phase::Wrapping, ..s })
            &&& action matches ActionFacts::Wrap { code, cause: why, payload } && code
                == "executed_but_audit_downgraded"@ && payload == s.payload && (cause
                == AuditError::WriteFailed ==> why == "audit_write_failed"@) && (cause
                == AuditError::StorageUnavailable ==> why == "audit_storage_unavailable"@)
        },
        s.phase == Phase::Wrapping ==> advanced(policy, request, s, Reply::Wrapped(Some(bytes)))
            == (
            SubmissionFacts { phase: Phase::ScrubbingDowngraded, ..s },
            ActionFacts::Scrub { payload: bytes@ },
        ),
        s.phase == Phase::Wrapping ==> advanced(policy, request, s, Reply::Wrapped(None)) == (
            SubmissionFacts { phase: Phase::ScrubbingDowngraded, ..s },
            ActionFacts::Scrub { payload: "executed_but_audit_downgraded".spec_bytes() },
        ),
        s.phase == Phase::ScrubbingDowngraded ==> advanced(
            policy,
            request,
            s,
            Reply::Scrubbed(bytes),
        ) == (
            SubmissionFacts { phase: Phase::Done, ..s },
            ActionFacts::Leave(AnswerFacts::Response(bytes@)),
        ),
{
}

/// A refusal is assembled, filtered as a copy, recorded where it is to be recorded, and
/// given at the stage that it was made at. A record that could not be written does not
/// change it.
pub proof fn refusals_are_given_at_their_stage(
    policy: PolicySnapshot,
    request: NormalizedRequest,
    s: SubmissionFacts,
    stage: Stage,
    word: DenyWord,
    record: bool,
    bytes: Vec<u8>,
    written: Result<(), AuditError>,
)
    ensures
        s.phase == (Phase::AssemblingRefusal { stage, word, record }) ==> {
            &&& advanced(policy, request, s, Reply::Assembled(Some(bytes))) == (
                SubmissionFacts { phase: Phase::ScrubbingRefusal { stage, word, record }, ..s },
                ActionFacts::Scrub { payload: bytes@ },
            )
            &&& advanced(policy, request, s, Reply::Assembled(None)) == (
                SubmissionFacts { phase: Phase::ScrubbingRefusal { stage, word, record }, ..s },
                ActionFacts::Scrub { payload: Seq::empty() },
            )
        },
        s.phase == (Phase::ScrubbingRefusal { stage, word, record: false }) ==> advanced(
            policy,
            request,
            s,
            Reply::Scrubbed(bytes),
        ) == (
            SubmissionFacts { phase: Phase::Done, ..s },
            ActionFacts::Leave(AnswerFacts::Refusal { stage }),
        ),
        s.phase == (Phase::ScrubbingRefusal { stage, word, record: true }) ==> {
            let (next, action) = advanced(policy, request, s, Reply::Scrubbed(bytes));
            &&& next == (SubmissionFacts { phase: Phase::RecordingRefusal { stage }, ..s })
            &&& action matches ActionFacts::Record { mark, event } && mark == Mark::Refusal
                && event.kind == "request"@ && event.entry == "data"@ && event.v == 1
                && event.principal is None && event.resource == first_resource(policy.grants@)
                && event.capability == Some(s.intent.capability) && event.objects
                == s.intent.objects && event.stage == Some(stage)
                && event.policy_rev == policy.policy_rev && event.origin == (ConnOrigin::UnixPeer {
                uid: 0,
                gid: 0,
            }) && event.reason == "denied at "@ + stage_name(stage) && (word == DenyWord::Deny
                ==> event.decision == "deny"@) && (word == DenyWord::EscalateDenied
                ==> event.decision == "escalate_denied"@)
        },
        s.phase == (Phase::RecordingRefusal { stage }) ==> advanced(
            policy,
            request,
            s,
            Reply::Recorded(written),
        ) == (
            SubmissionFacts { phase: Phase::Done, ..s },
            ActionFacts::Leave(AnswerFacts::Refusal { stage }),
        ),
{
}

/// A refusal says at which stage it was made and what was asked for; it is no one's in
/// particular, so that it lists no grants.
pub proof fn refusals_say_what_was_refused(
    policy: PolicySnapshot,
    request: NormalizedRequest,
    s: SubmissionFacts,
    reply: Reply,
    stage: Stage,
    word: DenyWord,
    record: bool,
)
    requires
        !(s.phase is AssemblingRefusal),
        advanced(policy, request, s, reply).0.phase == (Phase::AssemblingRefusal {
            stage,
            word,
            record,
        }),
    ensures
        advanced(policy, request, s, reply).1 matches ActionFacts::Refuse { facts }
            && facts.principal == 0 && facts.resource == first_resource(policy.grants@)
            && facts.capability == s.intent.capability && facts.objects == s.intent.objects
            && facts.reason == "denied at "@ + stage_name(stage),
{
}

/// A refusal, and its record, name the first resource of the policy: that of the first
/// cell of the first principal that has any. Where there is none they name none.
pub proof fn refusals_name_the_first_resource(
    grants: Seq<PrincipalGrants>,
    p: int,
)
    requires
        0 <= p <= grants.len(),
        forall|q: int| 0 <= q < p ==> (#[trigger] grants[q]).cells@.len() == 0,
        p < grants.len() ==> grants[p].cells@.len() > 0,
    ensures
        p < grants.len() ==> first_resource(grants) == grants[p].cells@[0].resource@,
        p == grants.len() ==> first_resource(grants).len() == 0,
    decreases p,
{
    if p > 0 {
        assert(grants[0].cells@.len() == 0);
        assert forall|q: int| 0 <= q < p - 1 implies (#[trigger] grants.skip(1)[q]).cells@.len()
            == 0 by {
            assert(grants[q + 1].cells@.len() == 0);
        }
        refusals_name_the_first_resource(grants.skip(1), p - 1);
    }
}

/// A request begins with its classification where an adapter is registered, and is
/// refused at that stage where none is. Nothing is known of it at first.
pub proof fn requests_begin_with_their_classification(policy: PolicySnapshot)
    ensures
        submitted(policy, true).0.phase == Phase::Classifying,
        submitted(policy, true).1 == ActionFacts::Classify,
        submitted(policy, false).0.phase == (Phase::AssemblingRefusal {
            stage: Stage::Classify,
            word: DenyWord::Deny,
            record: true,
        }),
        submitted(policy, false).1 matches ActionFacts::Refuse { facts } && facts.principal == 0
            && facts.resource == first_resource(policy.grants@) && facts.capability
            == Capability::Observe && facts.objects.len() == 0 && facts.reason == "denied at "@
            + stage_name(Stage::Classify),
        submitted(policy, true).0.intent.capability == Capability::Observe,
        submitted(policy, true).0.intent.objects.len() == 0,
        submitted(policy, true).0.constraints.len() == 0,
        submitted(policy, true).0.granted.len() == 0,
        submitted(policy, true).0.payload.len() == 0,
{
}

/// A failure is charged to the stage at which it stands in a request's way. Whatever
/// keeps a backend from being reached, be it the credential, the address or the
/// transport, is charged to the connection, and nothing else is.
pub proof fn failures_are_charged_where_they_stand(err: DownstreamError)
    ensures
        err is Auth <==> stage_of_failure(err) == Stage::Auth,
        err == DownstreamError::Classify <==> stage_of_failure(err) == Stage::Classify,
        err == DownstreamError::Constraint <==> stage_of_failure(err) == Stage::Constraint,
        err == DownstreamError::Predicate <==> stage_of_failure(err) == Stage::Condition,
        err == DownstreamError::Credential || err == DownstreamError::Transport || err
            == DownstreamError::Resolve <==> stage_of_failure(err) == Stage::Transport,
        err == DownstreamError::Exec <==> stage_of_failure(err) == Stage::Exec,
        err is Audit <==> stage_of_failure(err) == Stage::Audit,
        err == DownstreamError::Discover <==> stage_of_failure(err) == Stage::Discover,
{
}

/// Each step takes the reply to its own action and no other; a request that is done
/// takes none.
pub proof fn each_step_takes_its_own_reply(phase: Phase, reply: Reply)
    ensures
        reply is Classified ==> (answers(phase, reply) <==> phase == Phase::Classifying),
        reply is Constraint ==> (answers(phase, reply) <==> phase is Constraining),
        reply is Evaluated ==> (answers(phase, reply) <==> phase == Phase::Evaluating),
        reply is Acquired ==> (answers(phase, reply) <==> phase == Phase::Acquiring),
        reply is Executed ==> (answers(phase, reply) <==> phase == Phase::Executing),
        reply is Wrapped ==> (answers(phase, reply) <==> phase == Phase::Wrapping),
        reply is Assembled ==> (answers(phase, reply) <==> phase is AssemblingRefusal),
        reply is Scrubbed ==> (answers(phase, reply) <==> phase == Phase::ScrubbingResponse || phase
            == Phase::ScrubbingDowngraded || phase is ScrubbingRefusal),
        reply is Recorded ==> (answers(phase, reply) <==> phase == Phase::RecordingIntent || phase
            == Phase::RecordingResult || phase is RecordingRefusal),
{
}

/// An action of the kernel says what it is: the constraint to check, whether the constraints
/// are met, the resource and tier to connect, the bytes to filter, the record to write, and
/// the answer.
pub proof fn actions_say_what_they_are(
    text: String,
    other: String,
    passed: bool,
    bytes: Vec<u8>,
    mark: Mark,
    event: AuditEvent,
    facts: DenyFacts,
    envelope: DowngradeEnvelope,
    stage: Stage,
)
    ensures
        Action::Classify@ == ActionFacts::Classify,
        (Action::CheckConstraint { spec: text })@ == (ActionFacts::CheckConstraint { spec: text@ }),
        (Action::Evaluate { passed })@ == (ActionFacts::Evaluate { passed }),
        (Action::Acquire { resource: text, tier: other })@ == (ActionFacts::Acquire {
            resource: text@,
            tier: other@,
        }),
        Action::Execute@ == ActionFacts::Execute,
        (Action::Wrap { envelope })@ == (ActionFacts::Wrap {
            code: envelope.downgraded@,
            cause: envelope.cause@,
            payload: envelope.payload@,
        }),
        (Action::Refuse { facts })@ == (ActionFacts::Refuse { facts: facts@ }),
        (Action::Scrub { payload: bytes })@ == (ActionFacts::Scrub { payload: bytes@ }),
        (Action::Record { mark, event })@ == (ActionFacts::Record { mark, event: event@ }),
        Action::Leave(Answer::Response(bytes))@ == ActionFacts::Leave(
            AnswerFacts::Response(bytes@),
        ),
        (Action::Leave((Answer::Refusal { stage })))@ == ActionFacts::Leave(
            (AnswerFacts::Refusal { stage }),
        ),
        facts@.principal == facts.principal,
        facts@.resource == facts.resource@,
        facts@.capability == facts.capability,
        facts@.objects == texts(facts.objects@),
        facts@.reason == facts.reason@,
{
}

} // verus!
