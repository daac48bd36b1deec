//! The endpoints: pages, and writes with their audit record.

use super::{WriteError, WriteIntent, WriteOutcome};
use crate::domain::{
    page_no_of, page_size_of, texts, AuditEvent, AuditFacts, ConnOrigin, PageQuery,
    PAGE_SIZE_DEFAULT,
};
use crate::error::DaemonError;
use crate::text::same_text;
use vstd::prelude::*;

verus! {

/// The page that is asked for: the first and of the default size where nothing is
/// said, and within the limits in any case.
pub fn page_query(page_no: Option<u32>, page_size: Option<u32>) -> (query: PageQuery)
    ensures
        query.page_no == page_no_of(match page_no {
            Some(n) => n,
            None => 1,
        }),
        query.page_size == page_size_of(match page_size {
            Some(n) => n,
            None => PAGE_SIZE_DEFAULT,
        }),
        page_no is None ==> query.page_no == 1,
        page_no is Some && page_no->0 >= 1 ==> query.page_no == page_no->0,
        query.page_no >= 1,
        page_size is None ==> query.page_size == 20,
        page_size is Some && 1 <= page_size->0 <= 200 ==> query.page_size == page_size->0,
        page_size is Some && page_size->0 > 200 ==> query.page_size == 200,
        query.page_size >= 1,
{
    PageQuery {
        page_no: page_no.unwrap_or(1),
        page_size: page_size.unwrap_or(PAGE_SIZE_DEFAULT),
    }.clamp()
}

/// What a write comes to over HTTP.
#[derive(Clone, Copy, Debug, PartialEq, Eq, Structural)]
pub enum WriteHttp {
    /// Everything succeeded.
    Committed(WriteOutcome),
    /// The expected version is not the current one.
    Conflict,
    /// There is no such write yet.
    NotImplemented,
    /// The write refers to a resource that does not exist.
    NotFound,
    /// Anything else failed.
    Failed,
}

/// What a failed write comes to.
pub open spec fn http_of(err: WriteError) -> WriteHttp {
    match err {
        WriteError::VersionConflict => WriteHttp::Conflict,
        WriteError::NotImplemented => WriteHttp::NotImplemented,
        WriteError::ResourceNotFound => WriteHttp::NotFound,
        WriteError::Transaction => WriteHttp::Failed,
        WriteError::SnapshotRebuild => WriteHttp::Failed,
        WriteError::Audit => WriteHttp::Failed,
    }
}

impl WriteHttp {
    /// The status code.
    pub fn status(&self) -> (status: u16)
        ensures
            status == match *self {
                WriteHttp::Committed(_) => 200u16,
                WriteHttp::Conflict => 409u16,
                WriteHttp::NotImplemented => 501u16,
                WriteHttp::NotFound => 404u16,
                WriteHttp::Failed => 500u16,
            },
    {
        match self {
            WriteHttp::Committed(_) => 200,
            WriteHttp::Conflict => 409,
            WriteHttp::NotImplemented => 501,
            WriteHttp::NotFound => 404,
            WriteHttp::Failed => 500,
        }
    }

    /// What a failed write comes to.
    pub fn from_write_error(err: &WriteError) -> (http: Self)
        ensures
            http == http_of(*err),
    {
        match err {
            WriteError::VersionConflict => WriteHttp::Conflict,
            WriteError::NotImplemented => WriteHttp::NotImplemented,
            WriteError::ResourceNotFound => WriteHttp::NotFound,
            WriteError::Transaction => WriteHttp::Failed,
            WriteError::SnapshotRebuild => WriteHttp::Failed,
            WriteError::Audit => WriteHttp::Failed,
        }
    }
}

/// The audit record of a write.
pub open spec fn policy_change(
    origin: ConnOrigin,
    entity: Seq<char>,
    decision: Seq<char>,
    policy_rev: u64,
) -> AuditFacts {
    AuditFacts {
        v: 1,
        kind: "policy_change"@,
        entry: "control"@,
        origin,
        principal: None,
        resource: entity,
        capability: None,
        objects: Seq::empty(),
        decision,
        stage: None,
        reason: Seq::empty(),
        policy_rev,
    }
}

/// Makes the audit record of a write.
pub fn policy_change_event(
    origin: ConnOrigin,
    intent: &WriteIntent,
    decision: &str,
    policy_rev: u64,
) -> (event: AuditEvent)
    ensures
        event@ == policy_change(origin, intent.entity@, decision@, policy_rev),
{
    let event = AuditEvent {
        v: 1,
        kind: "policy_change".to_owned(),
        entry: "control".to_owned(),
        origin,
        principal: None,
        resource: intent.entity.to_owned(),
        capability: None,
        objects: Vec::new(),
        decision: decision.to_owned(),
        stage: None,
        reason: String::new(),
        policy_rev,
    };
    assert(texts(event.objects@) =~= Seq::<Seq<char>>::empty());
    event
}

/// Which step a write has reached: the one whose reply it waits for.
#[derive(Clone, Copy, Debug, PartialEq, Eq, Structural)]
pub enum WritePhase {
    /// The store carries the write out in a transaction that stays open.
    Applying,
    /// The record of the success is written.
    RecordingSuccess { outcome: WriteOutcome },
    /// The store commits the open transaction.
    Committing { outcome: WriteOutcome },
    /// The store drops the open transaction.
    RollingBack,
    /// The record of the failure is written.
    RecordingFailure { error: WriteError },
    Done,
}

/// What is to be done next for a write.
pub enum WriteAction {
    /// Have the store carry the write out in a transaction, up to the rebuilt
    /// snapshot, and keep the transaction open: nothing of it is in force yet. What can
    /// fail of a write fails here, and then nothing of it stays.
    Apply,
    /// Write an audit record.
    Record { event: AuditEvent },
    /// Have the store commit the open transaction and put the snapshot in force.
    Commit,
    /// Have the store drop the open transaction.
    RollBack,
    /// Answer.
    Leave(WriteHttp),
}

/// What an action for a write says.
pub enum WriteActionFacts {
    Apply,
    Record { event: AuditFacts },
    Commit,
    RollBack,
    Leave(WriteHttp),
}

impl View for WriteAction {
    type V = WriteActionFacts;

    open spec fn view(&self) -> WriteActionFacts {
        match *self {
            WriteAction::Apply => WriteActionFacts::Apply,
            WriteAction::Record { event } => WriteActionFacts::Record { event: event@ },
            WriteAction::Commit => WriteActionFacts::Commit,
            WriteAction::RollBack => WriteActionFacts::RollBack,
            WriteAction::Leave(http) => WriteActionFacts::Leave(http),
        }
    }
}

/// The reply to an action for a write.
#[derive(Clone, Copy, Debug, PartialEq, Eq)]
pub enum WriteReply {
    /// What the write came to.
    Applied(Result<WriteOutcome, WriteError>),
    /// Whether the audit record was written.
    Recorded(bool),
    /// The transaction is committed.
    Committed,
    /// The transaction is dropped.
    RolledBack,
}

/// Whether a reply answers the action that a write waits on.
pub open spec fn reply_fits(phase: WritePhase, reply: WriteReply) -> bool {
    match phase {
        WritePhase::Applying => reply is Applied,
        WritePhase::RecordingSuccess { .. } => reply is Recorded,
        WritePhase::Committing { .. } => reply is Committed,
        WritePhase::RollingBack => reply is RolledBack,
        WritePhase::RecordingFailure { .. } => reply is Recorded,
        WritePhase::Done => false,
    }
}

/// Whether a reply answers the action that a write waits on.
pub fn write_expects(phase: WritePhase, reply: &WriteReply) -> (fits: bool)
    ensures
        fits == reply_fits(phase, *reply),
{
    match phase {
        WritePhase::Applying => matches!(reply, WriteReply::Applied(_)),
        WritePhase::RecordingSuccess { .. } => matches!(reply, WriteReply::Recorded(_)),
        WritePhase::Committing { .. } => matches!(reply, WriteReply::Committed),
        WritePhase::RollingBack => matches!(reply, WriteReply::RolledBack),
        WritePhase::RecordingFailure { .. } => matches!(reply, WriteReply::Recorded(_)),
        WritePhase::Done => false,
    }
}

/// The record of a write that succeeds.
pub open spec fn success_record(
    origin: ConnOrigin,
    entity: Seq<char>,
    outcome: WriteOutcome,
) -> WriteActionFacts {
    WriteActionFacts::Record { event: policy_change(origin, entity, "allow"@, outcome.policy_rev) }
}

/// The record of a write that failed, which brings no revision.
pub open spec fn failure_record(origin: ConnOrigin, entity: Seq<char>) -> WriteActionFacts {
    WriteActionFacts::Record { event: policy_change(origin, entity, "deny"@, 0) }
}

/// The rule of a write: what follows on a reply. What was applied is committed only
/// once its record is written; where the record is lost it is rolled back. What does
/// not exist leaves no record.
pub open spec fn write_advanced(
    phase: WritePhase,
    reply: WriteReply,
    origin: ConnOrigin,
    entity: Seq<char>,
) -> (WritePhase, WriteActionFacts) {
    match (phase, reply) {
        (WritePhase::Applying, WriteReply::Applied(Ok(outcome))) => (
            WritePhase::RecordingSuccess { outcome },
            success_record(origin, entity, outcome),
        ),
        (WritePhase::Applying, WriteReply::Applied(Err(WriteError::NotImplemented))) => (
            WritePhase::Done,
            WriteActionFacts::Leave(WriteHttp::NotImplemented),
        ),
        (WritePhase::Applying, WriteReply::Applied(Err(error))) => (
            WritePhase::RecordingFailure { error },
            failure_record(origin, entity),
        ),
        (WritePhase::RecordingSuccess { outcome }, WriteReply::Recorded(true)) => (
            WritePhase::Committing { outcome },
            WriteActionFacts::Commit,
        ),
        (WritePhase::RecordingSuccess { .. }, _) => (
            WritePhase::RollingBack,
            WriteActionFacts::RollBack,
        ),
        (WritePhase::Committing { outcome }, _) => (
            WritePhase::Done,
            WriteActionFacts::Leave(WriteHttp::Committed(outcome)),
        ),
        (WritePhase::RollingBack, _) => (
            WritePhase::Done,
            WriteActionFacts::Leave(http_of(WriteError::Audit)),
        ),
        (WritePhase::RecordingFailure { error }, _) => (
            WritePhase::Done,
            WriteActionFacts::Leave(http_of(error)),
        ),
        _ => (WritePhase::Done, WriteActionFacts::Leave(WriteHttp::Failed)),
    }
}

/// Begins a write.
pub fn write() -> (started: (WritePhase, WriteAction))
    ensures
        started.0 == WritePhase::Applying,
        started.1@ == WriteActionFacts::Apply,
{
    (WritePhase::Applying, WriteAction::Apply)
}

/// Takes the reply to the last action for a write and says what comes next.
pub fn advance_write(
    phase: WritePhase,
    reply: WriteReply,
    origin: &ConnOrigin,
    intent: &WriteIntent,
) -> (next: (WritePhase, WriteAction))
    requires
        reply_fits(phase, reply),
    ensures
        (next.0, next.1@) == write_advanced(phase, reply, *origin, intent.entity@),
{
    match (phase, reply) {
        (WritePhase::Applying, WriteReply::Applied(Ok(outcome))) => {
            let event = policy_change_event(origin.clone(), intent, "allow", outcome.policy_rev);
            (WritePhase::RecordingSuccess { outcome }, WriteAction::Record { event })
        },
        (WritePhase::Applying, WriteReply::Applied(Err(WriteError::NotImplemented))) => (
            WritePhase::Done,
            WriteAction::Leave(WriteHttp::NotImplemented),
        ),
        (WritePhase::Applying, WriteReply::Applied(Err(error))) => {
            let event = policy_change_event(origin.clone(), intent, "deny", 0);
            (WritePhase::RecordingFailure { error }, WriteAction::Record { event })
        },
        (WritePhase::RecordingSuccess { outcome }, WriteReply::Recorded(true)) => (
            WritePhase::Committing { outcome },
            WriteAction::Commit,
        ),
        (WritePhase::RecordingSuccess { .. }, _) => (
            WritePhase::RollingBack,
            WriteAction::RollBack,
        ),
        (WritePhase::Committing { outcome }, _) => (
            WritePhase::Done,
            WriteAction::Leave(WriteHttp::Committed(outcome)),
        ),
        (WritePhase::RollingBack, _) => (
            WritePhase::Done,
            WriteAction::Leave(WriteHttp::from_write_error(&WriteError::Audit)),
        ),
        (WritePhase::RecordingFailure { error }, _) => (
            WritePhase::Done,
            WriteAction::Leave(WriteHttp::from_write_error(&error)),
        ),
        _ => (WritePhase::Done, WriteAction::Leave(WriteHttp::Failed)),
    }
}

/// The step and the actions so far of a write that got some replies.
pub open spec fn write_course(
    replies: Seq<WriteReply>,
    origin: ConnOrigin,
    entity: Seq<char>,
) -> (WritePhase, Seq<WriteActionFacts>)
    decreases replies.len(),
{
    if replies.len() == 0 {
        (WritePhase::Applying, seq![WriteActionFacts::Apply])
    } else {
        let (phase, actions) = write_course(replies.drop_last(), origin, entity);
        let (next, action) = write_advanced(phase, replies.last(), origin, entity);
        (next, actions.push(action))
    }
}

/// Each reply answers the action before it.
pub open spec fn write_in_turn(
    replies: Seq<WriteReply>,
    origin: ConnOrigin,
    entity: Seq<char>,
) -> bool
    decreases replies.len(),
{
    replies.len() == 0 || {
        &&& write_in_turn(replies.drop_last(), origin, entity)
        &&& reply_fits(
            write_course(replies.drop_last(), origin, entity).0,
            replies.last(),
        )
    }
}

/// Whether a write was applied and its record of success handed to the log.
spec fn applied(
    actions: Seq<WriteActionFacts>,
    replies: Seq<WriteReply>,
    origin: ConnOrigin,
    entity: Seq<char>,
    outcome: WriteOutcome,
) -> bool {
    &&& actions.len() >= 2
    &&& replies[0] == WriteReply::Applied(Ok(outcome))
    &&& actions[1] == success_record(origin, entity, outcome)
}

/// What the step tells of the actions and replies behind it.
spec fn write_shape(
    phase: WritePhase,
    actions: Seq<WriteActionFacts>,
    replies: Seq<WriteReply>,
    origin: ConnOrigin,
    entity: Seq<char>,
) -> bool {
    let n = replies.len();
    &&& actions.len() == n + 1
    &&& actions[0] == WriteActionFacts::Apply
    &&& match phase {
        WritePhase::Applying => n == 0,
        WritePhase::RecordingSuccess { outcome } => n == 1 && applied(
            actions,
            replies,
            origin,
            entity,
            outcome,
        ),
        WritePhase::Committing { outcome } => {
            &&& n == 2
            &&& applied(actions, replies, origin, entity, outcome)
            &&& replies[1] == WriteReply::Recorded(true)
            &&& actions[2] == WriteActionFacts::Commit
        },
        WritePhase::RollingBack => {
            &&& n == 2
            &&& replies[0] matches WriteReply::Applied(Ok(outcome)) && applied(
                actions,
                replies,
                origin,
                entity,
                outcome,
            )
            &&& replies[1] == WriteReply::Recorded(false)
            &&& actions[2] == WriteActionFacts::RollBack
        },
        WritePhase::RecordingFailure { error } => {
            &&& n == 1
            &&& replies[0] == WriteReply::Applied(Err(error))
            &&& error != WriteError::NotImplemented
            &&& actions[1] == failure_record(origin, entity)
        },
        WritePhase::Done => {
            ||| {
                &&& n == 1
                &&& replies[0] == WriteReply::Applied(Err(WriteError::NotImplemented))
                &&& actions[1] == WriteActionFacts::Leave(WriteHttp::NotImplemented)
            }
            ||| {
                &&& n == 2
                &&& actions[1] == failure_record(origin, entity)
                &&& replies[0] matches WriteReply::Applied(Err(error)) && error
                    != WriteError::NotImplemented && actions[2] == WriteActionFacts::Leave(
                    http_of(error),
                )
            }
            ||| {
                &&& n == 3
                &&& replies[0] matches WriteReply::Applied(Ok(outcome)) && applied(
                    actions,
                    replies,
                    origin,
                    entity,
                    outcome,
                )
                &&& replies[1] == WriteReply::Recorded(false)
                &&& actions[2] == WriteActionFacts::RollBack
                &&& replies[2] == WriteReply::RolledBack
                &&& actions[3] == WriteActionFacts::Leave(WriteHttp::Failed)
            }
            ||| {
                &&& n == 3
                &&& replies[0] matches WriteReply::Applied(Ok(outcome)) && applied(
                    actions,
                    replies,
                    origin,
                    entity,
                    outcome,
                ) && actions[3] == WriteActionFacts::Leave(WriteHttp::Committed(outcome))
                &&& replies[1] == WriteReply::Recorded(true)
                &&& actions[2] == WriteActionFacts::Commit
                &&& replies[2] == WriteReply::Committed
            }
        },
    }
}

proof fn lemma_write_course(replies: Seq<WriteReply>, origin: ConnOrigin, entity: Seq<char>)
    requires
        write_in_turn(replies, origin, entity),
    ensures
        write_shape(
            write_course(replies, origin, entity).0,
            write_course(replies, origin, entity).1,
            replies,
            origin,
            entity,
        ),
    decreases replies.len(),
{
    if replies.len() > 0 {
        let earlier = replies.drop_last();
        lemma_write_course(earlier, origin, entity);
        let (phase, actions) = write_course(earlier, origin, entity);
        let all = write_course(replies, origin, entity).1;
        assert(forall|i: int| 0 <= i < actions.len() ==> all[i] == actions[i]);
        assert(forall|i: int| 0 <= i < earlier.len() ==> replies[i] == earlier[i]);
    }
}

/// A write counts as done only where it was applied, its record was written, and the
/// store committed it, in this order and with nothing else done.
pub proof fn a_write_is_done_with_its_record(
    replies: Seq<WriteReply>,
    origin: ConnOrigin,
    entity: Seq<char>,
    outcome: WriteOutcome,
)
    requires
        write_in_turn(replies, origin, entity),
        write_course(replies, origin, entity).1.last() == WriteActionFacts::Leave(
            WriteHttp::Committed(outcome),
        ),
    ensures
        replies == seq![
            WriteReply::Applied(Ok(outcome)),
            WriteReply::Recorded(true),
            WriteReply::Committed,
        ],
        write_course(replies, origin, entity).1 == seq![
            WriteActionFacts::Apply,
            success_record(origin, entity, outcome),
            WriteActionFacts::Commit,
            WriteActionFacts::Leave(WriteHttp::Committed(outcome)),
        ],
{
    lemma_write_course(replies, origin, entity);
    assert(write_course(replies, origin, entity).1 =~= seq![
        WriteActionFacts::Apply,
        success_record(origin, entity, outcome),
        WriteActionFacts::Commit,
        WriteActionFacts::Leave(WriteHttp::Committed(outcome)),
    ]);
    assert(replies =~= seq![
        WriteReply::Applied(Ok(outcome)),
        WriteReply::Recorded(true),
        WriteReply::Committed,
    ]);
}

/// No half of a write stays: where the record of an applied write is lost, it is
/// rolled back, nothing is ever committed for it, and the write has failed.
pub proof fn a_lost_record_means_no_commit(
    replies: Seq<WriteReply>,
    origin: ConnOrigin,
    entity: Seq<char>,
    outcome: WriteOutcome,
    i: int,
)
    requires
        write_in_turn(replies, origin, entity),
        replies.len() >= 2,
        replies[0] == WriteReply::Applied(Ok(outcome)),
        replies[1] == WriteReply::Recorded(false),
        0 <= i <= replies.len(),
    ensures
        write_course(replies, origin, entity).1[i] != WriteActionFacts::Commit,
        write_course(replies, origin, entity).1[2] == WriteActionFacts::RollBack,
        write_course(replies, origin, entity).1[i] matches WriteActionFacts::Leave(http) ==> http
            == WriteHttp::Failed,
        replies.len() >= 3 ==> write_course(replies, origin, entity).1[3]
            == WriteActionFacts::Leave(WriteHttp::Failed),
{
    lemma_write_course(replies, origin, entity);
}

/// Nothing is committed that was not recorded first.
pub proof fn commits_are_recorded_first(
    replies: Seq<WriteReply>,
    origin: ConnOrigin,
    entity: Seq<char>,
    i: int,
)
    requires
        write_in_turn(replies, origin, entity),
        0 <= i <= replies.len(),
        write_course(replies, origin, entity).1[i] == WriteActionFacts::Commit,
    ensures
        i == 2,
        replies[1] == WriteReply::Recorded(true),
        replies[0] matches WriteReply::Applied(Ok(outcome)) && write_course(
            replies,
            origin,
            entity,
        ).1[1] == success_record(origin, entity, outcome),
{
    lemma_write_course(replies, origin, entity);
}

/// A write that the store refuses is answered by what refused it, whether or not the
/// record of the refusal is written, and commits nothing.
pub proof fn refused_writes_commit_nothing(
    replies: Seq<WriteReply>,
    origin: ConnOrigin,
    entity: Seq<char>,
    error: WriteError,
    i: int,
)
    requires
        write_in_turn(replies, origin, entity),
        replies.len() >= 1,
        replies[0] == WriteReply::Applied(Err(error)),
        0 <= i <= replies.len(),
    ensures
        write_course(replies, origin, entity).1[i] != WriteActionFacts::Commit,
        write_course(replies, origin, entity).1[i] matches WriteActionFacts::Leave(http) ==> http
            == http_of(error),
{
    lemma_write_course(replies, origin, entity);
}

/// A write leaves one record and no more: of the success where the store applied it,
/// of the failure where it refused it, and none where there is no such write.
pub proof fn a_write_leaves_one_record(
    replies: Seq<WriteReply>,
    origin: ConnOrigin,
    entity: Seq<char>,
    i: int,
)
    requires
        write_in_turn(replies, origin, entity),
        replies.len() >= 1,
        0 <= i <= replies.len(),
    ensures
        write_course(replies, origin, entity).1[i] is Record ==> i == 1,
        write_course(replies, origin, entity).1[1] == match replies[0] {
            WriteReply::Applied(Ok(outcome)) => success_record(origin, entity, outcome),
            WriteReply::Applied(Err(WriteError::NotImplemented)) => WriteActionFacts::Leave(
                WriteHttp::NotImplemented,
            ),
            _ => failure_record(origin, entity),
        },
{
    lemma_write_course(replies, origin, entity);
}

/// What may be said of an escalation that times out: that it is refused.
pub fn validate_settings_on_timeout(on_timeout: &str) -> (result: Result<(), DaemonError>)
    ensures
        match result {
            Ok(_) => on_timeout@ == "deny"@,
            Err(e) => on_timeout@ != "deny"@ && e == DaemonError::Boot,
        },
{
    if same_text(on_timeout, "deny") {
        Ok(())
    } else {
        Err(DaemonError::Boot)
    }
}

/// What an imported policy may say of an escalation that times out: that it is
/// refused.
pub fn validate_import_on_timeout(on_timeout: &str) -> (result: Result<(), DaemonError>)
    ensures
        match result {
            Ok(_) => on_timeout@ == "deny"@,
            Err(e) => on_timeout@ != "deny"@ && e == DaemonError::Boot,
        },
{
    if same_text(on_timeout, "deny") {
        Ok(())
    } else {
        Err(DaemonError::Boot)
    }
}

/// A conflict of versions, a write that does not exist and a resource that does not exist
/// are told apart; every other failure is just a failure, and none looks like success.
pub proof fn failures_are_told_apart(err: WriteError)
    ensures
        http_of(err) == WriteHttp::Conflict <==> err == WriteError::VersionConflict,
        http_of(err) == WriteHttp::NotImplemented <==> err == WriteError::NotImplemented,
        http_of(err) == WriteHttp::NotFound <==> err == WriteError::ResourceNotFound,
        http_of(err) == WriteHttp::Failed <==> err == WriteError::Transaction || err
            == WriteError::SnapshotRebuild || err == WriteError::Audit,
        !(http_of(err) is Committed),
{
}

/// The record of a write says where it came from, what entity it was about and whether it
/// was allowed. It names no one, carries the new revision where the write succeeded, and
/// revision zero where it failed.
pub proof fn records_tell_what_was_written(
    origin: ConnOrigin,
    entity: Seq<char>,
    outcome: WriteOutcome,
)
    ensures
        success_record(origin, entity, outcome) matches WriteActionFacts::Record { event }
            && event.kind == "policy_change"@ && event.entry == "control"@ && event.v == 1
            && event.origin == origin && event.principal is None && event.resource == entity
            && event.capability is None && event.objects.len() == 0 && event.decision == "allow"@
            && event.stage is None && event.reason.len() == 0 && event.policy_rev
            == outcome.policy_rev,
        failure_record(origin, entity) matches WriteActionFacts::Record { event } && event.kind
            == "policy_change"@ && event.entry == "control"@ && event.v == 1 && event.origin
            == origin && event.principal is None && event.resource == entity && event.capability
            is None && event.objects.len() == 0 && event.decision == "deny"@ && event.stage is None
            && event.reason.len() == 0 && event.policy_rev == 0,
{
}

/// An applied write goes to its record, a recorded one to its commit, and a committed one
/// to the answer with its own outcome. One whose record is lost is rolled back and
/// answered as failed.
pub proof fn applied_write_goes_to_its_commit(
    outcome: WriteOutcome,
    origin: ConnOrigin,
    entity: Seq<char>,
)
    ensures
        write_advanced(WritePhase::Applying, WriteReply::Applied(Ok(outcome)), origin, entity)
            == (
            WritePhase::RecordingSuccess { outcome },
            success_record(origin, entity, outcome),
        ),
        write_advanced(
            WritePhase::RecordingSuccess { outcome },
            WriteReply::Recorded(true),
            origin,
            entity,
        ) == (WritePhase::Committing { outcome }, WriteActionFacts::Commit),
        write_advanced(
            WritePhase::RecordingSuccess { outcome },
            WriteReply::Recorded(false),
            origin,
            entity,
        ) == (WritePhase::RollingBack, WriteActionFacts::RollBack),
        write_advanced(
            WritePhase::Committing { outcome },
            WriteReply::Committed,
            origin,
            entity,
        ) == (WritePhase::Done, WriteActionFacts::Leave(WriteHttp::Committed(outcome))),
        write_advanced(WritePhase::RollingBack, WriteReply::RolledBack, origin, entity) == (
            WritePhase::Done,
            WriteActionFacts::Leave(WriteHttp::Failed),
        ),
{
}

/// A refused write goes to the record of its failure and then to the answer that tells
/// the failure, whether or not that record was written. One that does not exist is
/// answered at once.
pub proof fn refused_write_is_answered(
    error: WriteError,
    written: bool,
    origin: ConnOrigin,
    entity: Seq<char>,
)
    ensures
        error == WriteError::NotImplemented ==> write_advanced(
            WritePhase::Applying,
            WriteReply::Applied(Err(error)),
            origin,
            entity,
        ) == (WritePhase::Done, WriteActionFacts::Leave(WriteHttp::NotImplemented)),
        error != WriteError::NotImplemented ==> write_advanced(
            WritePhase::Applying,
            WriteReply::Applied(Err(error)),
            origin,
            entity,
        ) == (WritePhase::RecordingFailure { error }, failure_record(origin, entity)),
        error == WriteError::VersionConflict ==> write_advanced(
            WritePhase::RecordingFailure { error },
            WriteReply::Recorded(written),
            origin,
            entity,
        ) == (WritePhase::Done, WriteActionFacts::Leave(WriteHttp::Conflict)),
        error == WriteError::ResourceNotFound ==> write_advanced(
            WritePhase::RecordingFailure { error },
            WriteReply::Recorded(written),
            origin,
            entity,
        ) == (WritePhase::Done, WriteActionFacts::Leave(WriteHttp::NotFound)),
        error == WriteError::Transaction || error == WriteError::SnapshotRebuild || error
            == WriteError::Audit ==> write_advanced(
            WritePhase::RecordingFailure { error },
            WriteReply::Recorded(written),
            origin,
            entity,
        ) == (WritePhase::Done, WriteActionFacts::Leave(WriteHttp::Failed)),
{
}

/// Each step of a write takes the reply to its own action; a write that is done takes
/// none.
pub proof fn write_steps_take_their_own_replies(phase: WritePhase, reply: WriteReply)
    ensures
        reply is Applied ==> (reply_fits(phase, reply) <==> phase == WritePhase::Applying),
        reply is Recorded ==> (reply_fits(phase, reply) <==> phase is RecordingSuccess || phase
            is RecordingFailure),
        reply is Committed ==> (reply_fits(phase, reply) <==> phase is Committing),
        reply is RolledBack ==> (reply_fits(phase, reply) <==> phase == WritePhase::RollingBack),
{
}

/// An action for a write says what it is, and a record what its event says.
pub proof fn write_actions_say_what_they_are(event: AuditEvent, http: WriteHttp)
    ensures
        WriteAction::Apply@ == WriteActionFacts::Apply,
        (WriteAction::Record { event })@ == (WriteActionFacts::Record { event: event@ }),
        WriteAction::Commit@ == WriteActionFacts::Commit,
        WriteAction::RollBack@ == WriteActionFacts::RollBack,
        WriteAction::Leave(http)@ == WriteActionFacts::Leave(http),
{
}

} // verus!
