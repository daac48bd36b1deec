//! The handlers of the control plane's routes.
//!
//! A handler that writes turns its request into a [`WritePlan`] or refuses it; the
//! plan is carried out around it, and what came of it is turned into the answer. A
//! handler that reads turns what was read into the answer. An answer that is not an
//! error has status 200.

pub mod bindings;
pub mod misc;
pub mod mode_grants;
pub mod principals;
pub mod resources;
pub mod roles;

use super::dto::{error_is, HttpError, WriteAck};
use super::endpoints::{page_query, WriteHttp};
use super::{Actor, WriteIntent};
use crate::domain::{page_no_of, page_size_of, ConnOrigin, Page, PageQuery, PAGE_SIZE_DEFAULT};
use crate::error::{DaemonError, NOT_IMPLEMENTED_CODE};
use crate::text::decimal;
use vstd::prelude::*;

verus! {

/// The page that a request asks for, as far as it does.
#[derive(Clone, Copy, Debug, PartialEq, Eq, Structural)]
pub struct PageParams {
    pub page_no: Option<u32>,
    pub page_size: Option<u32>,
}

impl Default for PageParams {
    fn default() -> (params: Self)
        ensures
            params.page_no is None,
            params.page_size is None,
    {
        PageParams { page_no: None, page_size: None }
    }
}

impl PageParams {
    /// The page that is asked for, within the limits.
    pub fn to_query(self) -> (query: PageQuery)
        ensures
            query.page_no == page_no_of(match self.page_no {
                Some(n) => n,
                None => 1,
            }),
            query.page_size == page_size_of(match self.page_size {
                Some(n) => n,
                None => PAGE_SIZE_DEFAULT,
            }),
    {
        page_query(self.page_no, self.page_size)
    }
}

/// A write to be carried out: from where, by whom, and what.
#[derive(Debug)]
pub struct WritePlan {
    pub origin: ConnOrigin,
    pub actor: Actor,
    pub intent: WriteIntent,
}

/// The message of a capability that the control plane does not have yet.
pub const NOT_ENABLED_MESSAGE: &'static str = "control capability is not enabled yet";

/// The answer for a capability that the control plane does not have yet.
pub fn not_implemented_response() -> (error: HttpError)
    ensures
        error_is(error, 501, NOT_IMPLEMENTED_CODE@, NOT_ENABLED_MESSAGE@),
{
    HttpError::new(501, NOT_IMPLEMENTED_CODE, NOT_ENABLED_MESSAGE)
}

/// Whether an answer tells what a write came to, with the messages for a conflict and
/// for a failure.
pub open spec fn answers_write(
    answer: Result<WriteAck, HttpError>,
    http: WriteHttp,
    conflict: Seq<char>,
    failed: Seq<char>,
) -> bool {
    match http {
        WriteHttp::Committed(outcome) => answer matches Ok(ack) && ack.policy_rev@ == decimal(
            outcome.policy_rev as nat,
        ),
        WriteHttp::Conflict => answer matches Err(e) && error_is(
            e,
            409,
            "version_conflict"@,
            conflict,
        ),
        WriteHttp::NotImplemented => answer matches Err(e) && error_is(
            e,
            501,
            NOT_IMPLEMENTED_CODE@,
            NOT_ENABLED_MESSAGE@,
        ),
        WriteHttp::NotFound => answer matches Err(e) && error_is(
            e,
            404,
            "not_found"@,
            "referenced resource not found"@,
        ),
        WriteHttp::Failed => answer matches Err(e) && error_is(e, 500, "write_failed"@, failed),
    }
}

/// Tells what a write came to.
pub(crate) fn answer_write(http: WriteHttp, conflict: &str, failed: &str) -> (answer: Result<
    WriteAck,
    HttpError,
>)
    ensures
        answers_write(answer, http, conflict@, failed@),
{
    match http {
        WriteHttp::Committed(outcome) => Ok(WriteAck::from_outcome(&outcome)),
        WriteHttp::Conflict => Err(HttpError::new(409, "version_conflict", conflict)),
        WriteHttp::NotImplemented => Err(not_implemented_response()),
        WriteHttp::NotFound => Err(
            HttpError::new(404, "not_found", "referenced resource not found"),
        ),
        WriteHttp::Failed => Err(HttpError::new(500, "write_failed", failed)),
    }
}

/// Whether an answer tells that a collection could not be read. Where `tells` holds, a
/// capability that is missing is told apart.
pub open spec fn answers_failed_read(
    error: HttpError,
    err: DaemonError,
    tells: bool,
    code: Seq<char>,
    message: Seq<char>,
) -> bool {
    if tells && err == DaemonError::NotImplemented {
        error_is(error, 501, NOT_IMPLEMENTED_CODE@, NOT_ENABLED_MESSAGE@)
    } else {
        error_is(error, 500, code, message)
    }
}

pub(crate) fn failed_read(err: DaemonError, tells: bool, code: &str, message: &str) -> (error:
    HttpError)
    ensures
        answers_failed_read(error, err, tells, code@, message@),
{
    if tells && err == DaemonError::NotImplemented {
        not_implemented_response()
    } else {
        HttpError::new(500, code, message)
    }
}

/// Whether an answer is the page that was read, or tells that it could not be.
pub open spec fn answers_read<T>(
    answer: Result<Page<T>, HttpError>,
    read: Result<Page<T>, DaemonError>,
    tells: bool,
    code: Seq<char>,
    message: Seq<char>,
) -> bool {
    match read {
        Ok(page) => answer == Ok::<_, HttpError>(page),
        Err(err) => answer matches Err(e) && answers_failed_read(e, err, tells, code, message),
    }
}

/// Answers with the page that was read, or tells that it could not be.
pub(crate) fn answer_read<T>(
    read: Result<Page<T>, DaemonError>,
    tells: bool,
    code: &str,
    message: &str,
) -> (answer: Result<Page<T>, HttpError>)
    ensures
        answers_read(answer, read, tells, code@, message@),
{
    match read {
        Ok(page) => Ok(page),
        Err(err) => Err(failed_read(err, tells, code, message)),
    }
}

/// The operator that a write is charged to where none is known.
pub const CONTROL_OPERATOR: &'static str = "control";

/// Whether an actor is the one that a write is charged to: the injected one, or the
/// control plane itself.
pub open spec fn charged_to(actor: Actor, injected: Option<Actor>) -> bool {
    match injected {
        Some(a) => actor == a,
        None => actor matches Actor::Operator(id) && id@ == CONTROL_OPERATOR@,
    }
}

/// The actor that a write is charged to.
pub fn resolve_actor(injected: Option<Actor>) -> (actor: Actor)
    ensures
        charged_to(actor, injected),
{
    match injected {
        Some(actor) => actor,
        None => Actor::Operator(CONTROL_OPERATOR.to_owned()),
    }
}

/// The origin of a write: the injected one, or else the local one, if it is known.
pub open spec fn origin_of_write(injected: Option<ConnOrigin>, local: Option<ConnOrigin>) -> Option<
    ConnOrigin,
> {
    match injected {
        Some(origin) => Some(origin),
        None => local,
    }
}

/// The origin of a write. Without one the write is not carried out.
pub fn resolve_origin(injected: Option<ConnOrigin>, local: Option<ConnOrigin>, failed: &str) -> (
result: Result<ConnOrigin, HttpError>)
    ensures
        match result {
            Ok(origin) => origin_of_write(injected, local) == Some(origin),
            Err(e) => origin_of_write(injected, local) is None && error_is(
                e,
                500,
                "write_failed"@,
                failed@,
            ),
        },
{
    match injected {
        Some(origin) => Ok(origin),
        None => match local {
            Some(origin) => Ok(origin),
            None => Err(HttpError::new(500, "write_failed", failed)),
        },
    }
}

/// A committed write is answered with its own revision in decimal; a conflict by 409, a
/// write that does not exist by 501, a resource that does not exist by 404 and any other
/// failure by 500, each with its own code.
pub proof fn writes_are_answered_by_what_they_came_to(
    answer: Result<WriteAck, HttpError>,
    http: WriteHttp,
    conflict: Seq<char>,
    failed: Seq<char>,
)
    requires
        answers_write(answer, http, conflict, failed),
    ensures
        answer is Ok <==> http is Committed,
        http matches WriteHttp::Committed(outcome) ==> answer->Ok_0.policy_rev@ == decimal(
            outcome.policy_rev as nat,
        ),
        http == WriteHttp::Conflict ==> answer->Err_0.status == 409
            && answer->Err_0.body.error.code@ == "version_conflict"@
            && answer->Err_0.body.error.message@ == conflict,
        http == WriteHttp::NotImplemented ==> answer->Err_0.status == 501
            && answer->Err_0.body.error.code@ == "not_implemented"@
            && answer->Err_0.body.error.message@ == "control capability is not enabled yet"@,
        http == WriteHttp::NotFound ==> answer->Err_0.status == 404
            && answer->Err_0.body.error.code@ == "not_found"@ && answer->Err_0.body.error.message@
            == "referenced resource not found"@,
        http == WriteHttp::Failed ==> answer->Err_0.status == 500 && answer->Err_0.body.error.code@
            == "write_failed"@ && answer->Err_0.body.error.message@ == failed,
{
}

/// What was read is answered as it was read. What could not be is answered by 500 with
/// the code and the message of the collection, and only a missing capability, where it is
/// told apart, by 501.
pub proof fn reads_are_answered_as_they_came<T>(
    answer: Result<Page<T>, HttpError>,
    read: Result<Page<T>, DaemonError>,
    tells: bool,
    code: Seq<char>,
    message: Seq<char>,
)
    requires
        answers_read(answer, read, tells, code, message),
    ensures
        answer is Ok <==> read is Ok,
        read is Ok ==> answer->Ok_0 == read->Ok_0,
        read is Err && (!tells || read->Err_0 != DaemonError::NotImplemented)
            ==> answer->Err_0.status == 500 && answer->Err_0.body.error.code@ == code
            && answer->Err_0.body.error.message@ == message,
        read is Err && tells && read->Err_0 == DaemonError::NotImplemented
            ==> answer->Err_0.status == 501 && answer->Err_0.body.error.code@ == "not_implemented"@
            && answer->Err_0.body.error.message@ == "control capability is not enabled yet"@,
{
}

/// A collection that could not be read is told in the same way where it stands without a
/// page.
pub proof fn failed_reads_are_told(
    error: HttpError,
    err: DaemonError,
    tells: bool,
    code: Seq<char>,
    message: Seq<char>,
)
    requires
        answers_failed_read(error, err, tells, code, message),
    ensures
        !tells || err != DaemonError::NotImplemented ==> error.status == 500
            && error.body.error.code@ == code && error.body.error.message@ == message,
        tells && err == DaemonError::NotImplemented ==> error.status == 501
            && error.body.error.code@ == "not_implemented"@ && error.body.error.message@
            == "control capability is not enabled yet"@,
{
}

/// A write is charged to the actor that was injected, and to the control plane where none
/// was; it comes from the origin that was injected, and from the local one where none was.
pub proof fn writes_are_charged_to_the_injected_actor(
    actor: Actor,
    injected: Actor,
    origin: ConnOrigin,
    local: Option<ConnOrigin>,
)
    ensures
        charged_to(actor, Some(injected)) <==> actor == injected,
        charged_to(actor, None) <==> (actor matches Actor::Operator(id) && id@ == "control"@),
        origin_of_write(Some(origin), local) == Some(origin),
        origin_of_write(None, local) == local,
{
}

} // verus!
