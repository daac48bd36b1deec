//! Modes, and grants for a time.

use super::{answer_write, answers_failed_read, answers_write, failed_read, WritePlan};
use crate::control::dto::{error_is, id_to_string, HttpError, WriteAck};
use crate::control::endpoints::WriteHttp;
use crate::control::fields::{text_field, text_or_null, Field};
use crate::control::{Actor, WriteIntent};
use crate::domain::{ConnOrigin, Mode};
use crate::error::DaemonError;
use crate::text::{decimal, decimal_of, same_text};
use vstd::prelude::*;

verus! {

/// A request to read the modes or to set one.
#[derive(Debug)]
pub struct ModeRequest {
    pub op: String,
    pub scope: Option<String>,
    pub mode: Option<String>,
    pub ttl_ms: Option<i64>,
    pub version: Option<i64>,
}

/// A request to give a grant for a time.
#[derive(Debug)]
pub struct ElevateRequest {
    pub principal: String,
    pub resource: String,
    pub capability: String,
    pub ttl_ms: i64,
}

/// A request to take a grant back.
#[derive(Debug)]
pub struct RevokeRequest {
    pub id: String,
    pub version: i64,
}

/// What a request about modes asks for.
#[derive(Debug)]
pub enum ModePlan {
    Read,
    Write(WritePlan),
}

/// A number that may be missing, as a field.
pub open spec fn int_or_null(n: Option<i64>) -> Field {
    match n {
        Some(v) => Field::Int(v),
        None => Field::Null,
    }
}

fn int_field(n: Option<i64>) -> (field: Field)
    ensures
        field == int_or_null(n),
{
    match n {
        Some(v) => Field::Int(v),
        None => Field::Null,
    }
}

/// Whether a request to set a mode is complete.
pub open spec fn is_complete(body: ModeRequest) -> bool {
    body.mode is Some && body.version is Some
}

/// Whether a request gives a time to live of which the end is not known.
pub open spec fn lacks_end(body: ModeRequest, expires_at: Option<String>) -> bool {
    body.ttl_ms is Some && expires_at is None
}

/// Whether a plan is to set the mode that a request asks for.
pub open spec fn sets_mode(
    plan: WritePlan,
    origin: ConnOrigin,
    actor: Actor,
    body: ModeRequest,
    expires_at: Option<String>,
) -> bool {
    &&& plan.origin == origin
    &&& plan.actor == actor
    &&& plan.intent.entity@ == "mode"@
    &&& plan.intent.fields@ == seq![
        ("scope", text_or_null(body.scope)),
        ("mode", Field::Text(body.mode->0)),
        ("ttl_ms", int_or_null(body.ttl_ms)),
        (
            "expires_at",
            if body.ttl_ms is Some {
                text_or_null(expires_at)
            } else {
                Field::Null
            },
        ),
    ]
    &&& plan.intent.expected_version == body.version
}

/// Plans what a request about modes asks for. `expires_at` is the instant at which
/// the time to live of the request is over, in the store's form; where there is a
/// time to live and no such instant, the write lacks its context.
pub fn mode(
    origin: Option<ConnOrigin>,
    actor: Option<Actor>,
    body: ModeRequest,
    expires_at: Option<String>,
) -> (plan: Result<ModePlan, HttpError>)
    ensures
        if body.op@ == "read"@ {
            plan == Ok::<_, HttpError>(ModePlan::Read)
        } else if body.op@ == "set"@ {
            if !is_complete(body) {
                plan matches Err(e) && error_is(
                    e,
                    400,
                    "bad_request"@,
                    "mode set requires mode and version"@,
                )
            } else if origin is None || actor is None || lacks_end(body, expires_at) {
                plan matches Err(e) && error_is(
                    e,
                    500,
                    "write_failed"@,
                    "control write context missing"@,
                )
            } else {
                plan matches Ok(ModePlan::Write(p)) && sets_mode(
                    p,
                    origin->0,
                    actor->0,
                    body,
                    expires_at,
                )
            }
        } else {
            plan matches Err(e) && error_is(e, 400, "bad_request"@, "unknown mode op"@)
        },
{
    if same_text(body.op.as_str(), "read") {
        return Ok(ModePlan::Read);
    }
    if !same_text(body.op.as_str(), "set") {
        return Err(HttpError::new(400, "bad_request", "unknown mode op"));
    }
    match mode_set(origin, actor, body, expires_at) {
        Ok(plan) => Ok(ModePlan::Write(plan)),
        Err(e) => Err(e),
    }
}

/// A mode with a time to live is set with its end.
pub proof fn modes_with_a_lifetime_end(
    plan: WritePlan,
    origin: ConnOrigin,
    actor: Actor,
    body: ModeRequest,
    expires_at: Option<String>,
)
    requires
        sets_mode(plan, origin, actor, body, expires_at),
        !lacks_end(body, expires_at),
    ensures
        plan.intent.fields@[3].0@ == "expires_at"@,
        body.ttl_ms is Some <==> plan.intent.fields@[3].1 is Text,
{
}

fn mode_set(
    origin: Option<ConnOrigin>,
    actor: Option<Actor>,
    body: ModeRequest,
    expires_at: Option<String>,
) -> (plan: Result<WritePlan, HttpError>)
    ensures
        if !is_complete(body) {
            plan matches Err(e) && error_is(
                e,
                400,
                "bad_request"@,
                "mode set requires mode and version"@,
            )
        } else if origin is None || actor is None || lacks_end(body, expires_at) {
            plan matches Err(e) && error_is(
                e,
                500,
                "write_failed"@,
                "control write context missing"@,
            )
        } else {
            plan matches Ok(p) && sets_mode(p, origin->0, actor->0, body, expires_at)
        },
{
    let (mode, version) = match (body.mode, body.version) {
        (Some(mode), Some(version)) => (mode, version),
        _ => {
            return Err(HttpError::new(400, "bad_request", "mode set requires mode and version"));
        },
    };
    let (origin, actor) = match (origin, actor) {
        (Some(origin), Some(actor)) => (origin, actor),
        _ => {
            return Err(HttpError::new(500, "write_failed", "control write context missing"));
        },
    };
    let end = match (body.ttl_ms, expires_at) {
        (None, _) => Field::Null,
        (Some(_), Some(end)) => Field::Text(end),
        (Some(_), None) => {
            return Err(HttpError::new(500, "write_failed", "control write context missing"));
        },
    };
    let intent = WriteIntent {
        entity: "mode",
        fields: vec![
            ("scope", text_field(body.scope)),
            ("mode", Field::Text(mode)),
            ("ttl_ms", int_field(body.ttl_ms)),
            ("expires_at", end),
        ],
        expected_version: Some(version),
    };
    Ok(WritePlan { origin, actor, intent })
}

/// A row of the modes, as it was read: each value, if there is one.
#[derive(Debug)]
pub struct ModeFields {
    pub scope: Option<Field>,
    pub mode: Option<Field>,
    pub expires_at: Option<Field>,
    pub version: Option<Field>,
    pub updated_at: Option<Field>,
    pub updated_by: Option<Field>,
}

/// A mode as clients see it, with the one that takes effect.
#[derive(Debug)]
pub struct ModeView {
    pub scope: Field,
    pub mode: String,
    pub effective_mode: &'static str,
    pub expires_at: Field,
    pub version: i64,
    pub updated_at: Field,
    pub updated_by: Field,
    pub policy_rev: String,
}

/// The mode that a word names.
pub open spec fn mode_named(word: Seq<char>) -> Option<Mode> {
    if word == "normal"@ {
        Some(Mode::Normal)
    } else if word == "observe"@ {
        Some(Mode::Observe)
    } else if word == "maintain"@ {
        Some(Mode::Maintain)
    } else if word == "freeze"@ {
        Some(Mode::Freeze)
    } else {
        None
    }
}

/// The word for a mode.
pub open spec fn mode_word(mode: Mode) -> Seq<char> {
    match mode {
        Mode::Normal => "normal"@,
        Mode::Observe => "observe"@,
        Mode::Maintain => "maintain"@,
        Mode::Freeze => "freeze"@,
    }
}

/// Reads a mode.
pub fn parse_mode(word: &str) -> (mode: Option<Mode>)
    ensures
        mode == mode_named(word@),
{
    if same_text(word, "normal") {
        Some(Mode::Normal)
    } else if same_text(word, "observe") {
        Some(Mode::Observe)
    } else if same_text(word, "maintain") {
        Some(Mode::Maintain)
    } else if same_text(word, "freeze") {
        Some(Mode::Freeze)
    } else {
        None
    }
}

/// Writes a mode.
pub fn mode_to_str(mode: Mode) -> (word: &'static str)
    ensures
        word@ == mode_word(mode),
{
    match mode {
        Mode::Normal => "normal",
        Mode::Observe => "observe",
        Mode::Maintain => "maintain",
        Mode::Freeze => "freeze",
    }
}

/// Every mode is read back from its word.
pub proof fn mode_words_read_back(mode: Mode)
    ensures
        mode_named(mode_word(mode)) == Some(mode),
{
    reveal_strlit("normal");
    reveal_strlit("observe");
    reveal_strlit("maintain");
    reveal_strlit("freeze");
    assert("normal"@[0] == 'n');
    assert("observe"@[0] == 'o');
    assert("maintain"@[0] == 'm');
    assert("freeze"@[0] == 'f');
}

/// The word in a row's mode, which is `normal` where there is none.
pub open spec fn row_word(row: ModeFields) -> Seq<char> {
    match row.mode {
        Some(Field::Text(word)) => word@,
        _ => "normal"@,
    }
}

/// The mode of a row.
pub open spec fn row_mode(row: ModeFields) -> Mode {
    match mode_named(row_word(row)) {
        Some(mode) => mode,
        None => Mode::Normal,
    }
}

/// Whether a row is about all resources.
pub open spec fn is_global(row: ModeFields) -> bool {
    row.scope == Some(Field::Null)
}

/// The mode of all resources: that of the first row about all of them, normal where
/// there is none or it names no mode.
pub open spec fn global_mode(rows: Seq<ModeFields>) -> Mode
    decreases rows.len(),
{
    if rows.len() == 0 {
        Mode::Normal
    } else if is_global(rows[0]) {
        match rows[0].mode {
            Some(Field::Text(word)) => match mode_named(word@) {
                Some(mode) => mode,
                None => Mode::Normal,
            },
            _ => Mode::Normal,
        }
    } else {
        global_mode(rows.skip(1))
    }
}

/// A value that may be missing; null where it is.
pub open spec fn or_null(field: Option<Field>) -> Field {
    match field {
        Some(f) => f,
        None => Field::Null,
    }
}

fn value_or_null(field: &Option<Field>) -> (value: Field)
    ensures
        value == or_null(*field),
{
    match field {
        Some(f) => f.clone(),
        None => Field::Null,
    }
}

/// A number that may be missing; zero where it is.
pub open spec fn or_zero(field: Option<Field>) -> i64 {
    match field {
        Some(Field::Int(n)) => n,
        _ => 0,
    }
}

fn number_or_zero(field: &Option<Field>) -> (n: i64)
    ensures
        n == or_zero(*field),
{
    match field {
        Some(Field::Int(n)) => *n,
        _ => 0,
    }
}

/// Whether a row is shown so, with a mode that takes effect.
pub open spec fn shows_mode(row: ModeFields, effective: Mode, rev: Seq<char>, view: ModeView) -> bool {
    &&& view.scope == or_null(row.scope)
    &&& view.mode@ == row_word(row)
    &&& view.effective_mode@ == mode_word(effective)
    &&& view.expires_at == or_null(row.expires_at)
    &&& view.version == or_zero(row.version)
    &&& view.updated_at == or_null(row.updated_at)
    &&& view.updated_by == or_null(row.updated_by)
    &&& view.policy_rev@ == rev
}

fn find_global_mode(rows: &Vec<ModeFields>) -> (mode: Mode)
    ensures
        mode == global_mode(rows@),
{
    let mut i: usize = 0;
    assert(rows@.skip(0) =~= rows@);
    while i < rows.len()
        invariant
            i <= rows@.len(),
            global_mode(rows@) == global_mode(rows@.skip(i as int)),
        decreases rows@.len() - i,
    {
        assert(rows@.skip(i as int).skip(1) =~= rows@.skip(i + 1));
        if matches!(rows[i].scope, Some(Field::Null)) {
            return match &rows[i].mode {
                Some(Field::Text(word)) => match parse_mode(word.as_str()) {
                    Some(mode) => mode,
                    None => Mode::Normal,
                },
                _ => Mode::Normal,
            };
        }
        i = i + 1;
    }
    Mode::Normal
}

/// Shows the modes, each with the one that takes effect: of a row about all
/// resources its own, of any other the meet of the global one and its own. `meet` is
/// the policy's meet of two modes.
pub fn project_mode_rows<F: Fn(Mode, Mode) -> Mode>(
    rows: &Vec<ModeFields>,
    policy_rev: &str,
    meet: F,
) -> (views: Vec<ModeView>)
    requires
        forall|a: Mode, b: Mode| #[trigger] call_requires(meet, (a, b)),
    ensures
        views@.len() == rows@.len(),
        forall|i: int|
            #![trigger rows@[i]]
            0 <= i < rows@.len() ==> if is_global(rows@[i]) {
                shows_mode(rows@[i], row_mode(rows@[i]), policy_rev@, views@[i])
            } else {
                exists|m: Mode|
                    call_ensures(meet, (global_mode(rows@), row_mode(rows@[i])), m)
                        && #[trigger] shows_mode(rows@[i], m, policy_rev@, views@[i])
            },
{
    let global: Mode = find_global_mode(rows);
    let mut views: Vec<ModeView> = Vec::new();
    let mut i: usize = 0;
    while i < rows.len()
        invariant
            i <= rows@.len(),
            global == global_mode(rows@),
            forall|a: Mode, b: Mode| #[trigger] call_requires(meet, (a, b)),
            views@.len() == i,
            forall|j: int|
                #![trigger rows@[j]]
                0 <= j < i ==> if is_global(rows@[j]) {
                    shows_mode(rows@[j], row_mode(rows@[j]), policy_rev@, views@[j])
                } else {
                    exists|m: Mode|
                        call_ensures(meet, (global_mode(rows@), row_mode(rows@[j])), m)
                            && #[trigger] shows_mode(rows@[j], m, policy_rev@, views@[j])
                },
        decreases rows@.len() - i,
    {
        let row = &rows[i];
        let word: String = match &row.mode {
            Some(Field::Text(word)) => word.clone(),
            _ => "normal".to_owned(),
        };
        let own: Mode = match parse_mode(word.as_str()) {
            Some(mode) => mode,
            None => Mode::Normal,
        };
        let effective: Mode = if matches!(row.scope, Some(Field::Null)) {
            own
        } else {
            meet(global, own)
        };
        let view = ModeView {
            scope: value_or_null(&row.scope),
            mode: word,
            effective_mode: mode_to_str(effective),
            expires_at: value_or_null(&row.expires_at),
            version: number_or_zero(&row.version),
            updated_at: value_or_null(&row.updated_at),
            updated_by: value_or_null(&row.updated_by),
            policy_rev: policy_rev.to_owned(),
        };
        assert(shows_mode(rows@[i as int], effective, policy_rev@, view));
        let ghost before = views@;
        views.push(view);
        proof {
            assert forall|j: int| #![trigger rows@[j]] 0 <= j < i + 1 implies if is_global(
                rows@[j],
            ) {
                shows_mode(rows@[j], row_mode(rows@[j]), policy_rev@, views@[j])
            } else {
                exists|m: Mode|
                    call_ensures(meet, (global_mode(rows@), row_mode(rows@[j])), m)
                        && #[trigger] shows_mode(rows@[j], m, policy_rev@, views@[j])
            } by {
                if j < i {
                    assert(views@[j] == before[j]);
                } else if !is_global(rows@[j]) {
                    assert(call_ensures(meet, (global, own), effective));
                    assert(shows_mode(rows@[j], effective, policy_rev@, views@[j]));
                }
            }
        }
        i = i + 1;
    }
    views
}

/// The answer to a mode that was set: the modes, and the new revision.
#[derive(Debug)]
pub struct ModeSetAck {
    pub rows: Vec<ModeView>,
    pub policy_rev: String,
}

/// Tells what setting a mode came to. `rows` are the modes shown after it, if they
/// could be read; that they could not does not undo the write.
pub fn mode_set_response(http: WriteHttp, rows: Option<Vec<ModeView>>) -> (answer: Result<
    ModeSetAck,
    HttpError,
>)
    ensures
        match http {
            WriteHttp::Committed(outcome) => answer matches Ok(ack) && {
                &&& ack.policy_rev@ == decimal(outcome.policy_rev as nat)
                &&& match rows {
                    Some(views) => ack.rows == views,
                    None => ack.rows@.len() == 0,
                }
            },
            _ => answer matches Err(e) && answers_write(
                Err::<WriteAck, HttpError>(e),
                http,
                "version conflict"@,
                "policy write failed"@,
            ),
        },
{
    match commit_response(http) {
        Ok(ack) => Ok(
            ModeSetAck {
                rows: match rows {
                    Some(views) => views,
                    None => Vec::new(),
                },
                policy_rev: ack.policy_rev,
            },
        ),
        Err(e) => Err(e),
    }
}

/// The revision that the modes are shown with: the current one, zero where it could
/// not be read.
pub fn current_rev(read: Result<u64, DaemonError>) -> (rev: String)
    ensures
        rev@ == match read {
            Ok(n) => decimal(n as nat),
            Err(_) => "0"@,
        },
{
    match read {
        Ok(n) => decimal_of(n),
        Err(_) => "0".to_owned(),
    }
}

/// Tells that modes or grants could not be read.
pub fn list_error(err: DaemonError) -> (error: HttpError)
    ensures
        answers_failed_read(error, err, true, "read_failed"@, "policy read failed"@),
{
    failed_read(err, true, "read_failed", "policy read failed")
}

fn with_context(
    origin: Option<ConnOrigin>,
    actor: Option<Actor>,
    intent: WriteIntent,
) -> (plan: Result<WritePlan, HttpError>)
    ensures
        match plan {
            Ok(p) => origin == Some(p.origin) && actor == Some(p.actor) && p.intent == intent,
            Err(e) => (origin is None || actor is None) && error_is(
                e,
                500,
                "write_failed"@,
                "control write context missing"@,
            ),
        },
{
    match (origin, actor) {
        (Some(origin), Some(actor)) => Ok(WritePlan { origin, actor, intent }),
        _ => Err(HttpError::new(500, "write_failed", "control write context missing")),
    }
}

/// Plans to give a grant for a time. A grant without an end is not given.
pub fn elevate_grant(
    origin: Option<ConnOrigin>,
    actor: Option<Actor>,
    body: ElevateRequest,
) -> (plan: Result<WritePlan, HttpError>)
    ensures
        if body.ttl_ms <= 0 {
            plan matches Err(e) && error_is(
                e,
                400,
                "bad_request"@,
                "elevate requires positive ttl_ms"@,
            )
        } else {
            match plan {
                Ok(p) => {
                    &&& origin == Some(p.origin)
                    &&& actor == Some(p.actor)
                    &&& p.intent.entity@ == "grants"@
                    &&& p.intent.fields@.len() == 5
                    &&& p.intent.fields@[0].0@ == "op"@
                    &&& p.intent.fields@[0].1 matches Field::Text(op) && op@ == "elevate"@
                    &&& p.intent.fields@.skip(1) == seq![
                        ("principal", Field::Text(body.principal)),
                        ("resource", Field::Text(body.resource)),
                        ("capability", Field::Text(body.capability)),
                        ("ttl_ms", Field::Int(body.ttl_ms)),
                    ]
                    &&& p.intent.expected_version is None
                },
                Err(e) => (origin is None || actor is None) && error_is(
                    e,
                    500,
                    "write_failed"@,
                    "control write context missing"@,
                ),
            }
        },
{
    if body.ttl_ms <= 0 {
        return Err(HttpError::new(400, "bad_request", "elevate requires positive ttl_ms"));
    }
    let intent = WriteIntent {
        entity: "grants",
        fields: vec![
            ("op", Field::Text("elevate".to_owned())),
            ("principal", Field::Text(body.principal)),
            ("resource", Field::Text(body.resource)),
            ("capability", Field::Text(body.capability)),
            ("ttl_ms", Field::Int(body.ttl_ms)),
        ],
        expected_version: None,
    };
    with_context(origin, actor, intent)
}

/// Plans to take a grant back.
pub fn revoke_grant(
    origin: Option<ConnOrigin>,
    actor: Option<Actor>,
    body: RevokeRequest,
) -> (plan: Result<WritePlan, HttpError>)
    ensures
        match plan {
            Ok(p) => {
                &&& origin == Some(p.origin)
                &&& actor == Some(p.actor)
                &&& p.intent.entity@ == "grants"@
                &&& p.intent.fields@.len() == 2
                &&& p.intent.fields@[0].0@ == "op"@
                &&& p.intent.fields@[0].1 matches Field::Text(op) && op@ == "revoke"@
                &&& p.intent.fields@.skip(1) == seq![("id", Field::Text(body.id))]
                &&& p.intent.expected_version == Some(body.version)
            },
            Err(e) => (origin is None || actor is None) && error_is(
                e,
                500,
                "write_failed"@,
                "control write context missing"@,
            ),
        },
{
    let intent = WriteIntent {
        entity: "grants",
        fields: vec![
            ("op", Field::Text("revoke".to_owned())),
            ("id", Field::Text(body.id)),
        ],
        expected_version: Some(body.version),
    };
    with_context(origin, actor, intent)
}

/// Tells what a write of a mode or a grant came to.
pub fn commit_response(http: WriteHttp) -> (answer: Result<WriteAck, HttpError>)
    ensures
        answers_write(answer, http, "version conflict"@, "policy write failed"@),
{
    answer_write(http, "version conflict", "policy write failed")
}

/// A row of the grants for a time, as it was read: each value, if there is one.
#[derive(Debug)]
pub struct GrantFields {
    pub id: Option<Field>,
    pub resource: Option<Field>,
    pub capability: Option<Field>,
    pub granted_at: Option<Field>,
    pub expires_at: Option<Field>,
    pub ended_at: Option<Field>,
    pub end_reason: Option<Field>,
    pub version: Option<Field>,
}

/// A grant for a time as clients see it.
#[derive(Debug)]
pub struct GrantView {
    pub id: String,
    pub resource: Field,
    pub capability: Field,
    pub granted_at: Field,
    pub expires_at: Field,
    pub ended_at: Field,
    pub end_reason: Field,
    pub version: i64,
}

/// An id as text, whether it was read as a number or as text; empty where there is
/// none.
pub open spec fn id_shown(id: Option<Field>) -> Seq<char> {
    match id {
        Some(Field::Int(n)) => decimal((n as u64) as nat),
        Some(Field::Text(s)) => s@,
        _ => Seq::empty(),
    }
}

/// Whether a row is shown so.
pub open spec fn shows_grant(row: GrantFields, view: GrantView) -> bool {
    &&& view.id@ == id_shown(row.id)
    &&& view.resource == or_null(row.resource)
    &&& view.capability == or_null(row.capability)
    &&& view.granted_at == or_null(row.granted_at)
    &&& view.expires_at == or_null(row.expires_at)
    &&& view.ended_at == or_null(row.ended_at)
    &&& view.end_reason == or_null(row.end_reason)
    &&& view.version == or_zero(row.version)
}

/// Shows the grants for a time.
pub fn project_temp_grants(rows: &Vec<GrantFields>) -> (views: Vec<GrantView>)
    ensures
        views@.len() == rows@.len(),
        forall|i: int| 0 <= i < rows@.len() ==> shows_grant(#[trigger] rows@[i], views@[i]),
{
    let mut views: Vec<GrantView> = Vec::new();
    let mut i: usize = 0;
    while i < rows.len()
        invariant
            i <= rows@.len(),
            views@.len() == i,
            forall|j: int| 0 <= j < i ==> shows_grant(#[trigger] rows@[j], views@[j]),
        decreases rows@.len() - i,
    {
        let row = &rows[i];
        let id: String = match &row.id {
            Some(Field::Int(n)) => id_to_string(*n as u64),
            Some(Field::Text(s)) => s.clone(),
            _ => String::new(),
        };
        views.push(
            GrantView {
                id,
                resource: value_or_null(&row.resource),
                capability: value_or_null(&row.capability),
                granted_at: value_or_null(&row.granted_at),
                expires_at: value_or_null(&row.expires_at),
                ended_at: value_or_null(&row.ended_at),
                end_reason: value_or_null(&row.end_reason),
                version: number_or_zero(&row.version),
            },
        );
        i = i + 1;
    }
    views
}

/// What the grants view shows: the grants of the caller, which this view does not
/// list, and the grants for a time.
#[derive(Debug)]
pub struct GrantsView {
    pub your_grants: Vec<(String, Vec<String>)>,
    pub temp_grants: Vec<GrantView>,
}

/// Answers with the grants for a time.
pub fn grants_view(read: Result<Vec<GrantFields>, DaemonError>) -> (answer: Result<
    GrantsView,
    HttpError,
>)
    ensures
        match read {
            Ok(rows) => answer matches Ok(view) && {
                &&& view.your_grants@.len() == 0
                &&& view.temp_grants@.len() == rows@.len()
                &&& forall|i: int|
                    0 <= i < rows@.len() ==> shows_grant(
                        #[trigger] rows@[i],
                        view.temp_grants@[i],
                    )
            },
            Err(err) => answer matches Err(e) && answers_failed_read(
                e,
                err,
                true,
                "read_failed"@,
                "policy read failed"@,
            ),
        },
{
    match read {
        Ok(rows) => Ok(
            GrantsView { your_grants: Vec::new(), temp_grants: project_temp_grants(&rows) },
        ),
        Err(err) => Err(list_error(err)),
    }
}

/// A mode is set with the scope, the mode and the time to live of the request, at the
/// version that the request names; a request without a mode or without a version is not
/// complete.
pub proof fn modes_are_set_as_requested(
    plan: WritePlan,
    origin: ConnOrigin,
    actor: Actor,
    body: ModeRequest,
    expires_at: Option<String>,
)
    ensures
        is_complete(body) <==> body.mode is Some && body.version is Some,
        lacks_end(body, expires_at) <==> body.ttl_ms is Some && expires_at is None,
        sets_mode(plan, origin, actor, body, expires_at) ==> {
            &&& plan.origin == origin
            &&& plan.actor == actor
            &&& plan.intent.entity@ == "mode"@
            &&& plan.intent.expected_version == body.version
            &&& plan.intent.fields@.len() == 4
            &&& plan.intent.fields@[0].0@ == "scope"@
            &&& plan.intent.fields@[0].1 == (match body.scope {
                Some(scope) => Field::Text(scope),
                None => Field::Null,
            })
            &&& plan.intent.fields@[1].0@ == "mode"@
            &&& plan.intent.fields@[1].1 == Field::Text(body.mode->0)
            &&& plan.intent.fields@[2].0@ == "ttl_ms"@
            &&& plan.intent.fields@[2].1 == (match body.ttl_ms {
                Some(ttl) => Field::Int(ttl),
                None => Field::Null,
            })
            &&& plan.intent.fields@[3].0@ == "expires_at"@
            &&& body.ttl_ms is Some && expires_at is Some ==> plan.intent.fields@[3].1
                == Field::Text(expires_at->0)
            &&& body.ttl_ms is None ==> plan.intent.fields@[3].1 == Field::Null
        },
{
}

/// Each of the four modes goes by its own word, and no other word names a mode.
pub proof fn modes_go_by_their_own_words(word: Seq<char>)
    ensures
        mode_word(Mode::Normal) == "normal"@,
        mode_word(Mode::Observe) == "observe"@,
        mode_word(Mode::Maintain) == "maintain"@,
        mode_word(Mode::Freeze) == "freeze"@,
        mode_named(word) == Some(Mode::Normal) <==> word == "normal"@,
        mode_named(word) == Some(Mode::Observe) <==> word == "observe"@,
        mode_named(word) == Some(Mode::Maintain) <==> word == "maintain"@,
        mode_named(word) == Some(Mode::Freeze) <==> word == "freeze"@,
{
    mode_words_read_back(Mode::Normal);
    mode_words_read_back(Mode::Observe);
    mode_words_read_back(Mode::Maintain);
    mode_words_read_back(Mode::Freeze);
}

/// A row is about all resources where its scope is null. Its mode is the one that its word
/// names, and normal where it has no word or one that names no mode.
pub proof fn rows_have_the_mode_that_they_name(row: ModeFields)
    ensures
        is_global(row) <==> row.scope == Some(Field::Null),
        row.mode matches Some(Field::Text(word)) ==> row_word(row) == word@ && (word@ == "freeze"@
            ==> row_mode(row) == Mode::Freeze) && (word@ == "maintain"@ ==> row_mode(row)
            == Mode::Maintain) && (word@ == "observe"@ ==> row_mode(row) == Mode::Observe) && (word@
            != "freeze"@ && word@ != "maintain"@ && word@ != "observe"@ ==> row_mode(row)
            == Mode::Normal),
        !(row.mode matches Some(Field::Text(_))) ==> row_word(row) == "normal"@ && row_mode(row)
            == Mode::Normal,
{
    modes_go_by_their_own_words(row_word(row));
    modes_go_by_their_own_words("normal"@);
}

/// The mode of all resources is that of the first row about all of them, wherever it
/// stands, and normal where there is no such row.
pub proof fn first_global_row_decides(rows: Seq<ModeFields>, i: int)
    requires
        0 <= i <= rows.len(),
        forall|j: int| 0 <= j < i ==> (#[trigger] rows[j]).scope != Some(Field::Null),
        i < rows.len() ==> rows[i].scope == Some(Field::Null),
    ensures
        i < rows.len() ==> global_mode(rows) == row_mode(rows[i]),
        i == rows.len() ==> global_mode(rows) == Mode::Normal,
    decreases i,
{
    if i > 0 {
        assert(rows[0].scope != Some(Field::Null));
        assert forall|j: int| 0 <= j < i - 1 implies (#[trigger] rows.skip(1)[j]).scope != Some(
            Field::Null,
        ) by {
            assert(rows[j + 1].scope != Some(Field::Null));
        }
        first_global_row_decides(rows.skip(1), i - 1);
    } else if i < rows.len() {
        rows_have_the_mode_that_they_name(rows[0]);
        modes_go_by_their_own_words("normal"@);
    }
}

/// A row of the modes is shown value by value: what it has as it is, what it lacks as
/// null, and a version that it lacks as zero. The mode that takes effect stands beside its
/// own, in words.
pub proof fn modes_are_shown_value_by_value(
    row: ModeFields,
    effective: Mode,
    rev: Seq<char>,
    view: ModeView,
)
    requires
        shows_mode(row, effective, rev, view),
    ensures
        row.scope matches Some(f) ==> view.scope == f,
        row.scope is None ==> view.scope == Field::Null,
        row.mode matches Some(Field::Text(word)) ==> view.mode@ == word@,
        effective == Mode::Normal ==> view.effective_mode@ == "normal"@,
        effective == Mode::Observe ==> view.effective_mode@ == "observe"@,
        effective == Mode::Maintain ==> view.effective_mode@ == "maintain"@,
        effective == Mode::Freeze ==> view.effective_mode@ == "freeze"@,
        row.expires_at matches Some(f) ==> view.expires_at == f,
        row.expires_at is None ==> view.expires_at == Field::Null,
        row.version matches Some(Field::Int(n)) ==> view.version == n,
        !(row.version matches Some(Field::Int(_))) ==> view.version == 0,
        row.updated_at matches Some(f) ==> view.updated_at == f,
        row.updated_at is None ==> view.updated_at == Field::Null,
        row.updated_by matches Some(f) ==> view.updated_by == f,
        row.updated_by is None ==> view.updated_by == Field::Null,
        view.policy_rev@ == rev,
{
}

/// A row of the grants for a time is shown value by value: a number as its id in decimal, a
/// text as it is, what it has as it is and what it lacks as null.
pub proof fn grants_are_shown_value_by_value(row: GrantFields, view: GrantView)
    requires
        shows_grant(row, view),
    ensures
        row.id matches Some(Field::Int(n)) ==> (n >= 0 ==> view.id@ == decimal(n as nat)),
        row.id matches Some(Field::Text(s)) ==> view.id@ == s@,
        row.id is None ==> view.id@.len() == 0,
        row.resource matches Some(f) ==> view.resource == f,
        row.resource is None ==> view.resource == Field::Null,
        row.capability matches Some(f) ==> view.capability == f,
        row.capability is None ==> view.capability == Field::Null,
        row.granted_at matches Some(f) ==> view.granted_at == f,
        row.granted_at is None ==> view.granted_at == Field::Null,
        row.expires_at matches Some(f) ==> view.expires_at == f,
        row.expires_at is None ==> view.expires_at == Field::Null,
        row.ended_at matches Some(f) ==> view.ended_at == f,
        row.ended_at is None ==> view.ended_at == Field::Null,
        row.end_reason matches Some(f) ==> view.end_reason == f,
        row.end_reason is None ==> view.end_reason == Field::Null,
        row.version matches Some(Field::Int(n)) ==> view.version == n,
        !(row.version matches Some(Field::Int(_))) ==> view.version == 0,
{
}

} // verus!
