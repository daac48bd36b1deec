//! The self-test of the data plane.
//!
//! The daemon sends itself, as a temporary principal with few rights, requests
//! that have to be refused and one that has to pass without an echo of anything
//! secret. Each goes through the whole pipeline, and each has to show in the audit
//! log. [`VerifyRun`] holds the probes and judges what came of them; the requests
//! are submitted around it.

use crate::domain::{
    copy_bytes, copy_texts, stage_name, text_view, texts, AuditEvent, ConnOrigin,
    NormalizedRequest, PresentedCredential, RequestFacts, Stage,
};
use crate::kernel::pipeline::reason_at;
use crate::text::{contains_text, joined, joined3, occurs_in, same_text, stands_at};
use vstd::prelude::*;
use vstd::string::StringSliceAdditionalSpecFns;
use vstd::utf8::{decode_utf8, encode_utf8, valid_utf8};

verus! {

/// What came of one probe.
#[derive(Debug)]
pub struct VerifyItem {
    pub name: String,
    pub pass: bool,
    pub gap_note: Option<String>,
}

/// What came of all probes.
#[derive(Debug)]
pub struct VerifyReport {
    pub items: Vec<VerifyItem>,
    pub all_pass: bool,
}

/// The statements that the probes carry.
#[derive(Debug)]
pub struct VerifyCorpus {
    /// A write outside the grant.
    pub scope_out_mutate: String,
    /// A write in the guise of a read.
    pub disguised_write: String,
    /// A change of the session's state.
    pub session_tamper: String,
    /// Several statements in one.
    pub multi_statement: String,
    /// A harmless read within the grant.
    pub benign_query: String,
}

/// Who the probes come from and what they aim at.
#[derive(Debug)]
pub struct ProbeContext {
    pub auth_kind: String,
    pub presented_secret: Vec<u8>,
    pub resource: String,
    pub trusted_origin: ConnOrigin,
    pub untrusted_origin: ConnOrigin,
}

/// What has to come of a probe.
#[derive(Debug)]
pub enum Expect {
    /// A refusal at a stage.
    DenyAt(Stage),
    /// A refusal for want of a grant that does not tell whether a resource exists.
    DenyNoExistenceLeak { absent: String },
    /// A refusal that echoes no secret.
    DenyNoSecretEcho { forbidden: Vec<String> },
    /// A refusal of the origin.
    OriginNotTrusted,
    /// A response that echoes no secret.
    AllowNoSecretEcho { forbidden: Vec<String> },
}

/// What an expectation says.
pub enum ExpectFacts {
    DenyAt(Stage),
    DenyNoExistenceLeak { absent: Seq<char> },
    DenyNoSecretEcho { forbidden: Seq<Seq<char>> },
    OriginNotTrusted,
    AllowNoSecretEcho { forbidden: Seq<Seq<char>> },
}

impl View for Expect {
    type V = ExpectFacts;

    open spec fn view(&self) -> ExpectFacts {
        match *self {
            Expect::DenyAt(stage) => ExpectFacts::DenyAt(stage),
            Expect::DenyNoExistenceLeak { absent } => ExpectFacts::DenyNoExistenceLeak {
                absent: absent@,
            },
            Expect::DenyNoSecretEcho { forbidden } => ExpectFacts::DenyNoSecretEcho {
                forbidden: texts(forbidden@),
            },
            Expect::OriginNotTrusted => ExpectFacts::OriginNotTrusted,
            Expect::AllowNoSecretEcho { forbidden } => ExpectFacts::AllowNoSecretEcho {
                forbidden: texts(forbidden@),
            },
        }
    }
}

/// A probe: its name, what has to come of it, and the request.
#[derive(Debug)]
pub struct Probe {
    pub name: &'static str,
    pub expect: Expect,
    pub request: NormalizedRequest,
}

/// What a probe says.
pub struct ProbeFacts {
    pub name: Seq<char>,
    pub expect: ExpectFacts,
    pub request: RequestFacts,
}

impl View for Probe {
    type V = ProbeFacts;

    open spec fn view(&self) -> ProbeFacts {
        ProbeFacts { name: self.name@, expect: self.expect@, request: self.request@ }
    }
}

/// A character inside a JSON string.
pub open spec fn escaped(c: char) -> Seq<char> {
    if c == '"' {
        seq!['\\', '"']
    } else if c == '\\' {
        seq!['\\', '\\']
    } else if c == '\n' {
        seq!['\\', 'n']
    } else if c == '\r' {
        seq!['\\', 'r']
    } else if c == '\t' {
        seq!['\\', 't']
    } else {
        seq![c]
    }
}

/// Some characters inside a JSON string.
pub open spec fn all_escaped(s: Seq<char>) -> Seq<char>
    decreases s.len(),
{
    if s.len() == 0 {
        Seq::empty()
    } else {
        all_escaped(s.drop_last()) + escaped(s.last())
    }
}

/// A text as a JSON string.
pub open spec fn json_text(s: Seq<char>) -> Seq<char> {
    seq!['"'] + all_escaped(s) + seq!['"']
}

/// Writes a text as a JSON string.
pub fn json_string(s: &str) -> (out: String)
    ensures
        out@ == json_text(s@),
{
    let mut out: String = String::new();
    out.push('"');
    for c in it: s.chars()
        invariant
            it.seq() == s@,
            out@ == seq!['"'] + all_escaped(it.seq().take(it.index() as int)),
    {
        proof {
            let seen = it.seq().take(it.index() + 1);
            assert(seen.drop_last() =~= it.seq().take(it.index() as int));
            assert(seen.last() == c);
        }
        let ghost before = out@;
        if c == '"' {
            out.push('\\');
            out.push('"');
        } else if c == '\\' {
            out.push('\\');
            out.push('\\');
        } else if c == '\n' {
            out.push('\\');
            out.push('n');
        } else if c == '\r' {
            out.push('\\');
            out.push('r');
        } else if c == '\t' {
            out.push('\\');
            out.push('t');
        } else {
            out.push(c);
        }
        assert(out@ =~= before + escaped(c));
    }
    assert(s@.take(s@.len() as int) =~= s@);
    out.push('"');
    out
}

/// The character that an escape stands for.
pub open spec fn escape_means(c: char) -> Option<char> {
    if c == '"' || c == '\\' {
        Some(c)
    } else if c == 'n' {
        Some('\n')
    } else if c == 'r' {
        Some('\r')
    } else if c == 't' {
        Some('\t')
    } else {
        None
    }
}

/// What the inside of a JSON string says; `None` where a quote stands in it, or an
/// escape that is not known.
pub open spec fn unescaped(s: Seq<char>) -> Option<Seq<char>>
    decreases s.len(),
{
    if s.len() == 0 {
        Some(Seq::empty())
    } else if s[0] == '"' {
        None
    } else if s[0] != '\\' {
        match unescaped(s.skip(1)) {
            Some(rest) => Some(seq![s[0]] + rest),
            None => None,
        }
    } else if s.len() < 2 {
        None
    } else {
        match (escape_means(s[1]), unescaped(s.skip(2))) {
            (Some(c), Some(rest)) => Some(seq![c] + rest),
            _ => None,
        }
    }
}

/// What a JSON string says.
pub open spec fn literal_text(literal: Seq<char>) -> Option<Seq<char>> {
    if literal.len() >= 2 && literal[0] == '"' && literal.last() == '"' {
        unescaped(literal.subrange(1, literal.len() - 1))
    } else {
        None
    }
}

proof fn lemma_escaped_from_the_front(s: Seq<char>)
    requires
        s.len() > 0,
    ensures
        all_escaped(s) == escaped(s[0]) + all_escaped(s.skip(1)),
    decreases s.len(),
{
    if s.len() == 1 {
        assert(s.drop_last() =~= Seq::<char>::empty());
        assert(s.skip(1) =~= Seq::<char>::empty());
        assert(all_escaped(s.drop_last()) =~= Seq::<char>::empty());
        assert(all_escaped(s) =~= escaped(s[0]));
        assert(escaped(s[0]) + all_escaped(s.skip(1)) =~= escaped(s[0]));
    } else {
        let shorter = s.drop_last();
        lemma_escaped_from_the_front(shorter);
        assert(shorter.skip(1) =~= s.skip(1).drop_last());
        assert(s.skip(1).last() == s.last());
        assert(all_escaped(s) =~= escaped(s[0]) + (all_escaped(shorter.skip(1)) + escaped(
            s.last(),
        )));
    }
}

proof fn lemma_escapes_are_undone(s: Seq<char>)
    ensures
        unescaped(all_escaped(s)) == Some(s),
    decreases s.len(),
{
    if s.len() == 0 {
        assert(s =~= Seq::<char>::empty());
    } else {
        let rest = s.skip(1);
        let inside = all_escaped(s);
        lemma_escapes_are_undone(rest);
        lemma_escaped_from_the_front(s);
        assert(inside.skip(escaped(s[0]).len() as int) =~= all_escaped(rest));
        assert(seq![s[0]] + rest =~= s);
    }
}

/// Reading a text that was written as a JSON string gives the text back.
pub proof fn json_text_reads_back(s: Seq<char>)
    ensures
        literal_text(json_text(s)) == Some(s),
{
    lemma_escapes_are_undone(s);
    let literal = json_text(s);
    assert(literal.subrange(1, literal.len() - 1) =~= all_escaped(s));
}

/// The payload of a statement.
pub open spec fn statement_text(statement: Seq<char>) -> Seq<char> {
    "{\"statement\":"@ + json_text(statement) + ",\"params\":[]}"@
}

/// Wraps a statement as the payload of a request.
pub fn pg_intent(statement: &str) -> (intent: Vec<u8>)
    ensures
        intent@ == encode_utf8(statement_text(statement@)),
{
    let quoted = json_string(statement);
    let payload = joined3("{\"statement\":", quoted.as_str(), ",\"params\":[]}");
    copy_bytes(payload.as_str().as_bytes())
}

/// The request of a probe.
pub open spec fn probe_request(
    ctx: ProbeContext,
    origin: ConnOrigin,
    resource: Seq<char>,
    statement: Seq<char>,
) -> RequestFacts {
    RequestFacts {
        kind: ctx.auth_kind@,
        secret: ctx.presented_secret@,
        origin,
        resource,
        intent: encode_utf8(statement_text(statement)),
    }
}

fn request(ctx: &ProbeContext, origin: &ConnOrigin, resource: &str, statement: &str) -> (request:
    NormalizedRequest)
    ensures
        request@ == probe_request(*ctx, *origin, resource@, statement@),
{
    NormalizedRequest {
        presented: PresentedCredential {
            kind: ctx.auth_kind.clone(),
            secret: copy_bytes(ctx.presented_secret.as_slice()),
        },
        origin: origin.clone(),
        resource: resource.to_owned(),
        intent: pg_intent(statement),
    }
}

/// The code of a resource that does not exist.
pub const UNKNOWN_RESOURCE: &'static str = "nonexistent-probe-target";

/// The nine probes.
pub open spec fn probes(ctx: ProbeContext, corpus: VerifyCorpus, forbidden: Seq<Seq<char>>) -> Seq<
    ProbeFacts,
> {
    let trusted = ctx.trusted_origin;
    let untrusted = ctx.untrusted_origin;
    let resource = ctx.resource@;
    seq![
        ProbeFacts {
            name: "scope_out_mutate"@,
            expect: ExpectFacts::DenyAt(Stage::Rbac),
            request: probe_request(ctx, trusted, resource, corpus.scope_out_mutate@),
        },
        ProbeFacts {
            name: "disguised_write"@,
            expect: ExpectFacts::DenyAt(Stage::Rbac),
            request: probe_request(ctx, trusted, resource, corpus.disguised_write@),
        },
        ProbeFacts {
            name: "session_tamper"@,
            expect: ExpectFacts::DenyAt(Stage::Classify),
            request: probe_request(ctx, trusted, resource, corpus.session_tamper@),
        },
        ProbeFacts {
            name: "multi_statement"@,
            expect: ExpectFacts::DenyAt(Stage::Classify),
            request: probe_request(ctx, trusted, resource, corpus.multi_statement@),
        },
        ProbeFacts {
            name: "default_deny_unknown_resource"@,
            expect: ExpectFacts::DenyNoExistenceLeak { absent: UNKNOWN_RESOURCE@ },
            request: probe_request(ctx, trusted, UNKNOWN_RESOURCE@, corpus.benign_query@),
        },
        ProbeFacts {
            name: "credential_zero_touch"@,
            expect: ExpectFacts::DenyNoSecretEcho { forbidden },
            request: probe_request(ctx, trusted, resource, corpus.scope_out_mutate@),
        },
        ProbeFacts {
            name: "origin_not_trusted"@,
            expect: ExpectFacts::OriginNotTrusted,
            request: probe_request(ctx, untrusted, resource, corpus.benign_query@),
        },
        ProbeFacts {
            name: "untrusted_origin_auth_stage"@,
            expect: ExpectFacts::DenyAt(Stage::Auth),
            request: probe_request(ctx, untrusted, resource, corpus.scope_out_mutate@),
        },
        ProbeFacts {
            name: "redaction_probe"@,
            expect: ExpectFacts::AllowNoSecretEcho { forbidden },
            request: probe_request(ctx, trusted, resource, corpus.benign_query@),
        },
    ]
}

/// What a list of probes says.
pub open spec fn probe_facts(probes: Seq<Probe>) -> Seq<ProbeFacts> {
    probes.map_values(|p: Probe| p@)
}

/// Makes the nine probes.
pub fn probe_set(ctx: &ProbeContext, corpus: &VerifyCorpus, forbidden: &Vec<String>) -> (set: Vec<
    Probe,
>)
    ensures
        probe_facts(set@) == probes(*ctx, *corpus, texts(forbidden@)),
{
    let trusted = &ctx.trusted_origin;
    let untrusted = &ctx.untrusted_origin;
    let resource = ctx.resource.as_str();
    let set: Vec<Probe> = vec![
        Probe {
            name: "scope_out_mutate",
            expect: Expect::DenyAt(Stage::Rbac),
            request: request(ctx, trusted, resource, corpus.scope_out_mutate.as_str()),
        },
        Probe {
            name: "disguised_write",
            expect: Expect::DenyAt(Stage::Rbac),
            request: request(ctx, trusted, resource, corpus.disguised_write.as_str()),
        },
        Probe {
            name: "session_tamper",
            expect: Expect::DenyAt(Stage::Classify),
            request: request(ctx, trusted, resource, corpus.session_tamper.as_str()),
        },
        Probe {
            name: "multi_statement",
            expect: Expect::DenyAt(Stage::Classify),
            request: request(ctx, trusted, resource, corpus.multi_statement.as_str()),
        },
        Probe {
            name: "default_deny_unknown_resource",
            expect: Expect::DenyNoExistenceLeak { absent: UNKNOWN_RESOURCE.to_owned() },
            request: request(ctx, trusted, UNKNOWN_RESOURCE, corpus.benign_query.as_str()),
        },
        Probe {
            name: "credential_zero_touch",
            expect: Expect::DenyNoSecretEcho { forbidden: copy_texts(forbidden) },
            request: request(ctx, trusted, resource, corpus.scope_out_mutate.as_str()),
        },
        Probe {
            name: "origin_not_trusted",
            expect: Expect::OriginNotTrusted,
            request: request(ctx, untrusted, resource, corpus.benign_query.as_str()),
        },
        Probe {
            name: "untrusted_origin_auth_stage",
            expect: Expect::DenyAt(Stage::Auth),
            request: request(ctx, untrusted, resource, corpus.scope_out_mutate.as_str()),
        },
        Probe {
            name: "redaction_probe",
            expect: Expect::AllowNoSecretEcho { forbidden: copy_texts(forbidden) },
            request: request(ctx, trusted, resource, corpus.benign_query.as_str()),
        },
    ];
    assert(probe_facts(set@) =~= probes(*ctx, *corpus, texts(forbidden@)));
    set
}

/// The text of some bytes where each invalid sequence is replaced.
pub uninterp spec fn lossy_text(bytes: Seq<u8>) -> Seq<char>;

/// `String::from_utf8_lossy`: the text of the bytes, with replacement characters
/// for what is not UTF-8. Valid UTF-8 is decoded as it stands; what comes of
/// invalid bytes is a function of the bytes and is only named here.
#[verifier::external_body]
fn decode_lossy(bytes: &[u8]) -> (text: String)
    ensures
        text@ == lossy_text(bytes@),
        valid_utf8(bytes@) ==> text@ == decode_utf8(bytes@),
{
    String::from_utf8_lossy(bytes).into_owned()
}

/// The first forbidden text that stands in `text`. An empty one forbids nothing.
pub open spec fn first_echo(text: Seq<char>, forbidden: Seq<Seq<char>>) -> Option<Seq<char>>
    decreases forbidden.len(),
{
    if forbidden.len() == 0 {
        None
    } else if forbidden[0].len() > 0 && occurs_in(text, forbidden[0]) {
        Some(forbidden[0])
    } else {
        first_echo(text, forbidden.skip(1))
    }
}

/// Finds the first forbidden text that stands in a text.
pub fn echoed(text: &str, forbidden: &Vec<String>) -> (found: Option<String>)
    ensures
        text_view(found) == first_echo(text@, texts(forbidden@)),
{
    let ghost all = texts(forbidden@);
    let mut i: usize = 0;
    assert(all.skip(0) =~= all);
    while i < forbidden.len()
        invariant
            i <= forbidden@.len(),
            all == texts(forbidden@),
            first_echo(text@, all) == first_echo(text@, all.skip(i as int)),
        decreases forbidden@.len() - i,
    {
        assert(all.skip(i as int).skip(1) =~= all.skip(i + 1));
        assert(all.skip(i as int)[0] == forbidden@[i as int]@);
        let needle = forbidden[i].as_str();
        if !needle.is_empty() && contains_text(text, needle) {
            return Some(forbidden[i].clone());
        }
        i = i + 1;
    }
    None
}

/// Finds the first forbidden text that stands in some bytes.
pub fn leaked(bytes: &[u8], forbidden: &Vec<String>) -> (found: Option<String>)
    ensures
        text_view(found) == first_echo(lossy_text(bytes@), texts(forbidden@)),
        valid_utf8(bytes@) ==> text_view(found) == first_echo(
            decode_utf8(bytes@),
            texts(forbidden@),
        ),
{
    let text = decode_lossy(bytes);
    echoed(text.as_str(), forbidden)
}

/// Bytes echo no forbidden text exactly where none of those that are not empty
/// stands in their text.
pub proof fn no_echo_means_none_occurs(text: Seq<char>, forbidden: Seq<Seq<char>>)
    ensures
        first_echo(text, forbidden) is None <==> forall|i: int|
            0 <= i < forbidden.len() ==> (#[trigger] forbidden[i]).len() == 0 || !occurs_in(
                text,
                forbidden[i],
            ),
    decreases forbidden.len(),
{
    if forbidden.len() > 0 {
        let rest = forbidden.skip(1);
        no_echo_means_none_occurs(text, rest);
        assert forall|i: int| 0 <= i < rest.len() implies #[trigger] rest[i] == forbidden[i
            + 1] by {}
        if first_echo(text, rest) is None {
            assert forall|i: int| 0 <= i < forbidden.len() && first_echo(text, forbidden)
                is None implies (#[trigger] forbidden[i]).len() == 0 || !occurs_in(
                text,
                forbidden[i],
            ) by {
                if i > 0 {
                    assert(rest[i - 1] == forbidden[i]);
                }
            }
        }
    }
}

/// What a refusal tells its caller.
#[derive(Debug)]
pub struct DenyView {
    /// The reason.
    pub reason: String,
    /// The whole refusal, serialized.
    pub bytes: Vec<u8>,
    /// The resources among the grants that it lists.
    pub your_grants_resources: Vec<String>,
    /// Whether it hints how to ask for a grant.
    pub request_hint_some: bool,
}

impl DenyView {
    /// Whether a resource stands among the listed grants.
    pub fn your_grants_has(&self, resource: &str) -> (listed: bool)
        ensures
            listed == texts(self.your_grants_resources@).contains(resource@),
    {
        let mut i: usize = 0;
        let ghost listed = texts(self.your_grants_resources@);
        while i < self.your_grants_resources.len()
            invariant
                i <= self.your_grants_resources@.len(),
                listed == texts(self.your_grants_resources@),
                forall|j: int| 0 <= j < i ==> listed[j] != resource@,
            decreases self.your_grants_resources@.len() - i,
        {
            if same_text(self.your_grants_resources[i].as_str(), resource) {
                assert(listed[i as int] == resource@);
                return true;
            }
            assert(listed[i as int] != resource@);
            i = i + 1;
        }
        false
    }
}

/// Takes from a refusal what the self-test looks at. A refusal that could not be
/// serialized has no bytes.
pub fn deny_view(
    reason: String,
    serialized: Option<Vec<u8>>,
    your_grants_resources: Vec<String>,
    request_hint_some: bool,
) -> (view: DenyView)
    ensures
        view.reason == reason,
        match serialized {
            Some(bytes) => view.bytes == bytes,
            None => view.bytes@.len() == 0,
        },
        view.your_grants_resources == your_grants_resources,
        view.request_hint_some == request_hint_some,
{
    let bytes = match serialized {
        Some(bytes) => bytes,
        None => Vec::new(),
    };
    DenyView { reason, bytes, your_grants_resources, request_hint_some }
}

/// The reason that the kernel gives for a refusal names the stage, so that the
/// self-test finds it there.
pub proof fn reasons_name_their_stage(stage: Stage)
    ensures
        occurs_in(reason_at(stage), stage_name(stage)),
{
    let reason = reason_at(stage);
    let name = stage_name(stage);
    let at = "denied at "@.len() as int;
    assert(reason.subrange(at, at + name.len()) =~= name);
    assert(stands_at(reason, name, at));
}

/// An entry of the self-test's audit log: decision and stage.
pub type Trace = (String, Option<Stage>);

/// Whether the log holds a refusal at a stage.
pub open spec fn refused_at(tail: Seq<Trace>, stage: Stage) -> bool {
    exists|i: int|
        0 <= i < tail.len() && (#[trigger] tail[i]).0@ == "deny"@ && tail[i].1 == Some(stage)
}

/// Whether the log holds a refusal that names its stage.
pub open spec fn refused_somewhere(tail: Seq<Trace>) -> bool {
    exists|i: int| 0 <= i < tail.len() && (#[trigger] tail[i]).0@ == "deny"@ && tail[i].1 is Some
}

/// Whether the log holds an admission.
pub open spec fn allowed_once(tail: Seq<Trace>) -> bool {
    exists|i: int| 0 <= i < tail.len() && (#[trigger] tail[i]).0@ == "allow"@
}

fn has_refusal_at(tail: &[Trace], stage: Stage) -> (found: bool)
    ensures
        found == refused_at(tail@, stage),
{
    let mut i: usize = 0;
    while i < tail.len()
        invariant
            i <= tail@.len(),
            forall|j: int|
                0 <= j < i ==> !((#[trigger] tail@[j]).0@ == "deny"@ && tail@[j].1 == Some(stage)),
        decreases tail@.len() - i,
    {
        let entry = &tail[i];
        if same_text(entry.0.as_str(), "deny") {
            if let Some(s) = entry.1 {
                if s == stage {
                    return true;
                }
            }
        }
        i = i + 1;
    }
    false
}

fn has_refusal(tail: &[Trace]) -> (found: bool)
    ensures
        found == refused_somewhere(tail@),
{
    let mut i: usize = 0;
    while i < tail.len()
        invariant
            i <= tail@.len(),
            forall|j: int|
                0 <= j < i ==> !((#[trigger] tail@[j]).0@ == "deny"@ && tail@[j].1 is Some),
        decreases tail@.len() - i,
    {
        let entry = &tail[i];
        if same_text(entry.0.as_str(), "deny") && entry.1.is_some() {
            return true;
        }
        i = i + 1;
    }
    false
}

fn has_admission(tail: &[Trace]) -> (found: bool)
    ensures
        found == allowed_once(tail@),
{
    let mut i: usize = 0;
    while i < tail.len()
        invariant
            i <= tail@.len(),
            forall|j: int| 0 <= j < i ==> (#[trigger] tail@[j]).0@ != "allow"@,
        decreases tail@.len() - i,
    {
        if same_text(tail[i].0.as_str(), "allow") {
            return true;
        }
        i = i + 1;
    }
    false
}

/// What came of a probe, with the bytes of the answer as text.
pub enum OutcomeFacts {
    Allowed { text: Seq<char> },
    Refused { reason: Seq<char>, text: Seq<char>, grants: Seq<Seq<char>>, hint: bool },
}

/// What came of a probe.
pub open spec fn outcome_facts(result: Result<Vec<u8>, DenyView>) -> OutcomeFacts {
    match result {
        Ok(bytes) => OutcomeFacts::Allowed { text: lossy_text(bytes@) },
        Err(deny) => OutcomeFacts::Refused {
            reason: deny.reason@,
            text: lossy_text(deny.bytes@),
            grants: texts(deny.your_grants_resources@),
            hint: deny.request_hint_some,
        },
    }
}

/// The gap that a probe shows: none where what came of it is what had to.
pub open spec fn gap(expect: ExpectFacts, outcome: OutcomeFacts, tail: Seq<Trace>) -> Option<
    Seq<char>,
> {
    match (expect, outcome) {
        (ExpectFacts::DenyAt(stage), OutcomeFacts::Allowed { .. }) => Some(
            "本应在 "@ + stage_name(stage) + " 阶被拒,实测却放行(防线漏放)"@,
        ),
        (ExpectFacts::DenyAt(stage), OutcomeFacts::Refused { reason, .. }) => {
            if !occurs_in(reason, stage_name(stage)) {
                Some(
                    "本应在 "@ + stage_name(stage) + " 阶被拒,实测拒绝 reason='"@ + (reason
                        + "' 未落该阶(防线错位)"@),
                )
            } else if !refused_at(tail, stage) {
                Some(stage_name(stage) + " 阶 deny 未逐条留痕(审计缺该项,详设 6.7 留痕可复核)"@)
            } else {
                None
            }
        },
        (ExpectFacts::DenyNoExistenceLeak { .. }, OutcomeFacts::Allowed { .. }) => Some(
            "默认拒绝失效:不存在资源被放行(防线漏放)"@,
        ),
        (
            ExpectFacts::DenyNoExistenceLeak { absent },
            OutcomeFacts::Refused { grants, hint, .. },
        ) => {
            if grants.contains(absent) {
                Some(
                    "拒绝响应泄露了资源 '"@ + absent + "' 的存在性(your_grants 含被探测代号)"@,
                )
            } else if hint {
                Some("拒绝响应 request_hint 暗示了被探测资源的可授性(泄露存在性)"@)
            } else if !refused_at(tail, Stage::Rbac) {
                Some("默认拒绝未逐条留痕(审计缺该项)"@)
            } else {
                None
            }
        },
        (ExpectFacts::DenyNoSecretEcho { .. }, OutcomeFacts::Allowed { .. }) => Some(
            "凭据零接触探针本应被拒,实测却放行"@,
        ),
        (ExpectFacts::DenyNoSecretEcho { forbidden }, OutcomeFacts::Refused { text, .. }) => {
            match first_echo(text, forbidden) {
                Some(needle) => Some(
                    "拒绝响应泄露了真实机密子串 '"@ + needle
                        + "'(凭据零接触被破 / 脱敏未擦净)"@,
                ),
                None => if !refused_somewhere(tail) {
                    Some("凭据零接触 deny 未逐条留痕(审计缺该项)"@)
                } else {
                    None
                },
            }
        },
        (ExpectFacts::OriginNotTrusted, OutcomeFacts::Allowed { .. }) => Some(
            "自报来源被采信:不被采信的来源竟放行(公理三被破)"@,
        ),
        (ExpectFacts::OriginNotTrusted, OutcomeFacts::Refused { reason, .. }) => {
            if !occurs_in(reason, stage_name(Stage::Auth)) {
                Some(
                    "来源不被采信应在 auth 阶拒,实测 reason='"@ + reason
                        + "' 未落 auth 阶"@,
                )
            } else if !refused_at(tail, Stage::Auth) {
                Some("来源观测门 deny 未逐条留痕(审计缺该项)"@)
            } else {
                None
            }
        },
        (ExpectFacts::AllowNoSecretEcho { .. }, OutcomeFacts::Refused { reason, .. }) => Some(
            "脱敏探测项本应放行,实测却被拒(reason='"@ + reason
                + "')——授权种子或管线异常"@,
        ),
        (ExpectFacts::AllowNoSecretEcho { forbidden }, OutcomeFacts::Allowed { text }) => {
            match first_echo(text, forbidden) {
                Some(needle) => Some(
                    "放行响应回显了真实机密子串 '"@ + needle + "'(脱敏出口未擦净)"@,
                ),
                None => if !allowed_once(tail) {
                    Some("脱敏探测放行未逐条留痕 allow(审计缺该项)"@)
                } else {
                    None
                },
            }
        },
    }
}

/// What came of a probe, with the bytes of the answer decoded.
pub enum Answer<'a> {
    Allowed { text: &'a str },
    Refused { deny: &'a DenyView, text: &'a str },
}

/// What came of a probe, with the bytes of the answer decoded.
pub open spec fn answer_facts(answer: Answer<'_>) -> OutcomeFacts {
    match answer {
        Answer::Allowed { text } => OutcomeFacts::Allowed { text: text@ },
        Answer::Refused { deny, text } => OutcomeFacts::Refused {
            reason: deny.reason@,
            text: text@,
            grants: texts(deny.your_grants_resources@),
            hint: deny.request_hint_some,
        },
    }
}

fn judge_refusal_at(stage: Stage, reason: &str, tail: &[Trace]) -> (note: Option<String>)
    ensures
        forall|text: Seq<char>, grants: Seq<Seq<char>>, hint: bool|
            text_view(note) == #[trigger] gap(
                ExpectFacts::DenyAt(stage),
                OutcomeFacts::Refused { reason: reason@, text, grants, hint },
                tail@,
            ),
{
    if !contains_text(reason, stage.as_str()) {
        let head = joined3("本应在 ", stage.as_str(), " 阶被拒,实测拒绝 reason='");
        let end = joined(reason, "' 未落该阶(防线错位)");
        Some(joined(head.as_str(), end.as_str()))
    } else if !has_refusal_at(tail, stage) {
        Some(joined(stage.as_str(), " 阶 deny 未逐条留痕(审计缺该项,详设 6.7 留痕可复核)"))
    } else {
        None
    }
}

/// Judges what came of a probe by the text of the answer.
pub fn judge_answer(expect: &Expect, answer: &Answer<'_>, tail: &[Trace]) -> (note: Option<String>)
    ensures
        text_view(note) == gap(expect@, answer_facts(*answer), tail@),
{
    match (expect, answer) {
        (Expect::DenyAt(stage), Answer::Allowed { .. }) => Some(
            joined3("本应在 ", stage.as_str(), " 阶被拒,实测却放行(防线漏放)"),
        ),
        (Expect::DenyAt(stage), Answer::Refused { deny, .. }) => judge_refusal_at(
            *stage,
            deny.reason.as_str(),
            tail,
        ),
        (Expect::DenyNoExistenceLeak { .. }, Answer::Allowed { .. }) => Some(
            "默认拒绝失效:不存在资源被放行(防线漏放)".to_owned(),
        ),
        (Expect::DenyNoExistenceLeak { absent }, Answer::Refused { deny, .. }) => {
            if deny.your_grants_has(absent.as_str()) {
                Some(
                    joined3(
                        "拒绝响应泄露了资源 '",
                        absent.as_str(),
                        "' 的存在性(your_grants 含被探测代号)",
                    ),
                )
            } else if deny.request_hint_some {
                Some(
                    "拒绝响应 request_hint 暗示了被探测资源的可授性(泄露存在性)".to_owned(),
                )
            } else if !has_refusal_at(tail, Stage::Rbac) {
                Some("默认拒绝未逐条留痕(审计缺该项)".to_owned())
            } else {
                None
            }
        },
        (Expect::DenyNoSecretEcho { .. }, Answer::Allowed { .. }) => Some(
            "凭据零接触探针本应被拒,实测却放行".to_owned(),
        ),
        (Expect::DenyNoSecretEcho { forbidden }, Answer::Refused { text, .. }) => {
            match echoed(text, forbidden) {
                Some(needle) => Some(
                    joined3(
                        "拒绝响应泄露了真实机密子串 '",
                        needle.as_str(),
                        "'(凭据零接触被破 / 脱敏未擦净)",
                    ),
                ),
                None => if !has_refusal(tail) {
                    Some("凭据零接触 deny 未逐条留痕(审计缺该项)".to_owned())
                } else {
                    None
                },
            }
        },
        (Expect::OriginNotTrusted, Answer::Allowed { .. }) => Some(
            "自报来源被采信:不被采信的来源竟放行(公理三被破)".to_owned(),
        ),
        (Expect::OriginNotTrusted, Answer::Refused { deny, .. }) => {
            if !contains_text(deny.reason.as_str(), Stage::Auth.as_str()) {
                Some(
                    joined3(
                        "来源不被采信应在 auth 阶拒,实测 reason='",
                        deny.reason.as_str(),
                        "' 未落 auth 阶",
                    ),
                )
            } else if !has_refusal_at(tail, Stage::Auth) {
                Some("来源观测门 deny 未逐条留痕(审计缺该项)".to_owned())
            } else {
                None
            }
        },
        (Expect::AllowNoSecretEcho { .. }, Answer::Refused { deny, .. }) => Some(
            joined3(
                "脱敏探测项本应放行,实测却被拒(reason='",
                deny.reason.as_str(),
                "')——授权种子或管线异常",
            ),
        ),
        (Expect::AllowNoSecretEcho { forbidden }, Answer::Allowed { text }) => {
            match echoed(text, forbidden) {
                Some(needle) => Some(
                    joined3(
                        "放行响应回显了真实机密子串 '",
                        needle.as_str(),
                        "'(脱敏出口未擦净)",
                    ),
                ),
                None => if !has_admission(tail) {
                    Some("脱敏探测放行未逐条留痕 allow(审计缺该项)".to_owned())
                } else {
                    None
                },
            }
        },
    }
}

/// Judges what came of a probe: `None` where it is what had to come, and
/// otherwise a note on the gap.
pub fn judge(expect: &Expect, result: &Result<Vec<u8>, DenyView>, tail: &[Trace]) -> (note: Option<
    String,
>)
    ensures
        text_view(note) == gap(expect@, outcome_facts(*result), tail@),
{
    match result {
        Ok(bytes) => {
            let text = decode_lossy(bytes.as_slice());
            judge_answer(expect, &Answer::Allowed { text: text.as_str() }, tail)
        },
        Err(deny) => {
            let text = decode_lossy(deny.bytes.as_slice());
            judge_answer(expect, &Answer::Refused { deny, text: text.as_str() }, tail)
        },
    }
}

/// A probe passes only where its answer is of the kind that had to come and the log
/// shows it.
pub proof fn passing_probe_is_accounted_for(
    expect: ExpectFacts,
    outcome: OutcomeFacts,
    tail: Seq<Trace>,
)
    requires
        gap(expect, outcome, tail) is None,
    ensures
        tail.len() > 0,
        expect is AllowNoSecretEcho <==> outcome is Allowed,
        expect is AllowNoSecretEcho ==> allowed_once(tail),
        expect !is AllowNoSecretEcho ==> refused_somewhere(tail),
{
    match expect {
        ExpectFacts::DenyAt(stage) => {
            let i = choose|i: int|
                0 <= i < tail.len() && (#[trigger] tail[i]).0@ == "deny"@ && tail[i].1 == Some(
                    stage,
                );
            assert(tail[i].1 is Some);
        },
        ExpectFacts::DenyNoExistenceLeak { .. } => {
            let i = choose|i: int|
                0 <= i < tail.len() && (#[trigger] tail[i]).0@ == "deny"@ && tail[i].1 == Some(
                    Stage::Rbac,
                );
            assert(tail[i].1 is Some);
        },
        ExpectFacts::OriginNotTrusted => {
            let i = choose|i: int|
                0 <= i < tail.len() && (#[trigger] tail[i]).0@ == "deny"@ && tail[i].1 == Some(
                    Stage::Auth,
                );
            assert(tail[i].1 is Some);
        },
        _ => {},
    }
}

/// What an audit entry says.
pub type TraceFacts = (Seq<char>, Option<Stage>);

/// What a log says.
pub open spec fn trace_facts(log: Seq<Trace>) -> Seq<TraceFacts> {
    log.map_values(|t: Trace| (t.0@, t.1))
}

/// The audit log of the self-test: it keeps the decision and the stage of each
/// record, in order.
pub struct VerifyAudit {
    events: Vec<Trace>,
}

impl VerifyAudit {
    /// The entries so far.
    pub closed spec fn entries(&self) -> Seq<TraceFacts> {
        trace_facts(self.events@)
    }

    /// An empty log.
    pub fn new() -> (audit: Self)
        ensures
            audit.entries() == Seq::<TraceFacts>::empty(),
    {
        let audit = VerifyAudit { events: Vec::new() };
        assert(audit.entries() =~= Seq::<TraceFacts>::empty());
        audit
    }

    /// Keeps a record.
    pub fn record(&mut self, event: &AuditEvent)
        ensures
            final(self).entries() == old(self).entries().push((event.decision@, event.stage)),
    {
        let ghost before = self.entries();
        self.events.push((event.decision.clone(), event.stage));
        assert(self.entries() =~= before.push((event.decision@, event.stage)));
    }

    /// The entries so far.
    pub fn snapshot(&self) -> (log: Vec<Trace>)
        ensures
            trace_facts(log@) == self.entries(),
    {
        copy_log(self.events.as_slice(), 0)
    }
}

impl Default for VerifyAudit {
    fn default() -> (audit: Self)
        ensures
            audit.entries() == Seq::<TraceFacts>::empty(),
    {
        Self::new()
    }
}

/// The entries of a log from `from` on; none where it is shorter.
pub open spec fn log_from<T>(log: Seq<T>, from: int) -> Seq<T> {
    if from <= log.len() {
        log.skip(from)
    } else {
        Seq::empty()
    }
}

fn copy_log(log: &[Trace], from: usize) -> (copy: Vec<Trace>)
    ensures
        copy@ == log_from(log@, from as int),
        from == 0 ==> copy@ == log@,
{
    let mut out: Vec<Trace> = Vec::new();
    let mut i: usize = from;
    while i < log.len()
        invariant
            from <= i,
            i <= log@.len() || i == from,
            i <= log@.len() ==> out@ == log@.subrange(from as int, i as int),
            i > log@.len() ==> out@.len() == 0,
        decreases log@.len() - i,
    {
        let entry = &log[i];
        out.push((entry.0.clone(), entry.1));
        i = i + 1;
    }
    assert(out@ =~= log_from(log@, from as int));
    assert(log@.skip(0) =~= log@);
    out
}

/// What came of a probe, by name.
pub struct ItemFacts {
    pub name: Seq<char>,
    pub pass: bool,
    pub gap_note: Option<Seq<char>>,
}

impl View for VerifyItem {
    type V = ItemFacts;

    open spec fn view(&self) -> ItemFacts {
        ItemFacts { name: self.name@, pass: self.pass, gap_note: text_view(self.gap_note) }
    }
}

/// What a list of items says.
pub open spec fn item_facts(items: Seq<VerifyItem>) -> Seq<ItemFacts> {
    items.map_values(|i: VerifyItem| i@)
}

/// The item of a probe.
pub open spec fn item_of(probe: ProbeFacts, outcome: OutcomeFacts, tail: Seq<Trace>) -> ItemFacts {
    let note = gap(probe.expect, outcome, tail);
    ItemFacts { name: probe.name, pass: note is None, gap_note: note }
}

/// Runs the self-test. The data plane provides it, so that the control plane needs
/// no kernel of its own.
pub trait VerifyRunner {
    /// Runs the self-test and reports.
    fn run(&self) -> VerifyReport;
}

/// A run of the self-test: the probes, and what came of those behind it.
pub struct VerifyRun {
    probes: Vec<Probe>,
    seen: usize,
    items: Vec<VerifyItem>,
    all_pass: bool,
}

impl VerifyRun {
    /// The probes of the run.
    pub closed spec fn probes(&self) -> Seq<ProbeFacts> {
        probe_facts(self.probes@)
    }

    /// How many entries of the log are accounted for.
    pub closed spec fn seen(&self) -> int {
        self.seen as int
    }

    /// The items so far, one per probe behind the run.
    pub closed spec fn items(&self) -> Seq<ItemFacts> {
        item_facts(self.items@)
    }

    /// The verdict so far.
    pub closed spec fn verdict(&self) -> bool {
        self.all_pass
    }

    /// The items belong to the first probes, in order, and the verdict is that all
    /// of them pass.
    pub open spec fn wf(&self) -> bool {
        &&& self.items().len() <= self.probes().len()
        &&& forall|i: int|
            0 <= i < self.items().len() ==> (#[trigger] self.items()[i]).name
                == self.probes()[i].name
        &&& self.verdict() <==> forall|i: int|
            0 <= i < self.items().len() ==> (#[trigger] self.items()[i]).pass
    }

    /// Starts a run with the nine probes. `logged` is how many entries the log has.
    pub fn start(
        ctx: &ProbeContext,
        corpus: &VerifyCorpus,
        forbidden: &Vec<String>,
        logged: usize,
    ) -> (run: Self)
        ensures
            run.wf(),
            run.probes() == probes(*ctx, *corpus, texts(forbidden@)),
            run.items() == Seq::<ItemFacts>::empty(),
            run.seen() == logged,
    {
        let run = VerifyRun {
            probes: probe_set(ctx, corpus, forbidden),
            seen: logged,
            items: Vec::new(),
            all_pass: true,
        };
        assert(run.items() =~= Seq::<ItemFacts>::empty());
        run
    }

    /// The request to be submitted next; none where the run is over.
    pub fn next_request(&self) -> (request: Option<&NormalizedRequest>)
        requires
            self.wf(),
        ensures
            match request {
                Some(r) => self.items().len() < self.probes().len() && r@
                    == self.probes()[self.items().len() as int].request,
                None => self.items().len() == self.probes().len(),
            },
    {
        let at: usize = self.items.len();
        if at < self.probes.len() {
            let request = &self.probes[at].request;
            assert(self.probes()[at as int] == self.probes@[at as int]@);
            Some(request)
        } else {
            None
        }
    }

    /// Judges what came of the request that was next. `log` is the whole log.
    pub fn observe(&mut self, result: &Result<Vec<u8>, DenyView>, log: &[Trace])
        requires
            old(self).wf(),
            old(self).items().len() < old(self).probes().len(),
        ensures
            final(self).wf(),
            final(self).probes() == old(self).probes(),
            final(self).seen() == log@.len(),
            final(self).items() == old(self).items().push(
                item_of(
                    old(self).probes()[old(self).items().len() as int],
                    outcome_facts(*result),
                    log_from(log@, old(self).seen()),
                ),
            ),
    {
        let at: usize = self.items.len();
        let tail = copy_log(log, self.seen);
        self.seen = log.len();
        assert(self.probes()[at as int] == self.probes@[at as int]@);
        let gap_note = judge(&self.probes[at].expect, result, tail.as_slice());
        let pass: bool = gap_note.is_none();
        if !pass {
            self.all_pass = false;
        }
        let item = VerifyItem { name: self.probes[at].name.to_owned(), pass, gap_note };
        let ghost added = item@;
        let ghost before = self.items();
        self.items.push(item);
        proof {
            assert(self.items() =~= before.push(added));
            assert(added == item_of(self.probes()[at as int], outcome_facts(*result), tail@));
            assert forall|i: int| 0 <= i < before.len() implies (#[trigger] self.items()[i])
                == before[i] by {}
            if self.all_pass {
                assert forall|i: int| 0 <= i < self.items().len() implies (
                #[trigger] self.items()[i]).pass by {
                    if i < before.len() {
                        assert(before[i].pass);
                    }
                }
            } else if pass {
                let i = choose|i: int| 0 <= i < before.len() && !(#[trigger] before[i]).pass;
                assert(!self.items()[i].pass);
            } else {
                assert(!self.items()[before.len() as int].pass);
            }
        }
    }

    /// The report of the run.
    pub fn report(self) -> (report: VerifyReport)
        requires
            self.wf(),
        ensures
            item_facts(report.items@) == self.items(),
            report.all_pass <==> forall|i: int|
                0 <= i < self.items().len() ==> (#[trigger] self.items()[i]).pass,
    {
        VerifyReport { items: self.items, all_pass: self.all_pass }
    }
}

/// Inside a JSON string a quote and a backslash are escaped by a backslash before them, and
/// the line feed, the carriage return and the tab by their letters; every other character
/// stands for itself. What is written of two texts in a row is what is written of each.
pub proof fn five_characters_are_escaped(c: char, one: Seq<char>, other: Seq<char>)
    ensures
        escaped('"') == seq!['\\', '"'],
        escaped('\\') == seq!['\\', '\\'],
        escaped('\n') == seq!['\\', 'n'],
        escaped('\r') == seq!['\\', 'r'],
        escaped('\t') == seq!['\\', 't'],
        c != '"' && c != '\\' && c != '\n' && c != '\r' && c != '\t' ==> escaped(c) == seq![c],
        all_escaped(seq![c]) == escaped(c),
        all_escaped(one + other) == all_escaped(one) + all_escaped(other),
        json_text(one) == seq!['"'] + all_escaped(one) + seq!['"'],
    decreases other.len(),
{
    assert(seq![c].drop_last() =~= Seq::<char>::empty());
    assert(all_escaped(Seq::<char>::empty()) =~= Seq::<char>::empty());
    assert(all_escaped(seq![c]) =~= escaped(c));
    if other.len() == 0 {
        assert(one + other =~= one);
        assert(all_escaped(one) + all_escaped(other) =~= all_escaped(one));
    } else {
        five_characters_are_escaped(c, one, other.drop_last());
        assert((one + other).drop_last() =~= one + other.drop_last());
        assert((one + other).last() == other.last());
        assert(all_escaped(one + other) =~= all_escaped(one) + all_escaped(other));
    }
}

/// A statement is sent as a JSON object with the statement as a string and no parameters.
pub proof fn statements_are_sent_without_parameters(statement: Seq<char>)
    ensures
        statement_text(statement) == "{\"statement\":"@ + json_text(statement)
            + ",\"params\":[]}"@,
{
}

/// A probe carries the credential of the self-test and its statement, to its resource and
/// from its origin.
pub proof fn probes_carry_the_credential(
    ctx: ProbeContext,
    origin: ConnOrigin,
    resource: Seq<char>,
    statement: Seq<char>,
)
    ensures
        probe_request(ctx, origin, resource, statement).kind == ctx.auth_kind@,
        probe_request(ctx, origin, resource, statement).secret == ctx.presented_secret@,
        probe_request(ctx, origin, resource, statement).origin == origin,
        probe_request(ctx, origin, resource, statement).resource == resource,
        probe_request(ctx, origin, resource, statement).intent == encode_utf8(
            statement_text(statement),
        ),
{
}

/// There are nine probes. Writes outside the grant, plain and disguised, have to be refused
/// for want of a grant; tampering with the session and several statements in one by the
/// classification; a resource that does not exist without a word on it; a write without an
/// echo of a secret; two requests from an untrusted origin at the authentication; and one
/// harmless read has to pass without an echo.
pub proof fn nine_probes_are_made(
    ctx: ProbeContext,
    corpus: VerifyCorpus,
    forbidden: Seq<Seq<char>>,
)
    ensures
        probes(ctx, corpus, forbidden).len() == 9,
        probes(ctx, corpus, forbidden)[0].name == "scope_out_mutate"@,
        probes(ctx, corpus, forbidden)[0].expect == ExpectFacts::DenyAt(Stage::Rbac),
        probes(ctx, corpus, forbidden)[0].request == probe_request(
            ctx,
            ctx.trusted_origin,
            ctx.resource@,
            corpus.scope_out_mutate@,
        ),
        probes(ctx, corpus, forbidden)[1].name == "disguised_write"@,
        probes(ctx, corpus, forbidden)[1].expect == ExpectFacts::DenyAt(Stage::Rbac),
        probes(ctx, corpus, forbidden)[1].request == probe_request(
            ctx,
            ctx.trusted_origin,
            ctx.resource@,
            corpus.disguised_write@,
        ),
        probes(ctx, corpus, forbidden)[2].name == "session_tamper"@,
        probes(ctx, corpus, forbidden)[2].expect == ExpectFacts::DenyAt(Stage::Classify),
        probes(ctx, corpus, forbidden)[2].request == probe_request(
            ctx,
            ctx.trusted_origin,
            ctx.resource@,
            corpus.session_tamper@,
        ),
        probes(ctx, corpus, forbidden)[3].name == "multi_statement"@,
        probes(ctx, corpus, forbidden)[3].expect == ExpectFacts::DenyAt(Stage::Classify),
        probes(ctx, corpus, forbidden)[3].request == probe_request(
            ctx,
            ctx.trusted_origin,
            ctx.resource@,
            corpus.multi_statement@,
        ),
        probes(ctx, corpus, forbidden)[4].name == "default_deny_unknown_resource"@,
        probes(ctx, corpus, forbidden)[4].expect == (ExpectFacts::DenyNoExistenceLeak {
                absent: "nonexistent-probe-target"@,
            }),
        probes(ctx, corpus, forbidden)[4].request == probe_request(
            ctx,
            ctx.trusted_origin,
            "nonexistent-probe-target"@,
            corpus.benign_query@,
        ),
        probes(ctx, corpus, forbidden)[5].name == "credential_zero_touch"@,
        probes(ctx, corpus, forbidden)[5].expect == (ExpectFacts::DenyNoSecretEcho { forbidden }),
        probes(ctx, corpus, forbidden)[5].request == probe_request(
            ctx,
            ctx.trusted_origin,
            ctx.resource@,
            corpus.scope_out_mutate@,
        ),
        probes(ctx, corpus, forbidden)[6].name == "origin_not_trusted"@,
        probes(ctx, corpus, forbidden)[6].expect == ExpectFacts::OriginNotTrusted,
        probes(ctx, corpus, forbidden)[6].request == probe_request(
            ctx,
            ctx.untrusted_origin,
            ctx.resource@,
            corpus.benign_query@,
        ),
        probes(ctx, corpus, forbidden)[7].name == "untrusted_origin_auth_stage"@,
        probes(ctx, corpus, forbidden)[7].expect == ExpectFacts::DenyAt(Stage::Auth),
        probes(ctx, corpus, forbidden)[7].request == probe_request(
            ctx,
            ctx.untrusted_origin,
            ctx.resource@,
            corpus.scope_out_mutate@,
        ),
        probes(ctx, corpus, forbidden)[8].name == "redaction_probe"@,
        probes(ctx, corpus, forbidden)[8].expect == (ExpectFacts::AllowNoSecretEcho { forbidden }),
        probes(ctx, corpus, forbidden)[8].request == probe_request(
            ctx,
            ctx.trusted_origin,
            ctx.resource@,
            corpus.benign_query@,
        ),
{
    let all = probes(ctx, corpus, forbidden);
    assert(all[0].name == "scope_out_mutate"@);
    assert(all[1].name == "disguised_write"@);
    assert(all[2].name == "session_tamper"@);
    assert(all[3].name == "multi_statement"@);
    assert(all[4].name == "default_deny_unknown_resource"@);
    assert(all[5].name == "credential_zero_touch"@);
    assert(all[6].name == "origin_not_trusted"@);
    assert(all[7].name == "untrusted_origin_auth_stage"@);
    assert(all[8].name == "redaction_probe"@);
}

/// The echo that is told is the first forbidden text, of those that are not empty, that
/// stands in the answer.
pub proof fn first_echo_is_told(text: Seq<char>, forbidden: Seq<Seq<char>>, i: int)
    requires
        0 <= i < forbidden.len(),
        forbidden[i].len() > 0,
        occurs_in(text, forbidden[i]),
        forall|j: int|
            0 <= j < i ==> (#[trigger] forbidden[j]).len() == 0 || !occurs_in(text, forbidden[j]),
    ensures
        first_echo(text, forbidden) == Some(forbidden[i]),
    decreases i,
{
    if i > 0 {
        assert(forbidden[0].len() == 0 || !occurs_in(text, forbidden[0]));
        assert forall|j: int| 0 <= j < i - 1 implies (#[trigger] forbidden.skip(1)[j]).len() == 0
            || !occurs_in(text, forbidden.skip(1)[j]) by {
            assert(forbidden[j + 1].len() == 0 || !occurs_in(text, forbidden[j + 1]));
        }
        first_echo_is_told(text, forbidden.skip(1), i - 1);
    }
}

/// Whether a decision stands in a log, at a stage that is asked for, at any stage, or
/// whatever the stage.
pub open spec fn logged(tail: Seq<Trace>, decision: Seq<char>, stage: Option<Stage>, any: bool) -> bool {
    exists|i: int|
        0 <= i < tail.len() && (#[trigger] tail[i]).0@ == decision && (match stage {
            Some(s) => tail[i].1 == Some(s),
            None => any || tail[i].1 is Some,
        })
}

/// A probe that has to be refused at a stage passes exactly where it is refused, its reason
/// names that stage, and the log holds the refusal at that stage.
pub proof fn refusals_at_a_stage_pass(stage: Stage, outcome: OutcomeFacts, tail: Seq<Trace>)
    ensures
        gap(ExpectFacts::DenyAt(stage), outcome, tail) is None <==> (outcome matches
            OutcomeFacts::Refused { reason, .. } && occurs_in(reason, stage_name(stage))) && logged(
            tail,
            "deny"@,
            Some(stage),
            false,
        ),
        gap(ExpectFacts::OriginNotTrusted, outcome, tail) is None <==> gap(
            ExpectFacts::DenyAt(Stage::Auth),
            outcome,
            tail,
        ) is None,
{
    lemma_logged(tail, stage);
    lemma_logged(tail, Stage::Auth);
}

/// A probe of a resource that does not exist passes exactly where it is refused, the
/// refusal neither lists the resource nor hints at a grant, and the log holds the refusal
/// for want of a grant.
pub proof fn silent_refusals_pass(absent: Seq<char>, outcome: OutcomeFacts, tail: Seq<Trace>)
    ensures
        gap(ExpectFacts::DenyNoExistenceLeak { absent }, outcome, tail) is None <==> (
        outcome matches OutcomeFacts::Refused { grants, hint, .. } && !grants.contains(absent)
            && !hint) && logged(tail, "deny"@, Some(Stage::Rbac), false),
{
    lemma_logged(tail, Stage::Rbac);
}

/// A probe that may not echo a secret passes exactly where it is refused, or where it has
/// to pass is let through, none of the forbidden texts that are not empty stands in the
/// answer, and the log holds the decision.
pub proof fn answers_without_an_echo_pass(
    forbidden: Seq<Seq<char>>,
    outcome: OutcomeFacts,
    tail: Seq<Trace>,
)
    ensures
        gap(ExpectFacts::DenyNoSecretEcho { forbidden }, outcome, tail) is None <==> (
        outcome matches OutcomeFacts::Refused { text, .. } && (forall|i: int|
            0 <= i < forbidden.len() ==> (#[trigger] forbidden[i]).len() == 0 || !occurs_in(
                text,
                forbidden[i],
            ))) && logged(tail, "deny"@, None, false),
        gap(ExpectFacts::AllowNoSecretEcho { forbidden }, outcome, tail) is None <==> (
        outcome matches OutcomeFacts::Allowed { text } && (forall|i: int|
            0 <= i < forbidden.len() ==> (#[trigger] forbidden[i]).len() == 0 || !occurs_in(
                text,
                forbidden[i],
            ))) && logged(tail, "allow"@, None, true),
{
    lemma_logged(tail, Stage::Rbac);
    match outcome {
        OutcomeFacts::Allowed { text } => no_echo_means_none_occurs(text, forbidden),
        OutcomeFacts::Refused { text, .. } => no_echo_means_none_occurs(text, forbidden),
    }
}

proof fn lemma_logged(tail: Seq<Trace>, stage: Stage)
    ensures
        refused_at(tail, stage) <==> logged(tail, "deny"@, Some(stage), false),
        refused_somewhere(tail) <==> logged(tail, "deny"@, None, false),
        allowed_once(tail) <==> logged(tail, "allow"@, None, true),
{
    if refused_at(tail, stage) {
        let i = choose|i: int|
            0 <= i < tail.len() && (#[trigger] tail[i]).0@ == "deny"@ && tail[i].1 == Some(stage);
        assert(tail[i].0@ == "deny"@);
    }
    if refused_somewhere(tail) {
        let i = choose|i: int|
            0 <= i < tail.len() && (#[trigger] tail[i]).0@ == "deny"@ && tail[i].1 is Some;
        assert(tail[i].0@ == "deny"@);
    }
    if allowed_once(tail) {
        let i = choose|i: int| 0 <= i < tail.len() && (#[trigger] tail[i]).0@ == "allow"@;
        assert(tail[i].0@ == "allow"@);
    }
}

/// The note on a gap names what it is about: the stage that should have refused, the
/// resource that was given away, or the secret that was echoed.
pub proof fn notes_name_what_they_are_about(
    stage: Stage,
    absent: Seq<char>,
    forbidden: Seq<Seq<char>>,
    outcome: OutcomeFacts,
    tail: Seq<Trace>,
)
    ensures
        gap(ExpectFacts::DenyAt(stage), outcome, tail) matches Some(note) ==> occurs_in(
            note,
            stage_name(stage),
        ),
        outcome matches OutcomeFacts::Refused { grants, .. } ==> (grants.contains(absent)
            ==> occurs_in(
            gap(ExpectFacts::DenyNoExistenceLeak { absent }, outcome, tail)->0,
            absent,
        )),
        outcome matches OutcomeFacts::Refused { text, .. } ==> (first_echo(text, forbidden) is Some
            ==> occurs_in(
            gap(ExpectFacts::DenyNoSecretEcho { forbidden }, outcome, tail)->0,
            first_echo(text, forbidden)->0,
        )),
        outcome matches OutcomeFacts::Allowed { text } ==> (first_echo(text, forbidden) is Some
            ==> occurs_in(
            gap(ExpectFacts::AllowNoSecretEcho { forbidden }, outcome, tail)->0,
            first_echo(text, forbidden)->0,
        )),
        outcome matches OutcomeFacts::Refused { reason, .. } ==> occurs_in(
            gap(ExpectFacts::AllowNoSecretEcho { forbidden }, outcome, tail)->0,
            reason,
        ),
{
    let name = stage_name(stage);
    match outcome {
        OutcomeFacts::Allowed { text } => {
            lemma_occurs_between("本应在 "@, name, " 阶被拒,实测却放行(防线漏放)"@);
            if let Some(needle) = first_echo(text, forbidden) {
                lemma_occurs_between(
                    "放行响应回显了真实机密子串 '"@,
                    needle,
                    "'(脱敏出口未擦净)"@,
                );
            }
        },
        OutcomeFacts::Refused { reason, text, grants, hint } => {
            let end = " 阶被拒,实测拒绝 reason='"@ + (reason + "' 未落该阶(防线错位)"@);
            lemma_occurs_between("本应在 "@, name, end);
            assert("本应在 "@ + name + " 阶被拒,实测拒绝 reason='"@ + (reason
                + "' 未落该阶(防线错位)"@) =~= "本应在 "@ + name + end);
            if let Some(note) = gap(ExpectFacts::DenyAt(stage), outcome, tail) {
                if occurs_in(reason, name) {
                    assert(stands_at(note, name, 0)) by {
                        assert(note.subrange(0, name.len() as int) =~= name);
                    }
                }
            }
            lemma_occurs_between(
                "拒绝响应泄露了资源 '"@,
                absent,
                "' 的存在性(your_grants 含被探测代号)"@,
            );
            if let Some(needle) = first_echo(text, forbidden) {
                lemma_occurs_between(
                    "拒绝响应泄露了真实机密子串 '"@,
                    needle,
                    "'(凭据零接触被破 / 脱敏未擦净)"@,
                );
            }
            lemma_occurs_between(
                "脱敏探测项本应放行,实测却被拒(reason='"@,
                reason,
                "')——授权种子或管线异常"@,
            );
        },
    }
}

proof fn lemma_occurs_between(before: Seq<char>, part: Seq<char>, after: Seq<char>)
    ensures
        occurs_in(before + part + after, part),
{
    let whole = before + part + after;
    let at = before.len() as int;
    assert(whole.subrange(at, at + part.len()) =~= part);
    assert(stands_at(whole, part, at));
}

/// The item of a probe has the probe's name, and passes exactly where there is no note.
pub proof fn items_pass_without_a_note(probe: ProbeFacts, outcome: OutcomeFacts, tail: Seq<Trace>)
    ensures
        item_of(probe, outcome, tail).name == probe.name,
        item_of(probe, outcome, tail).pass <==> item_of(probe, outcome, tail).gap_note is None,
        item_of(probe, outcome, tail).gap_note == gap(probe.expect, outcome, tail),
{
}

/// An answer is judged by what it says: a response by its text, a refusal by its reason, its
/// text, the grants that it lists and whether it hints at one.
pub proof fn answers_are_judged_by_what_they_say(
    bytes: Vec<u8>,
    deny: DenyView,
    text: &str,
)
    ensures
        outcome_facts(Ok(bytes)) == (OutcomeFacts::Allowed { text: lossy_text(bytes@) }),
        outcome_facts(Err(deny)) matches OutcomeFacts::Refused { reason, text: shown, grants, hint }
            && reason == deny.reason@ && shown == lossy_text(deny.bytes@) && hint
            == deny.request_hint_some && grants == texts(deny.your_grants_resources@),
        answer_facts(Answer::Allowed { text }) == (OutcomeFacts::Allowed { text: text@ }),
        answer_facts(Answer::Refused { deny: &deny, text }) matches OutcomeFacts::Refused {
            reason,
            text: shown,
            grants,
            hint,
        } && reason == deny.reason@ && shown == text@ && hint == deny.request_hint_some && grants
            == texts(deny.your_grants_resources@),
{
}

/// What is new in a log is what stands behind the entries that are accounted for, each
/// entry as it was written.
pub proof fn new_entries_stand_behind_the_old(log: Seq<Trace>, more: Seq<Trace>, i: int)
    ensures
        log_from(log + more, log.len() as int) == more,
        log_from(log, (log.len() + 1) as int) == Seq::<Trace>::empty(),
        0 <= i < log.len() ==> trace_facts(log)[i].0 == log[i].0@ && trace_facts(log)[i].1
            == log[i].1,
        trace_facts(log).len() == log.len(),
{
    assert((log + more).skip(log.len() as int) =~= more);
}

/// A probe, an expectation and an item say what they hold, one by one.
pub proof fn probes_say_what_they_hold(
    probe: Probe,
    probes: Seq<Probe>,
    item: VerifyItem,
    items: Seq<VerifyItem>,
    stage: Stage,
    absent: String,
    forbidden: Vec<String>,
    i: int,
)
    ensures
        probe@.name == probe.name@,
        probe@.expect == probe.expect@,
        probe@.request == probe.request@,
        item@.name == item.name@,
        item@.pass == item.pass,
        item.gap_note is Some <==> item@.gap_note is Some,
        item.gap_note is Some ==> item@.gap_note->0 == item.gap_note->0@,
        0 <= i < probes.len() ==> probe_facts(probes)[i] == probes[i]@,
        probe_facts(probes).len() == probes.len(),
        0 <= i < items.len() ==> item_facts(items)[i] == items[i]@,
        item_facts(items).len() == items.len(),
        Expect::DenyAt(stage)@ == ExpectFacts::DenyAt(stage),
        (Expect::DenyNoExistenceLeak { absent })@ == (ExpectFacts::DenyNoExistenceLeak {
            absent: absent@,
        }),
        (Expect::DenyNoSecretEcho { forbidden })@ == (ExpectFacts::DenyNoSecretEcho {
            forbidden: texts(forbidden@),
        }),
        Expect::OriginNotTrusted@ == ExpectFacts::OriginNotTrusted,
        (Expect::AllowNoSecretEcho { forbidden })@ == (ExpectFacts::AllowNoSecretEcho {
            forbidden: texts(forbidden@),
        }),
{
}

} // verus!
