//! Requests as calls of tools.

use super::http::HttpSubmit;
use super::{box_request, tool_names};
use crate::domain::{ConnOrigin, NormalizedRequest, PresentedCredential, RequestFacts};
use vstd::prelude::*;

verus! {

/// A call of a tool. It has no field for where it comes from.
#[derive(Debug)]
pub struct McpToolCall {
    pub tool: String,
    pub auth_kind: String,
    pub secret: Vec<u8>,
    pub resource: String,
    pub intent: Vec<u8>,
}

impl McpToolCall {
    /// What the call says, once it is brought in from an origin.
    pub open spec fn facts(self, origin: ConnOrigin) -> RequestFacts {
        RequestFacts {
            kind: self.auth_kind@,
            secret: self.secret@,
            origin,
            resource: self.resource@,
            intent: self.intent@,
        }
    }

    /// Brings the call into the form that the kernel takes.
    pub fn normalize(self, origin: ConnOrigin) -> (request: NormalizedRequest)
        ensures
            request@ == self.facts(origin),
            request.presented.kind@ == self.auth_kind@,
            request.presented.secret@ == self.secret@,
            request.origin == origin,
            request.resource@ == self.resource@,
            request.intent@ == self.intent@,
    {
        box_request(
            PresentedCredential { kind: self.auth_kind, secret: self.secret },
            origin,
            self.resource,
            self.intent,
        )
    }
}

/// The same request says the same, whichever entrance it comes by and whichever tool
/// it is a call of.
pub proof fn entrances_agree(submit: HttpSubmit, call: McpToolCall, origin: ConnOrigin)
    requires
        submit.auth_kind@ == call.auth_kind@,
        submit.secret@ == call.secret@,
        submit.resource@ == call.resource@,
        submit.intent@ == call.intent@,
    ensures
        submit.facts(origin) == call.facts(origin),
{
}

/// The tools that are offered, whatever is granted.
pub fn tools() -> (names: Vec<&'static str>)
    ensures
        names@ == tool_names(),
{
    let names: Vec<&'static str> = vec![
        "postern_grants",
        "postern_query",
        "observe",
        "mutate",
        "execute",
        "manage",
        "destroy",
        "postern_surface",
    ];
    assert(names@ =~= tool_names());
    names
}

} // verus!
