//! Requests over HTTP.

use super::box_request;
use crate::domain::{ConnOrigin, NormalizedRequest, PresentedCredential, RequestFacts};
use vstd::prelude::*;

verus! {

/// A request over HTTP. It has no field for where it comes from.
#[derive(Debug)]
pub struct HttpSubmit {
    pub auth_kind: String,
    pub secret: Vec<u8>,
    pub resource: String,
    pub intent: Vec<u8>,
}

impl HttpSubmit {
    /// What the request says, once it is brought in from an origin.
    pub open spec fn facts(self, origin: ConnOrigin) -> RequestFacts {
        RequestFacts {
            kind: self.auth_kind@,
            secret: self.secret@,
            origin,
            resource: self.resource@,
            intent: self.intent@,
        }
    }

    /// Brings the request into the form that the kernel takes.
    pub fn normalize(self, origin: ConnOrigin) -> (request: NormalizedRequest)
        ensures
            request@ == self.facts(origin),
            request.presented.kind@ == self.auth_kind@,
            request.presented.secret@ == self.secret@,
            request.origin == origin,
            request.resource@ == self.resource@,
            request.intent@ == self.intent@,
    {
        box_request(
            PresentedCredential { kind: self.auth_kind, secret: self.secret },
            origin,
            self.resource,
            self.intent,
        )
    }
}

} // verus!
