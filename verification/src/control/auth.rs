//! The entry to the control socket.
//!
//! Both conditions have to hold: the peer runs under the daemon's uid, and it
//! presents the control token. Only the health probe goes without the token.

use super::dto::{error_is, HttpError};
use super::Actor;
use crate::domain::ConnOrigin;
use crate::text::{decimal, decimal_of, joined, same_text};
use vstd::prelude::*;

verus! {

/// The header that carries the control token.
pub const CONTROL_TOKEN_HEADER: &'static str = "x-postern-control-token";

/// The path that may be read without the control token.
pub const TOKEN_EXEMPT_PATH: &'static str = "/v1/health";

/// The method by which it may be read.
pub const TOKEN_EXEMPT_METHOD: &'static str = "GET";

/// Why a request was turned away.
#[derive(Clone, Copy, Debug, PartialEq, Eq, Structural)]
pub enum AuthReject {
    PeerUidMismatch,
    MissingControlCredential,
}

/// The rule of the entry: the uid first, then the token.
pub open spec fn entry(peer_uid: u32, self_uid: u32, credential_ok: bool) -> Option<AuthReject> {
    if peer_uid != self_uid {
        Some(AuthReject::PeerUidMismatch)
    } else if !credential_ok {
        Some(AuthReject::MissingControlCredential)
    } else {
        None
    }
}

/// Lets a request through only under the daemon's uid and with the token.
pub fn authenticate(peer_uid: u32, self_uid: u32, credential_ok: bool) -> (result: Result<
    (),
    AuthReject,
>)
    ensures
        match result {
            Ok(_) => entry(peer_uid, self_uid, credential_ok) is None,
            Err(e) => entry(peer_uid, self_uid, credential_ok) == Some(e),
        },
        result is Ok <==> peer_uid == self_uid && credential_ok,
        result == Err::<(), _>(AuthReject::PeerUidMismatch) <==> peer_uid != self_uid,
{
    if peer_uid != self_uid {
        return Err(AuthReject::PeerUidMismatch);
    }
    if !credential_ok {
        return Err(AuthReject::MissingControlCredential);
    }
    Ok(())
}

/// The uid of a peer, as the kernel reports it.
#[derive(Clone, Copy, Debug, PartialEq, Eq, Structural)]
pub struct PeerUid(pub u32);

/// The operator that a peer acts as.
pub fn operator_of_peer(peer_uid: u32) -> (actor: Actor)
    ensures
        actor matches Actor::Operator(id) && id@ == "uid:"@ + decimal(peer_uid as nat),
{
    let uid = decimal_of(peer_uid as u64);
    Actor::Operator(joined("uid:", uid.as_str()))
}

/// A peer of the control socket, as it is shown to the handlers.
#[derive(Debug)]
pub struct ControlPeer {
    pub uid: PeerUid,
    pub origin: ConnOrigin,
    pub actor: Actor,
}

/// Takes a connection to the control socket. One whose origin is unknown or not
/// local is dropped.
pub fn control_peer(origin: Option<ConnOrigin>) -> (peer: Option<ControlPeer>)
    ensures
        match origin {
            Some(ConnOrigin::UnixPeer { uid, gid }) => peer matches Some(p) && {
                &&& p.uid.0 == uid
                &&& p.origin == (ConnOrigin::UnixPeer { uid, gid })
                &&& p.actor matches Actor::Operator(id) && id@ == "uid:"@ + decimal(uid as nat)
            },
            _ => peer is None,
        },
{
    match origin {
        Some(ConnOrigin::UnixPeer { uid, gid }) => Some(
            ControlPeer {
                uid: PeerUid(uid),
                origin: ConnOrigin::UnixPeer { uid, gid },
                actor: operator_of_peer(uid),
            },
        ),
        _ => None,
    }
}

/// What the entry is checked against: the daemon's uid and the control token, if there is
/// one.
#[derive(Debug)]
pub struct ControlAuth {
    pub self_uid: u32,
    pub token: Option<Vec<u8>>,
}

impl ControlAuth {
    /// An entry check for a uid and a token.
    pub fn new(self_uid: u32, token: Option<Vec<u8>>) -> (auth: Self)
        ensures
            auth.self_uid == self_uid,
            auth.token == token,
    {
        Self { self_uid, token }
    }

    /// Whether what was presented is the token. Nothing is, where there is no token,
    /// and nothing presented is no token either.
    pub open spec fn accepts(&self, presented: Seq<u8>) -> bool {
        &&& presented.len() > 0
        &&& self.token matches Some(token)
        &&& token@ == presented
    }

    /// Compares what was presented with the token, all of it whether or not it
    /// differs.
    pub fn credential_ok(&self, presented: &[u8]) -> (ok: bool)
        ensures
            ok == self.accepts(presented@),
            ok <==> presented@.len() > 0 && self.token is Some && self.token->0@ == presented@,
    {
        let expected = match &self.token {
            Some(token) => token,
            None => {
                return false;
            },
        };
        if presented.len() == 0 || expected.len() != presented.len() {
            return false;
        }
        let mut diff: u8 = 0;
        let mut i: usize = 0;
        while i < presented.len()
            invariant
                i <= presented@.len() == expected@.len(),
                diff == 0 <==> forall|j: int| 0 <= j < i ==> expected@[j] == presented@[j],
            decreases presented@.len() - i,
        {
            let a: u8 = expected[i];
            let b: u8 = presented[i];
            let ghost before = diff;
            proof {
                assert((before | (a ^ b)) == 0 <==> before == 0 && a == b) by (bit_vector);
            }
            diff = diff | (a ^ b);
            i = i + 1;
        }
        if diff == 0 {
            assert(expected@ =~= presented@);
        }
        diff == 0
    }

    /// Whether a request may do without the token.
    pub open spec fn exempt(method: Seq<char>, path: Seq<char>) -> bool {
        method == TOKEN_EXEMPT_METHOD@ && path == TOKEN_EXEMPT_PATH@
    }

    /// The ruling on a request: without a known peer nothing passes, and what
    /// is not presented counts as empty.
    pub open spec fn ruling(
        &self,
        peer: Option<PeerUid>,
        method: Seq<char>,
        path: Seq<char>,
        presented: Option<Seq<u8>>,
    ) -> Option<AuthReject> {
        match peer {
            Some(uid) => entry(
                uid.0,
                self.self_uid,
                Self::exempt(method, path) || (presented matches Some(p) && self.accepts(p)),
            ),
            None => Some(AuthReject::PeerUidMismatch),
        }
    }

    /// Lets a request in, or turns it away.
    pub fn control_auth(
        &self,
        peer: Option<PeerUid>,
        method: &str,
        path: &str,
        presented: Option<&[u8]>,
    ) -> (result: Result<(), AuthReject>)
        ensures
            ({
                let shown = match presented {
                    Some(p) => Some(p@),
                    None => None,
                };
                match result {
                    Ok(_) => self.ruling(peer, method@, path@, shown) is None,
                    Err(e) => self.ruling(peer, method@, path@, shown) == Some(e),
                }
            }),
            result is Ok <==> peer == Some(PeerUid(self.self_uid)) && ((method@ == "GET"@ && path@
                == "/v1/health"@) || (presented is Some && presented->0@.len() > 0
                && self.token is Some && self.token->0@ == presented->0@)),
            result matches Err(e) ==> (e == AuthReject::PeerUidMismatch <==> peer != Some(
                PeerUid(self.self_uid),
            )),
    {
        let peer_uid: u32 = match peer {
            Some(uid) => uid.0,
            None => {
                return Err(AuthReject::PeerUidMismatch);
            },
        };
        let credential_ok: bool = if same_text(method, TOKEN_EXEMPT_METHOD) && same_text(
            path,
            TOKEN_EXEMPT_PATH,
        ) {
            true
        } else {
            match presented {
                Some(p) => self.credential_ok(p),
                None => false,
            }
        };
        authenticate(peer_uid, self.self_uid, credential_ok)
    }
}

/// The answer to a request that was turned away.
pub fn reject(reason: AuthReject) -> (error: HttpError)
    ensures
        match reason {
            AuthReject::PeerUidMismatch => error_is(
                error,
                403,
                "peer_uid_mismatch"@,
                "peer uid does not match the daemon uid"@,
            ),
            AuthReject::MissingControlCredential => error_is(
                error,
                401,
                "missing_control_credential"@,
                "missing or invalid control credential"@,
            ),
        },
{
    match reason {
        AuthReject::PeerUidMismatch => HttpError::new(
            403,
            "peer_uid_mismatch",
            "peer uid does not match the daemon uid",
        ),
        AuthReject::MissingControlCredential => HttpError::new(
            401,
            "missing_control_credential",
            "missing or invalid control credential",
        ),
    }
}

/// Without a token of its own the entry is closed to all but the health probe, and
/// nothing at all from another uid.
pub proof fn no_entry_without_token(
    auth: &ControlAuth,
    peer: Option<PeerUid>,
    method: Seq<char>,
    path: Seq<char>,
    presented: Option<Seq<u8>>,
)
    ensures
        auth.token is None && !ControlAuth::exempt(method, path) ==> auth.ruling(
            peer,
            method,
            path,
            presented,
        ) is Some,
        peer != Some(PeerUid(auth.self_uid)) ==> auth.ruling(peer, method, path, presented)
            == Some(AuthReject::PeerUidMismatch),
{
}

/// A request passes exactly where its peer is known and has the daemon's uid, and it
/// either reads the health or presents the very token, which is not empty. Another peer
/// is told that its uid is wrong, whatever it presents, and the daemon's own peer that
/// the token is.
pub proof fn entry_takes_the_uid_and_the_token(
    auth: &ControlAuth,
    peer: Option<PeerUid>,
    method: Seq<char>,
    path: Seq<char>,
    presented: Option<Seq<u8>>,
)
    ensures
        auth.ruling(peer, method, path, presented) is None <==> peer == Some(
            PeerUid(auth.self_uid),
        ) && ((method == "GET"@ && path == "/v1/health"@) || (presented is Some
            && presented->0.len() > 0 && auth.token is Some && auth.token->0@ == presented->0)),
        auth.ruling(peer, method, path, presented) == Some(AuthReject::PeerUidMismatch) <==> peer
            != Some(PeerUid(auth.self_uid)),
        CONTROL_TOKEN_HEADER@ == "x-postern-control-token"@,
{
}

} // verus!
