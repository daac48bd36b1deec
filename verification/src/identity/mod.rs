//! Who a request comes from.
//!
//! Three kinds of authenticators: a local process is known by the uid and gid that
//! the kernel reports, an API key and a token by the secret behind them. Whatever
//! does not match, has expired, was revoked or comes from the wrong side is refused.

pub mod api_key;
pub mod expiry;
pub mod local_process;
pub mod secret_auth;
pub mod token;

use crate::domain::{AuthError, CredentialMeta};
use crate::identity::expiry::{is_live, lapse};
use crate::identity::local_process::LocalProcessAuthenticator;
use crate::identity::secret_auth::SecretAuthenticator;
use crate::table::{ascending, lookup, put};
use vstd::prelude::*;

verus! {

/// The principal of the first credential that matches and is live. Where only
/// lapsed ones match, the lapse of the first of them; where none matches,
/// `InvalidCredential`. `lapsed` is the lapse of an earlier match.
pub open spec fn first_live(
    creds: Seq<CredentialMeta>,
    matching: Seq<bool>,
    now: u64,
    lapsed: Option<AuthError>,
) -> Result<u64, AuthError>
    decreases creds.len(),
{
    if creds.len() == 0 {
        match lapsed {
            Some(e) => Err(e),
            None => Err(AuthError::InvalidCredential),
        }
    } else if matching[0] {
        match lapse(creds[0], now) {
            None => Ok(creds[0].principal),
            Some(e) => first_live(
                creds.skip(1),
                matching.skip(1),
                now,
                if lapsed is Some {
                    lapsed
                } else {
                    Some(e)
                },
            ),
        }
    } else {
        first_live(creds.skip(1), matching.skip(1), now, lapsed)
    }
}

/// A search for the first credential that matches and is live.
pub(crate) struct Search {
    pub(crate) found: Option<u64>,
    pub(crate) lapsed: Option<AuthError>,
}

impl Search {
    pub(crate) fn new() -> (search: Self)
        ensures
            search.found is None,
            search.lapsed is None,
    {
        Search { found: None, lapsed: None }
    }

    /// Takes the next credential, if it matches.
    pub(crate) fn take(&mut self, meta: &CredentialMeta, now: u64)
        requires
            old(self).found is None,
        ensures
            match lapse(*meta, now) {
                None => final(self).found == Some(meta.principal),
                Some(e) => final(self).found is None,
            },
            final(self).lapsed == match lapse(*meta, now) {
                Some(e) => if old(self).lapsed is Some {
                    old(self).lapsed
                } else {
                    Some(e)
                },
                None => old(self).lapsed,
            },
    {
        match is_live(meta, now) {
            Ok(()) => {
                self.found = Some(meta.principal);
            },
            Err(e) => {
                if self.lapsed.is_none() {
                    self.lapsed = Some(e);
                }
            },
        }
    }

    /// What came of a search that found no live match.
    pub(crate) fn failure(&self) -> (e: AuthError)
        ensures
            e == match self.lapsed {
                Some(lapsed) => lapsed,
                None => AuthError::InvalidCredential,
            },
    {
        match self.lapsed {
            Some(lapsed) => lapsed,
            None => AuthError::InvalidCredential,
        }
    }
}

/// A principal is found exactly where some credential matches and is live, and it is
/// the principal of one that does.
pub proof fn found_is_matching_and_live(
    creds: Seq<CredentialMeta>,
    matching: Seq<bool>,
    now: u64,
    lapsed: Option<AuthError>,
)
    requires
        creds.len() == matching.len(),
    ensures
        first_live(creds, matching, now, lapsed) is Ok <==> exists|i: int|
            0 <= i < creds.len() && #[trigger] matching[i] && lapse(creds[i], now) is None,
        first_live(creds, matching, now, lapsed) matches Ok(principal) ==> exists|i: int|
            0 <= i < creds.len() && #[trigger] matching[i] && lapse(creds[i], now) is None
                && creds[i].principal == principal,
    decreases creds.len(),
{
    if creds.len() > 0 {
        let rest = creds.skip(1);
        let rest_matching = matching.skip(1);
        let carried = if matching[0] && lapsed is None {
            lapse(creds[0], now)
        } else {
            lapsed
        };
        found_is_matching_and_live(rest, rest_matching, now, carried);
        if !(matching[0] && lapse(creds[0], now) is None) {
            if first_live(rest, rest_matching, now, carried) is Ok {
                let principal = first_live(rest, rest_matching, now, carried)->Ok_0;
                let i = choose|i: int|
                    0 <= i < rest.len() && #[trigger] rest_matching[i] && lapse(rest[i], now)
                        is None && rest[i].principal == principal;
                assert(matching[i + 1] && creds[i + 1] == rest[i]);
            }
            if exists|i: int|
                0 <= i < creds.len() && #[trigger] matching[i] && lapse(creds[i], now) is None {
                let i = choose|i: int|
                    0 <= i < creds.len() && #[trigger] matching[i] && lapse(creds[i], now) is None;
                assert(rest_matching[i - 1] && rest[i - 1] == creds[i]);
            }
        }
    }
}

/// Of several credentials that match and are live the first one decides; lapsed ones
/// before it and whatever stands behind it do not.
pub proof fn first_live_match_decides(
    creds: Seq<CredentialMeta>,
    matching: Seq<bool>,
    now: u64,
    lapsed: Option<AuthError>,
    i: int,
)
    requires
        creds.len() == matching.len(),
        0 <= i < creds.len(),
        matching[i],
        creds[i].expires_at matches Some(end) ==> now < end,
        creds[i].revoked_at matches Some(end) ==> now < end,
        forall|j: int|
            0 <= j < i && #[trigger] matching[j] ==> (creds[j].expires_at matches Some(end) && end
                <= now) || (creds[j].revoked_at matches Some(end) && end <= now),
    ensures
        first_live(creds, matching, now, lapsed) == Ok::<_, AuthError>(creds[i].principal),
    decreases i,
{
    if i > 0 {
        let carried = if matching[0] && lapsed is None {
            lapse(creds[0], now)
        } else {
            lapsed
        };
        assert forall|j: int| 0 <= j < i - 1 && #[trigger] matching.skip(1)[j] implies (
        creds.skip(1)[j].expires_at matches Some(end) && end <= now) || (
        creds.skip(1)[j].revoked_at matches Some(end) && end <= now) by {
            assert(matching[j + 1]);
        }
        first_live_match_decides(creds.skip(1), matching.skip(1), now, carried, i - 1);
    }
}

/// Where no credential matches, the answer is that the credential is not valid; it
/// does not tell whether there are any.
pub proof fn without_a_match_nothing_is_told(
    creds: Seq<CredentialMeta>,
    matching: Seq<bool>,
    now: u64,
)
    requires
        creds.len() == matching.len(),
        forall|i: int| 0 <= i < creds.len() ==> !#[trigger] matching[i],
    ensures
        first_live(creds, matching, now, None) == Err::<u64, _>(AuthError::InvalidCredential),
    decreases creds.len(),
{
    if creds.len() > 0 {
        assert(!matching[0]);
        assert forall|i: int| 0 <= i < creds.len() - 1 implies !#[trigger] matching.skip(1)[i] by {
            assert(!matching[i + 1]);
        }
        without_a_match_nothing_is_told(creds.skip(1), matching.skip(1), now);
    }
}

/// Where every credential that matches has lapsed, the first of them tells how:
/// expired, or else revoked.
pub proof fn first_lapse_is_told(
    creds: Seq<CredentialMeta>,
    matching: Seq<bool>,
    now: u64,
    i: int,
)
    requires
        creds.len() == matching.len(),
        0 <= i < creds.len(),
        matching[i],
        forall|j: int| 0 <= j < i ==> !#[trigger] matching[j],
        forall|j: int|
            0 <= j < creds.len() && #[trigger] matching[j] ==> (creds[j].expires_at matches Some(
                end,
            ) && end <= now) || (creds[j].revoked_at matches Some(end) && end <= now),
    ensures
        first_live(creds, matching, now, None) == Err::<u64, _>(
            if creds[i].expires_at is Some && creds[i].expires_at->0 <= now {
                AuthError::ExpiredCredential
            } else {
                AuthError::RevokedCredential
            },
        ),
    decreases creds.len(),
{
    let rest = creds.skip(1);
    let rest_matching = matching.skip(1);
    assert forall|j: int| 0 <= j < rest.len() && #[trigger] rest_matching[j] implies (
    rest[j].expires_at matches Some(end) && end <= now) || (rest[j].revoked_at matches Some(end)
        && end <= now) by {
        assert(matching[j + 1]);
    }
    if i == 0 {
        lemma_lapse_is_kept(rest, rest_matching, now, lapse(creds[0], now)->0);
    } else {
        assert(!matching[0]);
        assert forall|j: int| 0 <= j < i - 1 implies !#[trigger] rest_matching[j] by {
            assert(!matching[j + 1]);
        }
        first_lapse_is_told(rest, rest_matching, now, i - 1);
    }
}

proof fn lemma_lapse_is_kept(
    creds: Seq<CredentialMeta>,
    matching: Seq<bool>,
    now: u64,
    lapsed: AuthError,
)
    requires
        creds.len() == matching.len(),
        forall|j: int|
            0 <= j < creds.len() && #[trigger] matching[j] ==> (creds[j].expires_at matches Some(
                end,
            ) && end <= now) || (creds[j].revoked_at matches Some(end) && end <= now),
    ensures
        first_live(creds, matching, now, Some(lapsed)) == Err::<u64, _>(lapsed),
    decreases creds.len(),
{
    if creds.len() > 0 {
        let rest = creds.skip(1);
        let rest_matching = matching.skip(1);
        assert forall|j: int| 0 <= j < rest.len() && #[trigger] rest_matching[j] implies (
        rest[j].expires_at matches Some(end) && end <= now) || (rest[j].revoked_at matches Some(end)
            && end <= now) by {
            assert(matching[j + 1]);
        }
        lemma_lapse_is_kept(rest, rest_matching, now, lapsed);
    }
}

/// An authenticator of one of the three kinds.
#[derive(Clone, Copy, Debug)]
pub enum AuthenticatorKind {
    LocalProcess(LocalProcessAuthenticator),
    Secret(SecretAuthenticator),
}

/// The authenticators by kind, in ascending order of kind.
pub fn authenticator_registry() -> (table: Vec<(String, AuthenticatorKind)>)
    ensures
        ascending(table@),
        table@.len() == 3,
        lookup(table@, local_process::KIND@) == Some(
            AuthenticatorKind::LocalProcess(LocalProcessAuthenticator {  }),
        ),
        lookup(table@, api_key::KIND@) matches Some(AuthenticatorKind::Secret(a)) && a.kind()
            == api_key::KIND@ && a.trust_domain() == secret_auth::TrustDomain::Network,
        lookup(table@, token::KIND@) matches Some(AuthenticatorKind::Secret(a)) && a.kind()
            == token::KIND@ && a.trust_domain() == secret_auth::TrustDomain::Network,
{
    let mut table: Vec<(String, AuthenticatorKind)> = Vec::new();
    proof {
        reveal_strlit("local_process");
        reveal_strlit("api_key");
        reveal_strlit("token");
        assert("local_process"@.len() != "api_key"@.len());
        assert("local_process"@.len() != "token"@.len());
        assert("api_key"@.len() != "token"@.len());
    }
    put(
        &mut table,
        local_process::KIND.to_owned(),
        AuthenticatorKind::LocalProcess(LocalProcessAuthenticator {  }),
    );
    put(&mut table, api_key::KIND.to_owned(), AuthenticatorKind::Secret(api_key::authenticator()));
    put(&mut table, token::KIND.to_owned(), AuthenticatorKind::Secret(token::authenticator()));
    table
}

} // verus!
