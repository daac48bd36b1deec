//! Whether a credential is still good at a given instant.

use crate::domain::{AuthError, CredentialMeta};
use vstd::prelude::*;

verus! {

/// Why a credential is no longer good, if it is not. Expiry goes before revocation,
/// and both hold from their instant on.
pub open spec fn lapse(meta: CredentialMeta, now: u64) -> Option<AuthError> {
    if meta.expires_at is Some && now >= meta.expires_at->0 {
        Some(AuthError::ExpiredCredential)
    } else if meta.revoked_at is Some && now >= meta.revoked_at->0 {
        Some(AuthError::RevokedCredential)
    } else {
        None
    }
}

/// Whether a credential is still good at `now`.
pub fn is_live(meta: &CredentialMeta, now: u64) -> (live: Result<(), AuthError>)
    ensures
        match live {
            Ok(_) => lapse(*meta, now) is None,
            Err(e) => lapse(*meta, now) == Some(e),
        },
        live is Ok <==> (meta.expires_at is None || now < meta.expires_at->0) && (meta.revoked_at
            is None || now < meta.revoked_at->0),
{
    if let Some(expires_at) = meta.expires_at {
        if now >= expires_at {
            return Err(AuthError::ExpiredCredential);
        }
    }
    if let Some(revoked_at) = meta.revoked_at {
        if now >= revoked_at {
            return Err(AuthError::RevokedCredential);
        }
    }
    Ok(())
}

/// A credential that has lapsed stays lapsed.
pub proof fn lapse_is_final(meta: CredentialMeta, now: u64, later: u64)
    requires
        lapse(meta, now) is Some,
        now <= later,
    ensures
        lapse(meta, later) is Some,
{
}

/// A credential is good exactly at the instants that lie before its expiry and before
/// its revocation; one that has neither is always good.
pub proof fn credential_is_good_until_it_ends(meta: CredentialMeta, now: u64)
    ensures
        lapse(meta, now) is None <==> (meta.expires_at matches Some(end) ==> now < end) && (
        meta.revoked_at matches Some(end) ==> now < end),
        meta.expires_at == Some(now) ==> lapse(meta, now) == Some(AuthError::ExpiredCredential),
        lapse(meta, now) == Some(AuthError::ExpiredCredential) ==> meta.expires_at is Some,
        lapse(meta, now) == Some(AuthError::RevokedCredential) ==> meta.revoked_at is Some && (
        meta.expires_at matches Some(end) ==> now < end),
        lapse(meta, now) is Some ==> lapse(meta, now)->0 == AuthError::ExpiredCredential
            || lapse(meta, now)->0 == AuthError::RevokedCredential,
{
}

} // verus!
