//! Tokens: secrets from the network.

use super::secret_auth::{SecretAuthenticator, TrustDomain};
use vstd::prelude::*;

verus! {

/// The kind of this authenticator.
pub const KIND: &'static str = "token";

/// The authenticator of tokens.
pub fn authenticator() -> (authenticator: SecretAuthenticator)
    ensures
        authenticator.kind() == KIND@,
        authenticator.kind() == "token"@,
        authenticator.trust_domain() == TrustDomain::Network,
{
    SecretAuthenticator::new(KIND, TrustDomain::Network)
}

} // verus!
