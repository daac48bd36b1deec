//! API keys: secrets from the network.

use super::secret_auth::{SecretAuthenticator, TrustDomain};
use vstd::prelude::*;

verus! {

/// The kind of this authenticator.
pub const KIND: &'static str = "api_key";

/// The authenticator of API keys.
pub fn authenticator() -> (authenticator: SecretAuthenticator)
    ensures
        authenticator.kind() == KIND@,
        authenticator.kind() == "api_key"@,
        authenticator.trust_domain() == TrustDomain::Network,
{
    SecretAuthenticator::new(KIND, TrustDomain::Network)
}

} // verus!
