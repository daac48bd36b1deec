//! Authentication by a secret.

use super::{first_live, first_live_match_decides, without_a_match_nothing_is_told, Search};
use crate::domain::{AuthError, ConnOrigin, CredentialMeta, PresentedCredential};
use crate::text::{chars_of, copy_chars, number_in, parse_number, same_text};
use argon2::password_hash::{PasswordHash, PasswordVerifier};
use argon2::Argon2;
use vstd::prelude::*;

verus! {

/// The side that a kind of credential may come from, as observed.
#[derive(Clone, Copy, Debug, PartialEq, Eq, Structural)]
pub enum TrustDomain {
    /// Only over TCP.
    Network,
    /// Only from a local peer.
    LocalUnix,
}

impl TrustDomain {
    /// Whether an origin is on this side.
    pub open spec fn covers(self, origin: ConnOrigin) -> bool {
        match self {
            TrustDomain::Network => origin is Tcp,
            TrustDomain::LocalUnix => origin is UnixPeer,
        }
    }

    /// Whether an origin is on this side.
    pub fn admits(self, origin: &ConnOrigin) -> (yes: bool)
        ensures
            yes == self.covers(*origin),
            self == TrustDomain::Network ==> yes == (*origin is Tcp),
            self == TrustDomain::LocalUnix ==> yes == (*origin is UnixPeer),
    {
        match (self, origin) {
            (TrustDomain::Network, ConnOrigin::Tcp { .. }) => true,
            (TrustDomain::LocalUnix, ConnOrigin::UnixPeer { .. }) => true,
            _ => false,
        }
    }
}

/// The largest degree of parallelism that Argon2 knows.
pub const MAX_PARALLELISM: u32 = 0xff_ffff;

/// Whether a character parts the fields of a PHC string or the parameters in a field.
pub open spec fn parts(c: char) -> bool {
    c == '$' || c == ','
}

/// Whether the parameter `p`, the degree of parallelism, stands at `at`.
pub open spec fn names_parallelism(phc: Seq<char>, at: int) -> bool {
    &&& 0 <= at && at + 1 < phc.len()
    &&& phc[at] == 'p' && phc[at + 1] == '='
    &&& at == 0 || parts(phc[at - 1])
}

/// Where the value that stands at `from` ends.
pub open spec fn value_end(phc: Seq<char>, from: int) -> int
    decreases phc.len() - from,
{
    if 0 <= from < phc.len() && !parts(phc[from]) {
        value_end(phc, from + 1)
    } else {
        from
    }
}

/// Whether a value is a degree of parallelism that Argon2 knows.
pub open spec fn is_parallelism(value: Seq<char>) -> bool {
    number_in(value) matches Some(n) && n <= MAX_PARALLELISM
}

/// Whether a PHC string asks for no more parallelism than Argon2 knows: where it
/// names any, the last that it names, which is the one that counts.
pub open spec fn parallelism_fits(phc: Seq<char>) -> bool {
    forall|at: int|
        #[trigger] names_parallelism(phc, at) && (forall|later: int|
            at < later ==> !#[trigger] names_parallelism(phc, later)) ==> is_parallelism(
            phc.subrange(at + 2, value_end(phc, at + 2)),
        )
}

fn is_part(c: char) -> (yes: bool)
    ensures
        yes == parts(c),
{
    c == '$' || c == ','
}

/// Whether a PHC string asks for no more parallelism than Argon2 knows.
pub fn has_known_parallelism(phc: &str) -> (known: bool)
    ensures
        known == parallelism_fits(phc@),
{
    let chars = chars_of(phc);
    let mut at: usize = chars.len();
    while at > 0
        invariant
            at <= chars@.len(),
            chars@ == phc@,
            forall|later: int| at <= later ==> !#[trigger] names_parallelism(phc@, later),
        decreases at,
    {
        at = at - 1;
        if chars.len() - at > 1 && chars[at] == 'p' && chars[at + 1] == '=' && (at == 0 || is_part(
            chars[at - 1],
        )) {
            assert(names_parallelism(phc@, at as int));
            let from: usize = at + 2;
            let mut to: usize = from;
            while to < chars.len() && !is_part(chars[to])
                invariant
                    from <= to <= chars@.len(),
                    chars@ == phc@,
                    value_end(phc@, from as int) == value_end(phc@, to as int),
                decreases chars@.len() - to,
            {
                to = to + 1;
            }
            let value = copy_chars(&chars, from, to);
            return match parse_number(value.as_slice()) {
                Some(n) => n <= MAX_PARALLELISM,
                None => false,
            };
        }
        assert(!names_parallelism(phc@, at as int));
    }
    true
}

/// Whether Argon2 finds that a secret is the one behind a PHC string.
pub uninterp spec fn argon2_accepts(secret: Seq<u8>, phc: Seq<char>) -> bool;

/// `PasswordHash::new` and `Argon2::verify_password` of the `argon2` crate: parses
/// the PHC string and verifies the secret against it, with the algorithm and the
/// parameters that the string names. A string that does not parse accepts nothing.
/// The result depends on the secret and the string alone. The crate multiplies the
/// degree of parallelism before it compares it with the largest one that it knows,
/// so strings that ask for more are left out.
#[verifier::external_body]
fn verify_secret(secret: &[u8], phc: &str) -> (accepted: bool)
    requires
        parallelism_fits(phc@),
    ensures
        accepted == argon2_accepts(secret@, phc@),
{
    match PasswordHash::new(phc) {
        Ok(parsed) => Argon2::default().verify_password(secret, &parsed).is_ok(),
        Err(_) => false,
    }
}

/// An authenticator for one kind of secrets from one side.
#[derive(Clone, Copy, Debug)]
pub struct SecretAuthenticator {
    kind: &'static str,
    trust_domain: TrustDomain,
}

/// Which credentials are of a kind and accepted.
pub open spec fn accepted_of_kind(
    creds: Seq<CredentialMeta>,
    kind: Seq<char>,
    accepted: Seq<bool>,
) -> Seq<bool> {
    Seq::new(creds.len(), |i: int| creds[i].kind@ == kind && accepted[i])
}

/// Which credentials a secret is accepted for: those whose string asks for no more
/// parallelism than Argon2 knows, and for which Argon2 accepts the secret.
pub open spec fn acceptances(creds: Seq<CredentialMeta>, secret: Seq<u8>) -> Seq<bool> {
    Seq::new(
        creds.len(),
        |i: int|
            parallelism_fits(creds[i].secret_hash@) && argon2_accepts(
                secret,
                creds[i].secret_hash@,
            ),
    )
}

/// The decision on a secret: the side first, then the credentials in order.
pub open spec fn secret_decision(
    kind: Seq<char>,
    side: TrustDomain,
    origin: ConnOrigin,
    creds: Seq<CredentialMeta>,
    accepted: Seq<bool>,
    now: u64,
) -> Result<u64, AuthError> {
    if side.covers(origin) {
        first_live(creds, accepted_of_kind(creds, kind, accepted), now, None)
    } else {
        Err(AuthError::TrustDomainMismatch)
    }
}

impl SecretAuthenticator {
    /// The kind of credentials.
    pub closed spec fn kind(&self) -> Seq<char> {
        self.kind@
    }

    /// The side that the credentials may come from.
    pub closed spec fn trust_domain(&self) -> TrustDomain {
        self.trust_domain
    }

    /// An authenticator for a kind of secrets from a side.
    pub fn new(kind: &'static str, trust_domain: TrustDomain) -> (authenticator: Self)
        ensures
            authenticator.kind() == kind@,
            authenticator.trust_domain() == trust_domain,
    {
        Self { kind, trust_domain }
    }

    /// The kind under which the authenticator is registered.
    pub fn registered_kind(&self) -> (kind: &'static str)
        ensures
            kind@ == self.kind(),
    {
        self.kind
    }

    /// Decides on a secret that is known to be accepted for some of the credentials.
    pub fn decide(
        &self,
        origin: &ConnOrigin,
        creds: &Vec<CredentialMeta>,
        accepted: &[bool],
        now: u64,
    ) -> (result: Result<u64, AuthError>)
        requires
            accepted@.len() == creds@.len(),
        ensures
            result == secret_decision(
                self.kind(),
                self.trust_domain(),
                *origin,
                creds@,
                accepted@,
                now,
            ),
    {
        if !self.trust_domain.admits(origin) {
            return Err(AuthError::TrustDomainMismatch);
        }
        let ghost matching = accepted_of_kind(creds@, self.kind(), accepted@);
        let mut search = Search::new();
        let mut i: usize = 0;
        assert(creds@.skip(0) =~= creds@);
        assert(matching.skip(0) =~= matching);
        while i < creds.len()
            invariant
                i <= creds@.len() == accepted@.len(),
                matching == accepted_of_kind(creds@, self.kind(), accepted@),
                self.trust_domain().covers(*origin),
                search.found is None,
                first_live(creds@, matching, now, None) == first_live(
                    creds@.skip(i as int),
                    matching.skip(i as int),
                    now,
                    search.lapsed,
                ),
            decreases creds@.len() - i,
        {
            proof {
                assert(creds@.skip(i as int).skip(1) =~= creds@.skip(i + 1));
                assert(matching.skip(i as int).skip(1) =~= matching.skip(i + 1));
            }
            let meta = &creds[i];
            if same_text(meta.kind.as_str(), self.kind) && accepted[i] {
                search.take(meta, now);
                if let Some(principal) = search.found {
                    return Ok(principal);
                }
            }
            i = i + 1;
        }
        Err(search.failure())
    }

    /// Authenticates a presented secret: the origin has to be on the right side, and
    /// the secret has to be accepted for a credential of the kind that is live.
    pub fn authenticate(
        &self,
        presented: &PresentedCredential,
        origin: &ConnOrigin,
        creds: &Vec<CredentialMeta>,
        now: u64,
    ) -> (result: Result<u64, AuthError>)
        ensures
            result == secret_decision(
                self.kind(),
                self.trust_domain(),
                *origin,
                creds@,
                acceptances(creds@, presented.secret@),
                now,
            ),
    {
        if !self.trust_domain.admits(origin) {
            return Err(AuthError::TrustDomainMismatch);
        }
        let ghost accepted = acceptances(creds@, presented.secret@);
        let ghost matching = accepted_of_kind(creds@, self.kind(), accepted);
        let mut search = Search::new();
        let mut i: usize = 0;
        assert(creds@.skip(0) =~= creds@);
        assert(matching.skip(0) =~= matching);
        while i < creds.len()
            invariant
                i <= creds@.len(),
                accepted == acceptances(creds@, presented.secret@),
                matching == accepted_of_kind(creds@, self.kind(), accepted),
                self.trust_domain().covers(*origin),
                search.found is None,
                first_live(creds@, matching, now, None) == first_live(
                    creds@.skip(i as int),
                    matching.skip(i as int),
                    now,
                    search.lapsed,
                ),
            decreases creds@.len() - i,
        {
            proof {
                assert(creds@.skip(i as int).skip(1) =~= creds@.skip(i + 1));
                assert(matching.skip(i as int).skip(1) =~= matching.skip(i + 1));
            }
            let meta = &creds[i];
            if same_text(meta.kind.as_str(), self.kind) && has_known_parallelism(
                meta.secret_hash.as_str(),
            ) && verify_secret(presented.secret.as_slice(), meta.secret_hash.as_str()) {
                search.take(meta, now);
                if let Some(principal) = search.found {
                    return Ok(principal);
                }
            }
            i = i + 1;
        }
        Err(search.failure())
    }
}

/// A secret for the network is taken from TCP peers only, and one for local use from
/// local peers only; any other origin is told that the side is wrong, whatever the
/// credentials are.
pub proof fn wrong_side_is_refused(
    kind: Seq<char>,
    side: TrustDomain,
    origin: ConnOrigin,
    creds: Seq<CredentialMeta>,
    accepted: Seq<bool>,
    now: u64,
)
    ensures
        side == TrustDomain::Network && origin is UnixPeer ==> secret_decision(
            kind,
            side,
            origin,
            creds,
            accepted,
            now,
        ) == Err::<u64, _>(AuthError::TrustDomainMismatch),
        side == TrustDomain::LocalUnix && origin is Tcp ==> secret_decision(
            kind,
            side,
            origin,
            creds,
            accepted,
            now,
        ) == Err::<u64, _>(AuthError::TrustDomainMismatch),
{
}

/// From the right side the first credential of the very kind that is accepted and has
/// not ended decides.
pub proof fn accepted_secret_passes(
    kind: Seq<char>,
    side: TrustDomain,
    origin: ConnOrigin,
    creds: Seq<CredentialMeta>,
    accepted: Seq<bool>,
    now: u64,
    i: int,
)
    requires
        side == TrustDomain::Network ==> origin is Tcp,
        side == TrustDomain::LocalUnix ==> origin is UnixPeer,
        accepted.len() == creds.len(),
        0 <= i < creds.len(),
        creds[i].kind@ == kind,
        accepted[i],
        creds[i].expires_at matches Some(end) ==> now < end,
        creds[i].revoked_at matches Some(end) ==> now < end,
        forall|j: int| 0 <= j < i ==> (#[trigger] creds[j]).kind@ != kind || !accepted[j],
    ensures
        secret_decision(kind, side, origin, creds, accepted, now) == Ok::<_, AuthError>(
            creds[i].principal,
        ),
{
    let matching = accepted_of_kind(creds, kind, accepted);
    assert forall|j: int| 0 <= j < i && #[trigger] matching[j] implies (
    creds[j].expires_at matches Some(end) && end <= now) || (creds[j].revoked_at matches Some(end)
        && end <= now) by {
        assert(creds[j].kind@ == kind && accepted[j]);
    }
    first_live_match_decides(creds, matching, now, None, i);
}

/// A secret that is accepted for credentials of other kinds only is not valid.
pub proof fn other_kinds_do_not_count(
    kind: Seq<char>,
    side: TrustDomain,
    origin: ConnOrigin,
    creds: Seq<CredentialMeta>,
    accepted: Seq<bool>,
    now: u64,
)
    requires
        side == TrustDomain::Network ==> origin is Tcp,
        side == TrustDomain::LocalUnix ==> origin is UnixPeer,
        accepted.len() == creds.len(),
        forall|j: int|
            0 <= j < creds.len() ==> (#[trigger] creds[j]).kind@ != kind || !accepted[j],
    ensures
        secret_decision(kind, side, origin, creds, accepted, now) == Err::<u64, _>(
            AuthError::InvalidCredential,
        ),
{
    let matching = accepted_of_kind(creds, kind, accepted);
    assert forall|j: int| 0 <= j < creds.len() implies !#[trigger] matching[j] by {
        assert(creds[j].kind@ != kind || !accepted[j]);
    }
    without_a_match_nothing_is_told(creds, matching, now);
}

/// A PHC string that names no parallelism asks for none that Argon2 does not know.
pub proof fn string_without_parallelism_fits(phc: Seq<char>)
    requires
        forall|i: int| 0 <= i < phc.len() - 1 ==> !((#[trigger] phc[i]) == 'p' && phc[i + 1] == '='),
    ensures
        parallelism_fits(phc),
{
}

/// Where the last parameter `p` of a PHC string stands, behind the beginning, a dollar
/// sign or a comma, its value decides: up to the next dollar sign or comma it has to be
/// a number of at most 16777215.
pub proof fn last_parallelism_decides(phc: Seq<char>, at: int, end: int)
    requires
        0 <= at,
        at + 2 <= end <= phc.len(),
        phc[at] == 'p' && phc[at + 1] == '=',
        at == 0 || phc[at - 1] == '$' || phc[at - 1] == ',',
        forall|i: int| at + 2 <= i < end ==> phc[i] != '$' && phc[i] != ',',
        end == phc.len() || phc[end] == '$' || phc[end] == ',',
        forall|i: int|
            at < i < phc.len() - 1 ==> !((#[trigger] phc[i]) == 'p' && phc[i + 1] == '=' && (phc[i
                - 1] == '$' || phc[i - 1] == ',')),
    ensures
        parallelism_fits(phc) <==> (number_in(phc.subrange(at + 2, end)) matches Some(n) && n
            <= 16777215),
{
    lemma_value_end(phc, at + 2, end);
    assert(names_parallelism(phc, at));
    assert forall|later: int| at < later implies !#[trigger] names_parallelism(phc, later) by {
        if later < phc.len() - 1 {
            assert(!(phc[later] == 'p' && phc[later + 1] == '=' && (phc[later - 1] == '$'
                || phc[later - 1] == ',')));
        }
    }
    assert forall|other: int|
        #[trigger] names_parallelism(phc, other) && (forall|later: int|
            other < later ==> !#[trigger] names_parallelism(phc, later)) implies other == at by {
        if other < at {
            assert(names_parallelism(phc, at));
        }
    }
}

proof fn lemma_value_end(phc: Seq<char>, from: int, end: int)
    requires
        0 <= from <= end <= phc.len(),
        forall|i: int| from <= i < end ==> phc[i] != '$' && phc[i] != ',',
        end == phc.len() || phc[end] == '$' || phc[end] == ',',
    ensures
        value_end(phc, from) == end,
    decreases end - from,
{
    if from < end {
        lemma_value_end(phc, from + 1, end);
    }
}

/// A secret is accepted for a credential exactly where its string asks for no more
/// parallelism than Argon2 knows and Argon2 accepts the secret for that string.
pub proof fn secrets_are_accepted_by_argon2(
    creds: Seq<CredentialMeta>,
    secret: Seq<u8>,
    i: int,
)
    requires
        0 <= i < creds.len(),
    ensures
        acceptances(creds, secret).len() == creds.len(),
        acceptances(creds, secret)[i] <==> parallelism_fits(creds[i].secret_hash@)
            && argon2_accepts(secret, creds[i].secret_hash@),
{
}

} // verus!
