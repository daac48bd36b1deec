use argon2::password_hash::{PasswordHasher, SaltString};
use argon2::{Algorithm, Argon2, Params, Version};
use postern_daemon::domain::{AuthError, ConnOrigin, CredentialMeta, PresentedCredential};
use postern_daemon::identity::expiry::is_live;
use postern_daemon::identity::local_process::{LocalProcessAuthenticator, UidRule};
use postern_daemon::identity::secret_auth::{
    has_known_parallelism, SecretAuthenticator, TrustDomain,
};
use postern_daemon::identity::{api_key, authenticator_registry, token, AuthenticatorKind};

fn cred(principal: u64, kind: &str, hash: &str) -> CredentialMeta {
    CredentialMeta {
        principal,
        kind: kind.to_string(),
        secret_hash: hash.to_string(),
        expires_at: None,
        revoked_at: None,
    }
}

fn phc(secret: &[u8]) -> String {
    let salt = SaltString::from_b64("c29tZXNhbHQ").unwrap();
    let params = Params::new(8, 1, 1, None).unwrap();
    Argon2::new(Algorithm::Argon2id, Version::V0x13, params)
        .hash_password(secret, &salt)
        .unwrap()
        .to_string()
}

fn presented(secret: &[u8]) -> PresentedCredential {
    PresentedCredential { kind: "api_key".to_string(), secret: secret.to_vec() }
}

fn tcp() -> ConnOrigin {
    ConnOrigin::Tcp { remote: "r".to_string() }
}

fn unix(uid: u32, gid: u32) -> ConnOrigin {
    ConnOrigin::UnixPeer { uid, gid }
}

#[test]
fn lapse_begins_at_its_instant() {
    let mut c = cred(1, "k", "");
    assert_eq!(is_live(&c, 10), Ok(()));
    c.expires_at = Some(10);
    assert_eq!(is_live(&c, 9), Ok(()));
    assert_eq!(is_live(&c, 10), Err(AuthError::ExpiredCredential));
    c.revoked_at = Some(5);
    assert_eq!(is_live(&c, 5), Err(AuthError::RevokedCredential));
    assert_eq!(is_live(&c, 10), Err(AuthError::ExpiredCredential));
}

#[test]
fn rules_are_read() {
    assert_eq!(UidRule::parse("uid=5"), Some(UidRule { uid: 5, gid: None }));
    assert_eq!(UidRule::parse(" uid = 5 , gid=7 "), Some(UidRule { uid: 5, gid: Some(7) }));
    assert_eq!(UidRule::parse("gid=7,uid=5"), Some(UidRule { uid: 5, gid: Some(7) }));
    assert_eq!(UidRule::parse("uid=1,uid=2,"), Some(UidRule { uid: 2, gid: None }));
    assert_eq!(UidRule::parse("uid=+3"), Some(UidRule { uid: 3, gid: None }));
    for bad in ["", "gid=7", "uid", "uid=", "uid=x", "uid=-1", "uid=1,pid=2", "uid=4294967296", "uid=1=2"] {
        assert_eq!(UidRule::parse(bad), None, "{}", bad);
    }
}

#[test]
fn rules_match_uid_and_gid() {
    let r = UidRule { uid: 5, gid: Some(7) };
    assert!(r.matches(5, 7));
    assert!(!r.matches(5, 8));
    assert!(!r.matches(6, 7));
    assert!(UidRule { uid: 5, gid: None }.matches(5, 99));
}

#[test]
fn local_processes_are_known_by_their_uid() {
    let a = LocalProcessAuthenticator {};
    assert_eq!(a.kind(), "local_process");
    let creds = vec![
        cred(1, "api_key", "uid=5"),
        cred(2, "local_process", "nonsense"),
        cred(3, "local_process", "uid=5,gid=1"),
        cred(4, "local_process", "uid=5"),
    ];
    assert_eq!(a.authenticate(&unix(5, 1), &creds, 0), Ok(3));
    assert_eq!(a.authenticate(&unix(5, 2), &creds, 0), Ok(4));
    assert_eq!(a.authenticate(&unix(6, 1), &creds, 0), Err(AuthError::InvalidCredential));
    assert_eq!(a.authenticate(&tcp(), &creds, 0), Err(AuthError::UndeterminableOrigin));
}

#[test]
fn a_live_match_goes_before_a_lapsed_one() {
    let a = LocalProcessAuthenticator {};
    let mut creds = vec![cred(1, "local_process", "uid=5"), cred(2, "local_process", "uid=5")];
    creds[0].expires_at = Some(3);
    assert_eq!(a.authenticate(&unix(5, 0), &creds, 3), Ok(2));
    creds[1].revoked_at = Some(3);
    assert_eq!(a.authenticate(&unix(5, 0), &creds, 3), Err(AuthError::ExpiredCredential));
    assert_eq!(a.authenticate(&unix(5, 0), &creds, 2), Ok(1));
}

#[test]
fn secrets_are_verified() {
    let a = api_key::authenticator();
    assert_eq!(a.registered_kind(), "api_key");
    let creds = vec![
        cred(1, "token", &phc(b"right")),
        cred(2, "api_key", "not a phc string"),
        cred(3, "api_key", &phc(b"other")),
        cred(4, "api_key", &phc(b"right")),
    ];
    assert_eq!(a.authenticate(&presented(b"right"), &tcp(), &creds, 0), Ok(4));
    assert_eq!(
        a.authenticate(&presented(b"wrong"), &tcp(), &creds, 0),
        Err(AuthError::InvalidCredential)
    );
    assert_eq!(token::authenticator().authenticate(&presented(b"right"), &tcp(), &creds, 0), Ok(1));
}

#[test]
fn the_last_parallelism_of_a_string_counts() {
    for (text, known) in [
        ("", true),
        ("p=", false),
        ("$argon2id$v=19$m=8,t=1,p=1$c29t$x", true),
        ("$argon2id$p=16777215", true),
        ("$argon2id$p=16777216", false),
        ("$argon2id$m=8,p=536870912$c29t", false),
        ("$argon2id$m=8,p=99999999999999999999$c29t", false),
        ("$argon2id$m=8,p=1,p=536870912$c29t", false),
        ("$argon2id$m=8,p=536870912,p=1$c29t", true),
        ("$argon2id$m=8,xp=536870912$c29t", true),
        ("p", true),
    ] {
        assert_eq!(has_known_parallelism(text), known, "{:?}", text);
    }
}

#[test]
fn too_much_parallelism_accepts_nothing() {
    let a = api_key::authenticator();
    let good = phc(b"right");
    assert!(good.contains(",p=1$"));
    for value in ["16777216", "536870912", "4294967295", "4294967296"] {
        let creds = vec![cred(1, "api_key", &good.replace(",p=1$", &format!(",p={}$", value)))];
        assert_eq!(
            a.authenticate(&presented(b"right"), &tcp(), &creds, 0),
            Err(AuthError::InvalidCredential)
        );
    }
    let creds = vec![
        cred(1, "api_key", &good.replace(",p=1$", ",p=1,p=536870912$")),
        cred(2, "api_key", &good.replace(",p=1$", ",p=536870912,p=1$")),
    ];
    assert_eq!(a.authenticate(&presented(b"right"), &tcp(), &creds, 0), Ok(2));
}

#[test]
fn secrets_from_the_wrong_side_are_refused() {
    let creds = vec![cred(4, "api_key", &phc(b"right"))];
    let a = api_key::authenticator();
    assert_eq!(
        a.authenticate(&presented(b"right"), &unix(0, 0), &creds, 0),
        Err(AuthError::TrustDomainMismatch)
    );
    let local = SecretAuthenticator::new("api_key", TrustDomain::LocalUnix);
    assert_eq!(local.authenticate(&presented(b"right"), &unix(0, 0), &creds, 0), Ok(4));
    assert_eq!(
        local.authenticate(&presented(b"right"), &tcp(), &creds, 0),
        Err(AuthError::TrustDomainMismatch)
    );
}

#[test]
fn decision_on_accepted_secrets() {
    let a = api_key::authenticator();
    let mut creds = vec![cred(1, "api_key", ""), cred(2, "api_key", ""), cred(3, "token", "")];
    assert_eq!(a.decide(&tcp(), &creds, &[false, true, true], 0), Ok(2));
    assert_eq!(a.decide(&tcp(), &creds, &[false, false, true], 0), Err(AuthError::InvalidCredential));
    creds[0].revoked_at = Some(1);
    assert_eq!(a.decide(&tcp(), &creds, &[true, false, true], 1), Err(AuthError::RevokedCredential));
    assert_eq!(a.decide(&tcp(), &creds, &[true, true, true], 1), Ok(2));
    assert_eq!(
        a.decide(&unix(1, 1), &creds, &[true, true, true], 1),
        Err(AuthError::TrustDomainMismatch)
    );
}

#[test]
fn three_kinds_are_registered() {
    let table = authenticator_registry();
    let keys: Vec<&str> = table.iter().map(|(k, _)| k.as_str()).collect();
    assert_eq!(keys, vec!["api_key", "local_process", "token"]);
    assert!(matches!(table[0].1, AuthenticatorKind::Secret(_)));
    assert!(matches!(table[1].1, AuthenticatorKind::LocalProcess(_)));
    assert!(matches!(table[2].1, AuthenticatorKind::Secret(_)));
}
