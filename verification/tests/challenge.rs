use lib::crypto::{AUTH_DOMAIN_SEPARATOR, MESSAGE_ENVELOPE_DOMAIN_SEPARATOR};
use lib::auth::challenge::{CHALLENGE_DOMAIN, MAX_CHALLENGE_TTL_SECONDS};
use lib::auth::device_identity::DeviceIdentity;
use lib::{AuthChallenge, AuthChallengeError, AuthChallengeVerifier, SignedAuthChallenge};

fn approved_device() -> DeviceIdentity {
    let mut device =
        DeviceIdentity::new_pending("device-1", "Test", [1; 32], [2; 32], [3; 64], 100)
            .expect("valid public key material");
    device.approve(101).expect("pending device approval");
    device
}

fn signed_answer() -> SignedAuthChallenge {
    SignedAuthChallenge {
        challenge_id: "challenge-1".to_owned(),
        device_id: "device-1".to_owned(),
        signature_ed25519: [4; 64],
    }
}

#[test]
fn builds_domain_separated_signing_payload() {
    let challenge = AuthChallenge::new("challenge-1", "device-1", [9; 32], 100, 60)
        .expect("valid challenge");
    let payload = challenge.signing_payload();

    assert!(payload.starts_with(&CHALLENGE_DOMAIN));
    assert!(
        payload
            .windows("challenge-1".len())
            .any(|window| window == b"challenge-1")
    );
    assert!(
        payload
            .windows("device-1".len())
            .any(|window| window == b"device-1")
    );
}

#[test]
fn rejects_pending_device_metadata() {
    let device =
        DeviceIdentity::new_pending("device-1", "Test", [1; 32], [2; 32], [3; 64], 100)
            .expect("valid public key material");
    let challenge = AuthChallenge::new("challenge-1", "device-1", [9; 32], 100, 60)
        .expect("valid challenge");
    let signed = SignedAuthChallenge {
        challenge_id: "challenge-1".to_owned(),
        device_id: "device-1".to_owned(),
        signature_ed25519: [4; 64],
    };

    assert_eq!(
        AuthChallengeVerifier::verify_metadata(&challenge, &signed, &device, 120),
        Err(AuthChallengeError::DeviceNotApproved)
    );
}

#[test]
fn rejects_expired_challenge_metadata() {
    let device = approved_device();
    let challenge = AuthChallenge::new("challenge-1", "device-1", [9; 32], 100, 60)
        .expect("valid challenge");
    let signed = SignedAuthChallenge {
        challenge_id: "challenge-1".to_owned(),
        device_id: "device-1".to_owned(),
        signature_ed25519: [4; 64],
    };

    assert_eq!(
        AuthChallengeVerifier::verify_metadata(&challenge, &signed, &device, 160),
        Err(AuthChallengeError::ExpiredChallenge)
    );
}

#[test]
fn accepts_valid_approved_device_challenge_metadata() {
    let device = approved_device();
    let challenge = AuthChallenge::new("challenge-1", "device-1", [9; 32], 100, 60)
        .expect("valid challenge");
    let signed = SignedAuthChallenge {
        challenge_id: "challenge-1".to_owned(),
        device_id: "device-1".to_owned(),
        signature_ed25519: [4; 64],
    };

    assert_eq!(
        AuthChallengeVerifier::verify_metadata(&challenge, &signed, &device, 159),
        Ok(())
    );
}

#[test]
fn signing_payload_has_exact_layout() {
    let challenge = AuthChallenge::new("c", "d", [9; 32], 100, 60).unwrap();
    let mut expected = b"secure-messaging.auth.v1".to_vec();
    expected.extend_from_slice(b"c");
    expected.push(0);
    expected.extend_from_slice(b"d");
    expected.push(0);
    expected.extend_from_slice(&[9; 32]);
    expected.extend_from_slice(&160i64.to_be_bytes());
    assert_eq!(challenge.signing_payload(), expected);
}

#[test]
fn signing_payload_encodes_negative_expiry_and_unicode() {
    let challenge = AuthChallenge::new("défi", "appareil", [7; 32], -1000, 1).unwrap();
    assert_eq!(challenge.expires_at_unix_seconds, -999);
    let payload = challenge.signing_payload();
    let mut expected = CHALLENGE_DOMAIN.to_vec();
    expected.extend_from_slice("défi".as_bytes());
    expected.push(0);
    expected.extend_from_slice(b"appareil");
    expected.push(0);
    expected.extend_from_slice(&[7; 32]);
    expected.extend_from_slice(&(-999i64).to_be_bytes());
    assert_eq!(payload, expected);
}

#[test]
fn challenge_expires_at_issue_plus_ttl() {
    let challenge = AuthChallenge::new("challenge-1", "device-1", [9; 32], 100, 60).unwrap();
    assert_eq!(challenge.expires_at_unix_seconds, 160);
    assert!(!challenge.is_expired(159));
    assert!(challenge.is_expired(160));
}

#[test]
fn new_challenge_reports_each_error() {
    assert_eq!(
        AuthChallenge::new("", "device-1", [9; 32], 100, 60),
        Err(AuthChallengeError::EmptyIdentifier)
    );
    assert_eq!(
        AuthChallenge::new("challenge-1", " \n", [9; 32], 100, 60),
        Err(AuthChallengeError::EmptyIdentifier)
    );
    assert_eq!(
        AuthChallenge::new("challenge-1", "device-1", [0; 32], 100, 60),
        Err(AuthChallengeError::InvalidNonce)
    );
    assert_eq!(
        AuthChallenge::new("challenge-1", "device-1", [9; 32], 100, 0),
        Err(AuthChallengeError::InvalidTtl)
    );
    assert_eq!(
        AuthChallenge::new("challenge-1", "device-1", [9; 32], 100, MAX_CHALLENGE_TTL_SECONDS + 1),
        Err(AuthChallengeError::InvalidTtl)
    );
    assert!(AuthChallenge::new("challenge-1", "device-1", [9; 32], 100, MAX_CHALLENGE_TTL_SECONDS).is_ok());
}

#[test]
fn verify_metadata_reports_mismatches_and_zero_signature() {
    let device = approved_device();
    let challenge = AuthChallenge::new("challenge-1", "device-1", [9; 32], 100, 60).unwrap();

    let mut other_challenge = signed_answer();
    other_challenge.challenge_id = "challenge-2".to_owned();
    assert_eq!(
        AuthChallengeVerifier::verify_metadata(&challenge, &other_challenge, &device, 120),
        Err(AuthChallengeError::ChallengeMismatch)
    );

    let mut other_device = signed_answer();
    other_device.device_id = "device-2".to_owned();
    assert_eq!(
        AuthChallengeVerifier::verify_metadata(&challenge, &other_device, &device, 120),
        Err(AuthChallengeError::ChallengeMismatch)
    );

    let stranger = {
        let mut d = DeviceIdentity::new_pending("device-9", "Other", [1; 32], [2; 32], [3; 64], 100)
            .unwrap();
        d.approve(101).unwrap();
        d
    };
    assert_eq!(
        AuthChallengeVerifier::verify_metadata(&challenge, &signed_answer(), &stranger, 120),
        Err(AuthChallengeError::DeviceMismatch)
    );

    let mut zero = signed_answer();
    zero.signature_ed25519 = [0; 64];
    assert_eq!(
        AuthChallengeVerifier::verify_metadata(&challenge, &zero, &device, 120),
        Err(AuthChallengeError::InvalidSignature)
    );
}

#[test]
fn revoked_device_is_refused_metadata() {
    let mut device = approved_device();
    device.revoke(130);
    let challenge = AuthChallenge::new("challenge-1", "device-1", [9; 32], 100, 60).unwrap();
    assert_eq!(
        AuthChallengeVerifier::verify_metadata(&challenge, &signed_answer(), &device, 140),
        Err(AuthChallengeError::DeviceNotApproved)
    );
}

#[test]
fn signing_payload_is_not_an_envelope_payload() {
    let challenge = AuthChallenge::new("challenge-1", "device-1", [9; 32], 100, 60).unwrap();
    let payload = challenge.signing_payload();
    assert!(payload.starts_with(&AUTH_DOMAIN_SEPARATOR));
    assert!(!payload.starts_with(&MESSAGE_ENVELOPE_DOMAIN_SEPARATOR));
    assert_eq!(&AUTH_DOMAIN_SEPARATOR, b"secure-messaging.auth.v1");
    assert_eq!(&MESSAGE_ENVELOPE_DOMAIN_SEPARATOR, b"secure-messaging.envelope.v1");
}

#[test]
fn distinct_challenges_sign_distinct_payloads() {
    let a = AuthChallenge::new("ab", "c", [9; 32], 100, 60).unwrap();
    let b = AuthChallenge::new("a", "bc", [9; 32], 100, 60).unwrap();
    let c = AuthChallenge::new("ab", "c", [9; 32], 100, 61).unwrap();
    let d = AuthChallenge::new("ab", "c", [8; 32], 100, 60).unwrap();
    let e = AuthChallenge::new("ab", "c", [9; 32], 101, 59).unwrap();
    assert_ne!(a.signing_payload(), b.signing_payload());
    assert_ne!(a.signing_payload(), c.signing_payload());
    assert_ne!(a.signing_payload(), d.signing_payload());
    assert_eq!(a.signing_payload(), e.signing_payload());
}
