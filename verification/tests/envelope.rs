use lib::messaging::envelope::{MAX_CIPHERTEXT_BYTES, MIN_AUTH_TAG_BYTES, MIN_NONCE_BYTES};
use lib::{EncryptedEnvelope, EncryptedEnvelopeError, EnvelopeKind, RatchetHeader, RatchetSessionMetadata};

fn valid_header() -> RatchetHeader {
    RatchetHeader::new([7; 32], 0, 1)
}

fn valid_envelope() -> EncryptedEnvelope {
    EncryptedEnvelope::new(
        "env-1",
        "conversation-1",
        "sender-device",
        vec!["recipient-device".to_owned()],
        EnvelopeKind::OneToOneMessage,
        valid_header(),
        b"secure-messaging.envelope.v1".to_vec(),
        vec![1; MIN_NONCE_BYTES],
        vec![2; 128],
        vec![3; MIN_AUTH_TAG_BYTES],
        1000,
    )
    .expect("valid encrypted envelope")
}

fn envelope_with(
    recipients: Vec<String>,
    header: RatchetHeader,
    nonce: Vec<u8>,
    ciphertext: Vec<u8>,
    tag: Vec<u8>,
) -> Result<EncryptedEnvelope, EncryptedEnvelopeError> {
    EncryptedEnvelope::new(
        "env-1",
        "conversation-1",
        "sender-device",
        recipients,
        EnvelopeKind::GroupMessage,
        header,
        vec![],
        nonce,
        ciphertext,
        tag,
        1000,
    )
}

#[test]
fn accepts_valid_encrypted_envelope() {
    assert_eq!(valid_envelope().validate(), Ok(()));
}

#[test]
fn rejects_missing_recipient() {
    let envelope = EncryptedEnvelope::new(
        "env-1",
        "conversation-1",
        "sender-device",
        vec![],
        EnvelopeKind::OneToOneMessage,
        valid_header(),
        vec![],
        vec![1; MIN_NONCE_BYTES],
        vec![2; 128],
        vec![3; MIN_AUTH_TAG_BYTES],
        1000,
    );

    assert_eq!(envelope, Err(EncryptedEnvelopeError::MissingRecipient));
}

#[test]
fn rejects_sender_as_recipient() {
    let envelope = EncryptedEnvelope::new(
        "env-1",
        "conversation-1",
        "sender-device",
        vec!["sender-device".to_owned()],
        EnvelopeKind::OneToOneMessage,
        valid_header(),
        vec![],
        vec![1; MIN_NONCE_BYTES],
        vec![2; 128],
        vec![3; MIN_AUTH_TAG_BYTES],
        1000,
    );

    assert_eq!(
        envelope,
        Err(EncryptedEnvelopeError::SenderIncludedAsRecipient)
    );
}

#[test]
fn rejects_zero_ratchet_public_key() {
    let envelope = EncryptedEnvelope::new(
        "env-1",
        "conversation-1",
        "sender-device",
        vec!["recipient-device".to_owned()],
        EnvelopeKind::OneToOneMessage,
        RatchetHeader::new([0; 32], 0, 1),
        vec![],
        vec![1; MIN_NONCE_BYTES],
        vec![2; 128],
        vec![3; MIN_AUTH_TAG_BYTES],
        1000,
    );

    assert_eq!(envelope, Err(EncryptedEnvelopeError::InvalidRatchetHeader));
}

#[test]
fn rejects_empty_ciphertext() {
    let envelope = EncryptedEnvelope::new(
        "env-1",
        "conversation-1",
        "sender-device",
        vec!["recipient-device".to_owned()],
        EnvelopeKind::OneToOneMessage,
        valid_header(),
        vec![],
        vec![1; MIN_NONCE_BYTES],
        vec![],
        vec![3; MIN_AUTH_TAG_BYTES],
        1000,
    );

    assert_eq!(envelope, Err(EncryptedEnvelopeError::InvalidCiphertextSize));
}

#[test]
fn detects_forbidden_plaintext_hints() {
    let envelope = valid_envelope();
    assert!(envelope.contains_plaintext_hint(&[b"envelope.v1"]));
    assert!(!envelope.contains_plaintext_hint(&[b"hello plaintext"]));
}

#[test]
fn rejects_blank_routing_identifier() {
    let envelope = EncryptedEnvelope::new(
        "env-1",
        " ",
        "sender-device",
        vec!["recipient-device".to_owned()],
        EnvelopeKind::ReadReceipt,
        valid_header(),
        vec![],
        vec![1; MIN_NONCE_BYTES],
        vec![2; 8],
        vec![3; MIN_AUTH_TAG_BYTES],
        1000,
    );
    assert_eq!(envelope, Err(EncryptedEnvelopeError::MissingRoutingIdentifier));
}

#[test]
fn rejects_blank_recipient_among_others() {
    let envelope = envelope_with(
        vec!["a".to_owned(), "\u{00a0}".to_owned()],
        valid_header(),
        vec![1; MIN_NONCE_BYTES],
        vec![2; 8],
        vec![3; MIN_AUTH_TAG_BYTES],
    );
    assert_eq!(envelope, Err(EncryptedEnvelopeError::MissingRecipient));
}

#[test]
fn rejects_sender_among_several_recipients() {
    let envelope = envelope_with(
        vec!["a".to_owned(), "b".to_owned(), "sender-device".to_owned()],
        valid_header(),
        vec![1; MIN_NONCE_BYTES],
        vec![2; 8],
        vec![3; MIN_AUTH_TAG_BYTES],
    );
    assert_eq!(envelope, Err(EncryptedEnvelopeError::SenderIncludedAsRecipient));
}

#[test]
fn rejects_short_nonce_oversized_ciphertext_and_short_tag() {
    let recipients = || vec!["r".to_owned()];
    assert_eq!(
        envelope_with(recipients(), valid_header(), vec![1; MIN_NONCE_BYTES - 1], vec![2; 8], vec![3; 16]),
        Err(EncryptedEnvelopeError::InvalidNonce)
    );
    assert_eq!(
        envelope_with(
            recipients(),
            valid_header(),
            vec![1; MIN_NONCE_BYTES],
            vec![2; MAX_CIPHERTEXT_BYTES + 1],
            vec![3; 16]
        ),
        Err(EncryptedEnvelopeError::InvalidCiphertextSize)
    );
    assert!(envelope_with(
        recipients(),
        valid_header(),
        vec![1; MIN_NONCE_BYTES],
        vec![2; MAX_CIPHERTEXT_BYTES],
        vec![3; 16]
    )
    .is_ok());
    assert_eq!(
        envelope_with(recipients(), valid_header(), vec![1; 12], vec![2; 8], vec![3; MIN_AUTH_TAG_BYTES - 1]),
        Err(EncryptedEnvelopeError::InvalidAuthenticationTag)
    );
}

#[test]
fn plaintext_hint_ignores_empty_needles_and_searches_ciphertext() {
    let envelope = valid_envelope();
    assert!(!envelope.contains_plaintext_hint(&[b""]));
    assert!(!envelope.contains_plaintext_hint(&[]));
    assert!(envelope.contains_plaintext_hint(&[b"nope", &[2, 2, 2]]));
    assert!(!envelope.contains_plaintext_hint(&[&[2; 129]]));
    assert!(envelope.contains_plaintext_hint(&[b"secure-messaging.envelope.v1"]));
}

#[test]
fn ratchet_metadata_keeps_its_fields() {
    let header = RatchetHeader::new([5; 32], 3, 9);
    assert_eq!(header.sender_ratchet_public_key_x25519, [5; 32]);
    assert_eq!(header.previous_chain_length, 3);
    assert_eq!(header.message_number, 9);
    let session = RatchetSessionMetadata::new("s", "local", "remote", 2);
    assert_eq!(session.session_id, "s");
    assert_eq!(session.local_device_id, "local");
    assert_eq!(session.remote_device_id, "remote");
    assert_eq!(session.root_key_version, 2);
}
