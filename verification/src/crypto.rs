//! The cryptographic algorithms of the protocol and its domain separators.
use vstd::prelude::*;

verus! {

/// Domain separator of authentication signatures: `secure-messaging.auth.v1`.
pub const AUTH_DOMAIN_SEPARATOR: [u8; 24] = [
    115, 101, 99, 117, 114, 101, 45, 109, 101, 115, 115, 97, 103, 105, 110, 103, 46, 97, 117, 116,
    104, 46, 118, 49,
];

/// Domain separator of message envelopes: `secure-messaging.envelope.v1`.
pub const MESSAGE_ENVELOPE_DOMAIN_SEPARATOR: [u8; 28] = [
    115, 101, 99, 117, 114, 101, 45, 109, 101, 115, 115, 97, 103, 105, 110, 103, 46, 101, 110, 118,
    101, 108, 111, 112, 101, 46, 118, 49,
];

#[derive(Debug, Clone, Copy, PartialEq, Eq, Structural)]
pub enum AeadAlgorithm {
    ChaCha20Poly1305,
    Aes256Gcm,
}

#[derive(Debug, Clone, Copy, PartialEq, Eq, Structural)]
pub enum KeyAgreementAlgorithm {
    X25519,
}

#[derive(Debug, Clone, Copy, PartialEq, Eq, Structural)]
pub enum SignatureAlgorithm {
    Ed25519,
}

} // verus!
