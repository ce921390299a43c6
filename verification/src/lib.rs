//! Server-side library for the secure private messaging backend.
//!
//! The server stores public authentication material and relays encrypted
//! envelopes only. It never generates client private keys or decrypts message
//! payloads. Every rule it enforces is stated as a contract over a
//! mathematical view of its records, and proved.
pub mod admin;
pub mod auth;
pub mod crypto;
pub mod groups;
pub mod messaging;
pub mod text;

pub use auth::challenge::{
    AuthChallenge, AuthChallengeError, AuthChallengeVerifier, SignedAuthChallenge,
};
pub use auth::device_identity::{DeviceIdentity, DeviceIdentityError, DeviceStatus};
pub use messaging::envelope::{EncryptedEnvelope, EncryptedEnvelopeError, EnvelopeKind};
pub use messaging::ratchet::{RatchetHeader, RatchetSessionMetadata};
