//! Encrypted envelopes relayed by the server, and the ratchet metadata that
//! travels with them.
pub mod envelope;
pub mod ratchet;

pub use envelope::{EncryptedEnvelope, EncryptedEnvelopeError, EnvelopeKind};
pub use ratchet::{RatchetHeader, RatchetSessionMetadata};
