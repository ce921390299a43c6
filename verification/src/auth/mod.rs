//! Device registration and approval, and challenge-response authentication.
pub mod challenge;
pub mod device_identity;

pub use challenge::{AuthChallenge, AuthChallengeError, AuthChallengeVerifier, SignedAuthChallenge};
pub use device_identity::{DeviceIdentity, DeviceIdentityError, DeviceStatus};
