//! Administrative flows: single- or few-use invites for new devices.
pub mod invite;

pub use invite::{Invite, InviteError, InviteRedemption, InviteStatus};
