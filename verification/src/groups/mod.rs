//! Groups whose profile is end-to-end encrypted and whose membership is
//! managed by their owner and admins.
pub mod group;

pub use group::{Group, GroupError, GroupMember, GroupMemberRole, GroupMemberStatus};
