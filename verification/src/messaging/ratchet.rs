//! Public ratchet metadata: what the server may see of a double-ratchet session.
use vstd::prelude::*;

verus! {

#[derive(Debug, Clone, PartialEq, Eq)]
pub struct RatchetHeader {
    pub sender_ratchet_public_key_x25519: [u8; 32],
    pub previous_chain_length: u32,
    pub message_number: u32,
}

impl RatchetHeader {
    pub fn new(
        sender_ratchet_public_key_x25519: [u8; 32],
        previous_chain_length: u32,
        message_number: u32,
    ) -> (r: Self)
        ensures
            r.sender_ratchet_public_key_x25519 == sender_ratchet_public_key_x25519,
            r.previous_chain_length == previous_chain_length,
            r.message_number == message_number,
    {
        RatchetHeader { sender_ratchet_public_key_x25519, previous_chain_length, message_number }
    }
}

#[derive(Debug, Clone, PartialEq, Eq)]
pub struct RatchetSessionMetadata {
    pub session_id: String,
    pub local_device_id: String,
    pub remote_device_id: String,
    pub root_key_version: u32,
}

impl RatchetSessionMetadata {
    pub fn new(
        session_id: &str,
        local_device_id: &str,
        remote_device_id: &str,
        root_key_version: u32,
    ) -> (r: Self)
        ensures
            r.session_id@ == session_id@,
            r.local_device_id@ == local_device_id@,
            r.remote_device_id@ == remote_device_id@,
            r.root_key_version == root_key_version,
    {
        RatchetSessionMetadata {
            session_id: session_id.to_owned(),
            local_device_id: local_device_id.to_owned(),
            remote_device_id: remote_device_id.to_owned(),
            root_key_version,
        }
    }
}

} // verus!
