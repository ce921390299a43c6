# Secure messaging server library

The server side of an invite-only, end-to-end encrypted messaging system:
device registration and approval, challenge-response authentication, invites,
groups with encrypted profiles, and validation of encrypted envelopes. The
server only ever handles public key material and ciphertext.

Layout:

- `src/admin/invite.rs` – invites and their redemption.
- `src/auth/device_identity.rs` – device records and approval.
- `src/auth/challenge.rs` – authentication challenges and their signed bytes.
- `src/groups/group.rs` – group membership, roles and the membership epoch.
- `src/messaging/` – encrypted envelopes and ratchet metadata.
- `src/crypto.rs` – algorithms and domain separators.
- `src/text.rs` – whitespace, byte and substring predicates.
- `tests/` – behaviour on concrete values.
- `app/` – the error types as `std::error::Error` values.

Each record has a mathematical view; each operation's contract gives its exact
outcome over that view, and the laws of the protocol (invites are redeemed at
most their limit, revoked devices never authenticate again, owners cannot be
removed, accepted group changes advance the epoch, signed challenge bytes are
domain separated and identify the challenge) are proof functions beside them.
