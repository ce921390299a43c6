//! The encrypted envelope: routing metadata in the clear, content encrypted.
use vstd::prelude::*;

use crate::messaging::ratchet::RatchetHeader;
use crate::text::{
    all_zero, contains_window, is_blank, is_blank_text, is_zero_bytes, occurs_at, occurs_in,
    str_equal,
};

verus! {

pub const MIN_NONCE_BYTES: usize = 12;

pub const MIN_AUTH_TAG_BYTES: usize = 16;

pub const MAX_CIPHERTEXT_BYTES: usize = 32 * 1024 * 1024;

#[derive(Debug, Clone, Copy, PartialEq, Eq, Structural)]
pub enum EnvelopeKind {
    OneToOneMessage,
    GroupMessage,
    DeliveryReceipt,
    ReadReceipt,
    TypingIndicator,
}

#[derive(Debug, Clone, PartialEq, Eq)]
pub struct EncryptedEnvelope {
    pub envelope_id: String,
    pub conversation_id: String,
    pub sender_device_id: String,
    pub recipient_device_ids: Vec<String>,
    pub kind: EnvelopeKind,
    pub ratchet_header: RatchetHeader,
    pub associated_data: Vec<u8>,
    pub nonce: Vec<u8>,
    pub ciphertext: Vec<u8>,
    pub authentication_tag: Vec<u8>,
    pub server_received_at_unix_seconds: i64,
}

#[derive(Debug, Clone, Copy, PartialEq, Eq, Structural)]
pub enum EncryptedEnvelopeError {
    MissingRoutingIdentifier,
    MissingRecipient,
    SenderIncludedAsRecipient,
    InvalidRatchetHeader,
    InvalidNonce,
    InvalidCiphertextSize,
    InvalidAuthenticationTag,
}

/// An envelope as a mathematical value.
pub struct EnvelopeView {
    pub envelope_id: Seq<char>,
    pub conversation_id: Seq<char>,
    pub sender_device_id: Seq<char>,
    pub recipient_device_ids: Seq<Seq<char>>,
    pub kind: EnvelopeKind,
    pub sender_ratchet_public_key_x25519: Seq<u8>,
    pub previous_chain_length: u32,
    pub message_number: u32,
    pub associated_data: Seq<u8>,
    pub nonce: Seq<u8>,
    pub ciphertext: Seq<u8>,
    pub authentication_tag: Seq<u8>,
    pub server_received_at_unix_seconds: i64,
}

/// The recipients of an envelope as character sequences.
pub open spec fn recipient_views(ids: Seq<String>) -> Seq<Seq<char>> {
    ids.map_values(|id: String| id@)
}

impl View for EncryptedEnvelope {
    type V = EnvelopeView;

    open spec fn view(&self) -> EnvelopeView {
        EnvelopeView {
            envelope_id: self.envelope_id@,
            conversation_id: self.conversation_id@,
            sender_device_id: self.sender_device_id@,
            recipient_device_ids: recipient_views(self.recipient_device_ids@),
            kind: self.kind,
            sender_ratchet_public_key_x25519: self.ratchet_header.sender_ratchet_public_key_x25519@,
            previous_chain_length: self.ratchet_header.previous_chain_length,
            message_number: self.ratchet_header.message_number,
            associated_data: self.associated_data@,
            nonce: self.nonce@,
            ciphertext: self.ciphertext@,
            authentication_tag: self.authentication_tag@,
            server_received_at_unix_seconds: self.server_received_at_unix_seconds,
        }
    }
}

/// The relay rules for an envelope, in the order in which they are checked:
/// routing identifiers present, at least one recipient and none blank, the
/// sender not among the recipients, a non-zero ratchet key, a nonce, a
/// ciphertext and an authentication tag of acceptable sizes.
pub open spec fn envelope_check(e: EnvelopeView) -> Result<(), EncryptedEnvelopeError> {
    if is_blank_text(e.envelope_id) || is_blank_text(e.conversation_id) || is_blank_text(
        e.sender_device_id,
    ) {
        Err(EncryptedEnvelopeError::MissingRoutingIdentifier)
    } else if e.recipient_device_ids.len() == 0 || exists|i: int|
        0 <= i < e.recipient_device_ids.len() && #[trigger] is_blank_text(e.recipient_device_ids[i]) {
        Err(EncryptedEnvelopeError::MissingRecipient)
    } else if exists|i: int|
        0 <= i < e.recipient_device_ids.len() && #[trigger] e.recipient_device_ids[i]
            == e.sender_device_id {
        Err(EncryptedEnvelopeError::SenderIncludedAsRecipient)
    } else if is_zero_bytes(e.sender_ratchet_public_key_x25519) {
        Err(EncryptedEnvelopeError::InvalidRatchetHeader)
    } else if e.nonce.len() < MIN_NONCE_BYTES {
        Err(EncryptedEnvelopeError::InvalidNonce)
    } else if e.ciphertext.len() == 0 || e.ciphertext.len() > MAX_CIPHERTEXT_BYTES {
        Err(EncryptedEnvelopeError::InvalidCiphertextSize)
    } else if e.authentication_tag.len() < MIN_AUTH_TAG_BYTES {
        Err(EncryptedEnvelopeError::InvalidAuthenticationTag)
    } else {
        Ok(())
    }
}

/// Whether some non-empty forbidden byte string occurs in the associated data
/// or in the ciphertext.
pub open spec fn has_plaintext_hint(
    associated_data: Seq<u8>,
    ciphertext: Seq<u8>,
    forbidden: Seq<Seq<u8>>,
) -> bool {
    exists|i: int|
        0 <= i < forbidden.len() && #[trigger] forbidden[i].len() > 0 && (occurs_in(
            associated_data,
            forbidden[i],
        ) || occurs_in(ciphertext, forbidden[i]))
}

/// The forbidden byte strings as sequences.
pub open spec fn needle_views(forbidden: Seq<&[u8]>) -> Seq<Seq<u8>> {
    forbidden.map_values(|s: &[u8]| s@)
}

/// An accepted envelope has routing identifiers, at least one recipient and
/// no blank one, never lists its sender as a recipient, carries a non-zero
/// ratchet key, and has a nonce, a ciphertext and a tag of acceptable sizes.
pub proof fn lemma_accepted_envelope(e: EnvelopeView)
    requires
        envelope_check(e) is Ok,
    ensures
        !is_blank_text(e.envelope_id),
        !is_blank_text(e.conversation_id),
        !is_blank_text(e.sender_device_id),
        e.recipient_device_ids.len() > 0,
        forall|i: int|
            0 <= i < e.recipient_device_ids.len() ==> !is_blank_text(
                #[trigger] e.recipient_device_ids[i],
            ) && e.recipient_device_ids[i] != e.sender_device_id,
        !is_zero_bytes(e.sender_ratchet_public_key_x25519),
        e.nonce.len() >= MIN_NONCE_BYTES,
        0 < e.ciphertext.len() <= MAX_CIPHERTEXT_BYTES,
        e.authentication_tag.len() >= MIN_AUTH_TAG_BYTES,
{
}

/// The relay rules accept an envelope exactly when its identifiers are not
/// blank, it has recipients, none blank and none the sender, its ratchet key
/// has a non-zero byte, and its nonce, ciphertext and tag have acceptable
/// sizes. Nothing else matters: the kind, the message number, the previous
/// chain length, the associated data and the reception time play no part.
pub proof fn lemma_envelope_accepted_exactly(e: EnvelopeView)
    ensures
        envelope_check(e) is Ok <==> {
            &&& !is_blank_text(e.envelope_id)
            &&& !is_blank_text(e.conversation_id)
            &&& !is_blank_text(e.sender_device_id)
            &&& e.recipient_device_ids.len() > 0
            &&& forall|i: int|
                0 <= i < e.recipient_device_ids.len() ==> !is_blank_text(
                    #[trigger] e.recipient_device_ids[i],
                ) && e.recipient_device_ids[i] != e.sender_device_id
            &&& exists|i: int|
                0 <= i < e.sender_ratchet_public_key_x25519.len()
                    && #[trigger] e.sender_ratchet_public_key_x25519[i] != 0
            &&& e.nonce.len() >= MIN_NONCE_BYTES
            &&& 0 < e.ciphertext.len() <= MAX_CIPHERTEXT_BYTES
            &&& e.authentication_tag.len() >= MIN_AUTH_TAG_BYTES
        },
{
}

/// The relay rules do not depend on the envelope's kind, ratchet counters,
/// associated data or reception time.
pub proof fn lemma_envelope_check_ignores_framing(
    e: EnvelopeView,
    kind: EnvelopeKind,
    previous_chain_length: u32,
    message_number: u32,
    associated_data: Seq<u8>,
    received_at: i64,
)
    ensures
        envelope_check(
            EnvelopeView {
                kind,
                previous_chain_length,
                message_number,
                associated_data,
                server_received_at_unix_seconds: received_at,
                ..e
            },
        ) == envelope_check(e),
{
    lemma_envelope_accepted_exactly(e);
    lemma_envelope_accepted_exactly(
        EnvelopeView {
            kind,
            previous_chain_length,
            message_number,
            associated_data,
            server_received_at_unix_seconds: received_at,
            ..e
        },
    );
}

/// A plaintext hint is reported exactly when some non-empty forbidden string,
/// at any position of the list, occurs as a window (`occurs_at`) of the associated data or of the
/// ciphertext; so adding forbidden strings, before or after, never turns a
/// report off.
pub proof fn lemma_plaintext_hint_exactly(
    associated_data: Seq<u8>,
    ciphertext: Seq<u8>,
    forbidden: Seq<Seq<u8>>,
    before: Seq<Seq<u8>>,
    after: Seq<Seq<u8>>,
)
    ensures
        has_plaintext_hint(associated_data, ciphertext, forbidden) <==> exists|k: int, s: int|
            #![trigger occurs_at(associated_data, forbidden[k], s)]
            #![trigger occurs_at(ciphertext, forbidden[k], s)]
            0 <= k < forbidden.len() && forbidden[k].len() > 0 && (occurs_at(
                associated_data,
                forbidden[k],
                s,
            ) || occurs_at(ciphertext, forbidden[k], s)),
        has_plaintext_hint(associated_data, ciphertext, forbidden) ==> has_plaintext_hint(
            associated_data,
            ciphertext,
            before + forbidden + after,
        ),
{
    if has_plaintext_hint(associated_data, ciphertext, forbidden) {
        let k = choose|k: int|
            0 <= k < forbidden.len() && #[trigger] forbidden[k].len() > 0 && (occurs_in(
                associated_data,
                forbidden[k],
            ) || occurs_in(ciphertext, forbidden[k]));
        let all = before + forbidden + after;
        assert(all[before.len() + k] == forbidden[k]);
        if occurs_in(associated_data, forbidden[k]) {
            let s = choose|s: int| #[trigger] occurs_at(associated_data, forbidden[k], s);
            assert(occurs_at(associated_data, forbidden[k], s));
        } else {
            let s = choose|s: int| #[trigger] occurs_at(ciphertext, forbidden[k], s);
            assert(occurs_at(ciphertext, forbidden[k], s));
        }
        assert(all[before.len() + k].len() > 0);
    }
    if exists|k: int, s: int|
        #![trigger occurs_at(associated_data, forbidden[k], s)]
        #![trigger occurs_at(ciphertext, forbidden[k], s)]
        0 <= k < forbidden.len() && forbidden[k].len() > 0 && (occurs_at(
            associated_data,
            forbidden[k],
            s,
        ) || occurs_at(ciphertext, forbidden[k], s)) {
        let (k, s) = choose|k: int, s: int|
            #![trigger occurs_at(associated_data, forbidden[k], s)]
            #![trigger occurs_at(ciphertext, forbidden[k], s)]
            0 <= k < forbidden.len() && forbidden[k].len() > 0 && (occurs_at(
                associated_data,
                forbidden[k],
                s,
            ) || occurs_at(ciphertext, forbidden[k], s));
        assert(occurs_at(associated_data, forbidden[k], s) || occurs_at(ciphertext, forbidden[k], s));
        assert(forbidden[k].len() > 0);
    }
}

impl EncryptedEnvelope {
    /// Builds an envelope from its parts and accepts it only if it passes
    /// [`EncryptedEnvelope::validate`].
    pub fn new(
        envelope_id: &str,
        conversation_id: &str,
        sender_device_id: &str,
        recipient_device_ids: Vec<String>,
        kind: EnvelopeKind,
        ratchet_header: RatchetHeader,
        associated_data: Vec<u8>,
        nonce: Vec<u8>,
        ciphertext: Vec<u8>,
        authentication_tag: Vec<u8>,
        server_received_at_unix_seconds: i64,
    ) -> (r: Result<Self, EncryptedEnvelopeError>)
        ensures
            ({
                let v = EnvelopeView {
                    envelope_id: envelope_id@,
                    conversation_id: conversation_id@,
                    sender_device_id: sender_device_id@,
                    recipient_device_ids: recipient_views(recipient_device_ids@),
                    kind,
                    sender_ratchet_public_key_x25519: ratchet_header.sender_ratchet_public_key_x25519@,
                    previous_chain_length: ratchet_header.previous_chain_length,
                    message_number: ratchet_header.message_number,
                    associated_data: associated_data@,
                    nonce: nonce@,
                    ciphertext: ciphertext@,
                    authentication_tag: authentication_tag@,
                    server_received_at_unix_seconds,
                };
                match envelope_check(v) {
                    Ok(_) => r matches Ok(env) && env@ == v,
                    Err(e) => r == Err::<Self, EncryptedEnvelopeError>(e),
                }
            }),
            r matches Ok(env) ==> envelope_check(env@) is Ok,
    {
        let envelope = EncryptedEnvelope {
            envelope_id: envelope_id.to_owned(),
            conversation_id: conversation_id.to_owned(),
            sender_device_id: sender_device_id.to_owned(),
            recipient_device_ids,
            kind,
            ratchet_header,
            associated_data,
            nonce,
            ciphertext,
            authentication_tag,
            server_received_at_unix_seconds,
        };
        envelope.validate()?;
        Ok(envelope)
    }

    /// Checks the relay rules and reports the first one broken.
    pub fn validate(&self) -> (r: Result<(), EncryptedEnvelopeError>)
        ensures
            r == envelope_check(self@),
    {
        if is_blank(self.envelope_id.as_str()) || is_blank(self.conversation_id.as_str())
            || is_blank(self.sender_device_id.as_str()) {
            return Err(EncryptedEnvelopeError::MissingRoutingIdentifier);
        }
        let ghost recips = self@.recipient_device_ids;
        let n = self.recipient_device_ids.len();
        if n == 0 {
            return Err(EncryptedEnvelopeError::MissingRecipient);
        }
        let mut i: usize = 0;
        while i < n
            invariant
                n == self.recipient_device_ids@.len(),
                recips == self@.recipient_device_ids,
                recips.len() == n,
                i <= n,
                forall|j: int| 0 <= j < i ==> !#[trigger] is_blank_text(recips[j]),
                !is_blank_text(self@.envelope_id),
                !is_blank_text(self@.conversation_id),
                !is_blank_text(self@.sender_device_id),
            decreases n - i,
        {
            assert(recips[i as int] == self.recipient_device_ids@[i as int]@);
            if is_blank(self.recipient_device_ids[i].as_str()) {
                assert(is_blank_text(recips[i as int]));
                return Err(EncryptedEnvelopeError::MissingRecipient);
            }
            i = i + 1;
        }
        let mut i: usize = 0;
        while i < n
            invariant
                n == self.recipient_device_ids@.len(),
                recips == self@.recipient_device_ids,
                recips.len() == n,
                i <= n,
                forall|j: int| 0 <= j < i ==> #[trigger] recips[j] != self@.sender_device_id,
                forall|j: int| 0 <= j < n ==> !#[trigger] is_blank_text(recips[j]),
                !is_blank_text(self@.envelope_id),
                !is_blank_text(self@.conversation_id),
                !is_blank_text(self@.sender_device_id),
            decreases n - i,
        {
            assert(recips[i as int] == self.recipient_device_ids@[i as int]@);
            if str_equal(self.recipient_device_ids[i].as_str(), self.sender_device_id.as_str()) {
                assert(recips[i as int] == self@.sender_device_id);
                return Err(EncryptedEnvelopeError::SenderIncludedAsRecipient);
            }
            i = i + 1;
        }
        if all_zero(self.ratchet_header.sender_ratchet_public_key_x25519.as_slice()) {
            return Err(EncryptedEnvelopeError::InvalidRatchetHeader);
        }
        if self.nonce.len() < MIN_NONCE_BYTES {
            return Err(EncryptedEnvelopeError::InvalidNonce);
        }
        if self.ciphertext.len() == 0 || self.ciphertext.len() > MAX_CIPHERTEXT_BYTES {
            return Err(EncryptedEnvelopeError::InvalidCiphertextSize);
        }
        if self.authentication_tag.len() < MIN_AUTH_TAG_BYTES {
            return Err(EncryptedEnvelopeError::InvalidAuthenticationTag);
        }
        Ok(())
    }

    /// Whether any of the non-empty `forbidden` byte strings appears in the
    /// associated data or in the ciphertext (a sign that plaintext leaked).
    pub fn contains_plaintext_hint(&self, forbidden: &[&[u8]]) -> (r: bool)
        ensures
            r == has_plaintext_hint(
                self.associated_data@,
                self.ciphertext@,
                needle_views(forbidden@),
            ),
    {
        let ghost needles = needle_views(forbidden@);
        let n = forbidden.len();
        let mut i: usize = 0;
        while i < n
            invariant
                n == forbidden@.len(),
                needles == needle_views(forbidden@),
                needles.len() == n,
                i <= n,
                forall|j: int|
                    0 <= j < i ==> !(#[trigger] needles[j].len() > 0 && (occurs_in(
                        self.associated_data@,
                        needles[j],
                    ) || occurs_in(self.ciphertext@, needles[j]))),
            decreases n - i,
        {
            let needle: &[u8] = forbidden[i];
            assert(needles[i as int] == needle@);
            if needle.len() > 0 && (contains_window(self.associated_data.as_slice(), needle)
                || contains_window(self.ciphertext.as_slice(), needle)) {
                return true;
            }
            i = i + 1;
        }
        false
    }
}

} // verus!
