//! Challenge-response authentication of an approved device.
use vstd::prelude::*;

use crate::crypto::{AUTH_DOMAIN_SEPARATOR, MESSAGE_ENVELOPE_DOMAIN_SEPARATOR};
use crate::auth::device_identity::{DeviceIdentity, DeviceStatus, DeviceView, may_authenticate};
use crate::text::{
    all_zero, append_bytes, i64_be_bytes, i64_to_be_bytes, is_blank, is_blank_text,
    is_zero_bytes, str_equal,
};

verus! {

pub const CHALLENGE_NONCE_BYTES: usize = 32;

/// The longest lifetime a challenge may be given, in seconds.
pub const MAX_CHALLENGE_TTL_SECONDS: i64 = 300;

/// The domain separator that starts every signed challenge: `secure-messaging.auth.v1`.
pub const CHALLENGE_DOMAIN: [u8; 24] = AUTH_DOMAIN_SEPARATOR;

#[derive(Debug, Clone, PartialEq, Eq)]
pub struct AuthChallenge {
    pub challenge_id: String,
    pub device_id: String,
    pub nonce: [u8; CHALLENGE_NONCE_BYTES],
    pub issued_at_unix_seconds: i64,
    pub expires_at_unix_seconds: i64,
}

#[derive(Debug, Clone, PartialEq, Eq)]
pub struct SignedAuthChallenge {
    pub challenge_id: String,
    pub device_id: String,
    pub signature_ed25519: [u8; 64],
}

pub struct AuthChallengeVerifier;

#[derive(Debug, Clone, Copy, PartialEq, Eq, Structural)]
pub enum AuthChallengeError {
    EmptyIdentifier,
    InvalidNonce,
    InvalidTtl,
    ExpiredChallenge,
    ChallengeMismatch,
    DeviceMismatch,
    DeviceNotApproved,
    InvalidSignature,
}

/// A challenge as a mathematical value.
pub struct ChallengeView {
    pub challenge_id: Seq<char>,
    pub device_id: Seq<char>,
    pub nonce: Seq<u8>,
    pub issued_at_unix_seconds: i64,
    pub expires_at_unix_seconds: i64,
}

/// A signed answer to a challenge as a mathematical value.
pub struct SignedChallengeView {
    pub challenge_id: Seq<char>,
    pub device_id: Seq<char>,
    pub signature_ed25519: Seq<u8>,
}

impl View for AuthChallenge {
    type V = ChallengeView;

    open spec fn view(&self) -> ChallengeView {
        ChallengeView {
            challenge_id: self.challenge_id@,
            device_id: self.device_id@,
            nonce: self.nonce@,
            issued_at_unix_seconds: self.issued_at_unix_seconds,
            expires_at_unix_seconds: self.expires_at_unix_seconds,
        }
    }
}

impl View for SignedAuthChallenge {
    type V = SignedChallengeView;

    open spec fn view(&self) -> SignedChallengeView {
        SignedChallengeView {
            challenge_id: self.challenge_id@,
            device_id: self.device_id@,
            signature_ed25519: self.signature_ed25519@,
        }
    }
}

/// Whether the inputs of a challenge pass every check, so that one is issued.
pub open spec fn challenge_inputs_valid(
    challenge_id: Seq<char>,
    device_id: Seq<char>,
    nonce: Seq<u8>,
    ttl_seconds: i64,
) -> bool {
    !is_blank_text(challenge_id) && !is_blank_text(device_id) && !is_zero_bytes(nonce) && 0
        < ttl_seconds <= MAX_CHALLENGE_TTL_SECONDS
}

/// The challenge that is issued, or the first check its inputs fail.
pub open spec fn challenge_outcome(
    challenge_id: Seq<char>,
    device_id: Seq<char>,
    nonce: Seq<u8>,
    issued_at: i64,
    ttl_seconds: i64,
) -> Result<ChallengeView, AuthChallengeError> {
    if is_blank_text(challenge_id) || is_blank_text(device_id) {
        Err(AuthChallengeError::EmptyIdentifier)
    } else if is_zero_bytes(nonce) {
        Err(AuthChallengeError::InvalidNonce)
    } else if ttl_seconds <= 0 || ttl_seconds > MAX_CHALLENGE_TTL_SECONDS {
        Err(AuthChallengeError::InvalidTtl)
    } else {
        Ok(
            ChallengeView {
                challenge_id,
                device_id,
                nonce,
                issued_at_unix_seconds: issued_at,
                expires_at_unix_seconds: (issued_at + ttl_seconds) as i64,
            },
        )
    }
}

/// The bytes a device signs to answer a challenge: the domain separator, the
/// challenge identifier, a zero byte, the device identifier, a zero byte, the
/// nonce, and the expiry time in big-endian order.
pub open spec fn signing_bytes(c: ChallengeView) -> Seq<u8> {
    CHALLENGE_DOMAIN@ + vstd::utf8::encode_utf8(c.challenge_id) + seq![0u8]
        + vstd::utf8::encode_utf8(c.device_id) + seq![0u8] + c.nonce + i64_be_bytes(
        c.expires_at_unix_seconds,
    )
}

/// Whether the challenge has expired at `now`.
pub open spec fn challenge_expired(c: ChallengeView, now: i64) -> bool {
    now >= c.expires_at_unix_seconds
}

/// The checks on the metadata of a signed challenge, in the order in which
/// they are made.
pub open spec fn metadata_check(
    c: ChallengeView,
    signed: SignedChallengeView,
    device: DeviceView,
    now: i64,
) -> Result<(), AuthChallengeError> {
    if challenge_expired(c, now) {
        Err(AuthChallengeError::ExpiredChallenge)
    } else if c.challenge_id != signed.challenge_id || c.device_id != signed.device_id {
        Err(AuthChallengeError::ChallengeMismatch)
    } else if device.device_id != c.device_id {
        Err(AuthChallengeError::DeviceMismatch)
    } else if !may_authenticate(device) {
        Err(AuthChallengeError::DeviceNotApproved)
    } else if is_zero_bytes(signed.signature_ed25519) {
        Err(AuthChallengeError::InvalidSignature)
    } else {
        Ok(())
    }
}

/// An issued challenge lives for a positive time of at most five minutes and
/// is live when it is issued.
pub proof fn lemma_issued_challenge_lifetime(
    challenge_id: Seq<char>,
    device_id: Seq<char>,
    nonce: Seq<u8>,
    issued_at: i64,
    ttl_seconds: i64,
)
    requires
        challenge_outcome(challenge_id, device_id, nonce, issued_at, ttl_seconds) is Ok,
        issued_at + ttl_seconds <= i64::MAX,
    ensures
        ({
            let c = challenge_outcome(challenge_id, device_id, nonce, issued_at, ttl_seconds)->Ok_0;
            &&& 0 < c.expires_at_unix_seconds - c.issued_at_unix_seconds <= MAX_CHALLENGE_TTL_SECONDS
            &&& !challenge_expired(c, issued_at)
            &&& !is_zero_bytes(c.nonce)
        }),
{
}

/// Metadata is accepted only for a live challenge, answered under the same
/// challenge and device identifiers, for the device's own record, which may
/// authenticate, with a signature that is not a zero placeholder.
pub proof fn lemma_accepted_metadata(
    c: ChallengeView,
    signed: SignedChallengeView,
    device: DeviceView,
    now: i64,
)
    requires
        metadata_check(c, signed, device, now) is Ok,
    ensures
        now < c.expires_at_unix_seconds,
        signed.challenge_id == c.challenge_id,
        signed.device_id == c.device_id,
        device.device_id == c.device_id,
        device.status == DeviceStatus::Approved,
        device.revoked_at_unix_seconds is None,
        !is_zero_bytes(signed.signature_ed25519),
{
}

/// A challenge is issued exactly when both identifiers are not blank, the
/// nonce has a non-zero byte and the lifetime is positive and at most five
/// minutes; it then holds the given identifiers, nonce and issue time and
/// expires that lifetime later.
pub proof fn lemma_challenge_issued_exactly(
    challenge_id: Seq<char>,
    device_id: Seq<char>,
    nonce: Seq<u8>,
    issued_at: i64,
    ttl_seconds: i64,
)
    ensures
        challenge_outcome(challenge_id, device_id, nonce, issued_at, ttl_seconds) is Ok <==> {
            &&& !is_blank_text(challenge_id)
            &&& !is_blank_text(device_id)
            &&& exists|k: int| 0 <= k < nonce.len() && #[trigger] nonce[k] != 0
            &&& 0 < ttl_seconds <= 300
        },
        issued_at + ttl_seconds <= i64::MAX ==> (challenge_outcome(
            challenge_id,
            device_id,
            nonce,
            issued_at,
            ttl_seconds,
        ) matches Ok(c) ==> {
            &&& c.challenge_id == challenge_id
            &&& c.device_id == device_id
            &&& c.nonce == nonce
            &&& c.issued_at_unix_seconds == issued_at
            &&& c.expires_at_unix_seconds == issued_at + ttl_seconds
        }),
        forall|now: i64| #[trigger] challenge_expired(challenge_outcome(challenge_id, device_id, nonce, issued_at, ttl_seconds)->Ok_0, now)
            <==> now >= challenge_outcome(challenge_id, device_id, nonce, issued_at, ttl_seconds)->Ok_0.expires_at_unix_seconds,
{
}

/// Metadata is accepted exactly when the challenge is live, the answer names
/// the same challenge and device, the device record is that device's, approved
/// and never revoked, and the signature has at least one non-zero byte: any
/// signature other than the all-zero placeholder passes this step.
pub proof fn lemma_metadata_accepted_exactly(
    c: ChallengeView,
    signed: SignedChallengeView,
    device: DeviceView,
    now: i64,
)
    ensures
        metadata_check(c, signed, device, now) is Ok <==> {
            &&& now < c.expires_at_unix_seconds
            &&& signed.challenge_id == c.challenge_id
            &&& signed.device_id == c.device_id
            &&& device.device_id == c.device_id
            &&& device.status == DeviceStatus::Approved
            &&& device.revoked_at_unix_seconds is None
            &&& exists|i: int|
                0 <= i < signed.signature_ed25519.len() && #[trigger] signed.signature_ed25519[i]
                    != 0
        },
{
}

/// A device that is pending or revoked is never authenticated, whatever it
/// presents.
pub proof fn lemma_unapproved_device_refused(
    c: ChallengeView,
    signed: SignedChallengeView,
    device: DeviceView,
    now: i64,
)
    requires
        device.status != DeviceStatus::Approved,
    ensures
        metadata_check(c, signed, device, now) is Err,
{
}

/// The signed bytes start with the authentication domain separator, end with
/// the nonce and the expiry time, and have the challenge identifier right
/// after the separator.
pub proof fn lemma_signing_bytes_layout(c: ChallengeView)
    ensures
        ({
            let b = signing_bytes(c);
            let id = vstd::utf8::encode_utf8(c.challenge_id);
            let tail = c.nonce + i64_be_bytes(c.expires_at_unix_seconds);
            &&& b.subrange(0, CHALLENGE_DOMAIN@.len() as int) == CHALLENGE_DOMAIN@
            &&& b.subrange(
                CHALLENGE_DOMAIN@.len() as int,
                (CHALLENGE_DOMAIN@.len() + id.len()) as int,
            ) == id
            &&& b.subrange(b.len() - tail.len(), b.len() as int) == tail
        }),
{
    let b = signing_bytes(c);
    let id = vstd::utf8::encode_utf8(c.challenge_id);
    let tail = c.nonce + i64_be_bytes(c.expires_at_unix_seconds);
    assert(b.subrange(0, CHALLENGE_DOMAIN@.len() as int) =~= CHALLENGE_DOMAIN@);
    assert(b.subrange(CHALLENGE_DOMAIN@.len() as int, (CHALLENGE_DOMAIN@.len() + id.len()) as int) =~= id);
    assert(b.subrange(b.len() - tail.len(), b.len() as int) =~= tail);
}

/// A signed challenge can never be taken for a message envelope: its bytes do
/// not start with the envelope domain separator.
pub proof fn lemma_signing_bytes_not_envelope_domain(c: ChallengeView)
    ensures
        !(signing_bytes(c).len() >= MESSAGE_ENVELOPE_DOMAIN_SEPARATOR@.len() && signing_bytes(
            c,
        ).subrange(0, MESSAGE_ENVELOPE_DOMAIN_SEPARATOR@.len() as int)
            == MESSAGE_ENVELOPE_DOMAIN_SEPARATOR@),
{
    let b = signing_bytes(c);
    assert(CHALLENGE_DOMAIN@[17] == 97u8);
    assert(MESSAGE_ENVELOPE_DOMAIN_SEPARATOR@[17] == 101u8);
    assert(b[17] == CHALLENGE_DOMAIN@[17]);
    if b.len() >= MESSAGE_ENVELOPE_DOMAIN_SEPARATOR@.len() {
        assert(b.subrange(0, MESSAGE_ENVELOPE_DOMAIN_SEPARATOR@.len() as int)[17] == b[17]);
    }
}

/// Whether a text contains no NUL character (the separator of the signed bytes).
pub open spec fn nul_free(s: Seq<char>) -> bool {
    forall|i: int| 0 <= i < s.len() ==> #[trigger] s[i] != '\0'
}

/// The UTF-8 encoding of a text without NUL characters contains no zero byte.
proof fn lemma_encode_nul_free(s: Seq<char>)
    requires
        nul_free(s),
    ensures
        forall|i: int|
            0 <= i < vstd::utf8::encode_utf8(s).len() ==> #[trigger] vstd::utf8::encode_utf8(s)[i]
                != 0,
    decreases s.len(),
{
    if s.len() > 0 {
        let rest = s.drop_first();
        assert forall|i: int| 0 <= i < rest.len() implies #[trigger] rest[i] != '\0' by {
            assert(rest[i] == s[i + 1]);
        }
        lemma_encode_nul_free(rest);
        let v = s[0] as u32;
        assert(v != 0) by {
            assert(s[0] != '\0');
            vstd::utf8::char_u32_cast(s[0], v);
        }
        vstd::utf8::char_is_scalar(s[0]);
        let head = vstd::utf8::encode_scalar(v);
        assert(forall|k: int| 0 <= k < head.len() ==> #[trigger] head[k] != 0) by {
            assert(v != 0u32 && v <= 0x7fu32 ==> (v & 0x7fu32) as u8 != 0u8) by (bit_vector);
            assert(forall|x: u8| #[trigger] (0xC0u8 | x) != 0u8) by (bit_vector);
            assert(forall|x: u8| #[trigger] (0xE0u8 | x) != 0u8) by (bit_vector);
            assert(forall|x: u8| #[trigger] (0xF0u8 | x) != 0u8) by (bit_vector);
            assert(forall|x: u8| #[trigger] (0x80u8 | x) != 0u8) by (bit_vector);
        }
        assert(vstd::utf8::encode_utf8(s) == head + vstd::utf8::encode_utf8(rest));
    }
}

/// Splitting at a zero byte: `a + [0] + r` determines `a` and `r` when `a`
/// holds no zero byte.
proof fn lemma_split_at_zero(a: Seq<u8>, r: Seq<u8>, a2: Seq<u8>, r2: Seq<u8>)
    requires
        forall|i: int| 0 <= i < a.len() ==> #[trigger] a[i] != 0,
        forall|i: int| 0 <= i < a2.len() ==> #[trigger] a2[i] != 0,
        a + seq![0u8] + r == a2 + seq![0u8] + r2,
    ensures
        a == a2,
        r == r2,
{
    let b = a + seq![0u8] + r;
    let b2 = a2 + seq![0u8] + r2;
    if a.len() < a2.len() {
        assert(b[a.len() as int] == 0);
        assert(b2[a.len() as int] == a2[a.len() as int]);
    } else if a2.len() < a.len() {
        assert(b2[a2.len() as int] == 0);
        assert(b[a2.len() as int] == a[a2.len() as int]);
    }
    assert(a =~= b.subrange(0, a.len() as int));
    assert(a2 =~= b2.subrange(0, a2.len() as int));
    assert(r =~= b.subrange(a.len() as int + 1, b.len() as int));
    assert(r2 =~= b2.subrange(a2.len() as int + 1, b2.len() as int));
}

/// The big-endian bytes of an `i64` determine it.
proof fn lemma_i64_be_bytes_injective(x: i64, y: i64)
    requires
        i64_be_bytes(x) == i64_be_bytes(y),
    ensures
        x == y,
{
    let u = x as u64;
    let v = y as u64;
    let bx = i64_be_bytes(x);
    let by = i64_be_bytes(y);
    assert(bx[0] == by[0] && bx[1] == by[1] && bx[2] == by[2] && bx[3] == by[3] && bx[4] == by[4]
        && bx[5] == by[5] && bx[6] == by[6] && bx[7] == by[7]);
    assert(u == v) by (bit_vector)
        requires
            ((u >> 56u64) & 0xffu64) as u8 == ((v >> 56u64) & 0xffu64) as u8,
            ((u >> 48u64) & 0xffu64) as u8 == ((v >> 48u64) & 0xffu64) as u8,
            ((u >> 40u64) & 0xffu64) as u8 == ((v >> 40u64) & 0xffu64) as u8,
            ((u >> 32u64) & 0xffu64) as u8 == ((v >> 32u64) & 0xffu64) as u8,
            ((u >> 24u64) & 0xffu64) as u8 == ((v >> 24u64) & 0xffu64) as u8,
            ((u >> 16u64) & 0xffu64) as u8 == ((v >> 16u64) & 0xffu64) as u8,
            ((u >> 8u64) & 0xffu64) as u8 == ((v >> 8u64) & 0xffu64) as u8,
            (u & 0xffu64) as u8 == (v & 0xffu64) as u8,
    ;
    assert(x == y) by (bit_vector)
        requires
            x as u64 == y as u64,
    ;
}

/// The signed bytes identify the challenge: two challenges whose identifiers
/// hold no NUL character and whose nonces are 32 bytes long sign the same
/// bytes only if they have the same identifiers, nonce and expiry time.
pub proof fn lemma_signing_bytes_identify_challenge(c1: ChallengeView, c2: ChallengeView)
    requires
        nul_free(c1.challenge_id),
        nul_free(c1.device_id),
        nul_free(c2.challenge_id),
        nul_free(c2.device_id),
        c1.nonce.len() == CHALLENGE_NONCE_BYTES,
        c2.nonce.len() == CHALLENGE_NONCE_BYTES,
        signing_bytes(c1) == signing_bytes(c2),
    ensures
        c1.challenge_id == c2.challenge_id,
        c1.device_id == c2.device_id,
        c1.nonce == c2.nonce,
        c1.expires_at_unix_seconds == c2.expires_at_unix_seconds,
{
    let d = CHALLENGE_DOMAIN@;
    let e1 = vstd::utf8::encode_utf8(c1.challenge_id);
    let f1 = vstd::utf8::encode_utf8(c1.device_id);
    let e2 = vstd::utf8::encode_utf8(c2.challenge_id);
    let f2 = vstd::utf8::encode_utf8(c2.device_id);
    let t1 = c1.nonce + i64_be_bytes(c1.expires_at_unix_seconds);
    let t2 = c2.nonce + i64_be_bytes(c2.expires_at_unix_seconds);
    let m1 = e1 + seq![0u8] + (f1 + seq![0u8]);
    let m2 = e2 + seq![0u8] + (f2 + seq![0u8]);
    let b1 = signing_bytes(c1);
    let b2 = signing_bytes(c2);
    assert(b1 =~= d + m1 + t1);
    assert(b2 =~= d + m2 + t2);
    assert(t1.len() == 40 && t2.len() == 40);
    assert(m1.len() == m2.len());
    assert(m1 =~= b1.subrange(d.len() as int, b1.len() - 40));
    assert(m2 =~= b2.subrange(d.len() as int, b2.len() - 40));
    assert(t1 =~= b1.subrange(b1.len() - 40, b1.len() as int));
    assert(t2 =~= b2.subrange(b2.len() - 40, b2.len() as int));
    lemma_encode_nul_free(c1.challenge_id);
    lemma_encode_nul_free(c1.device_id);
    lemma_encode_nul_free(c2.challenge_id);
    lemma_encode_nul_free(c2.device_id);
    lemma_split_at_zero(e1, f1 + seq![0u8], e2, f2 + seq![0u8]);
    assert(f1 =~= (f1 + seq![0u8]).drop_last());
    assert(f2 =~= (f2 + seq![0u8]).drop_last());
    vstd::utf8::encode_utf8_decode_utf8(c1.challenge_id);
    vstd::utf8::encode_utf8_decode_utf8(c2.challenge_id);
    vstd::utf8::encode_utf8_decode_utf8(c1.device_id);
    vstd::utf8::encode_utf8_decode_utf8(c2.device_id);
    assert(c1.nonce =~= t1.subrange(0, 32));
    assert(c2.nonce =~= t2.subrange(0, 32));
    assert(i64_be_bytes(c1.expires_at_unix_seconds) =~= t1.subrange(32, 40));
    assert(i64_be_bytes(c2.expires_at_unix_seconds) =~= t2.subrange(32, 40));
    lemma_i64_be_bytes_injective(c1.expires_at_unix_seconds, c2.expires_at_unix_seconds);
}

impl AuthChallenge {
    /// Issues a challenge for `device_id` that expires `ttl_seconds` after it
    /// was issued; the lifetime must be positive and at most five minutes.
    pub fn new(
        challenge_id: &str,
        device_id: &str,
        nonce: [u8; CHALLENGE_NONCE_BYTES],
        issued_at_unix_seconds: i64,
        ttl_seconds: i64,
    ) -> (r: Result<Self, AuthChallengeError>)
        requires
            challenge_inputs_valid(challenge_id@, device_id@, nonce@, ttl_seconds)
                ==> issued_at_unix_seconds + ttl_seconds <= i64::MAX,
        ensures
            match challenge_outcome(
                challenge_id@,
                device_id@,
                nonce@,
                issued_at_unix_seconds,
                ttl_seconds,
            ) {
                Ok(c) => r matches Ok(challenge) && challenge@ == c,
                Err(e) => r == Err::<Self, AuthChallengeError>(e),
            },
    {
        if is_blank(challenge_id) || is_blank(device_id) {
            return Err(AuthChallengeError::EmptyIdentifier);
        }
        if all_zero(nonce.as_slice()) {
            return Err(AuthChallengeError::InvalidNonce);
        }
        if ttl_seconds <= 0 || ttl_seconds > MAX_CHALLENGE_TTL_SECONDS {
            return Err(AuthChallengeError::InvalidTtl);
        }
        Ok(
            AuthChallenge {
                challenge_id: challenge_id.to_owned(),
                device_id: device_id.to_owned(),
                nonce,
                issued_at_unix_seconds,
                expires_at_unix_seconds: issued_at_unix_seconds + ttl_seconds,
            },
        )
    }

    /// The domain-separated bytes that the device signs.
    pub fn signing_payload(&self) -> (r: Vec<u8>)
        ensures
            r@ == signing_bytes(self@),
    {
        let mut payload: Vec<u8> = Vec::new();
        append_bytes(&mut payload, CHALLENGE_DOMAIN.as_slice());
        append_bytes(&mut payload, self.challenge_id.as_str().as_bytes());
        payload.push(0);
        append_bytes(&mut payload, self.device_id.as_str().as_bytes());
        payload.push(0);
        append_bytes(&mut payload, self.nonce.as_slice());
        let expiry = i64_to_be_bytes(self.expires_at_unix_seconds);
        append_bytes(&mut payload, expiry.as_slice());
        assert(payload@ =~= signing_bytes(self@));
        payload
    }

    /// Whether the challenge has expired at `now_unix_seconds`.
    pub fn is_expired(&self, now_unix_seconds: i64) -> (r: bool)
        ensures
            r == challenge_expired(self@, now_unix_seconds),
    {
        now_unix_seconds >= self.expires_at_unix_seconds
    }
}

impl AuthChallengeVerifier {
    /// Checks everything about a signed challenge but the signature itself:
    /// the challenge is live, the answer names the same challenge and device,
    /// the device record is that device's and may authenticate, and the
    /// signature is not a zero placeholder.
    pub fn verify_metadata(
        challenge: &AuthChallenge,
        signed: &SignedAuthChallenge,
        device: &DeviceIdentity,
        now_unix_seconds: i64,
    ) -> (r: Result<(), AuthChallengeError>)
        ensures
            r == metadata_check(challenge@, signed@, device@, now_unix_seconds),
    {
        if challenge.is_expired(now_unix_seconds) {
            return Err(AuthChallengeError::ExpiredChallenge);
        }
        if !str_equal(challenge.challenge_id.as_str(), signed.challenge_id.as_str()) || !str_equal(
            challenge.device_id.as_str(),
            signed.device_id.as_str(),
        ) {
            return Err(AuthChallengeError::ChallengeMismatch);
        }
        if !str_equal(device.device_id.as_str(), challenge.device_id.as_str()) {
            return Err(AuthChallengeError::DeviceMismatch);
        }
        if !device.can_authenticate() {
            return Err(AuthChallengeError::DeviceNotApproved);
        }
        if all_zero(signed.signature_ed25519.as_slice()) {
            return Err(AuthChallengeError::InvalidSignature);
        }
        Ok(())
    }
}

} // verus!
