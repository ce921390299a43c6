//! Invites: an admin hands out a secret; a candidate device presents its hash
//! to redeem the invite and then waits for manual approval.
use vstd::prelude::*;

use crate::text::{all_zero, bytes_equal, is_blank, is_blank_text, is_zero_bytes};

verus! {

#[derive(Debug, Clone, Copy, PartialEq, Eq, Structural)]
pub enum InviteStatus {
    Active,
    Redeemed,
    Revoked,
    Expired,
}

#[derive(Debug, Clone, PartialEq, Eq)]
pub struct Invite {
    pub invite_id: String,
    pub created_by_admin_device_id: String,
    pub invite_secret_hash: [u8; 32],
    pub created_at_unix_seconds: i64,
    pub expires_at_unix_seconds: i64,
    pub max_redemptions: u8,
    pub redemption_count: u8,
    pub status: InviteStatus,
    pub revoked_at_unix_seconds: Option<i64>,
}

#[derive(Debug, Clone, PartialEq, Eq)]
pub struct InviteRedemption {
    pub invite_id: String,
    pub candidate_device_id: String,
    pub candidate_identity_public_key_ed25519: [u8; 32],
    pub redeemed_at_unix_seconds: i64,
    pub requires_manual_approval: bool,
}

#[derive(Debug, Clone, Copy, PartialEq, Eq, Structural)]
pub enum InviteError {
    MissingIdentifier,
    MissingSecretHash,
    InvalidExpiration,
    InvalidRedemptionLimit,
    InviteNotActive,
    SecretMismatch,
    InvalidCandidateIdentityKey,
}

/// An invite as a mathematical value.
pub struct InviteView {
    pub invite_id: Seq<char>,
    pub created_by_admin_device_id: Seq<char>,
    pub invite_secret_hash: Seq<u8>,
    pub created_at_unix_seconds: i64,
    pub expires_at_unix_seconds: i64,
    pub max_redemptions: u8,
    pub redemption_count: u8,
    pub status: InviteStatus,
    pub revoked_at_unix_seconds: Option<i64>,
}

/// A redemption as a mathematical value.
pub struct RedemptionView {
    pub invite_id: Seq<char>,
    pub candidate_device_id: Seq<char>,
    pub candidate_identity_public_key_ed25519: Seq<u8>,
    pub redeemed_at_unix_seconds: i64,
    pub requires_manual_approval: bool,
}

impl View for Invite {
    type V = InviteView;

    open spec fn view(&self) -> InviteView {
        InviteView {
            invite_id: self.invite_id@,
            created_by_admin_device_id: self.created_by_admin_device_id@,
            invite_secret_hash: self.invite_secret_hash@,
            created_at_unix_seconds: self.created_at_unix_seconds,
            expires_at_unix_seconds: self.expires_at_unix_seconds,
            max_redemptions: self.max_redemptions,
            redemption_count: self.redemption_count,
            status: self.status,
            revoked_at_unix_seconds: self.revoked_at_unix_seconds,
        }
    }
}

impl View for InviteRedemption {
    type V = RedemptionView;

    open spec fn view(&self) -> RedemptionView {
        RedemptionView {
            invite_id: self.invite_id@,
            candidate_device_id: self.candidate_device_id@,
            candidate_identity_public_key_ed25519: self.candidate_identity_public_key_ed25519@,
            redeemed_at_unix_seconds: self.redeemed_at_unix_seconds,
            requires_manual_approval: self.requires_manual_approval,
        }
    }
}

/// The invite that is created, or the first check its inputs fail.
pub open spec fn invite_outcome(
    invite_id: Seq<char>,
    admin_device_id: Seq<char>,
    secret_hash: Seq<u8>,
    created_at: i64,
    expires_at: i64,
    max_redemptions: u8,
) -> Result<InviteView, InviteError> {
    if is_blank_text(invite_id) || is_blank_text(admin_device_id) {
        Err(InviteError::MissingIdentifier)
    } else if is_zero_bytes(secret_hash) {
        Err(InviteError::MissingSecretHash)
    } else if expires_at <= created_at {
        Err(InviteError::InvalidExpiration)
    } else if max_redemptions == 0 {
        Err(InviteError::InvalidRedemptionLimit)
    } else {
        Ok(
            InviteView {
                invite_id,
                created_by_admin_device_id: admin_device_id,
                invite_secret_hash: secret_hash,
                created_at_unix_seconds: created_at,
                expires_at_unix_seconds: expires_at,
                max_redemptions,
                redemption_count: 0,
                status: InviteStatus::Active,
                revoked_at_unix_seconds: None,
            },
        )
    }
}

/// The invite after a revocation at `at`.
pub open spec fn revoked_invite(i: InviteView, at: i64) -> InviteView {
    InviteView { status: InviteStatus::Revoked, revoked_at_unix_seconds: Some(at), ..i }
}

/// The invite as seen at `now`: an active invite whose expiry has come is expired.
pub open spec fn refreshed(i: InviteView, now: i64) -> InviteView {
    if i.status == InviteStatus::Active && now >= i.expires_at_unix_seconds {
        InviteView { status: InviteStatus::Expired, ..i }
    } else {
        i
    }
}

/// The redemption count after one more redemption (it stops at 255).
pub open spec fn next_count(count: u8) -> u8 {
    if count == u8::MAX {
        u8::MAX
    } else {
        (count + 1) as u8
    }
}

/// The invite after a redemption attempt at `now`, and the attempt's result:
/// the redemption, or the first check that failed. The invite's expiry is
/// brought up to date first, whatever the result.
pub open spec fn redeem_outcome(
    i: InviteView,
    presented_hash: Seq<u8>,
    candidate_device_id: Seq<char>,
    candidate_key: Seq<u8>,
    now: i64,
) -> (InviteView, Result<RedemptionView, InviteError>) {
    let cur = refreshed(i, now);
    if cur.status != InviteStatus::Active {
        (cur, Err(InviteError::InviteNotActive))
    } else if presented_hash != cur.invite_secret_hash {
        (cur, Err(InviteError::SecretMismatch))
    } else if is_zero_bytes(candidate_key) {
        (cur, Err(InviteError::InvalidCandidateIdentityKey))
    } else if is_blank_text(candidate_device_id) {
        (cur, Err(InviteError::MissingIdentifier))
    } else {
        let count = next_count(cur.redemption_count);
        (
            InviteView {
                redemption_count: count,
                status: if count >= cur.max_redemptions {
                    InviteStatus::Redeemed
                } else {
                    InviteStatus::Active
                },
                ..cur
            },
            Ok(
                RedemptionView {
                    invite_id: cur.invite_id,
                    candidate_device_id,
                    candidate_identity_public_key_ed25519: candidate_key,
                    redeemed_at_unix_seconds: now,
                    requires_manual_approval: true,
                },
            ),
        )
    }
}

/// The shape every invite reached through this API keeps: at least one
/// redemption is allowed and the count never passes the limit; an active
/// invite has a redemption left, a used-up one has none; it expires after it
/// was created; and it carries a revocation time exactly when it is revoked.
pub open spec fn invite_wf(i: InviteView) -> bool {
    &&& 1 <= i.max_redemptions
    &&& i.redemption_count <= i.max_redemptions
    &&& i.status == InviteStatus::Active ==> i.redemption_count < i.max_redemptions
    &&& i.status == InviteStatus::Redeemed ==> i.redemption_count == i.max_redemptions
    &&& i.created_at_unix_seconds < i.expires_at_unix_seconds
    &&& (i.status == InviteStatus::Revoked) == (i.revoked_at_unix_seconds is Some)
}

/// One thing that can happen to an invite.
pub enum InviteEvent {
    Redeem {
        presented_hash: Seq<u8>,
        candidate_device_id: Seq<char>,
        candidate_key: Seq<u8>,
        now: i64,
    },
    Revoke { at: i64 },
    Refresh { now: i64 },
}

/// The invite after one event, and whether the event was a successful redemption.
pub open spec fn apply_invite_event(i: InviteView, ev: InviteEvent) -> (InviteView, bool) {
    match ev {
        InviteEvent::Redeem { presented_hash, candidate_device_id, candidate_key, now } => {
            let (after, result) = redeem_outcome(
                i,
                presented_hash,
                candidate_device_id,
                candidate_key,
                now,
            );
            (after, result is Ok)
        },
        InviteEvent::Revoke { at } => (revoked_invite(i, at), false),
        InviteEvent::Refresh { now } => (refreshed(i, now), false),
    }
}

/// The invite after a sequence of events, and how many of them were
/// successful redemptions.
pub open spec fn run_invite_events(i: InviteView, events: Seq<InviteEvent>) -> (InviteView, nat)
    decreases events.len(),
{
    if events.len() == 0 {
        (i, 0)
    } else {
        let (mid, n) = run_invite_events(i, events.drop_last());
        let (after, redeemed) = apply_invite_event(mid, events.last());
        (after, if redeemed {
            n + 1
        } else {
            n
        })
    }
}

/// A newly created invite is well formed, active and unused.
pub proof fn lemma_new_invite_wf(
    invite_id: Seq<char>,
    admin_device_id: Seq<char>,
    secret_hash: Seq<u8>,
    created_at: i64,
    expires_at: i64,
    max_redemptions: u8,
)
    requires
        invite_outcome(invite_id, admin_device_id, secret_hash, created_at, expires_at, max_redemptions) is Ok,
    ensures
        ({
            let i = invite_outcome(
                invite_id,
                admin_device_id,
                secret_hash,
                created_at,
                expires_at,
                max_redemptions,
            )->Ok_0;
            &&& invite_wf(i)
            &&& i.status == InviteStatus::Active
            &&& i.redemption_count == 0
        }),
{
}

/// Every event keeps an invite well formed; a successful redemption adds
/// exactly one to the count and always asks for manual approval; a failed one
/// changes nothing but the expiry.
pub proof fn lemma_invite_event_keeps_wf(i: InviteView, ev: InviteEvent)
    requires
        invite_wf(i),
    ensures
        invite_wf(apply_invite_event(i, ev).0),
        apply_invite_event(i, ev).0.max_redemptions == i.max_redemptions,
        apply_invite_event(i, ev).1 ==> apply_invite_event(i, ev).0.redemption_count
            == i.redemption_count + 1,
        !apply_invite_event(i, ev).1 ==> apply_invite_event(i, ev).0.redemption_count
            == i.redemption_count,
        ev matches InviteEvent::Redeem { presented_hash, candidate_device_id, candidate_key, now }
            ==> ({
            let (after, result) = redeem_outcome(
                i,
                presented_hash,
                candidate_device_id,
                candidate_key,
                now,
            );
            &&& result matches Ok(red) ==> red.requires_manual_approval && red.invite_id
                == i.invite_id && red.candidate_device_id == candidate_device_id
            &&& result is Err ==> after == refreshed(i, now)
        }),
{
}

/// Over any sequence of events, the redemptions that succeed are counted
/// exactly, so an invite is never redeemed more than `max_redemptions` times.
pub proof fn lemma_redemptions_bounded(i: InviteView, events: Seq<InviteEvent>)
    requires
        invite_wf(i),
    ensures
        invite_wf(run_invite_events(i, events).0),
        run_invite_events(i, events).0.max_redemptions == i.max_redemptions,
        run_invite_events(i, events).0.redemption_count == i.redemption_count + run_invite_events(
            i,
            events,
        ).1,
        i.redemption_count + run_invite_events(i, events).1 <= i.max_redemptions,
    decreases events.len(),
{
    if events.len() > 0 {
        lemma_redemptions_bounded(i, events.drop_last());
        let mid = run_invite_events(i, events.drop_last()).0;
        lemma_invite_event_keeps_wf(mid, events.last());
    }
}

/// An invite that is no longer active (used up, revoked or expired) never
/// becomes active again, and every redemption of it is refused as not active.
pub proof fn lemma_inactive_invite_stays_inactive(i: InviteView, events: Seq<InviteEvent>)
    requires
        i.status != InviteStatus::Active,
    ensures
        run_invite_events(i, events).0.status != InviteStatus::Active,
        run_invite_events(i, events).1 == 0,
    decreases events.len(),
{
    if events.len() > 0 {
        lemma_inactive_invite_stays_inactive(i, events.drop_last());
    }
}

/// Once its expiry has come, an invite refuses every redemption, and the
/// refusal leaves it expired unless it was already otherwise inactive.
pub proof fn lemma_expired_invite_refused(
    i: InviteView,
    presented_hash: Seq<u8>,
    candidate_device_id: Seq<char>,
    candidate_key: Seq<u8>,
    now: i64,
)
    requires
        now >= i.expires_at_unix_seconds,
    ensures
        redeem_outcome(i, presented_hash, candidate_device_id, candidate_key, now).1 == Err::<
            RedemptionView,
            InviteError,
        >(InviteError::InviteNotActive),
        i.status == InviteStatus::Active ==> redeem_outcome(
            i,
            presented_hash,
            candidate_device_id,
            candidate_key,
            now,
        ).0.status == InviteStatus::Expired,
{
}

/// An invite is created exactly when both identifiers are not blank, the
/// secret hash has a non-zero byte, it expires after it was created and at
/// least one redemption is allowed; it is then active, unused, unrevoked and
/// holds exactly the given data.
pub proof fn lemma_invite_created_exactly(
    invite_id: Seq<char>,
    admin_device_id: Seq<char>,
    secret_hash: Seq<u8>,
    created_at: i64,
    expires_at: i64,
    max_redemptions: u8,
)
    ensures
        invite_outcome(invite_id, admin_device_id, secret_hash, created_at, expires_at, max_redemptions) is Ok
            <==> {
            &&& !is_blank_text(invite_id)
            &&& !is_blank_text(admin_device_id)
            &&& exists|k: int| 0 <= k < secret_hash.len() && #[trigger] secret_hash[k] != 0
            &&& created_at < expires_at
            &&& max_redemptions >= 1
        },
        invite_outcome(invite_id, admin_device_id, secret_hash, created_at, expires_at, max_redemptions)
            matches Ok(i) ==> {
            &&& i.invite_id == invite_id
            &&& i.created_by_admin_device_id == admin_device_id
            &&& i.invite_secret_hash == secret_hash
            &&& i.created_at_unix_seconds == created_at
            &&& i.expires_at_unix_seconds == expires_at
            &&& i.max_redemptions == max_redemptions
            &&& i.redemption_count == 0
            &&& i.status == InviteStatus::Active
            &&& i.revoked_at_unix_seconds is None
        },
{
}

/// A redemption succeeds exactly when the invite is active and not yet
/// expired at `now`, the presented hash is the invite's, the candidate key has
/// a non-zero byte and the candidate identifier is not blank. It then binds
/// the candidate's identifier and key and the time, always asks for manual
/// approval, counts one more redemption, and uses the invite up when that
/// reaches the limit; nothing else about the invite changes. A refused
/// redemption changes the invite at most by marking it expired, and is
/// refused as not active exactly when the invite is not active or has expired.
pub proof fn lemma_redemption_exactly(
    i: InviteView,
    presented_hash: Seq<u8>,
    candidate_device_id: Seq<char>,
    candidate_key: Seq<u8>,
    now: i64,
)
    ensures
        ({
            let (after, result) = redeem_outcome(
                i,
                presented_hash,
                candidate_device_id,
                candidate_key,
                now,
            );
            let live = i.status == InviteStatus::Active && now < i.expires_at_unix_seconds;
            &&& result is Ok <==> {
                &&& live
                &&& presented_hash == i.invite_secret_hash
                &&& exists|k: int| 0 <= k < candidate_key.len() && #[trigger] candidate_key[k] != 0
                &&& !is_blank_text(candidate_device_id)
            }
            &&& (result == Err::<RedemptionView, InviteError>(InviteError::InviteNotActive) <==> !live)
            &&& (live && presented_hash != i.invite_secret_hash ==> result == Err::<
                RedemptionView,
                InviteError,
            >(InviteError::SecretMismatch))
            &&& after.invite_id == i.invite_id
            &&& after.created_by_admin_device_id == i.created_by_admin_device_id
            &&& after.invite_secret_hash == i.invite_secret_hash
            &&& after.created_at_unix_seconds == i.created_at_unix_seconds
            &&& after.expires_at_unix_seconds == i.expires_at_unix_seconds
            &&& after.max_redemptions == i.max_redemptions
            &&& after.revoked_at_unix_seconds == i.revoked_at_unix_seconds
            &&& result matches Ok(red) ==> {
                &&& red.invite_id == i.invite_id
                &&& red.candidate_device_id == candidate_device_id
                &&& red.candidate_identity_public_key_ed25519 == candidate_key
                &&& red.redeemed_at_unix_seconds == now
                &&& red.requires_manual_approval
                &&& (i.redemption_count < u8::MAX ==> after.redemption_count == i.redemption_count
                    + 1)
                &&& (after.status == InviteStatus::Redeemed <==> after.redemption_count
                    >= i.max_redemptions)
                &&& (after.status == InviteStatus::Active <==> after.redemption_count
                    < i.max_redemptions)
            }
            &&& result is Err ==> {
                &&& after.redemption_count == i.redemption_count
                &&& after.status == (if i.status == InviteStatus::Active && now
                    >= i.expires_at_unix_seconds {
                    InviteStatus::Expired
                } else {
                    i.status
                })
            }
        }),
{
}

/// Revoking marks the invite revoked at the given time and changes nothing
/// else; refreshing expires exactly an active invite whose expiry has come
/// and changes nothing else.
pub proof fn lemma_revoke_and_refresh(i: InviteView, t: i64)
    ensures
        revoked_invite(i, t).status == InviteStatus::Revoked,
        revoked_invite(i, t).revoked_at_unix_seconds == Some(t),
        revoked_invite(i, t).redemption_count == i.redemption_count,
        revoked_invite(i, t).invite_secret_hash == i.invite_secret_hash,
        revoked_invite(i, t).expires_at_unix_seconds == i.expires_at_unix_seconds,
        revoked_invite(i, t).max_redemptions == i.max_redemptions,
        (refreshed(i, t).status == InviteStatus::Expired && i.status != InviteStatus::Expired)
            <==> (i.status == InviteStatus::Active && t >= i.expires_at_unix_seconds),
        refreshed(i, t).status == InviteStatus::Expired || refreshed(i, t) == i,
        refreshed(i, t).redemption_count == i.redemption_count,
        refreshed(i, t).revoked_at_unix_seconds == i.revoked_at_unix_seconds,
{
}

impl Invite {
    /// Creates an active invite with no redemptions yet.
    pub fn new(
        invite_id: &str,
        created_by_admin_device_id: &str,
        invite_secret_hash: [u8; 32],
        created_at_unix_seconds: i64,
        expires_at_unix_seconds: i64,
        max_redemptions: u8,
    ) -> (r: Result<Self, InviteError>)
        ensures
            match invite_outcome(
                invite_id@,
                created_by_admin_device_id@,
                invite_secret_hash@,
                created_at_unix_seconds,
                expires_at_unix_seconds,
                max_redemptions,
            ) {
                Ok(i) => r matches Ok(invite) && invite@ == i,
                Err(e) => r == Err::<Self, InviteError>(e),
            },
    {
        if is_blank(invite_id) || is_blank(created_by_admin_device_id) {
            return Err(InviteError::MissingIdentifier);
        }
        if all_zero(invite_secret_hash.as_slice()) {
            return Err(InviteError::MissingSecretHash);
        }
        if expires_at_unix_seconds <= created_at_unix_seconds {
            return Err(InviteError::InvalidExpiration);
        }
        if max_redemptions == 0 {
            return Err(InviteError::InvalidRedemptionLimit);
        }
        Ok(
            Invite {
                invite_id: invite_id.to_owned(),
                created_by_admin_device_id: created_by_admin_device_id.to_owned(),
                invite_secret_hash,
                created_at_unix_seconds,
                expires_at_unix_seconds,
                max_redemptions,
                redemption_count: 0,
                status: InviteStatus::Active,
                revoked_at_unix_seconds: None,
            },
        )
    }

    /// Revokes the invite, whatever its state.
    pub fn revoke(&mut self, revoked_at_unix_seconds: i64)
        ensures
            final(self)@ == revoked_invite(old(self)@, revoked_at_unix_seconds),
    {
        self.status = InviteStatus::Revoked;
        self.revoked_at_unix_seconds = Some(revoked_at_unix_seconds);
    }

    /// Redeems the invite for a candidate device; the redemption always waits
    /// for manual approval. The invite is used up after its last permitted
    /// redemption.
    pub fn redeem(
        &mut self,
        presented_secret_hash: [u8; 32],
        candidate_device_id: &str,
        candidate_identity_public_key_ed25519: [u8; 32],
        now_unix_seconds: i64,
    ) -> (r: Result<InviteRedemption, InviteError>)
        ensures
            ({
                let (after, result) = redeem_outcome(
                    old(self)@,
                    presented_secret_hash@,
                    candidate_device_id@,
                    candidate_identity_public_key_ed25519@,
                    now_unix_seconds,
                );
                &&& final(self)@ == after
                &&& match result {
                    Ok(red) => r matches Ok(redemption) && redemption@ == red,
                    Err(e) => r == Err::<InviteRedemption, InviteError>(e),
                }
            }),
    {
        self.refresh_expiration(now_unix_seconds);
        if self.status != InviteStatus::Active {
            return Err(InviteError::InviteNotActive);
        }
        if !bytes_equal(presented_secret_hash.as_slice(), self.invite_secret_hash.as_slice()) {
            return Err(InviteError::SecretMismatch);
        }
        if all_zero(candidate_identity_public_key_ed25519.as_slice()) {
            return Err(InviteError::InvalidCandidateIdentityKey);
        }
        if is_blank(candidate_device_id) {
            return Err(InviteError::MissingIdentifier);
        }
        self.redemption_count = self.redemption_count.saturating_add(1);
        if self.redemption_count >= self.max_redemptions {
            self.status = InviteStatus::Redeemed;
        }
        Ok(
            InviteRedemption {
                invite_id: self.invite_id.clone(),
                candidate_device_id: candidate_device_id.to_owned(),
                candidate_identity_public_key_ed25519,
                redeemed_at_unix_seconds: now_unix_seconds,
                requires_manual_approval: true,
            },
        )
    }

    /// Marks an active invite whose expiry has come as expired.
    pub fn refresh_expiration(&mut self, now_unix_seconds: i64)
        ensures
            final(self)@ == refreshed(old(self)@, now_unix_seconds),
    {
        if self.status == InviteStatus::Active && now_unix_seconds >= self.expires_at_unix_seconds {
            self.status = InviteStatus::Expired;
        }
    }
}

} // verus!
