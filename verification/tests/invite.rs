use lib::admin::invite::{Invite, InviteError, InviteStatus};

fn active_invite() -> Invite {
    Invite::new("invite-1", "admin-device", [8; 32], 100, 200, 1).expect("valid invite")
}

#[test]
fn redeems_invite_once_and_requires_manual_approval() {
    let mut invite = active_invite();

    let redemption = invite
        .redeem([8; 32], "candidate-device", [9; 32], 120)
        .expect("valid redemption");

    assert_eq!(invite.status, InviteStatus::Redeemed);
    assert_eq!(invite.redemption_count, 1);
    assert!(redemption.requires_manual_approval);
    assert_eq!(redemption.invite_id, "invite-1");
}

#[test]
fn rejects_reuse_after_single_redemption() {
    let mut invite = active_invite();
    invite
        .redeem([8; 32], "candidate-device", [9; 32], 120)
        .expect("valid redemption");

    assert_eq!(
        invite.redeem([8; 32], "other-device", [7; 32], 121),
        Err(InviteError::InviteNotActive)
    );
}

#[test]
fn rejects_wrong_secret_hash() {
    let mut invite = active_invite();

    assert_eq!(
        invite.redeem([1; 32], "candidate-device", [9; 32], 120),
        Err(InviteError::SecretMismatch)
    );
}

#[test]
fn rejects_expired_invite() {
    let mut invite = active_invite();

    assert_eq!(
        invite.redeem([8; 32], "candidate-device", [9; 32], 201),
        Err(InviteError::InviteNotActive)
    );
    assert_eq!(invite.status, InviteStatus::Expired);
}

#[test]
fn rejects_revoked_invite() {
    let mut invite = active_invite();
    invite.revoke(110);

    assert_eq!(
        invite.redeem([8; 32], "candidate-device", [9; 32], 120),
        Err(InviteError::InviteNotActive)
    );
    assert_eq!(invite.revoked_at_unix_seconds, Some(110));
}

#[test]
fn new_invite_is_active_and_unused() {
    let invite = active_invite();
    assert_eq!(invite.status, InviteStatus::Active);
    assert_eq!(invite.redemption_count, 0);
    assert_eq!(invite.invite_id, "invite-1");
    assert_eq!(invite.created_by_admin_device_id, "admin-device");
    assert_eq!(invite.revoked_at_unix_seconds, None);
}

#[test]
fn new_invite_reports_each_error() {
    assert_eq!(
        Invite::new("  ", "admin-device", [8; 32], 100, 200, 1),
        Err(InviteError::MissingIdentifier)
    );
    assert_eq!(
        Invite::new("invite-1", "\t\u{3000}", [8; 32], 100, 200, 1),
        Err(InviteError::MissingIdentifier)
    );
    assert_eq!(
        Invite::new("invite-1", "admin-device", [0; 32], 100, 200, 1),
        Err(InviteError::MissingSecretHash)
    );
    assert_eq!(
        Invite::new("invite-1", "admin-device", [8; 32], 200, 200, 1),
        Err(InviteError::InvalidExpiration)
    );
    assert_eq!(
        Invite::new("invite-1", "admin-device", [8; 32], 100, 200, 0),
        Err(InviteError::InvalidRedemptionLimit)
    );
}

#[test]
fn redeem_rejects_zero_candidate_key_and_blank_device() {
    let mut invite = active_invite();
    assert_eq!(
        invite.redeem([8; 32], "candidate-device", [0; 32], 120),
        Err(InviteError::InvalidCandidateIdentityKey)
    );
    assert_eq!(
        invite.redeem([8; 32], " ", [9; 32], 120),
        Err(InviteError::MissingIdentifier)
    );
    assert_eq!(invite.status, InviteStatus::Active);
    assert_eq!(invite.redemption_count, 0);
}

#[test]
fn multi_use_invite_counts_each_redemption() {
    let mut invite = Invite::new("invite-2", "admin-device", [8; 32], 100, 200, 3).unwrap();
    for k in 1..=3u8 {
        let redemption = invite.redeem([8; 32], "device", [9; 32], 150).unwrap();
        assert_eq!(invite.redemption_count, k);
        assert_eq!(redemption.redeemed_at_unix_seconds, 150);
        assert_eq!(redemption.candidate_device_id, "device");
        assert_eq!(redemption.candidate_identity_public_key_ed25519, [9; 32]);
    }
    assert_eq!(invite.status, InviteStatus::Redeemed);
    assert_eq!(
        invite.redeem([8; 32], "device", [9; 32], 150),
        Err(InviteError::InviteNotActive)
    );
    assert_eq!(invite.redemption_count, 3);
}

#[test]
fn refresh_expires_only_at_or_after_expiry() {
    let mut invite = active_invite();
    invite.refresh_expiration(199);
    assert_eq!(invite.status, InviteStatus::Active);
    invite.refresh_expiration(200);
    assert_eq!(invite.status, InviteStatus::Expired);
}

#[test]
fn refresh_leaves_revoked_invite_revoked() {
    let mut invite = active_invite();
    invite.revoke(150);
    invite.refresh_expiration(500);
    assert_eq!(invite.status, InviteStatus::Revoked);
}
