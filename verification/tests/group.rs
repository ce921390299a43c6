use lib::groups::group::{Group, GroupError, GroupMemberRole, GroupMemberStatus};

fn encrypted_profile() -> (Vec<u8>, Vec<u8>, Vec<u8>) {
    (vec![1; 32], vec![2; 12], vec![3; 16])
}

fn group() -> Group {
    let (profile, nonce, tag) = encrypted_profile();
    Group::new("group-1", "owner-device", profile, nonce, tag, 100).expect("valid group")
}

#[test]
fn creates_group_with_owner_and_encrypted_profile() {
    let group = group();

    assert_eq!(group.membership_epoch, 1);
    assert!(group.can_send("owner-device"));
    assert_eq!(group.members[0].role, GroupMemberRole::Owner);
}

#[test]
fn admin_can_add_member_and_epoch_advances() {
    let mut group = group();

    group
        .add_member(
            "owner-device",
            "member-device",
            GroupMemberRole::Member,
            101,
        )
        .expect("owner can add member");

    assert!(group.can_send("member-device"));
    assert_eq!(group.membership_epoch, 2);
}

#[test]
fn normal_member_cannot_add_member() {
    let mut group = group();
    group
        .add_member(
            "owner-device",
            "member-device",
            GroupMemberRole::Member,
            101,
        )
        .expect("owner can add member");

    assert_eq!(
        group.add_member(
            "member-device",
            "other-device",
            GroupMemberRole::Member,
            102
        ),
        Err(GroupError::InsufficientPermission)
    );
}

#[test]
fn admin_can_remove_member_and_epoch_advances() {
    let mut group = group();
    group
        .add_member(
            "owner-device",
            "member-device",
            GroupMemberRole::Member,
            101,
        )
        .expect("owner can add member");

    group
        .remove_member("owner-device", "member-device", 102)
        .expect("owner can remove member");

    assert!(!group.can_send("member-device"));
    assert_eq!(group.membership_epoch, 3);
}

#[test]
fn cannot_remove_group_owner() {
    let mut group = group();
    group
        .add_member("owner-device", "admin-device", GroupMemberRole::Admin, 101)
        .expect("owner can add admin");

    assert_eq!(
        group.remove_member("admin-device", "owner-device", 102),
        Err(GroupError::CannotRemoveOwner)
    );
}

#[test]
fn rejects_plaintext_missing_encrypted_profile() {
    let result = Group::new(
        "group-1",
        "owner-device",
        vec![],
        vec![2; 12],
        vec![3; 16],
        100,
    );

    assert_eq!(result, Err(GroupError::MissingEncryptedProfile));
}

#[test]
fn new_group_reports_each_error() {
    let (profile, nonce, tag) = encrypted_profile();
    assert_eq!(
        Group::new(" ", "owner-device", profile.clone(), nonce.clone(), tag.clone(), 100),
        Err(GroupError::MissingIdentifier)
    );
    assert_eq!(
        Group::new("group-1", "", profile.clone(), nonce.clone(), tag.clone(), 100),
        Err(GroupError::MissingIdentifier)
    );
    assert_eq!(
        Group::new("group-1", "owner-device", profile.clone(), vec![2; 11], tag.clone(), 100),
        Err(GroupError::InvalidProfileNonce)
    );
    assert_eq!(
        Group::new("group-1", "owner-device", profile, nonce, vec![3; 15], 100),
        Err(GroupError::InvalidProfileAuthenticationTag)
    );
}

#[test]
fn new_group_has_single_active_owner() {
    let group = group();
    assert_eq!(group.members.len(), 1);
    let owner = group.active_member("owner-device").expect("owner is active");
    assert_eq!(owner.device_id, "owner-device");
    assert_eq!(owner.status, GroupMemberStatus::Active);
    assert_eq!(owner.joined_at_unix_seconds, 100);
    assert_eq!(group.created_by_device_id, "owner-device");
    assert!(group.active_member("stranger").is_none());
}

#[test]
fn add_member_errors_leave_group_unchanged() {
    let mut group = group();
    let before = group.clone();
    assert_eq!(
        group.add_member("stranger", "x", GroupMemberRole::Member, 101),
        Err(GroupError::ActorNotActiveMember)
    );
    assert_eq!(
        group.add_member("owner-device", " ", GroupMemberRole::Member, 101),
        Err(GroupError::MissingIdentifier)
    );
    assert_eq!(
        group.add_member("owner-device", "x", GroupMemberRole::Owner, 101),
        Err(GroupError::CannotAddOwnerRole)
    );
    assert_eq!(
        group.add_member("owner-device", "owner-device", GroupMemberRole::Admin, 101),
        Err(GroupError::MemberAlreadyActive)
    );
    assert_eq!(group, before);
}

#[test]
fn remove_member_errors() {
    let mut group = group();
    group.add_member("owner-device", "admin-device", GroupMemberRole::Admin, 101).unwrap();
    let before = group.clone();
    assert_eq!(
        group.remove_member("owner-device", "owner-device", 102),
        Err(GroupError::CannotRemoveSelf)
    );
    assert_eq!(
        group.remove_member("owner-device", "nobody", 102),
        Err(GroupError::MemberNotActive)
    );
    assert_eq!(group, before);
}

#[test]
fn removed_member_can_rejoin_as_new_entry() {
    let mut group = group();
    group.add_member("owner-device", "m", GroupMemberRole::Member, 101).unwrap();
    group.remove_member("owner-device", "m", 102).unwrap();
    assert_eq!(group.members[1].status, GroupMemberStatus::Removed);
    assert_eq!(group.members[1].removed_at_unix_seconds, Some(102));
    group.add_member("owner-device", "m", GroupMemberRole::Member, 103).unwrap();
    assert_eq!(group.members.len(), 3);
    assert!(group.can_send("m"));
    assert_eq!(group.membership_epoch, 4);
}

#[test]
fn rotate_profile_requires_admin_and_valid_profile() {
    let mut group = group();
    group.add_member("owner-device", "m", GroupMemberRole::Member, 101).unwrap();
    assert_eq!(
        group.rotate_encrypted_profile("m", vec![5; 8], vec![6; 12], vec![7; 16]),
        Err(GroupError::InsufficientPermission)
    );
    assert_eq!(
        group.rotate_encrypted_profile("owner-device", vec![], vec![6; 12], vec![7; 16]),
        Err(GroupError::MissingEncryptedProfile)
    );
    assert_eq!(group.membership_epoch, 2);
    group
        .rotate_encrypted_profile("owner-device", vec![5; 8], vec![6; 12], vec![7; 16])
        .unwrap();
    assert_eq!(group.encrypted_group_profile, vec![5; 8]);
    assert_eq!(group.profile_nonce, vec![6; 12]);
    assert_eq!(group.profile_authentication_tag, vec![7; 16]);
    assert_eq!(group.membership_epoch, 3);
}

#[test]
fn epoch_saturates_at_maximum() {
    let mut group = group();
    group.membership_epoch = u64::MAX;
    group.add_member("owner-device", "m", GroupMemberRole::Member, 101).unwrap();
    assert_eq!(group.membership_epoch, u64::MAX);
}
