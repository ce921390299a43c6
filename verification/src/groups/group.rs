//! A group: its encrypted profile, its member list and its membership epoch.
use vstd::prelude::*;

use crate::text::{is_blank, is_blank_text, str_equal};

verus! {

/// Minimum length of the nonce that accompanies the encrypted group profile.
pub const MIN_PROFILE_NONCE_BYTES: usize = 12;

/// Minimum length of the authentication tag of the encrypted group profile.
pub const MIN_PROFILE_TAG_BYTES: usize = 16;

#[derive(Debug, Clone, Copy, PartialEq, Eq, Structural)]
pub enum GroupMemberRole {
    Owner,
    Admin,
    Member,
}

#[derive(Debug, Clone, Copy, PartialEq, Eq, Structural)]
pub enum GroupMemberStatus {
    Active,
    Removed,
}

#[derive(Debug, Clone, PartialEq, Eq)]
pub struct GroupMember {
    pub device_id: String,
    pub role: GroupMemberRole,
    pub status: GroupMemberStatus,
    pub joined_at_unix_seconds: i64,
    pub removed_at_unix_seconds: Option<i64>,
}

#[derive(Debug, Clone, PartialEq, Eq)]
pub struct Group {
    pub group_id: String,
    pub created_by_device_id: String,
    pub encrypted_group_profile: Vec<u8>,
    pub profile_nonce: Vec<u8>,
    pub profile_authentication_tag: Vec<u8>,
    pub members: Vec<GroupMember>,
    pub created_at_unix_seconds: i64,
    pub membership_epoch: u64,
}

#[derive(Debug, Clone, Copy, PartialEq, Eq, Structural)]
pub enum GroupError {
    MissingIdentifier,
    MissingEncryptedProfile,
    InvalidProfileNonce,
    InvalidProfileAuthenticationTag,
    ActorNotActiveMember,
    InsufficientPermission,
    CannotAddOwnerRole,
    MemberAlreadyActive,
    MemberNotActive,
    CannotRemoveSelf,
    CannotRemoveOwner,
}

/// A member entry as a mathematical value.
pub struct MemberView {
    pub device_id: Seq<char>,
    pub role: GroupMemberRole,
    pub status: GroupMemberStatus,
    pub joined_at_unix_seconds: i64,
    pub removed_at_unix_seconds: Option<i64>,
}

/// A group as a mathematical value.
pub struct GroupView {
    pub group_id: Seq<char>,
    pub created_by_device_id: Seq<char>,
    pub encrypted_group_profile: Seq<u8>,
    pub profile_nonce: Seq<u8>,
    pub profile_authentication_tag: Seq<u8>,
    pub members: Seq<MemberView>,
    pub created_at_unix_seconds: i64,
    pub membership_epoch: u64,
}

impl View for GroupMember {
    type V = MemberView;

    open spec fn view(&self) -> MemberView {
        MemberView {
            device_id: self.device_id@,
            role: self.role,
            status: self.status,
            joined_at_unix_seconds: self.joined_at_unix_seconds,
            removed_at_unix_seconds: self.removed_at_unix_seconds,
        }
    }
}

impl View for Group {
    type V = GroupView;

    open spec fn view(&self) -> GroupView {
        GroupView {
            group_id: self.group_id@,
            created_by_device_id: self.created_by_device_id@,
            encrypted_group_profile: self.encrypted_group_profile@,
            profile_nonce: self.profile_nonce@,
            profile_authentication_tag: self.profile_authentication_tag@,
            members: self.members@.map_values(|m: GroupMember| m@),
            created_at_unix_seconds: self.created_at_unix_seconds,
            membership_epoch: self.membership_epoch,
        }
    }
}

/// Whether the entry `m` is an active membership of the device `id`.
pub open spec fn is_active_as(m: MemberView, id: Seq<char>) -> bool {
    m.device_id == id && m.status == GroupMemberStatus::Active
}

/// Whether the device `id` has an active membership among `members`.
pub open spec fn has_active(members: Seq<MemberView>, id: Seq<char>) -> bool {
    exists|i: int| 0 <= i < members.len() && #[trigger] is_active_as(members[i], id)
}

/// Whether `i` is the first entry of `members` that is an active membership of `id`.
pub open spec fn is_first_active(members: Seq<MemberView>, id: Seq<char>, i: int) -> bool {
    &&& 0 <= i < members.len()
    &&& is_active_as(members[i], id)
    &&& forall|j: int| 0 <= j < i ==> !#[trigger] is_active_as(members[j], id)
}

/// The position of the first active membership of `id` (meaningful when there is one).
pub open spec fn first_active(members: Seq<MemberView>, id: Seq<char>) -> int {
    choose|i: int| is_first_active(members, id, i)
}

/// Roles that may change the membership and the profile of a group.
pub open spec fn is_admin_role(role: GroupMemberRole) -> bool {
    role == GroupMemberRole::Owner || role == GroupMemberRole::Admin
}

/// The membership epoch after one accepted change (it stops at `u64::MAX`).
pub open spec fn next_epoch(epoch: u64) -> u64 {
    if epoch == u64::MAX {
        u64::MAX
    } else {
        (epoch + 1) as u64
    }
}

/// Whether `actor` may administer the group with these members.
pub open spec fn admin_check(members: Seq<MemberView>, actor: Seq<char>) -> Result<(), GroupError> {
    if !has_active(members, actor) {
        Err(GroupError::ActorNotActiveMember)
    } else if is_admin_role(members[first_active(members, actor)].role) {
        Ok(())
    } else {
        Err(GroupError::InsufficientPermission)
    }
}

/// The check on an identifier: it must not be blank.
pub open spec fn identifier_check(id: Seq<char>) -> Result<(), GroupError> {
    if is_blank_text(id) {
        Err(GroupError::MissingIdentifier)
    } else {
        Ok(())
    }
}

/// The checks on an encrypted profile, in the order in which they are made.
pub open spec fn profile_check(profile: Seq<u8>, nonce: Seq<u8>, tag: Seq<u8>) -> Result<(), GroupError> {
    if profile.len() == 0 {
        Err(GroupError::MissingEncryptedProfile)
    } else if nonce.len() < MIN_PROFILE_NONCE_BYTES {
        Err(GroupError::InvalidProfileNonce)
    } else if tag.len() < MIN_PROFILE_TAG_BYTES {
        Err(GroupError::InvalidProfileAuthenticationTag)
    } else {
        Ok(())
    }
}

/// The group that creation yields, or the first check it fails.
pub open spec fn create_outcome(
    group_id: Seq<char>,
    created_by: Seq<char>,
    profile: Seq<u8>,
    nonce: Seq<u8>,
    tag: Seq<u8>,
    created_at: i64,
) -> Result<GroupView, GroupError> {
    if is_blank_text(group_id) || is_blank_text(created_by) {
        Err(GroupError::MissingIdentifier)
    } else if let Err(e) = profile_check(profile, nonce, tag) {
        Err(e)
    } else {
        Ok(
            GroupView {
                group_id,
                created_by_device_id: created_by,
                encrypted_group_profile: profile,
                profile_nonce: nonce,
                profile_authentication_tag: tag,
                members: seq![
                    MemberView {
                        device_id: created_by,
                        role: GroupMemberRole::Owner,
                        status: GroupMemberStatus::Active,
                        joined_at_unix_seconds: created_at,
                        removed_at_unix_seconds: None,
                    },
                ],
                created_at_unix_seconds: created_at,
                membership_epoch: 1,
            },
        )
    }
}


/// The group after `actor` adds `new_id` with `role`, or the first check it fails.
pub open spec fn add_member_outcome(
    g: GroupView,
    actor: Seq<char>,
    new_id: Seq<char>,
    role: GroupMemberRole,
    joined_at: i64,
) -> Result<GroupView, GroupError> {
    if let Err(e) = admin_check(g.members, actor) {
        Err(e)
    } else if is_blank_text(new_id) {
        Err(GroupError::MissingIdentifier)
    } else if role == GroupMemberRole::Owner {
        Err(GroupError::CannotAddOwnerRole)
    } else if has_active(g.members, new_id) {
        Err(GroupError::MemberAlreadyActive)
    } else {
        Ok(
            GroupView {
                members: g.members.push(
                    MemberView {
                        device_id: new_id,
                        role,
                        status: GroupMemberStatus::Active,
                        joined_at_unix_seconds: joined_at,
                        removed_at_unix_seconds: None,
                    },
                ),
                membership_epoch: next_epoch(g.membership_epoch),
                ..g
            },
        )
    }
}

/// The group after `actor` removes `target`, or the first check it fails.
pub open spec fn remove_member_outcome(
    g: GroupView,
    actor: Seq<char>,
    target: Seq<char>,
    removed_at: i64,
) -> Result<GroupView, GroupError> {
    if let Err(e) = admin_check(g.members, actor) {
        Err(e)
    } else if actor == target {
        Err(GroupError::CannotRemoveSelf)
    } else if !has_active(g.members, target) {
        Err(GroupError::MemberNotActive)
    } else if g.members[first_active(g.members, target)].role == GroupMemberRole::Owner {
        Err(GroupError::CannotRemoveOwner)
    } else {
        let i = first_active(g.members, target);
        Ok(
            GroupView {
                members: g.members.update(
                    i,
                    MemberView {
                        status: GroupMemberStatus::Removed,
                        removed_at_unix_seconds: Some(removed_at),
                        ..g.members[i]
                    },
                ),
                membership_epoch: next_epoch(g.membership_epoch),
                ..g
            },
        )
    }
}

/// The group after `actor` replaces its encrypted profile, or the first check it fails.
pub open spec fn rotate_profile_outcome(
    g: GroupView,
    actor: Seq<char>,
    profile: Seq<u8>,
    nonce: Seq<u8>,
    tag: Seq<u8>,
) -> Result<GroupView, GroupError> {
    if let Err(e) = admin_check(g.members, actor) {
        Err(e)
    } else if let Err(e) = profile_check(profile, nonce, tag) {
        Err(e)
    } else {
        Ok(
            GroupView {
                encrypted_group_profile: profile,
                profile_nonce: nonce,
                profile_authentication_tag: tag,
                membership_epoch: next_epoch(g.membership_epoch),
                ..g
            },
        )
    }
}

/// How a change of the group relates the state before and after it and what it
/// returned: on success the state is the one the outcome gives; on failure the
/// error is the outcome's and nothing changed.
pub open spec fn change_follows(
    outcome: Result<GroupView, GroupError>,
    before: GroupView,
    after: GroupView,
    r: Result<(), GroupError>,
) -> bool {
    match outcome {
        Ok(g) => r is Ok && after == g,
        Err(e) => r == Err::<(), GroupError>(e) && after == before,
    }
}

/// If `id` has an active membership, the first one is found at `first_active`.
pub proof fn lemma_first_active_exists(members: Seq<MemberView>, id: Seq<char>, i: int)
    requires
        0 <= i < members.len(),
        is_active_as(members[i], id),
    ensures
        is_first_active(members, id, first_active(members, id)),
        first_active(members, id) <= i,
    decreases i,
{
    if exists|j: int| 0 <= j < i && #[trigger] is_active_as(members[j], id) {
        let j = choose|j: int| 0 <= j < i && #[trigger] is_active_as(members[j], id);
        lemma_first_active_exists(members, id, j);
    } else {
        assert(is_first_active(members, id, i));
        lemma_first_active_unique(members, id, i, first_active(members, id));
    }
}

/// At most one position is the first active membership of `id`.
pub proof fn lemma_first_active_unique(members: Seq<MemberView>, id: Seq<char>, i: int, k: int)
    requires
        is_first_active(members, id, i),
        is_first_active(members, id, k),
    ensures
        i == k,
{
    if i < k {
        assert(!is_active_as(members[i], id));
    } else if k < i {
        assert(!is_active_as(members[k], id));
    }
}

/// The shape that every group reached through this API keeps: its creator is the
/// first member, the owner, and stays active; no one else is an owner; and no
/// device holds two active memberships at once.
pub open spec fn group_wf(g: GroupView) -> bool {
    &&& g.members.len() >= 1
    &&& g.members[0].device_id == g.created_by_device_id
    &&& g.members[0].role == GroupMemberRole::Owner
    &&& g.members[0].status == GroupMemberStatus::Active
    &&& forall|i: int| 1 <= i < g.members.len() ==> #[trigger] g.members[i].role != GroupMemberRole::Owner
    &&& forall|i: int, j: int|
        0 <= i < j < g.members.len() && #[trigger] g.members[i].status == GroupMemberStatus::Active
            && #[trigger] g.members[j].status == GroupMemberStatus::Active
            ==> g.members[i].device_id != g.members[j].device_id
}

/// A newly created group is well formed, starts at epoch 1, and its creator,
/// its owner, may send to it.
pub proof fn lemma_created_group_well_formed(
    group_id: Seq<char>,
    created_by: Seq<char>,
    profile: Seq<u8>,
    nonce: Seq<u8>,
    tag: Seq<u8>,
    created_at: i64,
)
    requires
        create_outcome(group_id, created_by, profile, nonce, tag, created_at) is Ok,
    ensures
        ({
            let g = create_outcome(group_id, created_by, profile, nonce, tag, created_at)->Ok_0;
            &&& group_wf(g)
            &&& g.membership_epoch == 1
            &&& has_active(g.members, created_by)
            &&& g.members[first_active(g.members, created_by)].role == GroupMemberRole::Owner
        }),
{
    let g = create_outcome(group_id, created_by, profile, nonce, tag, created_at)->Ok_0;
    assert(is_active_as(g.members[0], created_by));
    lemma_first_active_exists(g.members, created_by, 0);
}

/// Adding a member keeps a group well formed.
pub proof fn lemma_add_member_keeps_wf(
    g: GroupView,
    actor: Seq<char>,
    new_id: Seq<char>,
    role: GroupMemberRole,
    joined_at: i64,
)
    requires
        group_wf(g),
        add_member_outcome(g, actor, new_id, role, joined_at) is Ok,
    ensures
        group_wf(add_member_outcome(g, actor, new_id, role, joined_at)->Ok_0),
{
    let g2 = add_member_outcome(g, actor, new_id, role, joined_at)->Ok_0;
    let n = g.members.len();
    assert forall|i: int, j: int|
        0 <= i < j < g2.members.len() && #[trigger] g2.members[i].status == GroupMemberStatus::Active
            && #[trigger] g2.members[j].status == GroupMemberStatus::Active
        implies g2.members[i].device_id != g2.members[j].device_id by {
        if j == n {
            assert(!is_active_as(g.members[i], new_id));
        }
    }
}

/// Removing a member keeps a group well formed.
pub proof fn lemma_remove_member_keeps_wf(
    g: GroupView,
    actor: Seq<char>,
    target: Seq<char>,
    removed_at: i64,
)
    requires
        group_wf(g),
        remove_member_outcome(g, actor, target, removed_at) is Ok,
    ensures
        group_wf(remove_member_outcome(g, actor, target, removed_at)->Ok_0),
{
    let k = choose|i: int| 0 <= i < g.members.len() && #[trigger] is_active_as(g.members[i], target);
    lemma_first_active_exists(g.members, target, k);
    let idx = first_active(g.members, target);
    let g2 = remove_member_outcome(g, actor, target, removed_at)->Ok_0;
    assert(idx != 0);
    assert forall|i: int, j: int|
        0 <= i < j < g2.members.len() && #[trigger] g2.members[i].status == GroupMemberStatus::Active
            && #[trigger] g2.members[j].status == GroupMemberStatus::Active
        implies g2.members[i].device_id != g2.members[j].device_id by {
        assert(g.members[i].status == GroupMemberStatus::Active);
        assert(g.members[j].status == GroupMemberStatus::Active);
    }
}

/// Replacing the encrypted profile keeps a group well formed and leaves its
/// members unchanged.
pub proof fn lemma_rotate_profile_keeps_wf(
    g: GroupView,
    actor: Seq<char>,
    profile: Seq<u8>,
    nonce: Seq<u8>,
    tag: Seq<u8>,
)
    requires
        group_wf(g),
        rotate_profile_outcome(g, actor, profile, nonce, tag) is Ok,
    ensures
        group_wf(rotate_profile_outcome(g, actor, profile, nonce, tag)->Ok_0),
        rotate_profile_outcome(g, actor, profile, nonce, tag)->Ok_0.members == g.members,
{
}

/// In a well formed group the owner is an active member and cannot be removed,
/// whoever asks.
pub proof fn lemma_owner_cannot_be_removed(g: GroupView, actor: Seq<char>, removed_at: i64)
    requires
        group_wf(g),
    ensures
        has_active(g.members, g.created_by_device_id),
        remove_member_outcome(g, actor, g.created_by_device_id, removed_at) is Err,
{
    assert(is_active_as(g.members[0], g.created_by_device_id));
    lemma_first_active_exists(g.members, g.created_by_device_id, 0);
}

/// Only an active owner or admin can change a group: every accepted addition,
/// removal or profile rotation was asked for by one.
pub proof fn lemma_only_admins_change_group(
    g: GroupView,
    actor: Seq<char>,
    other_id: Seq<char>,
    role: GroupMemberRole,
    at: i64,
    profile: Seq<u8>,
    nonce: Seq<u8>,
    tag: Seq<u8>,
)
    requires
        add_member_outcome(g, actor, other_id, role, at) is Ok || remove_member_outcome(
            g,
            actor,
            other_id,
            at,
        ) is Ok || rotate_profile_outcome(g, actor, profile, nonce, tag) is Ok,
    ensures
        has_active(g.members, actor),
        is_admin_role(g.members[first_active(g.members, actor)].role),
{
}

/// Every accepted change advances the membership epoch by one (it stays at
/// `u64::MAX` once there), so the epoch never decreases.
pub proof fn lemma_accepted_change_advances_epoch(
    g: GroupView,
    actor: Seq<char>,
    other_id: Seq<char>,
    role: GroupMemberRole,
    at: i64,
    profile: Seq<u8>,
    nonce: Seq<u8>,
    tag: Seq<u8>,
)
    ensures
        add_member_outcome(g, actor, other_id, role, at) matches Ok(g2) ==> g2.membership_epoch
            == next_epoch(g.membership_epoch),
        remove_member_outcome(g, actor, other_id, at) matches Ok(g2) ==> g2.membership_epoch
            == next_epoch(g.membership_epoch),
        rotate_profile_outcome(g, actor, profile, nonce, tag) matches Ok(g2) ==> g2.membership_epoch
            == next_epoch(g.membership_epoch),
        g.membership_epoch < u64::MAX ==> next_epoch(g.membership_epoch) == g.membership_epoch + 1,
        g.membership_epoch <= next_epoch(g.membership_epoch),
{
}

/// A device just added may send to the group.
pub proof fn lemma_added_member_can_send(
    g: GroupView,
    actor: Seq<char>,
    new_id: Seq<char>,
    role: GroupMemberRole,
    joined_at: i64,
)
    requires
        add_member_outcome(g, actor, new_id, role, joined_at) is Ok,
    ensures
        has_active(add_member_outcome(g, actor, new_id, role, joined_at)->Ok_0.members, new_id),
{
    let g2 = add_member_outcome(g, actor, new_id, role, joined_at)->Ok_0;
    assert(is_active_as(g2.members[g.members.len() as int], new_id));
}

/// In a well formed group, a device just removed may no longer send to it.
pub proof fn lemma_removed_member_cannot_send(
    g: GroupView,
    actor: Seq<char>,
    target: Seq<char>,
    removed_at: i64,
)
    requires
        group_wf(g),
        remove_member_outcome(g, actor, target, removed_at) is Ok,
    ensures
        !has_active(remove_member_outcome(g, actor, target, removed_at)->Ok_0.members, target),
{
    let k = choose|i: int| 0 <= i < g.members.len() && #[trigger] is_active_as(g.members[i], target);
    lemma_first_active_exists(g.members, target, k);
    let idx = first_active(g.members, target);
    let g2 = remove_member_outcome(g, actor, target, removed_at)->Ok_0;
    assert forall|i: int| 0 <= i < g2.members.len() implies !#[trigger] is_active_as(g2.members[i], target) by {
        if i != idx && is_active_as(g2.members[i], target) {
            assert(g.members[i].status == GroupMemberStatus::Active);
            assert(g.members[idx].status == GroupMemberStatus::Active);
        }
    }
}

/// An active owner or admin removes any other active member that is not an
/// owner: the member's entry, and only it, is marked removed at the given
/// time, the member can no longer send, and the epoch advances. Removal is
/// refused as `CannotRemoveOwner` only when the target's active entry is an
/// owner's.
pub proof fn lemma_admin_removes_non_owner(
    g: GroupView,
    actor: Seq<char>,
    target: Seq<char>,
    removed_at: i64,
)
    ensures
        ({
            let a = first_active(g.members, actor);
            let t = first_active(g.members, target);
            (group_wf(g) && has_active(g.members, actor) && (g.members[a].role
                == GroupMemberRole::Owner || g.members[a].role == GroupMemberRole::Admin) && actor
                != target && has_active(g.members, target) && g.members[t].role
                != GroupMemberRole::Owner) ==> {
                &&& remove_member_outcome(g, actor, target, removed_at) is Ok
                &&& {
                    let g2 = remove_member_outcome(g, actor, target, removed_at)->Ok_0;
                    &&& g2.members.len() == g.members.len()
                    &&& g2.members[t].device_id == target
                    &&& g2.members[t].role == g.members[t].role
                    &&& g2.members[t].status == GroupMemberStatus::Removed
                    &&& g2.members[t].removed_at_unix_seconds == Some(removed_at)
                    &&& g2.members[t].joined_at_unix_seconds == g.members[t].joined_at_unix_seconds
                    &&& forall|j: int|
                        0 <= j < g.members.len() && j != t ==> #[trigger] g2.members[j]
                            == g.members[j]
                    &&& !has_active(g2.members, target)
                    &&& has_active(g2.members, actor)
                    &&& g.membership_epoch < u64::MAX ==> g2.membership_epoch == g.membership_epoch
                        + 1
                    &&& g.membership_epoch == u64::MAX ==> g2.membership_epoch == u64::MAX
                }
            }
        }),
        remove_member_outcome(g, actor, target, removed_at) == Err::<GroupView, GroupError>(
            GroupError::CannotRemoveOwner,
        ) ==> has_active(g.members, target) && g.members[first_active(g.members, target)].role
            == GroupMemberRole::Owner,
{
    let a = first_active(g.members, actor);
    let t = first_active(g.members, target);
    if group_wf(g) && has_active(g.members, actor) && (g.members[a].role == GroupMemberRole::Owner
        || g.members[a].role == GroupMemberRole::Admin) && actor != target && has_active(
        g.members,
        target,
    ) && g.members[t].role != GroupMemberRole::Owner {
        let ka = choose|i: int| 0 <= i < g.members.len() && #[trigger] is_active_as(g.members[i], actor);
        lemma_first_active_exists(g.members, actor, ka);
        let kt = choose|i: int| 0 <= i < g.members.len() && #[trigger] is_active_as(g.members[i], target);
        lemma_first_active_exists(g.members, target, kt);
        assert(remove_member_outcome(g, actor, target, removed_at) is Ok);
        lemma_removed_member_cannot_send(g, actor, target, removed_at);
        let g2 = remove_member_outcome(g, actor, target, removed_at)->Ok_0;
        assert(a != t);
        assert(is_active_as(g2.members[a], actor));
    }
}

/// An active owner or admin adds any device that has no active membership,
/// under a non-blank identifier, with a role other than owner: the new entry
/// is appended, active, with the given role and time, the device can send,
/// the existing entries are untouched and the epoch advances.
pub proof fn lemma_admin_adds_member(
    g: GroupView,
    actor: Seq<char>,
    new_id: Seq<char>,
    role: GroupMemberRole,
    joined_at: i64,
)
    ensures
        ({
            let a = first_active(g.members, actor);
            (has_active(g.members, actor) && (g.members[a].role == GroupMemberRole::Owner
                || g.members[a].role == GroupMemberRole::Admin) && !is_blank_text(new_id) && role
                != GroupMemberRole::Owner && !has_active(g.members, new_id)) ==> {
                &&& add_member_outcome(g, actor, new_id, role, joined_at) is Ok
                &&& {
                    let g2 = add_member_outcome(g, actor, new_id, role, joined_at)->Ok_0;
                    &&& g2.members.len() == g.members.len() + 1
                    &&& forall|j: int| 0 <= j < g.members.len() ==> #[trigger] g2.members[j] == g.members[j]
                    &&& g2.members[g.members.len() as int].device_id == new_id
                    &&& g2.members[g.members.len() as int].role == role
                    &&& g2.members[g.members.len() as int].status == GroupMemberStatus::Active
                    &&& g2.members[g.members.len() as int].joined_at_unix_seconds == joined_at
                    &&& g2.members[g.members.len() as int].removed_at_unix_seconds is None
                    &&& has_active(g2.members, new_id)
                    &&& g.membership_epoch < u64::MAX ==> g2.membership_epoch == g.membership_epoch
                        + 1
                    &&& g.membership_epoch == u64::MAX ==> g2.membership_epoch == u64::MAX
                }
            }
        }),
{
    let a = first_active(g.members, actor);
    if has_active(g.members, actor) && (g.members[a].role == GroupMemberRole::Owner
        || g.members[a].role == GroupMemberRole::Admin) && !is_blank_text(new_id) && role
        != GroupMemberRole::Owner && !has_active(g.members, new_id) {
        assert(add_member_outcome(g, actor, new_id, role, joined_at) is Ok);
        lemma_added_member_can_send(g, actor, new_id, role, joined_at);
    }
}

/// A group is created exactly when its identifier and its creator's are not
/// blank, the encrypted profile is not empty, the nonce has at least 12 bytes
/// and the tag at least 16; it then holds the given data, its creator is its
/// only member, an active owner who joined at creation, and its epoch is 1.
pub proof fn lemma_group_created_exactly(
    group_id: Seq<char>,
    created_by: Seq<char>,
    profile: Seq<u8>,
    nonce: Seq<u8>,
    tag: Seq<u8>,
    created_at: i64,
)
    ensures
        create_outcome(group_id, created_by, profile, nonce, tag, created_at) is Ok <==> {
            &&& !is_blank_text(group_id)
            &&& !is_blank_text(created_by)
            &&& profile.len() > 0
            &&& nonce.len() >= 12
            &&& tag.len() >= 16
        },
        create_outcome(group_id, created_by, profile, nonce, tag, created_at) matches Ok(g) ==> {
            &&& g.group_id == group_id
            &&& g.created_by_device_id == created_by
            &&& g.encrypted_group_profile == profile
            &&& g.profile_nonce == nonce
            &&& g.profile_authentication_tag == tag
            &&& g.created_at_unix_seconds == created_at
            &&& g.membership_epoch == 1
            &&& g.members.len() == 1
            &&& g.members[0].device_id == created_by
            &&& g.members[0].role == GroupMemberRole::Owner
            &&& g.members[0].status == GroupMemberStatus::Active
            &&& g.members[0].joined_at_unix_seconds == created_at
            &&& g.members[0].removed_at_unix_seconds is None
        },
{
}

/// A profile rotation succeeds exactly when the actor is an active owner or
/// admin, the new encrypted profile is not empty, its nonce has at least 12
/// bytes and its tag at least 16; it then replaces the three, leaves the
/// members and identifiers unchanged and advances the epoch.
pub proof fn lemma_rotate_profile_exactly(
    g: GroupView,
    actor: Seq<char>,
    profile: Seq<u8>,
    nonce: Seq<u8>,
    tag: Seq<u8>,
)
    ensures
        rotate_profile_outcome(g, actor, profile, nonce, tag) is Ok <==> {
            &&& has_active(g.members, actor)
            &&& (g.members[first_active(g.members, actor)].role == GroupMemberRole::Owner
                || g.members[first_active(g.members, actor)].role == GroupMemberRole::Admin)
            &&& profile.len() > 0
            &&& nonce.len() >= 12
            &&& tag.len() >= 16
        },
        rotate_profile_outcome(g, actor, profile, nonce, tag) matches Ok(g2) ==> {
            &&& g2.encrypted_group_profile == profile
            &&& g2.profile_nonce == nonce
            &&& g2.profile_authentication_tag == tag
            &&& g2.members == g.members
            &&& g2.group_id == g.group_id
            &&& g2.created_by_device_id == g.created_by_device_id
            &&& (g.membership_epoch < u64::MAX ==> g2.membership_epoch == g.membership_epoch + 1)
            &&& (g.membership_epoch == u64::MAX ==> g2.membership_epoch == u64::MAX)
        },
{
}

/// Permission comes first in every change: an actor without an active
/// membership is refused as not an active member, and an active plain member
/// is refused for insufficient permission, whatever else is asked.
pub proof fn lemma_permission_refusals(
    g: GroupView,
    actor: Seq<char>,
    other_id: Seq<char>,
    role: GroupMemberRole,
    at: i64,
    profile: Seq<u8>,
    nonce: Seq<u8>,
    tag: Seq<u8>,
)
    ensures
        !has_active(g.members, actor) ==> {
            &&& add_member_outcome(g, actor, other_id, role, at) == Err::<GroupView, GroupError>(
                GroupError::ActorNotActiveMember,
            )
            &&& remove_member_outcome(g, actor, other_id, at) == Err::<GroupView, GroupError>(
                GroupError::ActorNotActiveMember,
            )
            &&& rotate_profile_outcome(g, actor, profile, nonce, tag) == Err::<GroupView, GroupError>(
                GroupError::ActorNotActiveMember,
            )
        },
        has_active(g.members, actor) && g.members[first_active(g.members, actor)].role
            == GroupMemberRole::Member ==> {
            &&& add_member_outcome(g, actor, other_id, role, at) == Err::<GroupView, GroupError>(
                GroupError::InsufficientPermission,
            )
            &&& remove_member_outcome(g, actor, other_id, at) == Err::<GroupView, GroupError>(
                GroupError::InsufficientPermission,
            )
            &&& rotate_profile_outcome(g, actor, profile, nonce, tag) == Err::<GroupView, GroupError>(
                GroupError::InsufficientPermission,
            )
        },
{
}

/// The identifier check, in the form in which the original rejects blank identifiers.
fn validate_identifier(value: &str) -> (r: Result<(), GroupError>)
    ensures
        r == identifier_check(value@),
{
    if is_blank(value) {
        return Err(GroupError::MissingIdentifier);
    }
    Ok(())
}

/// The checks on an encrypted profile and its nonce and authentication tag.
fn validate_encrypted_profile(
    encrypted_group_profile: &[u8],
    profile_nonce: &[u8],
    profile_authentication_tag: &[u8],
) -> (r: Result<(), GroupError>)
    ensures
        r == profile_check(encrypted_group_profile@, profile_nonce@, profile_authentication_tag@),
{
    if encrypted_group_profile.is_empty() {
        return Err(GroupError::MissingEncryptedProfile);
    }
    if profile_nonce.len() < MIN_PROFILE_NONCE_BYTES {
        return Err(GroupError::InvalidProfileNonce);
    }
    if profile_authentication_tag.len() < MIN_PROFILE_TAG_BYTES {
        return Err(GroupError::InvalidProfileAuthenticationTag);
    }
    Ok(())
}

impl Group {
    /// Creates a group whose only member is its creator, as owner, at epoch 1.
    pub fn new(
        group_id: &str,
        created_by_device_id: &str,
        encrypted_group_profile: Vec<u8>,
        profile_nonce: Vec<u8>,
        profile_authentication_tag: Vec<u8>,
        created_at_unix_seconds: i64,
    ) -> (r: Result<Group, GroupError>)
        ensures
            match create_outcome(
                group_id@,
                created_by_device_id@,
                encrypted_group_profile@,
                profile_nonce@,
                profile_authentication_tag@,
                created_at_unix_seconds,
            ) {
                Ok(g) => r matches Ok(group) && group@ == g,
                Err(e) => r == Err::<Group, GroupError>(e),
            },
    {
        validate_identifier(group_id)?;
        validate_identifier(created_by_device_id)?;
        validate_encrypted_profile(
            encrypted_group_profile.as_slice(),
            profile_nonce.as_slice(),
            profile_authentication_tag.as_slice(),
        )?;
        let owner = GroupMember {
            device_id: created_by_device_id.to_owned(),
            role: GroupMemberRole::Owner,
            status: GroupMemberStatus::Active,
            joined_at_unix_seconds: created_at_unix_seconds,
            removed_at_unix_seconds: None,
        };
        let mut members: Vec<GroupMember> = Vec::new();
        members.push(owner);
        let group = Group {
            group_id: group_id.to_owned(),
            created_by_device_id: created_by_device_id.to_owned(),
            encrypted_group_profile,
            profile_nonce,
            profile_authentication_tag,
            members,
            created_at_unix_seconds,
            membership_epoch: 1,
        };
        assert(group@.members =~= create_outcome(
            group_id@,
            created_by_device_id@,
            encrypted_group_profile@,
            profile_nonce@,
            profile_authentication_tag@,
            created_at_unix_seconds,
        )->Ok_0.members);
        Ok(group)
    }

    /// The first active membership of `device_id`, if there is one.
    pub fn active_member(&self, device_id: &str) -> (r: Option<&GroupMember>)
        ensures
            match r {
                None => !has_active(self@.members, device_id@),
                Some(m) => has_active(self@.members, device_id@) && m@ == self@.members[first_active(
                    self@.members,
                    device_id@,
                )],
            },
    {
        let n = self.members.len();
        let mut i: usize = 0;
        while i < n
            invariant
                n == self.members@.len(),
                i <= n,
                forall|j: int| 0 <= j < i ==> !#[trigger] is_active_as(self@.members[j], device_id@),
            decreases n - i,
        {
            let member = &self.members[i];
            if str_equal(member.device_id.as_str(), device_id) && member.status
                == GroupMemberStatus::Active {
                proof {
                    assert(is_first_active(self@.members, device_id@, i as int));
                    lemma_first_active_exists(self@.members, device_id@, i as int);
                    lemma_first_active_unique(
                        self@.members,
                        device_id@,
                        i as int,
                        first_active(self@.members, device_id@),
                    );
                }
                return Some(member);
            }
            i = i + 1;
        }
        None
    }

    /// Whether `device_id` is an active member and so may send to the group.
    pub fn can_send(&self, device_id: &str) -> (r: bool)
        ensures
            r == has_active(self@.members, device_id@),
    {
        self.active_member(device_id).is_some()
    }

    /// Adds `new_member_device_id` with `role`, on behalf of an owner or admin;
    /// the membership epoch advances.
    pub fn add_member(
        &mut self,
        actor_device_id: &str,
        new_member_device_id: &str,
        role: GroupMemberRole,
        joined_at_unix_seconds: i64,
    ) -> (r: Result<(), GroupError>)
        ensures
            change_follows(
                add_member_outcome(
                    old(self)@,
                    actor_device_id@,
                    new_member_device_id@,
                    role,
                    joined_at_unix_seconds,
                ),
                old(self)@,
                final(self)@,
                r,
            ),
    {
        self.require_admin(actor_device_id)?;
        validate_identifier(new_member_device_id)?;
        if role == GroupMemberRole::Owner {
            return Err(GroupError::CannotAddOwnerRole);
        }
        if self.active_member(new_member_device_id).is_some() {
            return Err(GroupError::MemberAlreadyActive);
        }
        let ghost before = self@;
        self.members.push(
            GroupMember {
                device_id: new_member_device_id.to_owned(),
                role,
                status: GroupMemberStatus::Active,
                joined_at_unix_seconds,
                removed_at_unix_seconds: None,
            },
        );
        self.membership_epoch = self.membership_epoch.saturating_add(1);
        assert(self@.members =~= add_member_outcome(
            before,
            actor_device_id@,
            new_member_device_id@,
            role,
            joined_at_unix_seconds,
        )->Ok_0.members);
        Ok(())
    }

    /// Marks the active membership of `target_device_id` as removed, on behalf of
    /// an owner or admin other than the target; the owner cannot be removed.
    pub fn remove_member(
        &mut self,
        actor_device_id: &str,
        target_device_id: &str,
        removed_at_unix_seconds: i64,
    ) -> (r: Result<(), GroupError>)
        ensures
            change_follows(
                remove_member_outcome(
                    old(self)@,
                    actor_device_id@,
                    target_device_id@,
                    removed_at_unix_seconds,
                ),
                old(self)@,
                final(self)@,
                r,
            ),
    {
        self.require_admin(actor_device_id)?;
        if str_equal(actor_device_id, target_device_id) {
            return Err(GroupError::CannotRemoveSelf);
        }
        let ghost before = self@;
        let n = self.members.len();
        let mut i: usize = 0;
        while i < n
            invariant
                n == self.members@.len(),
                i <= n,
                self@ == before,
                forall|j: int| 0 <= j < i ==> !#[trigger] is_active_as(before.members[j], target_device_id@),
            ensures
                i <= n,
                self@ == before,
                forall|j: int| 0 <= j < i ==> !#[trigger] is_active_as(before.members[j], target_device_id@),
                i < n ==> is_active_as(before.members[i as int], target_device_id@),
            decreases n - i,
        {
            if str_equal(self.members[i].device_id.as_str(), target_device_id)
                && self.members[i].status == GroupMemberStatus::Active {
                break;
            }
            i = i + 1;
        }
        if i == n {
            return Err(GroupError::MemberNotActive);
        }
        proof {
            assert(is_first_active(before.members, target_device_id@, i as int));
            lemma_first_active_exists(before.members, target_device_id@, i as int);
            lemma_first_active_unique(
                before.members,
                target_device_id@,
                i as int,
                first_active(before.members, target_device_id@),
            );
        }
        if self.members[i].role == GroupMemberRole::Owner {
            return Err(GroupError::CannotRemoveOwner);
        }
        let updated = GroupMember {
            device_id: self.members[i].device_id.clone(),
            role: self.members[i].role,
            status: GroupMemberStatus::Removed,
            joined_at_unix_seconds: self.members[i].joined_at_unix_seconds,
            removed_at_unix_seconds: Some(removed_at_unix_seconds),
        };
        self.members.set(i, updated);
        self.membership_epoch = self.membership_epoch.saturating_add(1);
        assert(self@.members =~= remove_member_outcome(
            before,
            actor_device_id@,
            target_device_id@,
            removed_at_unix_seconds,
        )->Ok_0.members);
        Ok(())
    }

    /// Replaces the encrypted profile, on behalf of an owner or admin; the
    /// membership epoch advances.
    pub fn rotate_encrypted_profile(
        &mut self,
        actor_device_id: &str,
        encrypted_group_profile: Vec<u8>,
        profile_nonce: Vec<u8>,
        profile_authentication_tag: Vec<u8>,
    ) -> (r: Result<(), GroupError>)
        ensures
            change_follows(
                rotate_profile_outcome(
                    old(self)@,
                    actor_device_id@,
                    encrypted_group_profile@,
                    profile_nonce@,
                    profile_authentication_tag@,
                ),
                old(self)@,
                final(self)@,
                r,
            ),
    {
        self.require_admin(actor_device_id)?;
        validate_encrypted_profile(
            encrypted_group_profile.as_slice(),
            profile_nonce.as_slice(),
            profile_authentication_tag.as_slice(),
        )?;
        let ghost before = self@;
        self.encrypted_group_profile = encrypted_group_profile;
        self.profile_nonce = profile_nonce;
        self.profile_authentication_tag = profile_authentication_tag;
        self.membership_epoch = self.membership_epoch.saturating_add(1);
        assert(self@.members =~= before.members);
        Ok(())
    }

    /// Whether `actor_device_id` is an active owner or admin.
    fn require_admin(&self, actor_device_id: &str) -> (r: Result<(), GroupError>)
        ensures
            r == admin_check(self@.members, actor_device_id@),
    {
        match self.active_member(actor_device_id) {
            Some(member) => {
                if member.role == GroupMemberRole::Owner || member.role == GroupMemberRole::Admin {
                    Ok(())
                } else {
                    Err(GroupError::InsufficientPermission)
                }
            },
            None => Err(GroupError::ActorNotActiveMember),
        }
    }
}

} // verus!
