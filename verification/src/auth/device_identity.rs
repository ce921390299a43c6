//! The server's record of a device: its public key material and its approval state.
use vstd::prelude::*;

use crate::text::{all_zero, is_blank, is_blank_text, is_zero_bytes};

verus! {

#[derive(Debug, Clone, PartialEq, Eq)]
pub struct DeviceIdentity {
    pub device_id: String,
    pub display_name: String,
    pub identity_public_key_ed25519: [u8; 32],
    pub signed_prekey_public_key_x25519: [u8; 32],
    pub signed_prekey_signature_ed25519: [u8; 64],
    pub status: DeviceStatus,
    pub created_at_unix_seconds: i64,
    pub approved_at_unix_seconds: Option<i64>,
    pub revoked_at_unix_seconds: Option<i64>,
}

#[derive(Debug, Clone, Copy, PartialEq, Eq, Structural)]
pub enum DeviceStatus {
    PendingApproval,
    Approved,
    Revoked,
}

#[derive(Debug, Clone, Copy, PartialEq, Eq, Structural)]
pub enum DeviceIdentityError {
    EmptyDeviceId,
    EmptyDisplayName,
    InvalidPublicKey,
    InvalidSignedPrekey,
    MissingSignedPrekeyProof,
    CannotApproveRevokedDevice,
}

/// A device record as a mathematical value.
pub struct DeviceView {
    pub device_id: Seq<char>,
    pub display_name: Seq<char>,
    pub identity_public_key_ed25519: Seq<u8>,
    pub signed_prekey_public_key_x25519: Seq<u8>,
    pub signed_prekey_signature_ed25519: Seq<u8>,
    pub status: DeviceStatus,
    pub created_at_unix_seconds: i64,
    pub approved_at_unix_seconds: Option<i64>,
    pub revoked_at_unix_seconds: Option<i64>,
}

impl View for DeviceIdentity {
    type V = DeviceView;

    open spec fn view(&self) -> DeviceView {
        DeviceView {
            device_id: self.device_id@,
            display_name: self.display_name@,
            identity_public_key_ed25519: self.identity_public_key_ed25519@,
            signed_prekey_public_key_x25519: self.signed_prekey_public_key_x25519@,
            signed_prekey_signature_ed25519: self.signed_prekey_signature_ed25519@,
            status: self.status,
            created_at_unix_seconds: self.created_at_unix_seconds,
            approved_at_unix_seconds: self.approved_at_unix_seconds,
            revoked_at_unix_seconds: self.revoked_at_unix_seconds,
        }
    }
}

/// The record that registering a device yields, or the first check it fails.
pub open spec fn registration_outcome(
    device_id: Seq<char>,
    display_name: Seq<char>,
    identity_key: Seq<u8>,
    signed_prekey: Seq<u8>,
    prekey_signature: Seq<u8>,
    created_at: i64,
) -> Result<DeviceView, DeviceIdentityError> {
    if is_blank_text(device_id) {
        Err(DeviceIdentityError::EmptyDeviceId)
    } else if is_blank_text(display_name) {
        Err(DeviceIdentityError::EmptyDisplayName)
    } else if is_zero_bytes(identity_key) {
        Err(DeviceIdentityError::InvalidPublicKey)
    } else if is_zero_bytes(signed_prekey) {
        Err(DeviceIdentityError::InvalidSignedPrekey)
    } else if is_zero_bytes(prekey_signature) {
        Err(DeviceIdentityError::MissingSignedPrekeyProof)
    } else {
        Ok(
            DeviceView {
                device_id,
                display_name,
                identity_public_key_ed25519: identity_key,
                signed_prekey_public_key_x25519: signed_prekey,
                signed_prekey_signature_ed25519: prekey_signature,
                status: DeviceStatus::PendingApproval,
                created_at_unix_seconds: created_at,
                approved_at_unix_seconds: None,
                revoked_at_unix_seconds: None,
            },
        )
    }
}

/// The record after an approval at `at`, or the refusal of a revoked device.
pub open spec fn approve_outcome(d: DeviceView, at: i64) -> Result<DeviceView, DeviceIdentityError> {
    if d.status == DeviceStatus::Revoked {
        Err(DeviceIdentityError::CannotApproveRevokedDevice)
    } else {
        Ok(DeviceView { status: DeviceStatus::Approved, approved_at_unix_seconds: Some(at), ..d })
    }
}

/// The record after a revocation at `at`.
pub open spec fn revoked(d: DeviceView, at: i64) -> DeviceView {
    DeviceView { status: DeviceStatus::Revoked, revoked_at_unix_seconds: Some(at), ..d }
}

/// Whether the device may authenticate: approved and never revoked.
pub open spec fn may_authenticate(d: DeviceView) -> bool {
    d.status == DeviceStatus::Approved && d.revoked_at_unix_seconds is None
}

/// The shape every device record reached through this API keeps: a pending
/// device has been neither approved nor revoked, an approved one carries its
/// approval time and no revocation, and a revoked one carries its revocation time.
pub open spec fn device_wf(d: DeviceView) -> bool {
    &&& d.status == DeviceStatus::PendingApproval ==> d.approved_at_unix_seconds is None
        && d.revoked_at_unix_seconds is None
    &&& d.status == DeviceStatus::Approved ==> d.approved_at_unix_seconds is Some
        && d.revoked_at_unix_seconds is None
    &&& d.status == DeviceStatus::Revoked ==> d.revoked_at_unix_seconds is Some
}

/// One administrative action on a device.
pub enum DeviceEvent {
    Approve { at: i64 },
    Revoke { at: i64 },
}

/// The record after one action (a refused approval leaves it unchanged).
pub open spec fn apply_device_event(d: DeviceView, ev: DeviceEvent) -> DeviceView {
    match ev {
        DeviceEvent::Approve { at } => match approve_outcome(d, at) {
            Ok(d2) => d2,
            Err(_) => d,
        },
        DeviceEvent::Revoke { at } => revoked(d, at),
    }
}

/// The record after a sequence of actions.
pub open spec fn run_device_events(d: DeviceView, events: Seq<DeviceEvent>) -> DeviceView
    decreases events.len(),
{
    if events.len() == 0 {
        d
    } else {
        apply_device_event(run_device_events(d, events.drop_last()), events.last())
    }
}

/// A newly registered device is well formed, awaits approval and cannot
/// authenticate yet.
pub proof fn lemma_new_device_pending(
    device_id: Seq<char>,
    display_name: Seq<char>,
    identity_key: Seq<u8>,
    signed_prekey: Seq<u8>,
    prekey_signature: Seq<u8>,
    created_at: i64,
)
    requires
        registration_outcome(device_id, display_name, identity_key, signed_prekey, prekey_signature, created_at) is Ok,
    ensures
        ({
            let d = registration_outcome(
                device_id,
                display_name,
                identity_key,
                signed_prekey,
                prekey_signature,
                created_at,
            )->Ok_0;
            &&& device_wf(d)
            &&& d.status == DeviceStatus::PendingApproval
            &&& !may_authenticate(d)
        }),
{
}

/// Approval and revocation keep a device record well formed, and in a well
/// formed record authentication is allowed exactly when the device is approved.
pub proof fn lemma_device_event_keeps_wf(d: DeviceView, ev: DeviceEvent)
    requires
        device_wf(d),
    ensures
        device_wf(apply_device_event(d, ev)),
        may_authenticate(d) <==> d.status == DeviceStatus::Approved,
{
}

/// A revoked device stays revoked whatever is done to it afterwards: every
/// approval is refused and it can never authenticate again.
pub proof fn lemma_revocation_is_final(d: DeviceView, events: Seq<DeviceEvent>)
    requires
        d.status == DeviceStatus::Revoked,
    ensures
        run_device_events(d, events).status == DeviceStatus::Revoked,
        !may_authenticate(run_device_events(d, events)),
        forall|at: i64| #[trigger] approve_outcome(run_device_events(d, events), at) is Err,
    decreases events.len(),
{
    if events.len() > 0 {
        lemma_revocation_is_final(d, events.drop_last());
    }
}

/// Revoking a device, whatever its state, stops it from authenticating.
pub proof fn lemma_revoked_device_cannot_authenticate(d: DeviceView, at: i64)
    ensures
        !may_authenticate(revoked(d, at)),
        approve_outcome(revoked(d, at), at) is Err,
{
}

/// A device is registered exactly when its identifier and display name are
/// not blank and its identity key, signed pre-key and pre-key signature each
/// have a non-zero byte; the record then holds exactly the given material,
/// awaits approval and has been neither approved nor revoked.
pub proof fn lemma_registration_exactly(
    device_id: Seq<char>,
    display_name: Seq<char>,
    identity_key: Seq<u8>,
    signed_prekey: Seq<u8>,
    prekey_signature: Seq<u8>,
    created_at: i64,
)
    ensures
        registration_outcome(device_id, display_name, identity_key, signed_prekey, prekey_signature, created_at) is Ok
            <==> {
            &&& !is_blank_text(device_id)
            &&& !is_blank_text(display_name)
            &&& exists|k: int| 0 <= k < identity_key.len() && #[trigger] identity_key[k] != 0
            &&& exists|k: int| 0 <= k < signed_prekey.len() && #[trigger] signed_prekey[k] != 0
            &&& exists|k: int| 0 <= k < prekey_signature.len() && #[trigger] prekey_signature[k] != 0
        },
        registration_outcome(device_id, display_name, identity_key, signed_prekey, prekey_signature, created_at)
            matches Ok(d) ==> {
            &&& d.device_id == device_id
            &&& d.display_name == display_name
            &&& d.identity_public_key_ed25519 == identity_key
            &&& d.signed_prekey_public_key_x25519 == signed_prekey
            &&& d.signed_prekey_signature_ed25519 == prekey_signature
            &&& d.created_at_unix_seconds == created_at
            &&& d.status == DeviceStatus::PendingApproval
            &&& d.approved_at_unix_seconds is None
            &&& d.revoked_at_unix_seconds is None
        },
{
}

/// Approval succeeds exactly for a device that is not revoked; the device is
/// then approved at the given time, may authenticate if it was never revoked,
/// and keeps its identity. Revocation marks any device revoked at the given
/// time and keeps its identity.
pub proof fn lemma_approve_and_revoke_exactly(d: DeviceView, at: i64)
    ensures
        approve_outcome(d, at) is Ok <==> d.status != DeviceStatus::Revoked,
        approve_outcome(d, at) matches Ok(d2) ==> {
            &&& d2.status == DeviceStatus::Approved
            &&& d2.approved_at_unix_seconds == Some(at)
            &&& d2.revoked_at_unix_seconds == d.revoked_at_unix_seconds
            &&& d2.device_id == d.device_id
            &&& d2.identity_public_key_ed25519 == d.identity_public_key_ed25519
            &&& (d.revoked_at_unix_seconds is None ==> may_authenticate(d2))
        },
        revoked(d, at).status == DeviceStatus::Revoked,
        revoked(d, at).revoked_at_unix_seconds == Some(at),
        revoked(d, at).approved_at_unix_seconds == d.approved_at_unix_seconds,
        revoked(d, at).device_id == d.device_id,
        revoked(d, at).identity_public_key_ed25519 == d.identity_public_key_ed25519,
        may_authenticate(d) <==> (d.status == DeviceStatus::Approved && d.revoked_at_unix_seconds is None),
{
}

impl DeviceIdentity {
    /// Registers a device awaiting approval, once its identifiers are present and
    /// its public key material is not all zero.
    pub fn new_pending(
        device_id: &str,
        display_name: &str,
        identity_public_key_ed25519: [u8; 32],
        signed_prekey_public_key_x25519: [u8; 32],
        signed_prekey_signature_ed25519: [u8; 64],
        created_at_unix_seconds: i64,
    ) -> (r: Result<Self, DeviceIdentityError>)
        ensures
            match registration_outcome(
                device_id@,
                display_name@,
                identity_public_key_ed25519@,
                signed_prekey_public_key_x25519@,
                signed_prekey_signature_ed25519@,
                created_at_unix_seconds,
            ) {
                Ok(d) => r matches Ok(device) && device@ == d,
                Err(e) => r == Err::<Self, DeviceIdentityError>(e),
            },
    {
        if is_blank(device_id) {
            return Err(DeviceIdentityError::EmptyDeviceId);
        }
        if is_blank(display_name) {
            return Err(DeviceIdentityError::EmptyDisplayName);
        }
        if all_zero(identity_public_key_ed25519.as_slice()) {
            return Err(DeviceIdentityError::InvalidPublicKey);
        }
        if all_zero(signed_prekey_public_key_x25519.as_slice()) {
            return Err(DeviceIdentityError::InvalidSignedPrekey);
        }
        if all_zero(signed_prekey_signature_ed25519.as_slice()) {
            return Err(DeviceIdentityError::MissingSignedPrekeyProof);
        }
        Ok(
            DeviceIdentity {
                device_id: device_id.to_owned(),
                display_name: display_name.to_owned(),
                identity_public_key_ed25519,
                signed_prekey_public_key_x25519,
                signed_prekey_signature_ed25519,
                status: DeviceStatus::PendingApproval,
                created_at_unix_seconds,
                approved_at_unix_seconds: None,
                revoked_at_unix_seconds: None,
            },
        )
    }

    /// Approves the device, unless it was revoked.
    pub fn approve(&mut self, approved_at_unix_seconds: i64) -> (r: Result<(), DeviceIdentityError>)
        ensures
            match approve_outcome(old(self)@, approved_at_unix_seconds) {
                Ok(d) => r is Ok && final(self)@ == d,
                Err(e) => r == Err::<(), DeviceIdentityError>(e) && final(self)@ == old(self)@,
            },
    {
        if self.status == DeviceStatus::Revoked {
            return Err(DeviceIdentityError::CannotApproveRevokedDevice);
        }
        self.status = DeviceStatus::Approved;
        self.approved_at_unix_seconds = Some(approved_at_unix_seconds);
        Ok(())
    }

    /// Revokes the device, whatever its state.
    pub fn revoke(&mut self, revoked_at_unix_seconds: i64)
        ensures
            final(self)@ == revoked(old(self)@, revoked_at_unix_seconds),
    {
        self.status = DeviceStatus::Revoked;
        self.revoked_at_unix_seconds = Some(revoked_at_unix_seconds);
    }

    /// Whether the device may authenticate.
    pub fn can_authenticate(&self) -> (r: bool)
        ensures
            r == may_authenticate(self@),
    {
        self.status == DeviceStatus::Approved && self.revoked_at_unix_seconds.is_none()
    }
}

} // verus!
