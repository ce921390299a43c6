use lib::{DeviceIdentity, DeviceIdentityError, DeviceStatus};

fn pending() -> DeviceIdentity {
    DeviceIdentity::new_pending("device-1", "Test", [1; 32], [2; 32], [3; 64], 100).unwrap()
}

#[test]
fn new_device_awaits_approval() {
    let device = pending();
    assert_eq!(device.status, DeviceStatus::PendingApproval);
    assert_eq!(device.device_id, "device-1");
    assert_eq!(device.display_name, "Test");
    assert_eq!(device.approved_at_unix_seconds, None);
    assert!(!device.can_authenticate());
}

#[test]
fn new_device_reports_each_error() {
    assert_eq!(
        DeviceIdentity::new_pending(" ", "Test", [1; 32], [2; 32], [3; 64], 100),
        Err(DeviceIdentityError::EmptyDeviceId)
    );
    assert_eq!(
        DeviceIdentity::new_pending("device-1", "\u{2003}", [1; 32], [2; 32], [3; 64], 100),
        Err(DeviceIdentityError::EmptyDisplayName)
    );
    assert_eq!(
        DeviceIdentity::new_pending("device-1", "Test", [0; 32], [2; 32], [3; 64], 100),
        Err(DeviceIdentityError::InvalidPublicKey)
    );
    assert_eq!(
        DeviceIdentity::new_pending("device-1", "Test", [1; 32], [0; 32], [3; 64], 100),
        Err(DeviceIdentityError::InvalidSignedPrekey)
    );
    assert_eq!(
        DeviceIdentity::new_pending("device-1", "Test", [1; 32], [2; 32], [0; 64], 100),
        Err(DeviceIdentityError::MissingSignedPrekeyProof)
    );
}

#[test]
fn approval_allows_authentication() {
    let mut device = pending();
    assert_eq!(device.approve(101), Ok(()));
    assert_eq!(device.status, DeviceStatus::Approved);
    assert_eq!(device.approved_at_unix_seconds, Some(101));
    assert!(device.can_authenticate());
}

#[test]
fn revoked_device_cannot_be_approved_again() {
    let mut device = pending();
    device.approve(101).unwrap();
    device.revoke(150);
    assert_eq!(device.status, DeviceStatus::Revoked);
    assert_eq!(device.revoked_at_unix_seconds, Some(150));
    assert!(!device.can_authenticate());
    assert_eq!(
        device.approve(160),
        Err(DeviceIdentityError::CannotApproveRevokedDevice)
    );
    assert_eq!(device.approved_at_unix_seconds, Some(101));
    assert!(!device.can_authenticate());
}
