use bwbio::errors::VaultError;
use bwbio::vault::{
    Availability, GateReading, KeyManager, availability_code, import_then_export,
    presence_check_required, unwrap_blob, wrap_blob,
};

fn open_gate() -> GateReading {
    GateReading { availability: Availability::Available, presence_verified: true }
}

#[test]
fn import_then_export_returns_the_key() {
    let mut vault = KeyManager::new();
    vault.import_key("user-1", "correct horse battery staple").unwrap();
    let exported = vault.export_key("user-1", open_gate()).unwrap();
    assert_eq!(exported, "correct horse battery staple");
}

#[test]
fn import_then_export_law_function() {
    let mut vault = KeyManager::new();
    let r = import_then_export(&mut vault, "user-9", "s3cret", open_gate());
    assert_eq!(r, "s3cret");
}

#[test]
fn import_then_export_unicode_key() {
    let mut vault = KeyManager::new();
    vault.import_key("u", "clé-日本語-🔑").unwrap();
    assert_eq!(vault.export_key("u", open_gate()).unwrap(), "clé-日本語-🔑");
}

#[test]
fn reimport_overwrites() {
    let mut vault = KeyManager::new();
    vault.import_key("u", "old").unwrap();
    vault.import_key("u", "new").unwrap();
    assert_eq!(vault.export_key("u", open_gate()).unwrap(), "new");
    assert_eq!(vault.list_keys().len(), 1);
}

#[test]
fn export_denied_when_presence_fails_and_available() {
    let mut vault = KeyManager::new();
    vault.import_key("u", "k").unwrap();
    let gate = GateReading { availability: Availability::Available, presence_verified: false };
    assert_eq!(vault.export_key("u", gate).unwrap_err(), VaultError::PresenceDenied);
}

#[test]
fn export_delegates_gating_when_not_available() {
    // When the capability is not available, the decrypt proceeds without an
    // explicit re-check, delegating to the platform layer's own gating.
    let mut vault = KeyManager::new();
    vault.import_key("u", "k").unwrap();
    let gate = GateReading { availability: Availability::DeviceAbsent, presence_verified: false };
    assert_eq!(vault.export_key("u", gate).unwrap(), "k");
}

#[test]
fn export_missing_entry_is_not_found() {
    let vault = KeyManager::new();
    assert_eq!(vault.export_key("ghost", open_gate()).unwrap_err(), VaultError::NotFound);
}

#[test]
fn delete_is_idempotent_and_removes() {
    let mut vault = KeyManager::new();
    vault.import_key("u", "k").unwrap();
    assert!(vault.check_key_exists("u"));
    vault.delete_key("u").unwrap();
    vault.delete_key("u").unwrap();
    assert!(!vault.check_key_exists("u"));
    assert_eq!(vault.export_key("u", open_gate()).unwrap_err(), VaultError::NotFound);
}

#[test]
fn status_code_mapping() {
    assert_eq!(availability_code(Availability::Available), 0);
    assert_eq!(availability_code(Availability::DeviceAbsent), 2);
    assert_eq!(availability_code(Availability::DeviceBusy), 2);
    assert_eq!(availability_code(Availability::NotConfigured), 7);
    assert_eq!(availability_code(Availability::DisabledByPolicy), 5);
    assert_eq!(availability_code(Availability::Unknown), 5);
}

#[test]
fn presence_check_only_when_available() {
    assert!(presence_check_required(Availability::Available));
    assert!(!presence_check_required(Availability::DeviceAbsent));
    assert!(!presence_check_required(Availability::DeviceBusy));
    assert!(!presence_check_required(Availability::NotConfigured));
    assert!(!presence_check_required(Availability::DisabledByPolicy));
    assert!(!presence_check_required(Availability::Unknown));
}

#[test]
fn list_keys_names_every_entry() {
    let mut vault = KeyManager::new();
    assert!(vault.list_keys().is_empty());
    vault.import_key("alice", "a").unwrap();
    vault.import_key("bob", "b").unwrap();
    let keys = vault.list_keys();
    assert_eq!(keys.len(), 2);
    assert!(keys.contains(&"alice".to_string()));
    assert!(keys.contains(&"bob".to_string()));
}

#[test]
fn wrap_blob_round_trips_and_is_not_identity() {
    let secret = b"raw secret bytes";
    let wrapped = wrap_blob(secret);
    assert_ne!(wrapped, secret.to_vec());
    assert!(!wrapped.windows(secret.len()).any(|w| w == secret));
    assert_eq!(unwrap_blob(&wrapped).unwrap(), secret.to_vec());
}

#[test]
fn unwrap_blob_rejects_untagged_bytes() {
    assert!(unwrap_blob(b"no tag here").is_none());
    assert!(unwrap_blob(&[]).is_none());
    assert!(unwrap_blob(&[0x42]).is_none());
}

#[test]
fn blob_persistence_round_trip() {
    let mut vault = KeyManager::new();
    vault.import_key("u", "persisted").unwrap();
    let blob = vault.export_blob("u").unwrap();
    assert!(vault.export_blob("ghost").is_none());

    let mut reloaded = KeyManager::new();
    reloaded.insert_blob("u", blob);
    assert_eq!(reloaded.export_key("u", open_gate()).unwrap(), "persisted");
}

#[test]
fn export_of_foreign_blob_fails_cleanly() {
    let mut vault = KeyManager::new();
    vault.insert_blob("u", b"not a wrapped blob".to_vec());
    assert_eq!(vault.export_key("u", open_gate()).unwrap_err(), VaultError::WrapFormat);
    let mut vault2 = KeyManager::new();
    // A wrapped blob holding invalid UTF-8.
    vault2.insert_blob("u", wrap_blob(&[0xFF, 0xFE, 0x80]));
    assert_eq!(vault2.export_key("u", open_gate()).unwrap_err(), VaultError::Encoding);
}
