use meter_core::decryption::{DamageEncryptionHandler, DamageEvent, DecryptionManager, DecryptionSession, EncryptionKeys};

#[test]
fn test_damage_encryption_handler_creation() {
    let handler = DamageEncryptionHandler::new();
    assert!(!handler.decryption_enabled);
}

#[test]
fn test_encryption_keys() {
    let mut keys = EncryptionKeys::new();
    assert!(keys.current_key().is_none());

    let test_key = vec![1, 2, 3, 4];
    keys.update_key(test_key.clone());
    assert_eq!(keys.current_key(), Some(&test_key[..]));
}

#[test]
fn test_decryption_session() {
    let session = DecryptionSession::new(123);
    assert_eq!(session.session_id, 123);
    assert_eq!(session.zone_instance_id, 0);
}

#[test]
fn previous_key_is_restored() {
    let mut keys = EncryptionKeys::new();
    keys.update_key(vec![1]);
    keys.update_key(vec![2]);
    keys.use_previous_key();
    assert_eq!(keys.current_key(), Some(&[1u8][..]));
}

#[test]
fn damage_event_needs_minimum_length() {
    assert!(DamageEvent::from_bytes(&[0u8; 31]).is_err());
    assert!(DamageEvent::from_bytes(&[0u8; 32]).is_ok());
}

#[test]
fn decryption_manager_tracks_active_session() {
    let mut m = DecryptionManager::new();
    assert!(m.get_active_session().is_none());
    m.create_session(7).update_zone(9);
    let s = m.get_active_session().unwrap();
    assert_eq!(s.session_id, 7);
    assert_eq!(s.zone_instance_id, 9);
}
