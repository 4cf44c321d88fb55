use lunarcore::meshtastic::admin::{
    admin_payload_fits, apply_channel_update, build_admin_response, decode_channel_number,
    parse_admin_request, parse_admin_request_checked, AdminKind, AdminSession, PASSKEY_LIFETIME_MS,
    PASSKEY_REGEN_MS,
};
use lunarcore::meshtastic::node_db::NodeDb;
use lunarcore::meshtastic::packet_history::PacketHistory;

#[test]
fn test_admin_session_regenerates() {
    let mut session = AdminSession::new();
    let key1 = *session.ensure_fresh(1000);
    let key2 = *session.ensure_fresh(1000);
    assert_eq!(key1, key2);

    let key3 = *session.ensure_fresh(1000 + PASSKEY_REGEN_MS);
    assert_ne!(key1, key3);
}

#[test]
fn test_admin_session_validate() {
    let mut session = AdminSession::new();
    let key = *session.ensure_fresh(5000);
    assert!(session.validate(&key, 5000));
    assert!(!session.validate(&key, 5000 + PASSKEY_LIFETIME_MS + 1));
}

#[test]
fn test_parse_get_device_metadata_request() {
    let payload = [0x60, 0x01];
    let req = parse_admin_request(&payload);
    assert_eq!(req.kind, AdminKind::GetDeviceMetadata);
}

#[test]
fn test_parse_get_channel_request_is_one_based() {
    let payload = [0x08, 0x02];
    let req = parse_admin_request(&payload);
    assert_eq!(req.kind, AdminKind::GetChannel);
    assert_eq!(req.channel_index, 1);
}

/// The encoded channel 1, named "Secondary", with the one-byte key 0x02:
/// index (field 1), settings (field 2: psk, name), role (field 3).
fn secondary_channel() -> Vec<u8> {
    let mut settings = vec![0x12, 0x01, 0x02, 0x1a, 0x09];
    settings.extend_from_slice(b"Secondary");
    let mut ch = vec![0x08, 0x01, 0x12, settings.len() as u8];
    ch.extend_from_slice(&settings);
    ch.extend_from_slice(&[0x18, 0x02]);
    ch
}

#[test]
fn test_set_channel_requires_passkey() {
    let mut session = AdminSession::new();
    let _ = session.ensure_fresh(1000);

    let encoded = secondary_channel();
    // field 33 (set_channel), length-delimited: tag 33 << 3 | 2 = 266.
    let mut payload = vec![0x8a, 0x02, encoded.len() as u8];
    payload.extend_from_slice(&encoded);
    let parsed = parse_admin_request(&payload);
    assert_eq!(parsed.kind, AdminKind::SetChannel);
    assert!(build_admin_response(&parsed, &mut session, 1000, 1, "1.1.0", Some(&encoded)).is_none());
}

#[test]
fn test_node_db_store_and_lookup() {
    let mut db = NodeDb::new();
    let key = [0x11u8; 32];
    db.set_public_key(0x1234, key);
    assert_eq!(db.get_public_key(0x1234).copied(), Some(key));
    assert!(db.get_public_key(0x5678).is_none());

    let key2 = [0x22u8; 32];
    db.set_public_key(0x1234, key2);
    assert_eq!(db.get_public_key(0x1234).copied(), Some(key2));
}

#[test]
fn test_history_tracks_relayers_and_sole() {
    let mut hist = PacketHistory::new();
    hist.note_tx(0xA, 1, 0, 3, 0xA0);
    assert_eq!(hist.was_relayer(0xA0, 1, 0xA), (true, true));

    hist.add_relayer(0xA, 1, 0xB0);
    assert_eq!(hist.was_relayer(0xB0, 1, 0xA), (true, false));
    assert_eq!(hist.was_relayer(0xA0, 1, 0xA), (true, false));
    assert_eq!(hist.was_relayer(0xC0, 1, 0xA), (false, false));
}

#[test]
fn set_channel_takes_its_channel_number() {
    let encoded = secondary_channel();
    let mut payload = vec![0x8a, 0x02, encoded.len() as u8];
    payload.extend_from_slice(&encoded);
    let parsed = parse_admin_request(&payload);
    assert_eq!(parsed.kind, AdminKind::SetChannel);
    assert_eq!(parsed.channel_index, 1);
    assert_eq!(parsed.channel, Some(encoded.clone()));
    assert_eq!(apply_channel_update(&parsed), Some(encoded));
}

#[test]
fn undecodable_channel_is_dropped() {
    // The channel message holds a varint tag with no value.
    let payload = [0x8a, 0x02, 0x01, 0x08];
    let parsed = parse_admin_request(&payload);
    assert_eq!(parsed.kind, AdminKind::SetChannel);
    assert_eq!(parsed.channel, None);
    assert_eq!(parsed.channel_index, 0);
}

#[test]
fn channel_numbers() {
    assert_eq!(decode_channel_number(&[]), Some(0));
    assert_eq!(decode_channel_number(&[0x08, 0x05]), Some(5));
    assert_eq!(decode_channel_number(&[0x12, 0x02, 0xAA, 0xBB, 0x08, 0x07]), Some(7));
    assert_eq!(decode_channel_number(&[0x12, 0x05, 0xAA]), None);
    assert_eq!(decode_channel_number(&[0x0b]), None);
}

#[test]
fn oversized_length_cannot_be_classified() {
    let huge = [0x12, 0xFF, 0xFF, 0xFF, 0xFF, 0xFF, 0xFF, 0xFF, 0xFF, 0xFF, 0x01];
    assert!(!admin_payload_fits(&huge));
    assert!(parse_admin_request_checked(&huge).is_none());
    assert!(admin_payload_fits(&[0x60, 0x01]));
    let parsed = parse_admin_request_checked(&[0x08, 0x02]).unwrap();
    assert_eq!(parsed.kind, AdminKind::GetChannel);
    assert_eq!(parsed.channel_index, 1);
}
