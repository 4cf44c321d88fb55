use lunarcore::battery::{adc_to_pin_mv, BatteryState};
use lunarcore::boards::stm32wl::{Stm32wlBoard, Stm32wlBoardConfig};
use lunarcore::boards::nrf52::Nrf52Board;
use lunarcore::boards::{detect_board_model, BoardModel};
use lunarcore::crypto::aes_ccm::{aes_ccm_decrypt, aes_ccm_encrypt};
use lunarcore::device::{
    identity_source, load_wifi_setting, save_wifi_setting, DeviceIdentity, IdentitySource,
};
use lunarcore::led::{LedController, LED_BLINK_IDLE};
use lunarcore::meshtastic::packet_history::PacketHistory;
use lunarcore::power::{light_sleep_us, Stm32wlPower};
use lunarcore::sx1262::RadioState;
use lunarcore::stats::Stats;
use lunarcore::usb::{default_descriptors, init_usb_runtime, usb_log_transport, UsbMode, UsbRuntime};
use lunarcore::wire::{
    onion_layers, session_hint_word, split_session_message, use_onion_route, wire_payload_len, CryptoError,
};

fn hex(s: &str) -> [u8; 32] {
    let mut out = [0u8; 32];
    for i in 0..32 {
        out[i] = u8::from_str_radix(&s[2 * i..2 * i + 2], 16).unwrap();
    }
    out
}

#[test]
fn key_derivation_vectors() {
    let seed = [0u8; 32];
    assert_eq!(
        DeviceIdentity::derive_signing_key(&seed),
        hex("ecd5878a3239e92704e8525a6703906e3b8e6b1fed50274b966ee2dc1db528b6")
    );
    assert_eq!(
        DeviceIdentity::derive_encryption_key(&seed),
        hex("e8c7f846f3b4a0c01b96a2285c0146532d722e2d864f4c28a1c523767e06a270")
    );
    let serial = [1, 2, 3, 4, 5, 6, 7, 8];
    assert_eq!(
        DeviceIdentity::seed_from_random(&[7u8; 32], &serial),
        hex("e8683a414cbc452117c999098007e1269a50470b3d5b8c02d96031c721acffd7")
    );
    assert_eq!(
        DeviceIdentity::derive_encryption_from_signing(&[7u8; 32], &serial),
        DeviceIdentity::derive_encryption_key(&DeviceIdentity::seed_from_random(&[7u8; 32], &serial))
    );
    let k = DeviceIdentity::derive_encryption_key(&[9u8; 32]);
    assert_eq!(k[0] & 7, 0);
    assert_eq!(k[31] & 0xC0, 0x40);
}

#[test]
fn public_keys_from_private() {
    let ed_secret = hex("9d61b19deffd5a60ba844af492ec2cc44449c5697b326919703bac031cae7f60");
    let x_private = hex("77076d0a7318a57d3c16c17251b26645df4c2f87ebc0992ab177fba51db92c2a");
    let id = DeviceIdentity::from_hardware(0x8000_0001, [1, 2, 3, 4, 5, 6], [0; 8], ed_secret, x_private);
    assert_eq!(id.public_key, hex("d75a980182b10ab7d54bfed3c964073a0ee172f3daa62325af021a68f707511a"));
    assert_eq!(id.encryption_public, hex("8520f0098930a754748b7ddcb43ef75a0dbf3a0d26381af4eba4a98eaa9b4e6a"));
    assert_eq!(id.x25519_pubkey(), id.encryption_public);
    assert_eq!(id.node_id, 0x8000_0001);
}

#[test]
fn node_numbers_and_identity_sources() {
    assert_eq!(DeviceIdentity::node_id_from_random([0x78, 0x56, 0x34, 0x12]), 0x9234_5678);
    assert_eq!(DeviceIdentity::node_id_from_random([0, 0, 0, 0]), 0x8000_0000);
    assert!(DeviceIdentity::generate_random_node_id() >= 0x8000_0000);
    assert_eq!(identity_source(true, true, true), IdentitySource::Stored);
    assert_eq!(identity_source(true, true, false), IdentitySource::StoredDerivingEncryption);
    assert_eq!(identity_source(false, true, true), IdentitySource::Fresh);
    assert_eq!(identity_source(true, false, true), IdentitySource::Fresh);
    assert!(load_wifi_setting(Some(save_wifi_setting(true))));
    assert!(!load_wifi_setting(Some(save_wifi_setting(false))));
    assert!(!load_wifi_setting(None));
}

#[test]
fn ccm_hides_and_checks() {
    let key = [0x11u8; 16];
    let nonce = [0x22u8; 13];
    let plaintext = [0u8; 20];
    let mut ct = [0u8; 20];
    let mut tag = [0u8; 16];
    assert!(aes_ccm_encrypt(&key, &nonce, 16, &plaintext, &mut ct, &mut tag));
    assert_ne!(ct, plaintext);
    let mut out = [0u8; 20];
    assert!(aes_ccm_decrypt(&key, &nonce, 16, &ct, &mut out, &tag));
    assert_eq!(out, plaintext);
    let mut bad = tag;
    bad[0] ^= 1;
    assert!(!aes_ccm_decrypt(&key, &nonce, 16, &ct, &mut out, &bad));
    // Refused inputs: short nonce, long tag, short output.
    assert!(!aes_ccm_encrypt(&key, &nonce[..12], 8, &plaintext, &mut ct, &mut tag));
    assert!(!aes_ccm_encrypt(&key, &nonce, 17, &plaintext, &mut ct, &mut tag));
    assert!(!aes_ccm_encrypt(&key, &nonce, 8, &plaintext, &mut ct[..10], &mut tag));
    assert!(!aes_ccm_decrypt(&key, &nonce, 8, &ct, &mut out[..10], &tag));
}

#[test]
fn history_next_hop() {
    let mut h = PacketHistory::new();
    h.note_tx(0x10, 5, 0x33, 3, 0x44);
    assert_eq!(h.observed_next_hop(0x10, 5), 0x33);
    assert_eq!(h.observed_next_hop(0x10, 6), 0);
    h.note_tx(0, 5, 0x77, 3, 0x44);
    assert_eq!(h.observed_next_hop(0, 5), 0);
}

#[test]
fn battery_curve_and_reading() {
    assert_eq!(BatteryState::voltage_to_percentage(4200), 100);
    assert_eq!(BatteryState::voltage_to_percentage(3000), 0);
    let mut prev = 0;
    for mv in (2900..4300).step_by(7) {
        let p = BatteryState::voltage_to_percentage(mv);
        assert!(p <= 100 && p >= prev);
        prev = p;
    }
    assert_eq!(adc_to_pin_mv(4095), 3300);
    assert_eq!(adc_to_pin_mv(0), 0);
    let mut b = BatteryState::new();
    b.apply_voltage(3300);
    assert!(b.is_low && !b.is_critical);
}

#[test]
fn led_burst_then_idle() {
    let mut l = LedController::new();
    l.flash(1);
    assert!(l.update(100));
    assert!(l.is_on);
    assert!(!l.update(150));
    assert!(l.update(200));
    assert!(!l.is_on);
    assert!(!l.update(300));
    assert_eq!(l.interval_ms, LED_BLINK_IDLE);
    assert_eq!(l.blink_count, 0);
    assert!(!l.update(2000));
    assert!(l.update(2300));
}

#[test]
fn stats_counters() {
    let mut s = Stats::new();
    s.record_rx(10, -90, 4);
    s.record_rx(5, -91, 3);
    s.record_tx(7, 120);
    assert_eq!((s.rx_packets, s.rx_bytes, s.last_rssi, s.last_snr), (2, 15, -91, 3));
    assert_eq!((s.tx_packets, s.tx_bytes, s.airtime_ms), (1, 7, 120));
}

#[test]
fn wire_framing() {
    assert_eq!(wire_payload_len(10), 10);
    assert_eq!(wire_payload_len(300), 214);
    assert!(use_onion_route(true, 3));
    assert!(!use_onion_route(true, 2));
    assert!(!use_onion_route(false, 9));
    assert_eq!(onion_layers(35), 1);
    assert_eq!(onion_layers(200), 7);
    assert_eq!(session_hint_word([0x12, 0x34, 0x56, 0x78]), 0x1234_5678);
    let msg = [5u8; 50];
    let (h, c) = split_session_message(&msg).unwrap();
    assert_eq!((h.len(), c.len()), (48, 2));
    assert_eq!(split_session_message(&msg[..47]), Err(CryptoError::InvalidFormat));
}

#[test]
fn power_and_usb_settings() {
    assert_eq!(light_sleep_us(0), 1000);
    assert_eq!(light_sleep_us(250), 250_000);
    let p = Stm32wlPower::default();
    assert_eq!((p.last_sleep_ms, p.bor_threshold_mv, p.rtc_wakeup_enabled), (100, 1800, true));
    let r = UsbRuntime::nrf52_default();
    assert_eq!(r.preferred_mode(), UsbMode::Composite);
    assert_eq!(init_usb_runtime().preferred_mode(), UsbMode::CdcSerial);
    assert_eq!(default_descriptors().vendor_id, 0x239A);
    assert_eq!(usb_log_transport(), "uart");
}

#[test]
fn boards() {
    assert_eq!(detect_board_model(), BoardModel::Esp32);
    assert!(Nrf52Board::native_usb_enabled());
    let mut b = Stm32wlBoard::new(Stm32wlBoardConfig::rak3172());
    assert_eq!(b.radio.state(), RadioState::Standby);
    b.configure_bor(2100);
    b.schedule_wakeup(5000);
    assert_eq!((b.power.bor_threshold_mv, b.power.last_sleep_ms), (2100, 5000));
    assert_ne!(Stm32wlBoardConfig::rak3172().variant, Stm32wlBoardConfig::wio_e5().variant);
}

#[test]
fn history_forgets_oldest_after_a_full_round() {
    let mut h = PacketHistory::new();
    h.note_tx(0x10, 1, 0x33, 3, 0x44);
    for i in 0..31u32 {
        h.note_tx(0x20, 100 + i, 0, 3, 0);
    }
    assert_eq!(h.observed_next_hop(0x10, 1), 0x33);
    h.add_relayer(0x30, 7, 0x55);
    assert_eq!(h.observed_next_hop(0x10, 1), 0);
    assert_eq!(h.was_relayer(0x44, 1, 0x10), (false, false));
    assert_eq!(h.was_relayer(0x55, 7, 0x30), (true, true));
}

#[test]
fn relayers_recorded_once_in_order() {
    let mut h = PacketHistory::new();
    h.note_tx(0x10, 1, 0, 3, 0xA0);
    h.add_relayer(0x10, 1, 0xA0);
    assert_eq!(h.was_relayer(0xA0, 1, 0x10), (true, true));
    for r in 1..=6u8 {
        h.add_relayer(0x10, 1, r);
    }
    assert_eq!(h.was_relayer(5, 1, 0x10), (true, false));
    assert_eq!(h.was_relayer(6, 1, 0x10), (false, false));
}

#[test]
fn full_node_db_drops_oldest_only() {
    let mut db = lunarcore::meshtastic::node_db::NodeDb::new();
    for id in 1..=32u32 {
        db.set_public_key(id, [id as u8; 32]);
    }
    assert_eq!(db.len(), 32);
    db.set_public_key(99, [7u8; 32]);
    assert_eq!(db.len(), 32);
    assert!(db.get_public_key(1).is_none());
    assert_eq!(db.get_public_key(2).copied(), Some([2u8; 32]));
    assert_eq!(db.get_public_key(99).copied(), Some([7u8; 32]));
    db.set_public_key(5, [0u8; 32]);
    assert_eq!(db.get_public_key(5).copied(), Some([5u8; 32]));
}
