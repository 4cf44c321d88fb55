use lunarcore::at_command::AtCommand;
use lunarcore::battery::BatteryState;
use lunarcore::dedup::DeduplicatorRing;
use lunarcore::led::{LedController, LED_BLINK_ERROR};
use lunarcore::node::{
    battery_check_due, irq_events, load_repeater_setting, meshcore_radio_config, meshtastic_radio_config,
    radio_config_for, relay_jitter_ms, rnode_bandwidth_code, rnode_radio_config, save_repeater_setting,
    tx_error_code, update_battery, ByteRoute, NodeState, Protocol, RNodeModem, TransportType,
};
use lunarcore::radio::RadioError;

fn modem() -> RNodeModem {
    RNodeModem { frequency: 868_000_000, bandwidth_hz: 250_000, spreading_factor: 12, coding_rate: 5, tx_power: 10 }
}

#[test]
fn fresh_node_repeats() {
    let n = NodeState::new();
    assert!(!n.app_connected());
    assert!(n.repeater_active());
    assert_eq!(n.active_protocol(), Protocol::Unknown);
}

#[test]
fn usb_detection_sets_radio_and_replays() {
    let mut n = NodeState::new();
    let (d, route) = n.process_incoming_byte(0xAA, TransportType::UsbSerial, Protocol::MeshCore, modem(), 1234);
    let d = d.unwrap();
    assert_eq!(d.protocol, Protocol::MeshCore);
    assert_eq!(d.radio, Some(meshcore_radio_config()));
    assert_eq!(d.replay, Some(0xAA));
    assert_eq!(route, ByteRoute::MeshCore);
    assert_eq!(n.serial_protocol, Protocol::MeshCore);
    assert_eq!(n.lora_protocol, Protocol::MeshCore);
    assert_eq!(n.last_serial_rx, 1234);
    assert_eq!(n.stats.protocol_switches, 1);
    assert!(n.app_connected());
    assert!(!n.repeater_active());

    // A link's protocol is recognised once; a later verdict changes nothing.
    let (d2, route2) = n.process_incoming_byte(0x94, TransportType::UsbSerial, Protocol::Meshtastic, modem(), 2000);
    assert!(d2.is_none());
    assert_eq!(route2, ByteRoute::MeshCore);
    assert_eq!(n.serial_protocol, Protocol::MeshCore);
    assert_eq!(n.stats.protocol_switches, 1);
}

#[test]
fn ble_detection_of_meshtastic() {
    let mut n = NodeState::new();
    let (d, route) = n.process_incoming_byte(0x94, TransportType::Ble, Protocol::Meshtastic, modem(), 50);
    let d = d.unwrap();
    assert_eq!(d.radio, Some(meshtastic_radio_config()));
    assert_eq!(d.replay, Some(0x94));
    assert_eq!(route, ByteRoute::Meshtastic);
    assert_eq!(n.last_serial_rx, 0);
    assert_eq!(n.active_protocol(), Protocol::Meshtastic);
}

#[test]
fn at_console_collects_lines() {
    let mut n = NodeState::new();
    let (d, route) = n.process_incoming_byte(b'T', TransportType::UsbSerial, Protocol::AtCommand, modem(), 10);
    let d = d.unwrap();
    assert_eq!(d.radio, None);
    assert_eq!(d.replay, None);
    assert_eq!(route, ByteRoute::Nothing);
    assert_eq!(&n.at_buffer[..], b"AT");
    assert_eq!(n.lora_protocol, Protocol::Unknown);
    let (_, r) = n.process_incoming_byte(0x07, TransportType::UsbSerial, Protocol::Unknown, modem(), 11);
    assert_eq!(r, ByteRoute::Nothing);
    let (_, r) = n.process_incoming_byte(b'I', TransportType::UsbSerial, Protocol::Unknown, modem(), 12);
    assert_eq!(r, ByteRoute::Nothing);
    let (_, r) = n.process_incoming_byte(b'\r', TransportType::UsbSerial, Protocol::Unknown, modem(), 13);
    assert_eq!(r, ByteRoute::AtLine(b"ATI".to_vec()));
    assert!(n.at_buffer.is_empty());
    let (_, r) = n.process_incoming_byte(b'\n', TransportType::UsbSerial, Protocol::Unknown, modem(), 14);
    assert_eq!(r, ByteRoute::Nothing);
}

#[test]
fn at_line_is_bounded() {
    let mut n = NodeState::new();
    for _ in 0..200 {
        let _ = n.feed_at_byte(b'X');
    }
    assert_eq!(n.at_buffer.len(), 128);
    assert_eq!(n.feed_at_byte(b'\n'), Some(vec![b'X'; 128]));
}

#[test]
fn at_bytes_over_ble_are_ignored() {
    let mut n = NodeState::new();
    let (_, r) = n.process_incoming_byte(b'A', TransportType::Ble, Protocol::AtCommand, modem(), 5);
    assert_eq!(r, ByteRoute::Nothing);
    let (_, r) = n.process_incoming_byte(b'\r', TransportType::Ble, Protocol::Unknown, modem(), 6);
    assert_eq!(r, ByteRoute::Nothing);
}

#[test]
fn reset_returns_to_radio_protocol() {
    let mut n = NodeState::new();
    assert!(!n.reset_protocol());
    assert_eq!(n.stats.protocol_switches, 0);
    let _ = n.process_incoming_byte(0x94, TransportType::UsbSerial, Protocol::Meshtastic, modem(), 1);
    assert!(n.relay_gate(true, 7) == false);
    assert!(n.reset_protocol());
    assert_eq!(n.serial_protocol, Protocol::Unknown);
    assert_eq!(n.active_protocol(), Protocol::Meshtastic);
    assert_eq!(n.stats.protocol_switches, 2);
    assert!(!n.app_connected());
}

#[test]
fn relay_gate_turns_away_repeats() {
    let mut n = NodeState::new();
    assert!(n.relay_gate(true, 0xDEAD_BEEF));
    assert!(!n.relay_gate(true, 0xDEAD_BEEF));
    assert!(!n.relay_gate(false, 0x1234));
    assert!(n.relay_gate(true, 0x1234));
    n.ble_connections = 1;
    assert!(!n.relay_gate(true, 0x5555));
    n.ble_connections = 0;
    assert!(n.relay_gate(true, 0x5555));
}

#[test]
fn relay_and_transmit_bookkeeping() {
    let mut n = NodeState::new();
    assert!(n.after_relay(true));
    assert_eq!(n.relay_count, 1);
    assert_eq!(n.stats.tx_packets, 1);
    assert!(n.rx_active);
    assert!(!n.after_relay(false));
    assert_eq!(n.relay_count, 1);
    n.after_transmit(false, false);
    assert_eq!(n.stats.tx_errors, 1);
    assert!(!n.rx_active);
    n.after_transmit(true, false);
    assert_eq!(n.stats.tx_packets, 2);
    assert!(n.rx_active);
    n.note_packet_received(-97);
    assert_eq!(n.stats.rx_packets, 1);
    assert_eq!(n.stats.last_rssi, -97);
}

#[test]
fn interrupt_status_bits() {
    let e = irq_events(0x43);
    assert!(e.tx_done && e.rx_done && e.crc_error);
    let e = irq_events(0x04);
    assert!(!e.tx_done && !e.rx_done && !e.crc_error);
    let mut n = NodeState::new();
    let e = n.note_irq(0x40);
    assert!(e.crc_error);
    assert_eq!(n.stats.rx_errors, 1);
    let _ = n.note_irq(0x02);
    assert_eq!(n.stats.rx_errors, 1);
}

#[test]
fn idle_serial_host_is_forgotten() {
    let mut n = NodeState::new();
    let _ = n.process_incoming_byte(0xAA, TransportType::UsbSerial, Protocol::MeshCore, modem(), 1000);
    assert!(!n.tick_links(31_000, 0));
    assert!(n.tick_links(31_001, 0));
    assert_eq!(n.serial_protocol, Protocol::Unknown);
    assert!(!n.tick_links(90_000, 0));
}

#[test]
fn departed_ble_host_is_forgotten() {
    let mut n = NodeState::new();
    let _ = n.process_incoming_byte(0x94, TransportType::Ble, Protocol::Meshtastic, modem(), 0);
    assert!(!n.tick_links(100, 1));
    assert_eq!(n.prev_ble_connections, 1);
    assert!(n.tick_links(200, 0));
    assert_eq!(n.ble_protocol, Protocol::Unknown);
    assert_eq!(n.prev_ble_connections, 0);
}

#[test]
fn clock_ticks() {
    let mut n = NodeState::new();
    assert_eq!(n.clock_tick(999), (false, false));
    assert_eq!(n.clock_tick(1000), (false, false));
    assert_eq!(n.stats.uptime_seconds, 1);
    assert_eq!(n.clock_tick(2500), (true, false));
    assert_eq!(n.clock_tick(2600), (false, false));
    assert_eq!(n.clock_tick(60_000), (true, true));
    assert_eq!(n.last_second, 60);
}

#[test]
fn console_switches() {
    let mut n = NodeState::new();
    assert!(n.relay_gate(true, 9));
    assert!(!n.apply_at_command(AtCommand::SetRepeater(false)));
    assert!(!n.repeater_enabled);
    assert!(!n.repeater_active());
    assert!(!n.apply_at_command(AtCommand::SetRepeater(true)));
    assert!(n.relay_gate(true, 9));
    assert!(!n.apply_at_command(AtCommand::SetWifi(true)));
    assert!(n.wifi_enabled);
    n.wifi_clients = 2;
    assert!(n.app_connected());
    assert!(!n.apply_at_command(AtCommand::SwitchProtocol));
    let _ = n.process_incoming_byte(b'A', TransportType::UsbSerial, Protocol::AtCommand, modem(), 1);
    assert!(n.apply_at_command(AtCommand::SwitchProtocol));
    assert!(n.at_buffer.is_empty());
}

#[test]
fn low_power_only_when_repeating_on_low_battery() {
    let mut n = NodeState::new();
    assert!(n.low_power_due(true, 10_005));
    assert!(!n.low_power_due(true, 10_010));
    assert!(!n.low_power_due(false, 10_005));
    n.ble_connections = 1;
    assert!(!n.low_power_due(true, 10_005));
}

#[test]
fn radio_settings_of_protocols() {
    let c = rnode_radio_config(modem());
    assert_eq!(c.bandwidth, 0x05);
    assert_eq!(c.coding_rate, 1);
    assert!(c.ldro);
    assert_eq!(c.preamble_length, 8);
    assert_eq!(rnode_bandwidth_code(62_500), 0x03);
    assert_eq!(rnode_bandwidth_code(500_000), 0x06);
    assert_eq!(rnode_bandwidth_code(41_700), 0x04);
    let low_cr = RNodeModem { coding_rate: 2, spreading_factor: 10, ..modem() };
    let c = rnode_radio_config(low_cr);
    assert_eq!(c.coding_rate, 0);
    assert!(!c.ldro);
    assert_eq!(meshcore_radio_config().frequency, 910_525_000);
    assert_eq!(meshtastic_radio_config().sync_word, 0x2B);
    assert_eq!(radio_config_for(Protocol::AtCommand, modem()), None);
    assert_eq!(radio_config_for(Protocol::Unknown, modem()), None);
}

#[test]
fn small_decisions() {
    assert_eq!(relay_jitter_ms(0, 0), 20);
    assert_eq!(relay_jitter_ms(80, 0), 100);
    assert_eq!(relay_jitter_ms(81, 0), 20);
    assert_eq!(relay_jitter_ms(0x1234, 0x1200), 20 + (0x34 % 81));
    assert_eq!(tx_error_code(RadioError::TxTimeout), 1);
    assert_eq!(tx_error_code(RadioError::BusyTimeout), 2);
    assert_eq!(tx_error_code(RadioError::CrcError), 255);
    assert!(battery_check_due(10_000, 0));
    assert!(!battery_check_due(9_999, 0));
    assert!(battery_check_due(5_000, u32::MAX - 5_000));
    assert!(!battery_check_due(100, u32::MAX - 100));
}

#[test]
fn repeater_setting_roundtrip() {
    assert!(load_repeater_setting(Some(save_repeater_setting(true))));
    assert!(!load_repeater_setting(Some(save_repeater_setting(false))));
    assert!(load_repeater_setting(None));
    assert!(load_repeater_setting(Some(7)));
}

#[test]
fn critical_battery_blinks_fast() {
    let mut b = BatteryState::new();
    let mut led = LedController::new();
    update_battery(&mut b, &mut led, 3500);
    assert_eq!(led.interval_ms, LedController::new().interval_ms);
    update_battery(&mut b, &mut led, 3100);
    assert!(b.is_critical && b.is_low);
    assert_eq!(led.interval_ms, LED_BLINK_ERROR);
}

#[test]
fn fingerprint_halves() {
    assert_eq!(DeduplicatorRing::fingerprint(0x1234, 0xABCD), 0x1234_ABCD);
    let mut d = DeduplicatorRing::new();
    assert!(d.check_and_insert_fingerprint(1));
    for h in 2..=32u32 {
        assert!(d.check_and_insert_fingerprint(h));
    }
    assert!(!d.check_and_insert_fingerprint(1));
    assert!(d.check_and_insert_fingerprint(33));
    assert!(d.check_and_insert_fingerprint(1));
    d.clear();
    assert!(d.check_and_insert_fingerprint(33));
}

#[test]
fn receiver_failures_and_framing() {
    let mut n = NodeState::new();
    n.note_rx_failure(RadioError::RxTimeout);
    assert_eq!(n.stats.rx_errors, 0);
    n.note_rx_failure(RadioError::CrcError);
    assert_eq!(n.stats.rx_errors, 1);
    assert_eq!(n.rx_framing(), Protocol::MeshCore);
    let _ = n.process_incoming_byte(0xC0, TransportType::WiFi, Protocol::RNode, modem(), 0);
    assert_eq!(n.rx_framing(), Protocol::RNode);
    assert!(n.rx_restart_due(lunarcore::sx1262::RadioState::Standby));
    assert!(!n.rx_restart_due(lunarcore::sx1262::RadioState::Rx));
    n.after_transmit(true, false);
    assert!(!n.rx_restart_due(lunarcore::sx1262::RadioState::Standby));
}
