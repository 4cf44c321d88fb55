//! The decisions of the node's main loop: which host protocol each link
//! speaks, when the node repeats LoRa packets, how typed AT lines are
//! collected, and the radio settings of each protocol. The loop itself,
//! with the radio, the links and the timers, drives this state.
use vstd::prelude::*;
use crate::at_command::{AtCommand, AT_LINE_MAX};
use crate::battery::{BatteryState, battery_at};
use crate::led::{LedController, LED_BLINK_ERROR};
use crate::dedup::{DeduplicatorRing, window_push};
use crate::hvec::{bytes128_as_slice, bytes128_clear, bytes128_new, bytes128_push, bytes128_view};
use vstd::slice::slice_to_vec;
use crate::radio::RadioError;
use crate::stats::{Stats, zero_stats};
use crate::sx1262::{RadioConfig, RadioState};

verus! {

/// The host protocols a link can speak.
#[derive(Debug, Clone, Copy, PartialEq, Eq, Structural)]
pub enum Protocol {
    Unknown,
    MeshCore,
    Meshtastic,
    RNode,
    AtCommand,
}

/// The links a host can use.
#[derive(Debug, Clone, Copy, PartialEq, Eq, Structural)]
pub enum TransportType {
    UsbSerial,
    Ble,
    WiFi,
}

/// The RNode host's modem request, as the KISS handler holds it.
#[derive(Debug, Clone, Copy, PartialEq, Eq, Structural)]
pub struct RNodeModem {
    pub frequency: u32,
    pub bandwidth_hz: u32,
    pub spreading_factor: u8,
    pub coding_rate: u8,
    pub tx_power: i8,
}

/// What the loop does once a link's protocol is recognised.
#[derive(Debug, Clone, Copy, PartialEq, Eq, Structural)]
pub struct Detection {
    pub protocol: Protocol,
    /// The radio settings to apply, when the protocol has its own.
    pub radio: Option<RadioConfig>,
    /// The first byte of the protocol's framing, to hand to its parser
    /// again, since the detector consumed it.
    pub replay: Option<u8>,
}

/// Where a byte from a host goes.
#[derive(Debug, Clone, PartialEq, Eq)]
pub enum ByteRoute {
    MeshCore,
    Meshtastic,
    RNode,
    /// A complete AT line, to be run.
    AtLine(Vec<u8>),
    Nothing,
}

/// The interrupt causes of the SX1262 that the loop acts on.
#[derive(Debug, Clone, Copy, PartialEq, Eq, Structural)]
pub struct IrqEvents {
    pub tx_done: bool,
    pub rx_done: bool,
    pub crc_error: bool,
}

/// The state of the node that the loop's decisions read and change.
pub struct NodeState {
    pub serial_protocol: Protocol,
    pub ble_protocol: Protocol,
    pub wifi_protocol: Protocol,
    /// The protocol the LoRa radio is set up for.
    pub lora_protocol: Protocol,
    pub wifi_enabled: bool,
    pub wifi_clients: u32,
    pub ble_connections: u16,
    pub repeater_enabled: bool,
    pub rx_active: bool,
    pub relay_count: u32,
    pub last_serial_rx: u32,
    pub prev_ble_connections: u16,
    pub last_second: u32,
    pub at_buffer: heapless::Vec<u8, 128>,
    pub stats: Stats,
    pub dedup: DeduplicatorRing,
}

// ---------------------------------------------------------------------------
// Radio settings of the protocols
// ---------------------------------------------------------------------------

/// MeshCore: 910.525 MHz, SF7, 62.5 kHz, CR 4/5, 14 dBm, private sync word.
pub open spec fn meshcore_radio() -> RadioConfig {
    RadioConfig {
        frequency: 910_525_000,
        spreading_factor: 7,
        bandwidth: 0x03,
        coding_rate: 1,
        tx_power: 14,
        sync_word: 0x12,
        preamble_length: 16,
        crc_enabled: true,
        implicit_header: false,
        ldro: false,
    }
}

/// Meshtastic: 906.875 MHz, SF11, 125 kHz, CR 4/5, 17 dBm, sync word 0x2B.
pub open spec fn meshtastic_radio() -> RadioConfig {
    RadioConfig {
        frequency: 906_875_000,
        spreading_factor: 11,
        bandwidth: 0x04,
        coding_rate: 1,
        tx_power: 17,
        sync_word: 0x2B,
        preamble_length: 16,
        crc_enabled: true,
        implicit_header: false,
        ldro: true,
    }
}

/// The SX1262 bandwidth code of a bandwidth in hertz; 125 kHz when the
/// value is not one of the four the node knows.
pub open spec fn bandwidth_code(hz: u32) -> u8 {
    if hz == 125_000 {
        0x04
    } else if hz == 250_000 {
        0x05
    } else if hz == 500_000 {
        0x06
    } else if hz == 62_500 {
        0x03
    } else {
        0x04
    }
}

/// The radio settings for an RNode host's request.
pub open spec fn rnode_radio(m: RNodeModem) -> RadioConfig {
    RadioConfig {
        frequency: m.frequency,
        spreading_factor: m.spreading_factor,
        bandwidth: bandwidth_code(m.bandwidth_hz),
        coding_rate: if m.coding_rate >= 4 { (m.coding_rate - 4) as u8 } else { 0 },
        tx_power: m.tx_power,
        sync_word: 0x12,
        preamble_length: 8,
        crc_enabled: true,
        implicit_header: false,
        ldro: m.spreading_factor >= 11,
    }
}

/// The radio settings a protocol brings; none for the AT console and for
/// no protocol.
pub open spec fn protocol_radio(p: Protocol, m: RNodeModem) -> Option<RadioConfig> {
    match p {
        Protocol::MeshCore => Some(meshcore_radio()),
        Protocol::Meshtastic => Some(meshtastic_radio()),
        Protocol::RNode => Some(rnode_radio(m)),
        _ => None,
    }
}

/// The settings the node starts with, those of MeshCore.
pub fn meshcore_radio_config() -> (c: RadioConfig)
    ensures
        c == meshcore_radio(),
{
    RadioConfig {
        frequency: 910_525_000,
        spreading_factor: 7,
        bandwidth: 0x03,
        coding_rate: 1,
        tx_power: 14,
        sync_word: 0x12,
        preamble_length: 16,
        crc_enabled: true,
        implicit_header: false,
        ldro: false,
    }
}

pub fn meshtastic_radio_config() -> (c: RadioConfig)
    ensures
        c == meshtastic_radio(),
{
    RadioConfig {
        frequency: 906_875_000,
        spreading_factor: 11,
        bandwidth: 0x04,
        coding_rate: 1,
        tx_power: 17,
        sync_word: 0x2B,
        preamble_length: 16,
        crc_enabled: true,
        implicit_header: false,
        ldro: true,
    }
}

pub fn rnode_bandwidth_code(hz: u32) -> (c: u8)
    ensures
        c == bandwidth_code(hz),
{
    if hz == 125_000 {
        0x04
    } else if hz == 250_000 {
        0x05
    } else if hz == 500_000 {
        0x06
    } else if hz == 62_500 {
        0x03
    } else {
        0x04
    }
}

pub fn rnode_radio_config(m: RNodeModem) -> (c: RadioConfig)
    ensures
        c == rnode_radio(m),
{
    RadioConfig {
        frequency: m.frequency,
        spreading_factor: m.spreading_factor,
        bandwidth: rnode_bandwidth_code(m.bandwidth_hz),
        coding_rate: m.coding_rate.saturating_sub(4),
        tx_power: m.tx_power,
        sync_word: 0x12,
        preamble_length: 8,
        crc_enabled: true,
        implicit_header: false,
        ldro: m.spreading_factor >= 11,
    }
}

/// The radio settings for a protocol.
pub fn radio_config_for(p: Protocol, m: RNodeModem) -> (c: Option<RadioConfig>)
    ensures
        c == protocol_radio(p, m),
{
    match p {
        Protocol::MeshCore => Some(meshcore_radio_config()),
        Protocol::Meshtastic => Some(meshtastic_radio_config()),
        Protocol::RNode => Some(rnode_radio_config(m)),
        _ => None,
    }
}

// ---------------------------------------------------------------------------
// Small decisions of the loop
// ---------------------------------------------------------------------------

/// The pause before repeating a packet: 20 to 100 ms, spread by node and
/// time so that neighbours do not repeat together.
pub fn relay_jitter_ms(node_id: u32, now: u32) -> (ms: u32)
    ensures
        ms == 20 + (node_id ^ now) % 81,
        20 <= ms <= 100,
{
    20 + ((node_id ^ now) % 81)
}

/// The code a MeshCore host gets for a failed transmission.
pub fn tx_error_code(e: RadioError) -> (code: u8)
    ensures
        code == (match e {
            RadioError::TxTimeout => 1u8,
            RadioError::BusyTimeout => 2u8,
            _ => 255u8,
        }),
{
    match e {
        RadioError::TxTimeout => 1,
        RadioError::BusyTimeout => 2,
        _ => 255,
    }
}

/// The causes in an SX1262 interrupt status word: bit 0 transmission
/// done, bit 1 reception done, bit 6 CRC error.
pub fn irq_events(status: u16) -> (e: IrqEvents)
    ensures
        e.tx_done == (status & 0x01 != 0),
        e.rx_done == (status & 0x02 != 0),
        e.crc_error == (status & 0x40 != 0),
{
    IrqEvents { tx_done: status & 0x01 != 0, rx_done: status & 0x02 != 0, crc_error: status & 0x40 != 0 }
}

/// The battery is read every ten seconds; the millisecond clock wraps.
pub fn battery_check_due(now: u32, last_check: u32) -> (due: bool)
    ensures
        due == (now.wrapping_sub(last_check) >= 10_000),
{
    now.wrapping_sub(last_check) >= 10_000
}

/// Takes a new battery voltage; a critical battery makes the LED blink
/// fast.
pub fn update_battery(battery: &mut BatteryState, led: &mut LedController, voltage_mv: u32)
    ensures
        *final(battery) == battery_at(voltage_mv),
        *final(led) == (if final(battery).is_critical {
            LedController { interval_ms: LED_BLINK_ERROR, blink_count: 0, ..*old(led) }
        } else {
            *old(led)
        }),
{
    battery.apply_voltage(voltage_mv);
    if battery.is_critical {
        led.set_error();
    }
}

/// The repeater's switch a stored byte means: on unless a zero was saved.
pub open spec fn repeater_from_stored(stored: Option<u8>) -> bool {
    match stored {
        Some(v) => v != 0,
        None => true,
    }
}

/// The byte stored for the repeater's switch.
pub open spec fn repeater_stored_byte(on: bool) -> u8 {
    if on { 1u8 } else { 0u8 }
}

/// The repeater's setting from its stored byte (`None` when nothing is
/// stored).
pub fn load_repeater_setting(stored: Option<u8>) -> (on: bool)
    ensures
        on == repeater_from_stored(stored),
{
    match stored {
        Some(v) => v != 0,
        None => true,
    }
}

/// The byte to store for the repeater's setting.
pub fn save_repeater_setting(on: bool) -> (b: u8)
    ensures
        b == repeater_stored_byte(on),
{
    if on { 1 } else { 0 }
}

/// Law: the repeater's switch reads back as it was saved, and is on when
/// nothing was saved.
pub proof fn law_repeater_setting_roundtrip(on: bool)
    ensures
        repeater_from_stored(Some(repeater_stored_byte(on))) == on,
        repeater_from_stored(None),
{
}

/// The byte handed back to a protocol's parser after detection.
pub open spec fn replay_byte(p: Protocol) -> Option<u8> {
    match p {
        Protocol::MeshCore => Some(0xAAu8),
        Protocol::Meshtastic => Some(0x94u8),
        _ => None,
    }
}

/// The typed line after the AT console is recognised: the 'A' that the
/// detector consumed is put back.
pub open spec fn line_after_detect(buf: Seq<u8>, p: Protocol) -> Seq<u8> {
    if p == Protocol::AtCommand && buf.len() < AT_LINE_MAX {
        buf.push(65u8)
    } else {
        buf
    }
}

pub open spec fn is_line_end(b: u8) -> bool {
    b == 13u8 || b == 10u8
}

/// The typed line after one more byte: an end of line hands the line over
/// and empties it when it holds something; a printable byte is kept while
/// the line is shorter than `AT_LINE_MAX`; other bytes are ignored.
pub open spec fn line_after_byte(buf: Seq<u8>, b: u8) -> Seq<u8> {
    if is_line_end(b) {
        if buf.len() > 0 { Seq::empty() } else { buf }
    } else if 0x20 <= b < 0x7F && buf.len() < AT_LINE_MAX {
        buf.push(b)
    } else {
        buf
    }
}

pub open spec fn printable_line(buf: Seq<u8>) -> bool {
    &&& buf.len() <= AT_LINE_MAX
    &&& forall|i: int| 0 <= i < buf.len() ==> 0x20 <= #[trigger] buf[i] < 0x7F
}

/// Law: the typed line holds only printable bytes and never more than
/// `AT_LINE_MAX` of them, whatever bytes arrive.
pub proof fn law_typed_line_printable(buf: Seq<u8>, b: u8)
    requires
        printable_line(buf),
    ensures
        printable_line(line_after_byte(buf, b)),
        line_completed(buf, b) matches Some(l) ==> printable_line(l),
{
    let next = line_after_byte(buf, b);
    if !is_line_end(b) && 0x20 <= b < 0x7F && buf.len() < AT_LINE_MAX {
        assert forall|i: int| 0 <= i < next.len() implies 0x20 <= #[trigger] next[i] < 0x7F by {
            if i < buf.len() {
                assert(next[i] == buf[i]);
            }
        }
    }
}

/// The line handed over by a byte, if any.
pub open spec fn line_completed(buf: Seq<u8>, b: u8) -> Option<Seq<u8>> {
    if is_line_end(b) && buf.len() > 0 { Some(buf) } else { None }
}

/// The USB host went quiet: its protocol is known, no BLE host is there,
/// and nothing came over USB for more than 30 s.
pub open spec fn serial_idle(s: NodeState, now: u32, ble_now: u16) -> bool {
    &&& s.serial_protocol != Protocol::Unknown
    &&& ble_now == 0
    &&& s.ble_protocol == Protocol::Unknown
    &&& s.last_serial_rx > 0
    &&& now.wrapping_sub(s.last_serial_rx) > 30_000
}

/// The BLE host left: there were connections and now there are none, its
/// protocol is known, and USB was not used in the last 5 s.
pub open spec fn ble_dropped(s: NodeState, now: u32, ble_now: u16) -> bool {
    &&& s.prev_ble_connections > 0
    &&& ble_now == 0
    &&& s.ble_protocol != Protocol::Unknown
    &&& (s.last_serial_rx == 0 || now.wrapping_sub(s.last_serial_rx) > 5_000)
}

/// What forgetting the links' protocols does to the state.
pub open spec fn reset_effect(s0: NodeState, s1: NodeState) -> bool {
    &&& s1.serial_protocol == Protocol::Unknown
    &&& s1.ble_protocol == Protocol::Unknown
    &&& s1.wifi_protocol == Protocol::Unknown
    &&& bytes128_view(s1.at_buffer) == Seq::<u8>::empty()
    &&& s1.dedup@ == Seq::<u32>::empty()
    &&& s1.stats == (Stats { protocol_switches: (s0.stats.protocol_switches + 1) as u32, ..s0.stats })
    &&& s1.lora_protocol == s0.lora_protocol
    &&& s1.wifi_enabled == s0.wifi_enabled
    &&& s1.wifi_clients == s0.wifi_clients
    &&& s1.ble_connections == s0.ble_connections
    &&& s1.repeater_enabled == s0.repeater_enabled
    &&& s1.rx_active == s0.rx_active
    &&& s1.relay_count == s0.relay_count
    &&& s1.last_serial_rx == s0.last_serial_rx
    &&& s1.prev_ble_connections == s0.prev_ble_connections
    &&& s1.last_second == s0.last_second
}

/// Law: once the links' protocols are forgotten, the protocol in use is
/// the radio's, and a host counts as connected only by an open BLE
/// connection or a WiFi client.
pub proof fn law_reset_returns_to_radio_protocol(s0: NodeState, s1: NodeState)
    requires
        reset_effect(s0, s1),
    ensures
        s1.active() == s0.lora_protocol,
        s1.connected() == (s1.ble_connections > 0 || (s1.wifi_enabled && s1.wifi_clients > 0)),
{
}

/// Everything but the counters, the receiver flag and the fingerprints is
/// left as it was.
pub open spec fn links_unchanged(s0: NodeState, s1: NodeState) -> bool {
    &&& s1.serial_protocol == s0.serial_protocol
    &&& s1.ble_protocol == s0.ble_protocol
    &&& s1.wifi_protocol == s0.wifi_protocol
    &&& s1.lora_protocol == s0.lora_protocol
    &&& s1.wifi_enabled == s0.wifi_enabled
    &&& s1.wifi_clients == s0.wifi_clients
    &&& s1.ble_connections == s0.ble_connections
    &&& s1.repeater_enabled == s0.repeater_enabled
    &&& s1.last_serial_rx == s0.last_serial_rx
    &&& s1.prev_ble_connections == s0.prev_ble_connections
    &&& s1.last_second == s0.last_second
    &&& bytes128_view(s1.at_buffer) == bytes128_view(s0.at_buffer)
}

/// Law: the node repeats packets only while no host is connected.
pub proof fn law_repeater_yields_to_host(s: NodeState)
    ensures
        s.repeating() ==> !s.connected(),
        s.repeating() ==> s.repeater_enabled,
{
}

// ---------------------------------------------------------------------------
// The node's state
// ---------------------------------------------------------------------------

impl NodeState {
    pub open spec fn connected(&self) -> bool {
        ||| self.serial_protocol != Protocol::Unknown
        ||| self.ble_protocol != Protocol::Unknown
        ||| self.wifi_protocol != Protocol::Unknown
        ||| self.ble_connections > 0
        ||| (self.wifi_enabled && self.wifi_clients > 0)
    }

    /// The protocol in use: that of the USB link, else of BLE, else of
    /// WiFi, else the one the radio is set up for.
    pub open spec fn active(&self) -> Protocol {
        if self.serial_protocol != Protocol::Unknown {
            self.serial_protocol
        } else if self.ble_protocol != Protocol::Unknown {
            self.ble_protocol
        } else if self.wifi_protocol != Protocol::Unknown {
            self.wifi_protocol
        } else {
            self.lora_protocol
        }
    }

    pub open spec fn repeating(&self) -> bool {
        self.repeater_enabled && !self.connected()
    }

    pub open spec fn link_protocol(&self, t: TransportType) -> Protocol {
        match t {
            TransportType::UsbSerial => self.serial_protocol,
            TransportType::Ble => self.ble_protocol,
            TransportType::WiFi => self.wifi_protocol,
        }
    }

    /// A node that has just started: nothing detected, repeater on, WiFi
    /// off, receiver off, counters at zero.
    pub fn new() -> (n: Self)
        ensures
            n.serial_protocol == Protocol::Unknown,
            n.ble_protocol == Protocol::Unknown,
            n.wifi_protocol == Protocol::Unknown,
            n.lora_protocol == Protocol::Unknown,
            !n.wifi_enabled,
            n.wifi_clients == 0,
            n.ble_connections == 0,
            n.repeater_enabled,
            !n.rx_active,
            n.relay_count == 0,
            n.last_serial_rx == 0,
            n.prev_ble_connections == 0,
            n.last_second == 0,
            bytes128_view(n.at_buffer) == Seq::<u8>::empty(),
            n.stats == zero_stats(),
            n.dedup@ == Seq::<u32>::empty(),
    {
        NodeState {
            serial_protocol: Protocol::Unknown,
            ble_protocol: Protocol::Unknown,
            wifi_protocol: Protocol::Unknown,
            lora_protocol: Protocol::Unknown,
            wifi_enabled: false,
            wifi_clients: 0,
            ble_connections: 0,
            repeater_enabled: true,
            rx_active: false,
            relay_count: 0,
            last_serial_rx: 0,
            prev_ble_connections: 0,
            last_second: 0,
            at_buffer: bytes128_new(),
            stats: Stats::new(),
            dedup: DeduplicatorRing::new(),
        }
    }

    /// True when a host uses the node over any link.
    pub fn app_connected(&self) -> (c: bool)
        ensures
            c == self.connected(),
    {
        self.serial_protocol != Protocol::Unknown
            || self.ble_protocol != Protocol::Unknown
            || self.wifi_protocol != Protocol::Unknown
            || self.ble_connections > 0
            || (self.wifi_enabled && self.wifi_clients > 0)
    }

    pub fn active_protocol(&self) -> (p: Protocol)
        ensures
            p == self.active(),
    {
        if self.serial_protocol != Protocol::Unknown {
            self.serial_protocol
        } else if self.ble_protocol != Protocol::Unknown {
            self.ble_protocol
        } else if self.wifi_protocol != Protocol::Unknown {
            self.wifi_protocol
        } else {
            self.lora_protocol
        }
    }

    /// The node repeats packets when the repeater is on and no host is
    /// connected.
    pub fn repeater_active(&self) -> (r: bool)
        ensures
            r == self.repeating(),
    {
        self.repeater_enabled && !self.app_connected()
    }

    /// Forgets the protocols of the links, the typed line and the relayed
    /// fingerprints, when some protocol was in use; true when it did. The
    /// loop then resets the detectors and the parsers.
    pub fn reset_protocol(&mut self) -> (reset: bool)
        requires
            old(self).stats.protocol_switches < u32::MAX,
        ensures
            reset == (old(self).active() != Protocol::Unknown),
            !reset ==> *final(self) == *old(self),
            reset ==> reset_effect(*old(self), *final(self)),
    {
        if self.active_protocol() == Protocol::Unknown {
            return false;
        }
        self.serial_protocol = Protocol::Unknown;
        self.ble_protocol = Protocol::Unknown;
        self.wifi_protocol = Protocol::Unknown;
        bytes128_clear(&mut self.at_buffer);
        self.dedup.clear();
        self.stats.protocol_switches = self.stats.protocol_switches + 1;
        true
    }

    /// What follows the recognition of a protocol: the radio is set up for
    /// it (and the radio's protocol follows when it has settings of its
    /// own), the switch is counted, and the byte the detector consumed is
    /// given back: to the MeshCore or Meshtastic parser, or to the typed
    /// line for the AT console.
    pub fn on_protocol_detected(&mut self, protocol: Protocol, rnode: RNodeModem) -> (d: Detection)
        requires
            old(self).stats.protocol_switches < u32::MAX,
        ensures
            d.protocol == protocol,
            d.radio == protocol_radio(protocol, rnode),
            d.replay == replay_byte(protocol),
            final(self).lora_protocol == (if d.radio is Some { protocol } else { old(self).lora_protocol }),
            final(self).stats == (Stats {
                protocol_switches: (old(self).stats.protocol_switches + 1) as u32,
                ..old(self).stats
            }),
            bytes128_view(final(self).at_buffer) == line_after_detect(bytes128_view(old(self).at_buffer), protocol),
            final(self).serial_protocol == old(self).serial_protocol,
            final(self).ble_protocol == old(self).ble_protocol,
            final(self).wifi_protocol == old(self).wifi_protocol,
            final(self).wifi_enabled == old(self).wifi_enabled,
            final(self).wifi_clients == old(self).wifi_clients,
            final(self).ble_connections == old(self).ble_connections,
            final(self).repeater_enabled == old(self).repeater_enabled,
            final(self).rx_active == old(self).rx_active,
            final(self).relay_count == old(self).relay_count,
            final(self).last_serial_rx == old(self).last_serial_rx,
            final(self).prev_ble_connections == old(self).prev_ble_connections,
            final(self).last_second == old(self).last_second,
            final(self).dedup@ == old(self).dedup@,
    {
        let radio = radio_config_for(protocol, rnode);
        if radio.is_some() {
            self.lora_protocol = protocol;
        }
        self.stats.protocol_switches = self.stats.protocol_switches + 1;
        let replay = match protocol {
            Protocol::MeshCore => Some(0xAAu8),
            Protocol::Meshtastic => Some(0x94u8),
            Protocol::AtCommand => {
                let _ = bytes128_push(&mut self.at_buffer, 0x41);
                None
            },
            _ => None,
        };
        Detection { protocol, radio, replay }
    }

    /// Adds a typed byte to the AT line; returns the line when the byte
    /// ends it.
    pub fn feed_at_byte(&mut self, byte: u8) -> (line: Option<Vec<u8>>)
        ensures
            bytes128_view(final(self).at_buffer) == line_after_byte(bytes128_view(old(self).at_buffer), byte),
            line is Some == line_completed(bytes128_view(old(self).at_buffer), byte) is Some,
            line is Some ==> line->0@ == line_completed(bytes128_view(old(self).at_buffer), byte)->0,
            final(self).serial_protocol == old(self).serial_protocol,
            final(self).ble_protocol == old(self).ble_protocol,
            final(self).wifi_protocol == old(self).wifi_protocol,
            final(self).lora_protocol == old(self).lora_protocol,
            final(self).wifi_enabled == old(self).wifi_enabled,
            final(self).wifi_clients == old(self).wifi_clients,
            final(self).ble_connections == old(self).ble_connections,
            final(self).repeater_enabled == old(self).repeater_enabled,
            final(self).rx_active == old(self).rx_active,
            final(self).relay_count == old(self).relay_count,
            final(self).last_serial_rx == old(self).last_serial_rx,
            final(self).prev_ble_connections == old(self).prev_ble_connections,
            final(self).last_second == old(self).last_second,
            final(self).stats == old(self).stats,
            final(self).dedup@ == old(self).dedup@,
    {
        if byte == 0x0D || byte == 0x0A {
            let held = bytes128_as_slice(&self.at_buffer);
            if held.len() > 0 {
                let line = slice_to_vec(held);
                bytes128_clear(&mut self.at_buffer);
                return Some(line);
            }
            None
        } else {
            if byte >= 0x20 && byte < 0x7F {
                let _ = bytes128_push(&mut self.at_buffer, byte);
            }
            None
        }
    }

    /// Takes a byte from a host: notes the time of USB traffic, recognises
    /// the link's protocol once from the detector's verdict `detected`, and
    /// says where the byte goes. Bytes of the AT console count only on USB.
    pub fn process_incoming_byte(
        &mut self,
        byte: u8,
        transport: TransportType,
        detected: Protocol,
        rnode: RNodeModem,
        now: u32,
    ) -> (r: (Option<Detection>, ByteRoute))
        requires
            old(self).stats.protocol_switches < u32::MAX,
        ensures
            ({
                let newly = old(self).link_protocol(transport) == Protocol::Unknown && detected != Protocol::Unknown;
                let p = final(self).link_protocol(transport);
                let buf1 = if newly { line_after_detect(bytes128_view(old(self).at_buffer), detected) } else { bytes128_view(old(self).at_buffer) };
                let at_route = p == Protocol::AtCommand && transport == TransportType::UsbSerial;
                &&& r.0 == (if newly {
                    Some(Detection {
                        protocol: detected,
                        radio: protocol_radio(detected, rnode),
                        replay: replay_byte(detected),
                    })
                } else {
                    None
                })
                &&& p == (if newly { detected } else { old(self).link_protocol(transport) })
                &&& final(self).last_serial_rx == (if transport == TransportType::UsbSerial { now } else { old(self).last_serial_rx })
                &&& final(self).lora_protocol == (if newly && protocol_radio(detected, rnode) is Some { detected } else { old(self).lora_protocol })
                &&& final(self).stats == (if newly {
                    Stats { protocol_switches: (old(self).stats.protocol_switches + 1) as u32, ..old(self).stats }
                } else {
                    old(self).stats
                })
                &&& (r.1 is MeshCore <==> p == Protocol::MeshCore)
                &&& (r.1 is Meshtastic <==> p == Protocol::Meshtastic)
                &&& (r.1 is RNode <==> p == Protocol::RNode)
                &&& (r.1 is AtLine <==> at_route && line_completed(buf1, byte) is Some)
                &&& (r.1 is AtLine ==> r.1->AtLine_0@ == line_completed(buf1, byte)->0)
                &&& bytes128_view(final(self).at_buffer) == (if at_route { line_after_byte(buf1, byte) } else { buf1 })
            }),
            forall|t: TransportType| t != transport ==> final(self).link_protocol(t) == old(self).link_protocol(t),
            final(self).wifi_enabled == old(self).wifi_enabled,
            final(self).wifi_clients == old(self).wifi_clients,
            final(self).ble_connections == old(self).ble_connections,
            final(self).repeater_enabled == old(self).repeater_enabled,
            final(self).rx_active == old(self).rx_active,
            final(self).relay_count == old(self).relay_count,
            final(self).prev_ble_connections == old(self).prev_ble_connections,
            final(self).last_second == old(self).last_second,
            final(self).dedup@ == old(self).dedup@,
    {
        if transport == TransportType::UsbSerial {
            self.last_serial_rx = now;
        }
        let needs_detect = match transport {
            TransportType::UsbSerial => self.serial_protocol == Protocol::Unknown,
            TransportType::Ble => self.ble_protocol == Protocol::Unknown,
            TransportType::WiFi => self.wifi_protocol == Protocol::Unknown,
        };
        let mut detection: Option<Detection> = None;
        if needs_detect && detected != Protocol::Unknown {
            match transport {
                TransportType::UsbSerial => self.serial_protocol = detected,
                TransportType::Ble => self.ble_protocol = detected,
                TransportType::WiFi => self.wifi_protocol = detected,
            }
            detection = Some(self.on_protocol_detected(detected, rnode));
        }
        let protocol = match transport {
            TransportType::UsbSerial => self.serial_protocol,
            TransportType::Ble => self.ble_protocol,
            TransportType::WiFi => self.wifi_protocol,
        };
        let route = match protocol {
            Protocol::MeshCore => ByteRoute::MeshCore,
            Protocol::Meshtastic => ByteRoute::Meshtastic,
            Protocol::RNode => ByteRoute::RNode,
            Protocol::AtCommand => {
                if transport != TransportType::UsbSerial {
                    ByteRoute::Nothing
                } else {
                    match self.feed_at_byte(byte) {
                        Some(line) => ByteRoute::AtLine(line),
                        None => ByteRoute::Nothing,
                    }
                }
            },
            Protocol::Unknown => ByteRoute::Nothing,
        };
        (detection, route)
    }

    /// Decides whether a heard packet is repeated: only while repeating,
    /// when the packet may be relayed in the protocol in use
    /// (`can_relay`), and when its fingerprint is not among the recent
    /// ones, which then remember it.
    pub fn relay_gate(&mut self, can_relay: bool, fingerprint: u32) -> (go: bool)
        ensures
            go == (old(self).repeating() && can_relay && !old(self).dedup@.contains(fingerprint)),
            final(self).dedup@ == (if old(self).repeating() && can_relay && !old(self).dedup@.contains(fingerprint) {
                window_push(old(self).dedup@, fingerprint)
            } else {
                old(self).dedup@
            }),
            links_unchanged(*old(self), *final(self)),
            final(self).stats == old(self).stats,
            final(self).rx_active == old(self).rx_active,
            final(self).relay_count == old(self).relay_count,
    {
        if !self.repeater_active() {
            return false;
        }
        if !can_relay {
            return false;
        }
        self.dedup.check_and_insert_fingerprint(fingerprint)
    }

    /// After a repeat was sent: a success is counted; the receiver is on
    /// again either way.
    pub fn after_relay(&mut self, transmit_ok: bool) -> (relayed: bool)
        requires
            old(self).relay_count < u32::MAX,
            old(self).stats.tx_packets < u32::MAX,
        ensures
            relayed == transmit_ok,
            final(self).rx_active,
            final(self).relay_count == (if transmit_ok { (old(self).relay_count + 1) as u32 } else { old(self).relay_count }),
            final(self).stats == (if transmit_ok {
                Stats { tx_packets: (old(self).stats.tx_packets + 1) as u32, ..old(self).stats }
            } else {
                old(self).stats
            }),
            links_unchanged(*old(self), *final(self)),
            final(self).dedup@ == old(self).dedup@,
    {
        self.rx_active = true;
        if transmit_ok {
            self.relay_count = self.relay_count + 1;
            self.stats.tx_packets = self.stats.tx_packets + 1;
            true
        } else {
            false
        }
    }

    /// After a host's packet was sent: a success is counted and the
    /// receiver restarted; a failure is counted and the receiver is on only
    /// if restarting it worked (`rx_restarted`).
    pub fn after_transmit(&mut self, transmit_ok: bool, rx_restarted: bool)
        requires
            transmit_ok ==> old(self).stats.tx_packets < u32::MAX,
            !transmit_ok ==> old(self).stats.tx_errors < u32::MAX,
        ensures
            final(self).rx_active == (transmit_ok || rx_restarted),
            final(self).stats == (if transmit_ok {
                Stats { tx_packets: (old(self).stats.tx_packets + 1) as u32, ..old(self).stats }
            } else {
                Stats { tx_errors: (old(self).stats.tx_errors + 1) as u32, ..old(self).stats }
            }),
            final(self).relay_count == old(self).relay_count,
            links_unchanged(*old(self), *final(self)),
            final(self).dedup@ == old(self).dedup@,
    {
        if transmit_ok {
            self.stats.tx_packets = self.stats.tx_packets + 1;
            self.rx_active = true;
        } else {
            self.stats.tx_errors = self.stats.tx_errors + 1;
            self.rx_active = rx_restarted;
        }
    }

    /// Counts a packet taken from the radio and keeps its signal strength.
    pub fn note_packet_received(&mut self, rssi: i16)
        requires
            old(self).stats.rx_packets < u32::MAX,
        ensures
            final(self).stats == (Stats {
                rx_packets: (old(self).stats.rx_packets + 1) as u32,
                last_rssi: rssi,
                ..old(self).stats
            }),
            final(self).rx_active == old(self).rx_active,
            final(self).relay_count == old(self).relay_count,
            links_unchanged(*old(self), *final(self)),
            final(self).dedup@ == old(self).dedup@,
    {
        self.stats.rx_packets = self.stats.rx_packets + 1;
        self.stats.last_rssi = rssi;
    }

    /// A failed poll of the receiver: a timeout is not counted, any other
    /// failure is.
    pub fn note_rx_failure(&mut self, e: RadioError)
        requires
            old(self).stats.rx_errors < u32::MAX,
        ensures
            final(self).stats == (if e == RadioError::RxTimeout {
                old(self).stats
            } else {
                Stats { rx_errors: (old(self).stats.rx_errors + 1) as u32, ..old(self).stats }
            }),
            final(self).rx_active == old(self).rx_active,
            final(self).relay_count == old(self).relay_count,
            links_unchanged(*old(self), *final(self)),
            final(self).dedup@ == old(self).dedup@,
    {
        match e {
            RadioError::RxTimeout => {},
            _ => {
                self.stats.rx_errors = self.stats.rx_errors + 1;
            },
        }
    }

    /// The framing a packet from the air is handed to the host in: that of
    /// the protocol in use for Meshtastic and RNode, MeshCore's otherwise.
    pub fn rx_framing(&self) -> (p: Protocol)
        ensures
            p == (match self.active() {
                Protocol::Meshtastic => Protocol::Meshtastic,
                Protocol::RNode => Protocol::RNode,
                _ => Protocol::MeshCore,
            }),
    {
        match self.active_protocol() {
            Protocol::Meshtastic => Protocol::Meshtastic,
            Protocol::RNode => Protocol::RNode,
            _ => Protocol::MeshCore,
        }
    }

    /// Reads an interrupt status word; a CRC error is counted.
    pub fn note_irq(&mut self, status: u16) -> (e: IrqEvents)
        requires
            old(self).stats.rx_errors < u32::MAX,
        ensures
            e.tx_done == (status & 0x01 != 0),
            e.rx_done == (status & 0x02 != 0),
            e.crc_error == (status & 0x40 != 0),
            final(self).stats == (if e.crc_error {
                Stats { rx_errors: (old(self).stats.rx_errors + 1) as u32, ..old(self).stats }
            } else {
                old(self).stats
            }),
            final(self).rx_active == old(self).rx_active,
            final(self).relay_count == old(self).relay_count,
            links_unchanged(*old(self), *final(self)),
            final(self).dedup@ == old(self).dedup@,
    {
        let e = irq_events(status);
        if e.crc_error {
            self.stats.rx_errors = self.stats.rx_errors + 1;
        }
        e
    }

    /// The receiver is restarted after a host's request when it is off and
    /// the radio has gone back to standby.
    pub fn rx_restart_due(&self, radio_state: RadioState) -> (due: bool)
        ensures
            due == (!self.rx_active && radio_state == RadioState::Standby),
    {
        !self.rx_active && radio_state == RadioState::Standby
    }

    /// The node saves power when it is only repeating and its battery is
    /// low; checked in the first 10 ms of every 5 s.
    pub fn low_power_due(&self, battery_low: bool, now: u32) -> (due: bool)
        ensures
            due == (self.repeating() && !self.connected() && battery_low && now % 5000 < 10),
    {
        self.repeater_active() && !self.app_connected() && battery_low && now % 5000 < 10
    }

    /// Follows the links' activity once per loop: the protocols are forgotten
    /// when the USB host went quiet or the BLE host left; the BLE
    /// connection count is kept. True when the protocols were forgotten.
    pub fn tick_links(&mut self, now: u32, ble_now: u16) -> (reset: bool)
        requires
            old(self).stats.protocol_switches < u32::MAX,
        ensures
            reset == ((serial_idle(*old(self), now, ble_now) || ble_dropped(*old(self), now, ble_now))
                && old(self).active() != Protocol::Unknown),
            final(self).prev_ble_connections == ble_now,
            final(self).ble_connections == ble_now,
            reset ==> reset_effect(*old(self), NodeState {
                prev_ble_connections: old(self).prev_ble_connections,
                ble_connections: old(self).ble_connections,
                ..*final(self)
            }),
            !reset ==> final(self).serial_protocol == old(self).serial_protocol
                && final(self).ble_protocol == old(self).ble_protocol
                && final(self).wifi_protocol == old(self).wifi_protocol
                && final(self).stats == old(self).stats
                && bytes128_view(final(self).at_buffer) == bytes128_view(old(self).at_buffer)
                && final(self).dedup@ == old(self).dedup@,
            final(self).lora_protocol == old(self).lora_protocol,
            final(self).wifi_enabled == old(self).wifi_enabled,
            final(self).wifi_clients == old(self).wifi_clients,
            final(self).repeater_enabled == old(self).repeater_enabled,
            final(self).rx_active == old(self).rx_active,
            final(self).relay_count == old(self).relay_count,
            final(self).last_serial_rx == old(self).last_serial_rx,
            final(self).last_second == old(self).last_second,
    {
        let mut reset = false;
        if self.serial_protocol != Protocol::Unknown && ble_now == 0 && self.ble_protocol == Protocol::Unknown
            && self.last_serial_rx > 0 && now.wrapping_sub(self.last_serial_rx) > 30_000
        {
            reset = self.reset_protocol();
        }
        if self.prev_ble_connections > 0 && ble_now == 0 && self.ble_protocol != Protocol::Unknown
            && (self.last_serial_rx == 0 || now.wrapping_sub(self.last_serial_rx) > 5_000)
        {
            reset = self.reset_protocol();
        }
        self.prev_ble_connections = ble_now;
        self.ble_connections = ble_now;
        reset
    }

    /// Advances the uptime once per second; says whether the status screen
    /// is redrawn (every even second) and the uptime logged (every minute).
    pub fn clock_tick(&mut self, now: u32) -> (r: (bool, bool))
        ensures
            now / 1000 > old(self).last_second ==> final(self).last_second == now / 1000
                && final(self).stats == (Stats { uptime_seconds: (now / 1000) as u32, ..old(self).stats })
                && r == ((now / 1000) % 2 == 0, (now / 1000) % 60 == 0),
            now / 1000 <= old(self).last_second ==> final(self).last_second == old(self).last_second
                && final(self).stats == old(self).stats
                && r == (false, false),
            final(self).rx_active == old(self).rx_active,
            final(self).relay_count == old(self).relay_count,
            final(self).serial_protocol == old(self).serial_protocol,
            final(self).ble_protocol == old(self).ble_protocol,
            final(self).wifi_protocol == old(self).wifi_protocol,
            final(self).lora_protocol == old(self).lora_protocol,
            final(self).repeater_enabled == old(self).repeater_enabled,
            final(self).dedup@ == old(self).dedup@,
    {
        let current_second = now / 1000;
        if current_second > self.last_second {
            self.last_second = current_second;
            self.stats.uptime_seconds = current_second;
            (current_second % 2 == 0, current_second % 60 == 0)
        } else {
            (false, false)
        }
    }

    /// The state a console command changes: the repeater's and WiFi's
    /// switches (turning the repeater off forgets the relayed
    /// fingerprints), and the protocol reset. True when the protocols were
    /// forgotten.
    pub fn apply_at_command(&mut self, cmd: AtCommand) -> (reset: bool)
        requires
            cmd == AtCommand::SwitchProtocol ==> old(self).stats.protocol_switches < u32::MAX,
        ensures
            reset == (cmd == AtCommand::SwitchProtocol && old(self).active() != Protocol::Unknown),
            reset ==> reset_effect(*old(self), *final(self)),
            cmd == AtCommand::SwitchProtocol && !reset ==> *final(self) == *old(self),
            match cmd {
                AtCommand::SetRepeater(on) => final(self).repeater_enabled == on
                    && final(self).dedup@ == (if on { old(self).dedup@ } else { Seq::<u32>::empty() })
                    && final(self).wifi_enabled == old(self).wifi_enabled,
                AtCommand::SetWifi(on) => final(self).wifi_enabled == on
                    && final(self).repeater_enabled == old(self).repeater_enabled
                    && final(self).dedup@ == old(self).dedup@,
                AtCommand::SwitchProtocol => true,
                _ => final(self).repeater_enabled == old(self).repeater_enabled
                    && final(self).wifi_enabled == old(self).wifi_enabled
                    && final(self).dedup@ == old(self).dedup@,
            },
            cmd != AtCommand::SwitchProtocol ==> final(self).stats == old(self).stats
                && final(self).serial_protocol == old(self).serial_protocol
                && final(self).ble_protocol == old(self).ble_protocol
                && final(self).wifi_protocol == old(self).wifi_protocol
                && final(self).lora_protocol == old(self).lora_protocol
                && bytes128_view(final(self).at_buffer) == bytes128_view(old(self).at_buffer)
                && final(self).rx_active == old(self).rx_active
                && final(self).relay_count == old(self).relay_count
                && final(self).wifi_clients == old(self).wifi_clients
                && final(self).ble_connections == old(self).ble_connections
                && final(self).last_serial_rx == old(self).last_serial_rx
                && final(self).prev_ble_connections == old(self).prev_ble_connections
                && final(self).last_second == old(self).last_second,
    {
        match cmd {
            AtCommand::SetRepeater(on) => {
                self.repeater_enabled = on;
                if !on {
                    self.dedup.clear();
                }
                false
            },
            AtCommand::SetWifi(on) => {
                self.wifi_enabled = on;
                false
            },
            AtCommand::SwitchProtocol => self.reset_protocol(),
            _ => false,
        }
    }
}

} // verus!
