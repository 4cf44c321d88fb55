//! The STM32WL's built-in SX1262 sub-GHz radio: its settings, its state
//! (sleep, standby, receive, transmit) and its one-packet buffers.
use vstd::prelude::*;
use crate::hvec::{bytes256_as_slice, bytes256_from_slice, bytes256_new, bytes256_view};
use crate::sx1262::{default_radio_config, RadioConfig, RadioError, RadioState};

verus! {

pub const SUBGHZ_MIN_FREQUENCY: u32 = 150_000_000;
pub const SUBGHZ_MAX_FREQUENCY: u32 = 960_000_000;

#[derive(Debug, Clone, Copy, PartialEq, Eq, Structural)]
pub struct SubGhzConfig {
    pub radio: RadioConfig,
    pub fallback_mode: RadioState,
    pub uses_internal_rf_path: bool,
}

/// Default settings: the default SX1262 settings, falling back to standby
/// after a packet, on the internal RF path.
pub open spec fn default_subghz_config() -> SubGhzConfig {
    SubGhzConfig { radio: default_radio_config(), fallback_mode: RadioState::Standby, uses_internal_rf_path: true }
}

impl Default for SubGhzConfig {
    fn default() -> (c: Self)
        ensures
            c == default_subghz_config(),
    {
        Self { radio: RadioConfig::default(), fallback_mode: RadioState::Standby, uses_internal_rf_path: true }
    }
}

#[derive(Debug, Clone, Copy, PartialEq, Eq, Structural)]
pub enum SubGhzInterface {
    InternalSubGhz,
}

#[derive(Debug, Clone, Copy, PartialEq, Eq, Structural)]
pub struct PacketStatus {
    pub rssi_dbm: i16,
    pub snr_db: i8,
}

pub struct SubGhzRadio {
    pub config: SubGhzConfig,
    pub state: RadioState,
    pub interface: SubGhzInterface,
    rx_buffer: heapless::Vec<u8, 256>,
    tx_buffer: heapless::Vec<u8, 256>,
    pub last_packet_status: Option<PacketStatus>,
}

/// The model of the radio.
pub struct SubGhzView {
    pub config: SubGhzConfig,
    pub state: RadioState,
    pub interface: SubGhzInterface,
    pub rx: Seq<u8>,
    pub tx: Seq<u8>,
    pub last_packet_status: Option<PacketStatus>,
}

impl View for SubGhzRadio {
    type V = SubGhzView;

    closed spec fn view(&self) -> SubGhzView {
        SubGhzView {
            config: self.config,
            state: self.state,
            interface: self.interface,
            rx: bytes256_view(self.rx_buffer),
            tx: bytes256_view(self.tx_buffer),
            last_packet_status: self.last_packet_status,
        }
    }
}

/// The frequencies the radio can tune to.
pub open spec fn frequency_ok(f: u32) -> bool {
    SUBGHZ_MIN_FREQUENCY <= f <= SUBGHZ_MAX_FREQUENCY
}

/// The radio after a packet was received into it.
pub open spec fn after_inject(r: SubGhzView, payload: Seq<u8>, rssi_dbm: i16, snr_db: i8) -> SubGhzView {
    SubGhzView {
        rx: payload,
        last_packet_status: Some(PacketStatus { rssi_dbm, snr_db }),
        state: RadioState::Rx,
        ..r
    }
}

/// What reading a packet returns, when there is one.
pub open spec fn read_result(r: SubGhzView) -> Option<(Seq<u8>, PacketStatus)> {
    match r.last_packet_status {
        Some(s) => Some((r.rx, s)),
        None => None,
    }
}

/// The radio after a packet was read out of it.
pub open spec fn after_read(r: SubGhzView) -> SubGhzView {
    match r.last_packet_status {
        Some(s) => SubGhzView {
            rx: Seq::empty(),
            last_packet_status: None,
            state: r.config.fallback_mode,
            ..r
        },
        None => r,
    }
}

/// Law: a packet received into the radio is what the next read returns,
/// and the read after it finds nothing.
pub proof fn law_inject_then_read(r: SubGhzView, payload: Seq<u8>, rssi_dbm: i16, snr_db: i8)
    ensures
        read_result(after_inject(r, payload, rssi_dbm, snr_db)) == Some((payload, PacketStatus { rssi_dbm, snr_db })),
        read_result(after_read(after_inject(r, payload, rssi_dbm, snr_db))) is None,
{
}

impl SubGhzRadio {
    /// A sleeping radio with default settings and empty buffers.
    pub fn new() -> (r: Self)
        ensures
            r@.config == default_subghz_config(),
            r@.state == RadioState::Sleep,
            r@.rx == Seq::<u8>::empty(),
            r@.tx == Seq::<u8>::empty(),
            r@.last_packet_status is None,
            r@.interface == SubGhzInterface::InternalSubGhz,
    {
        Self {
            config: SubGhzConfig::default(),
            state: RadioState::Sleep,
            interface: SubGhzInterface::InternalSubGhz,
            rx_buffer: bytes256_new(),
            tx_buffer: bytes256_new(),
            last_packet_status: None,
        }
    }

    /// Puts the radio in standby, provided its configured frequency is one
    /// it can tune to.
    pub fn init(&mut self) -> (r: Result<(), RadioError>)
        ensures
            frequency_ok(old(self)@.config.radio.frequency) ==> r is Ok
                && final(self)@ == (SubGhzView { state: RadioState::Standby, ..old(self)@ }),
            !frequency_ok(old(self)@.config.radio.frequency) ==> r == Err::<(), RadioError>(RadioError::InvalidConfig)
                && final(self)@ == old(self)@,
    {
        self.validate_frequency(self.config.radio.frequency)?;
        self.state = RadioState::Standby;
        Ok(())
    }

    /// Takes new settings and goes to standby, provided their frequency is
    /// one the radio can tune to.
    pub fn configure(&mut self, config: &SubGhzConfig) -> (r: Result<(), RadioError>)
        ensures
            frequency_ok(config.radio.frequency) ==> r is Ok
                && final(self)@ == (SubGhzView { config: *config, state: RadioState::Standby, ..old(self)@ }),
            !frequency_ok(config.radio.frequency) ==> r == Err::<(), RadioError>(RadioError::InvalidConfig)
                && final(self)@ == old(self)@,
    {
        self.validate_frequency(config.radio.frequency)?;
        self.config = *config;
        self.state = RadioState::Standby;
        Ok(())
    }

    /// Retunes the radio, provided it can tune to `frequency`.
    pub fn set_frequency(&mut self, frequency: u32) -> (r: Result<(), RadioError>)
        ensures
            frequency_ok(frequency) ==> r is Ok && final(self)@ == (SubGhzView {
                config: SubGhzConfig { radio: RadioConfig { frequency, ..old(self)@.config.radio }, ..old(self)@.config },
                ..old(self)@
            }),
            !frequency_ok(frequency) ==> r == Err::<(), RadioError>(RadioError::InvalidConfig)
                && final(self)@ == old(self)@,
    {
        self.validate_frequency(frequency)?;
        self.config.radio.frequency = frequency;
        Ok(())
    }

    /// Sends a packet of at most 255 bytes: it lands in the transmit buffer
    /// and the radio returns to its fallback state.
    pub fn transmit(&mut self, payload: &[u8]) -> (r: Result<(), RadioError>)
        ensures
            payload@.len() <= 255 ==> r is Ok && final(self)@ == (SubGhzView {
                tx: payload@,
                state: old(self)@.config.fallback_mode,
                ..old(self)@
            }),
            payload@.len() > 255 ==> r == Err::<(), RadioError>(RadioError::BufferOverflow)
                && final(self)@ == old(self)@,
    {
        if payload.len() > 255 {
            return Err(RadioError::BufferOverflow);
        }
        self.tx_buffer = match bytes256_from_slice(payload) {
            Some(v) => v,
            None => return Err(RadioError::BufferOverflow),
        };
        self.state = RadioState::Tx;
        self.state = self.config.fallback_mode;
        Ok(())
    }

    /// Takes in a received packet of at most 255 bytes with its signal
    /// quality; the radio is then receiving.
    pub fn inject_received(&mut self, payload: &[u8], rssi_dbm: i16, snr_db: i8) -> (r: Result<(), RadioError>)
        ensures
            payload@.len() <= 255 ==> r is Ok
                && final(self)@ == after_inject(old(self)@, payload@, rssi_dbm, snr_db),
            payload@.len() > 255 ==> r == Err::<(), RadioError>(RadioError::BufferOverflow)
                && final(self)@ == old(self)@,
    {
        if payload.len() > 255 {
            return Err(RadioError::BufferOverflow);
        }
        self.rx_buffer = match bytes256_from_slice(payload) {
            Some(v) => v,
            None => return Err(RadioError::BufferOverflow),
        };
        self.last_packet_status = Some(PacketStatus { rssi_dbm, snr_db });
        self.state = RadioState::Rx;
        Ok(())
    }

    /// The received packet and its signal quality, if one is waiting; reading
    /// it empties the receive buffer and returns the radio to its fallback
    /// state.
    pub fn read_packet(&mut self) -> (r: Option<(heapless::Vec<u8, 256>, PacketStatus)>)
        ensures
            match r {
                Some((p, s)) => read_result(old(self)@) == Some((bytes256_view(p), s)),
                None => read_result(old(self)@) is None,
            },
            final(self)@ == after_read(old(self)@),
    {
        let packet = match bytes256_from_slice(bytes256_as_slice(&self.rx_buffer)) {
            Some(v) => v,
            None => return None,
        };
        let status = match self.last_packet_status {
            Some(s) => s,
            None => return None,
        };
        self.rx_buffer = bytes256_new();
        self.last_packet_status = None;
        self.state = self.config.fallback_mode;
        Some((packet, status))
    }

    /// Starts receiving.
    pub fn start_rx(&mut self)
        ensures
            final(self)@ == (SubGhzView { state: RadioState::Rx, ..old(self)@ }),
    {
        self.state = RadioState::Rx;
    }

    /// Puts the radio to sleep.
    pub fn sleep(&mut self)
        ensures
            final(self)@ == (SubGhzView { state: RadioState::Sleep, ..old(self)@ }),
    {
        self.state = RadioState::Sleep;
    }

    /// The radio's state.
    pub fn state(&self) -> (s: RadioState)
        ensures
            s == self@.state,
    {
        self.state
    }

    fn validate_frequency(&self, frequency: u32) -> (r: Result<(), RadioError>)
        ensures
            r is Ok <==> frequency_ok(frequency),
            r is Err ==> r == Err::<(), RadioError>(RadioError::InvalidConfig),
    {
        if !(SUBGHZ_MIN_FREQUENCY <= frequency && frequency <= SUBGHZ_MAX_FREQUENCY) {
            return Err(RadioError::InvalidConfig);
        }
        Ok(())
    }
}

impl Default for SubGhzRadio {
    fn default() -> (r: Self)
        ensures
            r@.config == default_subghz_config(),
            r@.state == RadioState::Sleep,
            r@.rx == Seq::<u8>::empty(),
            r@.tx == Seq::<u8>::empty(),
            r@.last_packet_status is None,
            r@.interface == SubGhzInterface::InternalSubGhz,
    {
        Self::new()
    }
}

} // verus!
