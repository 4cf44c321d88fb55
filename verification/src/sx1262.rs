//! The SX1262 settings and states that the sub-GHz radio works with.
use vstd::prelude::*;

pub use crate::radio::RadioError;

verus! {

/// SX1262 modem settings in register terms: `bandwidth` is the LoRa
/// bandwidth code (0x04 = 125 kHz), `coding_rate` the code 1..4 for 4/5..4/8.
#[derive(Debug, Clone, Copy, PartialEq, Eq, Structural)]
pub struct RadioConfig {
    pub frequency: u32,
    pub spreading_factor: u8,
    pub bandwidth: u8,
    pub coding_rate: u8,
    pub tx_power: i8,
    pub sync_word: u8,
    pub preamble_length: u16,
    pub crc_enabled: bool,
    pub implicit_header: bool,
    pub ldro: bool,
}

#[derive(Debug, Clone, Copy, PartialEq, Eq, Structural)]
pub enum RadioState {
    Sleep,
    Standby,
    Tx,
    Rx,
}

/// The default SX1262 settings, the register form of
/// `radio::default_modem`: 915 MHz, SF9, 125 kHz, CR 4/5, 14 dBm, sync word
/// 0x12, 8 preamble symbols, CRC on, explicit header, no LDRO.
pub open spec fn default_radio_config() -> RadioConfig {
    RadioConfig {
        frequency: 915_000_000,
        spreading_factor: 9,
        bandwidth: 0x04,
        coding_rate: 1,
        tx_power: 14,
        sync_word: 0x12,
        preamble_length: 8,
        crc_enabled: true,
        implicit_header: false,
        ldro: false,
    }
}

impl Default for RadioConfig {
    fn default() -> (c: Self)
        ensures
            c == default_radio_config(),
    {
        Self {
            frequency: 915_000_000,
            spreading_factor: 9,
            bandwidth: 0x04,
            coding_rate: 1,
            tx_power: 14,
            sync_word: 0x12,
            preamble_length: 8,
            crc_enabled: true,
            implicit_header: false,
            ldro: false,
        }
    }
}

} // verus!
