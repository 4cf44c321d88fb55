//! A sub-GHz radio that keeps its modem settings and accepts everything.
use vstd::prelude::*;
use crate::hvec::{bytes256_new, bytes256_view};
use crate::radio::{default_modem, ModemConfig, Packet, Radio, RadioError};

verus! {

pub struct SubGhzRadio {
    modem: ModemConfig,
}

impl View for SubGhzRadio {
    type V = ModemConfig;

    closed spec fn view(&self) -> ModemConfig {
        self.modem
    }
}

impl SubGhzRadio {
    /// A radio with the default modem settings.
    pub fn new() -> (r: Self)
        ensures
            r@ == default_modem(),
    {
        Self { modem: ModemConfig::default() }
    }
}

impl Default for SubGhzRadio {
    fn default() -> (r: Self)
        ensures
            r@ == default_modem(),
    {
        Self::new()
    }
}

impl Radio for SubGhzRadio {
    fn init(&mut self) -> (r: Result<(), RadioError>)
        ensures
            r is Ok,
            final(self)@ == old(self)@,
    {
        Ok(())
    }

    fn set_frequency(&mut self, freq_hz: u32) -> (r: Result<(), RadioError>)
        ensures
            r is Ok,
            final(self)@ == (ModemConfig { frequency_hz: freq_hz, ..old(self)@ }),
    {
        self.modem.frequency_hz = freq_hz;
        Ok(())
    }

    fn set_tx_power(&mut self, power_dbm: i8) -> (r: Result<(), RadioError>)
        ensures
            r is Ok,
            final(self)@ == (ModemConfig { tx_power_dbm: power_dbm, ..old(self)@ }),
    {
        self.modem.tx_power_dbm = power_dbm;
        Ok(())
    }

    fn send(&mut self, data: &[u8]) -> (r: Result<(), RadioError>)
        ensures
            r == (if data@.len() > 255 { Err(RadioError::BufferOverflow) } else { Ok(()) }),
            final(self)@ == old(self)@,
    {
        if data.len() > 255 {
            return Err(RadioError::BufferOverflow);
        }
        Ok(())
    }

    fn receive(&mut self, _timeout_ms: u32) -> (r: Result<Packet, RadioError>)
        ensures
            r matches Ok(p) && bytes256_view(p.payload) == Seq::<u8>::empty() && p.rssi == -100 && p.snr == 0,
            final(self)@ == old(self)@,
    {
        Ok(Packet { payload: bytes256_new(), rssi: -100, snr: 0 })
    }

    fn set_modem(&mut self, config: ModemConfig) -> (r: Result<(), RadioError>)
        ensures
            r is Ok,
            final(self)@ == config,
    {
        self.modem = config;
        Ok(())
    }
}

} // verus!
