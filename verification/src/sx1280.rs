//! The SX1280 2.4 GHz transceiver (LoRa, FLRC and GFSK, up to 13 dBm).
use vstd::prelude::*;
use crate::hvec::{bytes256_new, bytes256_view};
use crate::radio::{default_modem, ModemConfig, Packet, RadioError, RadioModulation};
use crate::sx1276::frequency_bytes;

verus! {

pub const SX1280_MIN_FREQUENCY_HZ: u32 = 2_400_000_000;
pub const SX1280_MAX_FREQUENCY_HZ: u32 = 2_500_000_000;
pub const SX1280_MAX_TX_POWER_DBM: i8 = 13;

pub struct Sx1280<SPI, NSS, RESET, BUSY, DIO1> {
    spi: SPI,
    nss: NSS,
    reset: RESET,
    busy: BUSY,
    dio1: DIO1,
    modem: ModemConfig,
}

impl<SPI, NSS, RESET, BUSY, DIO1> View for Sx1280<SPI, NSS, RESET, BUSY, DIO1> {
    type V = ModemConfig;

    closed spec fn view(&self) -> ModemConfig {
        self.modem
    }
}

pub open spec fn sx1280_frequency_ok(f: u32) -> bool {
    SX1280_MIN_FREQUENCY_HZ <= f <= SX1280_MAX_FREQUENCY_HZ
}

pub open spec fn sx1280_tx_power_ok(p: i8) -> bool {
    -18 <= p <= SX1280_MAX_TX_POWER_DBM
}

/// A modem setting the chip accepts: its frequency in range (every
/// modulation is supported).
pub open spec fn sx1280_modem_ok(c: ModemConfig) -> bool {
    sx1280_frequency_ok(c.frequency_hz)
}

/// The default settings of an SX1280: the default modem settings with FLRC
/// at the bottom of the band.
pub open spec fn sx1280_default_modem() -> ModemConfig {
    ModemConfig { modulation: RadioModulation::Flrc, frequency_hz: SX1280_MIN_FREQUENCY_HZ, ..default_modem() }
}

/// The four bytes written over SPI to retune: command 0x86 and the low 24
/// bits of the frequency, big-endian.
pub open spec fn sx1280_frequency_command(f: u32) -> Seq<u8> {
    seq![0x86u8, ((f / 0x10000) % 256) as u8, ((f / 0x100) % 256) as u8, (f % 256) as u8]
}

impl<SPI, NSS, RESET, BUSY, DIO1> Sx1280<SPI, NSS, RESET, BUSY, DIO1> {
    /// A driver over the given bus and pins, set for FLRC at 2.4 GHz.
    pub fn new(spi: SPI, nss: NSS, reset: RESET, busy: BUSY, dio1: DIO1) -> (r: Self)
        ensures
            r@ == sx1280_default_modem(),
    {
        Self {
            spi,
            nss,
            reset,
            busy,
            dio1,
            modem: ModemConfig {
                modulation: RadioModulation::Flrc,
                frequency_hz: SX1280_MIN_FREQUENCY_HZ,
                ..ModemConfig::default()
            },
        }
    }

    pub fn supports_frequency(freq_hz: u32) -> (r: bool)
        ensures
            r == sx1280_frequency_ok(freq_hz),
    {
        SX1280_MIN_FREQUENCY_HZ <= freq_hz && freq_hz <= SX1280_MAX_FREQUENCY_HZ
    }

    /// Every modulation the driver knows is supported.
    pub fn supports_modulation(modulation: RadioModulation) -> (r: bool)
        ensures
            r,
    {
        match modulation {
            RadioModulation::LoRa | RadioModulation::Flrc | RadioModulation::Gfsk => true,
        }
    }

    fn supports_tx_power(power_dbm: i8) -> (r: bool)
        ensures
            r == sx1280_tx_power_ok(power_dbm),
    {
        -18 <= power_dbm && power_dbm <= SX1280_MAX_TX_POWER_DBM
    }

    /// The current modem settings.
    pub fn modem(&self) -> (m: ModemConfig)
        ensures
            m == self@,
    {
        self.modem
    }

    /// The spi part of the driver.
    pub closed spec fn spi_part(&self) -> SPI {
        self.spi
    }

    /// The nss part of the driver.
    pub closed spec fn nss_part(&self) -> NSS {
        self.nss
    }

    /// The reset part of the driver.
    pub closed spec fn reset_part(&self) -> RESET {
        self.reset
    }

    /// The busy part of the driver.
    pub closed spec fn busy_part(&self) -> BUSY {
        self.busy
    }

    /// The dio1 part of the driver.
    pub closed spec fn dio1_part(&self) -> DIO1 {
        self.dio1
    }

    /// The bus and pins, for the code that drives them.
    pub fn parts_mut(&mut self) -> ((spi, nss, reset, busy, dio1): (&mut SPI, &mut NSS, &mut RESET, &mut BUSY, &mut DIO1))
        ensures
            *spi == old(self).spi_part(),
            *nss == old(self).nss_part(),
            *reset == old(self).reset_part(),
            *busy == old(self).busy_part(),
            *dio1 == old(self).dio1_part(),
            final(self).spi_part() == *final(spi),
            final(self).nss_part() == *final(nss),
            final(self).reset_part() == *final(reset),
            final(self).busy_part() == *final(busy),
            final(self).dio1_part() == *final(dio1),
            final(self)@ == old(self)@,
    {
        (&mut self.spi, &mut self.nss, &mut self.reset, &mut self.busy, &mut self.dio1)
    }

    /// The frequency part of `Radio::set_frequency`: when the chip supports
    /// `freq_hz` the modem is retuned and the command to write over SPI is
    /// returned, else nothing changes.
    pub fn retune(&mut self, freq_hz: u32) -> (r: Result<[u8; 4], RadioError>)
        ensures
            !sx1280_frequency_ok(freq_hz) ==> r == Err::<[u8; 4], RadioError>(RadioError::InvalidConfig)
                && final(self)@ == old(self)@,
            sx1280_frequency_ok(freq_hz) ==> (r matches Ok(c) && c@ == sx1280_frequency_command(freq_hz))
                && final(self)@ == (ModemConfig { frequency_hz: freq_hz, ..old(self)@ }),
    {
        if !Self::supports_frequency(freq_hz) {
            return Err(RadioError::InvalidConfig);
        }
        self.modem.frequency_hz = freq_hz;
        let b = frequency_bytes(freq_hz);
        let command = [0x86u8, b[0], b[1], b[2]];
        assert(command@ =~= sx1280_frequency_command(freq_hz));
        Ok(command)
    }

    /// `Radio::set_tx_power`: the power is taken when the chip supports it.
    pub fn set_tx_power(&mut self, power_dbm: i8) -> (r: Result<(), RadioError>)
        ensures
            !sx1280_tx_power_ok(power_dbm) ==> r == Err::<(), RadioError>(RadioError::InvalidConfig)
                && final(self)@ == old(self)@,
            sx1280_tx_power_ok(power_dbm) ==> r is Ok
                && final(self)@ == (ModemConfig { tx_power_dbm: power_dbm, ..old(self)@ }),
    {
        if !Self::supports_tx_power(power_dbm) {
            return Err(RadioError::InvalidConfig);
        }
        self.modem.tx_power_dbm = power_dbm;
        Ok(())
    }

    /// `Radio::send`: at most 255 bytes are accepted.
    pub fn send(&mut self, data: &[u8]) -> (r: Result<(), RadioError>)
        ensures
            r == (if data@.len() > 255 { Err(RadioError::BufferOverflow) } else { Ok(()) }),
            final(self)@ == old(self)@,
    {
        if data.len() > 255 {
            return Err(RadioError::BufferOverflow);
        }
        Ok(())
    }

    /// `Radio::receive`: an empty packet at -110 dBm.
    pub fn receive(&mut self, _timeout_ms: u32) -> (r: Result<Packet, RadioError>)
        ensures
            r matches Ok(p) && bytes256_view(p.payload) == Seq::<u8>::empty() && p.rssi == -110 && p.snr == 0,
            final(self)@ == old(self)@,
    {
        let payload = bytes256_new();
        Ok(Packet { payload, rssi: -110, snr: 0 })
    }

    /// `Radio::set_modem`: the settings are taken when the chip supports
    /// their frequency and modulation.
    pub fn set_modem(&mut self, config: ModemConfig) -> (r: Result<(), RadioError>)
        ensures
            !sx1280_modem_ok(config) ==> r == Err::<(), RadioError>(RadioError::InvalidConfig)
                && final(self)@ == old(self)@,
            sx1280_modem_ok(config) ==> r is Ok && final(self)@ == config,
    {
        if !Self::supports_frequency(config.frequency_hz) || !Self::supports_modulation(config.modulation) {
            return Err(RadioError::InvalidConfig);
        }
        self.modem = config;
        Ok(())
    }
}

} // verus!
