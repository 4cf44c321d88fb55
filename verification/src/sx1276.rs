//! The SX1276 LoRa transceiver (137 MHz to 1020 MHz, up to 20 dBm).
use vstd::prelude::*;
use crate::hvec::{bytes256_new, bytes256_view};
use crate::radio::{default_modem, ModemConfig, Packet, RadioError};

verus! {

pub const SX1276_MIN_FREQUENCY_HZ: u32 = 137_000_000;
pub const SX1276_MAX_FREQUENCY_HZ: u32 = 1_020_000_000;
pub const SX1276_MAX_TX_POWER_DBM: i8 = 20;

pub struct Sx1276<SPI, NSS, RESET, DIO0, DIO1> {
    spi: SPI,
    nss: NSS,
    reset: RESET,
    dio0: DIO0,
    dio1: DIO1,
    modem: ModemConfig,
}

impl<SPI, NSS, RESET, DIO0, DIO1> View for Sx1276<SPI, NSS, RESET, DIO0, DIO1> {
    type V = ModemConfig;

    closed spec fn view(&self) -> ModemConfig {
        self.modem
    }
}

pub open spec fn sx1276_frequency_ok(f: u32) -> bool {
    SX1276_MIN_FREQUENCY_HZ <= f <= SX1276_MAX_FREQUENCY_HZ
}

pub open spec fn sx1276_spreading_factor_ok(sf: u8) -> bool {
    7 <= sf <= 12
}

pub open spec fn sx1276_tx_power_ok(p: i8) -> bool {
    2 <= p <= SX1276_MAX_TX_POWER_DBM
}

/// A modem setting the chip accepts: frequency, spreading factor and power
/// all in range.
pub open spec fn sx1276_modem_ok(c: ModemConfig) -> bool {
    sx1276_frequency_ok(c.frequency_hz) && sx1276_spreading_factor_ok(c.spreading_factor)
        && sx1276_tx_power_ok(c.tx_power_dbm)
}

/// The four bytes written over SPI to retune: command 0x06 and the low 24
/// bits of the frequency, big-endian.
pub open spec fn sx1276_frequency_command(f: u32) -> Seq<u8> {
    seq![0x06u8, ((f / 0x10000) % 256) as u8, ((f / 0x100) % 256) as u8, (f % 256) as u8]
}

/// The three bytes below the top byte of a frequency, big-endian.
pub fn frequency_bytes(f: u32) -> (b: [u8; 3])
    ensures
        b[0] == ((f / 0x10000) % 256) as u8,
        b[1] == ((f / 0x100) % 256) as u8,
        b[2] == (f % 256) as u8,
{
    let b0 = ((f >> 16) & 0xFF) as u8;
    let b1 = ((f >> 8) & 0xFF) as u8;
    let b2 = (f & 0xFF) as u8;
    assert(((f >> 16u32) & 0xFFu32) as u8 == ((f / 0x10000) % 256) as u8) by (bit_vector);
    assert(((f >> 8u32) & 0xFFu32) as u8 == ((f / 0x100) % 256) as u8) by (bit_vector);
    assert((f & 0xFFu32) as u8 == (f % 256) as u8) by (bit_vector);
    [b0, b1, b2]
}

impl<SPI, NSS, RESET, DIO0, DIO1> Sx1276<SPI, NSS, RESET, DIO0, DIO1> {
    /// A driver over the given bus and pins, with the default modem settings.
    pub fn new(spi: SPI, nss: NSS, reset: RESET, dio0: DIO0, dio1: DIO1) -> (r: Self)
        ensures
            r@ == default_modem(),
    {
        Self { spi, nss, reset, dio0, dio1, modem: ModemConfig::default() }
    }

    pub fn supports_frequency(freq_hz: u32) -> (r: bool)
        ensures
            r == sx1276_frequency_ok(freq_hz),
    {
        SX1276_MIN_FREQUENCY_HZ <= freq_hz && freq_hz <= SX1276_MAX_FREQUENCY_HZ
    }

    pub fn supports_spreading_factor(sf: u8) -> (r: bool)
        ensures
            r == sx1276_spreading_factor_ok(sf),
    {
        7 <= sf && sf <= 12
    }

    pub fn supports_tx_power(power_dbm: i8) -> (r: bool)
        ensures
            r == sx1276_tx_power_ok(power_dbm),
    {
        2 <= power_dbm && power_dbm <= SX1276_MAX_TX_POWER_DBM
    }

    /// The current modem settings.
    pub fn modem(&self) -> (m: ModemConfig)
        ensures
            m == self@,
    {
        self.modem
    }

    /// The spi part of the driver.
    pub closed spec fn spi_part(&self) -> SPI {
        self.spi
    }

    /// The nss part of the driver.
    pub closed spec fn nss_part(&self) -> NSS {
        self.nss
    }

    /// The reset part of the driver.
    pub closed spec fn reset_part(&self) -> RESET {
        self.reset
    }

    /// The dio0 part of the driver.
    pub closed spec fn dio0_part(&self) -> DIO0 {
        self.dio0
    }

    /// The dio1 part of the driver.
    pub closed spec fn dio1_part(&self) -> DIO1 {
        self.dio1
    }

    /// The bus and pins, for the code that drives them.
    pub fn parts_mut(&mut self) -> ((spi, nss, reset, dio0, dio1): (&mut SPI, &mut NSS, &mut RESET, &mut DIO0, &mut DIO1))
        ensures
            *spi == old(self).spi_part(),
            *nss == old(self).nss_part(),
            *reset == old(self).reset_part(),
            *dio0 == old(self).dio0_part(),
            *dio1 == old(self).dio1_part(),
            final(self).spi_part() == *final(spi),
            final(self).nss_part() == *final(nss),
            final(self).reset_part() == *final(reset),
            final(self).dio0_part() == *final(dio0),
            final(self).dio1_part() == *final(dio1),
            final(self)@ == old(self)@,
    {
        (&mut self.spi, &mut self.nss, &mut self.reset, &mut self.dio0, &mut self.dio1)
    }

    /// The frequency part of `Radio::set_frequency`: when the chip supports
    /// `freq_hz` the modem is retuned and the command to write over SPI is
    /// returned, else nothing changes.
    pub fn retune(&mut self, freq_hz: u32) -> (r: Result<[u8; 4], RadioError>)
        ensures
            !sx1276_frequency_ok(freq_hz) ==> r == Err::<[u8; 4], RadioError>(RadioError::InvalidConfig)
                && final(self)@ == old(self)@,
            sx1276_frequency_ok(freq_hz) ==> (r matches Ok(c) && c@ == sx1276_frequency_command(freq_hz))
                && final(self)@ == (ModemConfig { frequency_hz: freq_hz, ..old(self)@ }),
    {
        if !Self::supports_frequency(freq_hz) {
            return Err(RadioError::InvalidConfig);
        }
        self.modem.frequency_hz = freq_hz;
        let b = frequency_bytes(freq_hz);
        let command = [0x06u8, b[0], b[1], b[2]];
        assert(command@ =~= sx1276_frequency_command(freq_hz));
        Ok(command)
    }

    /// `Radio::set_tx_power`: the power is taken when the chip supports it.
    pub fn set_tx_power(&mut self, power_dbm: i8) -> (r: Result<(), RadioError>)
        ensures
            !sx1276_tx_power_ok(power_dbm) ==> r == Err::<(), RadioError>(RadioError::InvalidConfig)
                && final(self)@ == old(self)@,
            sx1276_tx_power_ok(power_dbm) ==> r is Ok
                && final(self)@ == (ModemConfig { tx_power_dbm: power_dbm, ..old(self)@ }),
    {
        if !Self::supports_tx_power(power_dbm) {
            return Err(RadioError::InvalidConfig);
        }
        self.modem.tx_power_dbm = power_dbm;
        Ok(())
    }

    /// `Radio::send`: at most 255 bytes are accepted.
    pub fn send(&mut self, data: &[u8]) -> (r: Result<(), RadioError>)
        ensures
            r == (if data@.len() > 255 { Err(RadioError::BufferOverflow) } else { Ok(()) }),
            final(self)@ == old(self)@,
    {
        if data.len() > 255 {
            return Err(RadioError::BufferOverflow);
        }
        Ok(())
    }

    /// `Radio::receive`: an empty packet at -120 dBm.
    pub fn receive(&mut self, _timeout_ms: u32) -> (r: Result<Packet, RadioError>)
        ensures
            r matches Ok(p) && bytes256_view(p.payload) == Seq::<u8>::empty() && p.rssi == -120 && p.snr == 0,
            final(self)@ == old(self)@,
    {
        let payload = bytes256_new();
        Ok(Packet { payload, rssi: -120, snr: 0 })
    }

    /// `Radio::set_modem`: the settings are taken when the chip supports
    /// their frequency, spreading factor and power.
    pub fn set_modem(&mut self, config: ModemConfig) -> (r: Result<(), RadioError>)
        ensures
            !sx1276_modem_ok(config) ==> r == Err::<(), RadioError>(RadioError::InvalidConfig)
                && final(self)@ == old(self)@,
            sx1276_modem_ok(config) ==> r is Ok && final(self)@ == config,
    {
        if !Self::supports_frequency(config.frequency_hz) || !Self::supports_spreading_factor(config.spreading_factor)
            || !Self::supports_tx_power(config.tx_power_dbm) {
            return Err(RadioError::InvalidConfig);
        }
        self.modem = config;
        Ok(())
    }
}

} // verus!
