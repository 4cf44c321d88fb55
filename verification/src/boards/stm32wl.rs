//! STM32WL boards (RAK3172, Wio-E5): pin maps and power settings.
use vstd::prelude::*;
use crate::power::{Stm32wlPower, DEFAULT_LIGHT_SLEEP_MS};
use crate::sx1262_subghz::{default_subghz_config, SubGhzConfig, SubGhzRadio, SubGhzView};
use crate::sx1262::RadioState;

verus! {

#[derive(Debug, Clone, Copy, PartialEq, Eq, Structural)]
pub enum Stm32wlVariant {
    Rak3172,
    WioE5,
}

#[derive(Debug, Clone, Copy, PartialEq, Eq, Structural)]
pub struct GpioPin {
    pub port: char,
    pub pin: u8,
}

#[derive(Debug, Clone, Copy, PartialEq, Eq, Structural)]
pub struct SpiMapping {
    pub sck: GpioPin,
    pub miso: Option<GpioPin>,
    pub mosi: Option<GpioPin>,
}

#[derive(Debug, Clone, Copy, PartialEq, Eq, Structural)]
pub struct I2cMapping {
    pub scl: GpioPin,
    pub sda: GpioPin,
}

#[derive(Debug, Clone, Copy, PartialEq, Eq)]
pub struct RtcConfig {
    pub clock_source: &'static str,
    pub wakeup_resolution_hz: u16,
}

#[derive(Debug, Clone, Copy, PartialEq, Eq, Structural)]
pub struct BorConfig {
    pub enabled: bool,
    pub threshold_mv: u16,
}

#[derive(Debug, Clone, Copy, PartialEq, Eq)]
pub struct Stm32wlBoardConfig {
    pub variant: Stm32wlVariant,
    pub led: GpioPin,
    pub boot: Option<GpioPin>,
    pub uart_tx: GpioPin,
    pub uart_rx: GpioPin,
    pub debug_spi: Option<SpiMapping>,
    pub i2c: Option<I2cMapping>,
    pub rtc: RtcConfig,
    pub bor: BorConfig,
    pub stop2_supported: bool,
}

pub open spec fn pin(port: char, pin: u8) -> GpioPin {
    GpioPin { port, pin }
}

/// What both boards share: LED on B5, UART on A2/A3, the RTC on the LSE at
/// 1 Hz, brown-out reset at 1.8 V, STOP2 available.
pub open spec fn common_board_config(c: Stm32wlBoardConfig) -> bool {
    &&& c.led == pin('B', 5)
    &&& c.uart_tx == pin('A', 2)
    &&& c.uart_rx == pin('A', 3)
    &&& c.rtc.clock_source@ == "LSE"@
    &&& c.rtc.wakeup_resolution_hz == 1
    &&& c.bor == (BorConfig { enabled: true, threshold_mv: 1800 })
    &&& c.stop2_supported
}

impl Stm32wlBoardConfig {
    /// The RAK3172: BOOT on A14, no debug SPI, I2C SCL B15 / SDA A15.
    pub fn rak3172() -> (c: Self)
        ensures
            c.variant == Stm32wlVariant::Rak3172,
            common_board_config(c),
            c.boot == Some(pin('A', 14)),
            c.debug_spi is None,
            c.i2c == Some(I2cMapping { scl: pin('B', 15), sda: pin('A', 15) }),
    {
        Self {
            variant: Stm32wlVariant::Rak3172,
            led: GpioPin { port: 'B', pin: 5 },
            boot: Some(GpioPin { port: 'A', pin: 14 }),
            uart_tx: GpioPin { port: 'A', pin: 2 },
            uart_rx: GpioPin { port: 'A', pin: 3 },
            debug_spi: None,
            i2c: Some(I2cMapping { scl: GpioPin { port: 'B', pin: 15 }, sda: GpioPin { port: 'A', pin: 15 } }),
            rtc: RtcConfig { clock_source: "LSE", wakeup_resolution_hz: 1 },
            bor: BorConfig { enabled: true, threshold_mv: 1800 },
            stop2_supported: true,
        }
    }

    /// The Wio-E5: BOOT on A15, debug SPI on A5/A6/A7, I2C SCL B13 / SDA B14.
    pub fn wio_e5() -> (c: Self)
        ensures
            c.variant == Stm32wlVariant::WioE5,
            common_board_config(c),
            c.boot == Some(pin('A', 15)),
            c.debug_spi == Some(SpiMapping { sck: pin('A', 5), miso: Some(pin('A', 6)), mosi: Some(pin('A', 7)) }),
            c.i2c == Some(I2cMapping { scl: pin('B', 13), sda: pin('B', 14) }),
    {
        Self {
            variant: Stm32wlVariant::WioE5,
            led: GpioPin { port: 'B', pin: 5 },
            boot: Some(GpioPin { port: 'A', pin: 15 }),
            uart_tx: GpioPin { port: 'A', pin: 2 },
            uart_rx: GpioPin { port: 'A', pin: 3 },
            debug_spi: Some(SpiMapping {
                sck: GpioPin { port: 'A', pin: 5 },
                miso: Some(GpioPin { port: 'A', pin: 6 }),
                mosi: Some(GpioPin { port: 'A', pin: 7 }),
            }),
            i2c: Some(I2cMapping { scl: GpioPin { port: 'B', pin: 13 }, sda: GpioPin { port: 'B', pin: 14 } }),
            rtc: RtcConfig { clock_source: "LSE", wakeup_resolution_hz: 1 },
            bor: BorConfig { enabled: true, threshold_mv: 1800 },
            stop2_supported: true,
        }
    }
}

pub struct Stm32wlBoard {
    pub config: Stm32wlBoardConfig,
    pub radio: SubGhzRadio,
    pub power: Stm32wlPower,
}

impl Stm32wlBoard {
    /// A board with its radio configured with the default sub-GHz settings
    /// (and so in standby) and the default power settings.
    pub fn new(config: Stm32wlBoardConfig) -> (b: Self)
        ensures
            b.config == config,
            b.radio@.config == default_subghz_config(),
            b.radio@.state == RadioState::Standby,
            b.radio@.rx == Seq::<u8>::empty(),
            b.radio@.tx == Seq::<u8>::empty(),
            b.radio@.last_packet_status is None,
            b.power.last_sleep_ms == DEFAULT_LIGHT_SLEEP_MS,
            b.power.bor_threshold_mv == 1800,
            b.power.rtc_wakeup_enabled,
    {
        let mut radio = SubGhzRadio::new();
        let _ = radio.configure(&SubGhzConfig::default());
        Self { config, radio, power: Stm32wlPower::default() }
    }

    /// Sets the brown-out threshold.
    pub fn configure_bor(&mut self, threshold_mv: u16)
        ensures
            final(self).power == (Stm32wlPower { bor_threshold_mv: threshold_mv, ..old(self).power }),
            final(self).config == old(self).config,
            final(self).radio@ == old(self).radio@,
    {
        self.power.bor_threshold_mv = threshold_mv;
    }

    /// Records the length of the next sleep.
    pub fn schedule_wakeup(&mut self, duration_ms: u32)
        ensures
            final(self).power == (Stm32wlPower { last_sleep_ms: duration_ms, ..old(self).power }),
            final(self).config == old(self).config,
            final(self).radio@ == old(self).radio@,
    {
        self.power.last_sleep_ms = duration_ms;
    }
}

} // verus!
