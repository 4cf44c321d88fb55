//! The nRF52840 boards (RAK4631 and relatives).
use vstd::prelude::*;
use super::{Board, BoardModel, I2cConfig, Peripheral, SpiConfig};

verus! {

pub struct Nrf52Board;

pub const GPIO_SPI_SCK: u32 = 14;
pub const GPIO_SPI_MOSI: u32 = 13;
pub const GPIO_SPI_MISO: u32 = 15;
pub const GPIO_I2C_SCL: u32 = 27;
pub const GPIO_I2C_SDA: u32 = 26;
pub const GPIO_LORA_CS: u32 = 5;
pub const GPIO_LORA_RST: u32 = 6;
pub const GPIO_LORA_BUSY: u32 = 7;
pub const GPIO_LORA_DIO1: u32 = 8;
pub const GPIO_BATTERY_ADC: u32 = 4;
pub const GPIO_LED: u32 = 19;
pub const GPIO_USB_DM: u32 = 24;
pub const GPIO_USB_DP: u32 = 25;

/// The GPIO wired to each peripheral on these boards.
pub open spec fn nrf52_gpio(p: Peripheral) -> u32 {
    match p {
        Peripheral::LoRaCs => GPIO_LORA_CS,
        Peripheral::LoRaReset => GPIO_LORA_RST,
        Peripheral::LoRaBusy => GPIO_LORA_BUSY,
        Peripheral::LoRaDio1 => GPIO_LORA_DIO1,
        Peripheral::SpiMosi => GPIO_SPI_MOSI,
        Peripheral::SpiMiso => GPIO_SPI_MISO,
        Peripheral::SpiSck => GPIO_SPI_SCK,
        Peripheral::I2cSda => GPIO_I2C_SDA,
        Peripheral::I2cScl => GPIO_I2C_SCL,
        Peripheral::BatteryAdc => GPIO_BATTERY_ADC,
        Peripheral::Led => GPIO_LED,
        Peripheral::UsbDm => GPIO_USB_DM,
        Peripheral::UsbDp => GPIO_USB_DP,
    }
}

impl Nrf52Board {
    /// The I2C (TWIM) bus: SCL 27, SDA 26, 400 kHz.
    pub fn twim_config() -> (c: I2cConfig)
        ensures
            c == (I2cConfig { scl: GPIO_I2C_SCL, sda: GPIO_I2C_SDA, frequency_hz: 400_000 }),
    {
        I2cConfig { scl: GPIO_I2C_SCL, sda: GPIO_I2C_SDA, frequency_hz: 400_000 }
    }

    /// The SPI (SPIM) bus: SCK 14, MOSI 13, MISO 15, 8 MHz.
    pub fn spim_config() -> (c: SpiConfig)
        ensures
            c == (SpiConfig { sck: GPIO_SPI_SCK, mosi: GPIO_SPI_MOSI, miso: GPIO_SPI_MISO, frequency_hz: 8_000_000 }),
    {
        SpiConfig { sck: GPIO_SPI_SCK, mosi: GPIO_SPI_MOSI, miso: GPIO_SPI_MISO, frequency_hz: 8_000_000 }
    }

    /// The SAADC channel that reads the battery.
    pub fn saadc_channel() -> (c: u32)
        ensures
            c == GPIO_BATTERY_ADC,
    {
        GPIO_BATTERY_ADC
    }

    pub fn native_usb_enabled() -> (r: bool)
        ensures
            r,
    {
        true
    }

    /// The boards of this family, in detection order.
    pub fn board_candidates() -> (r: &'static [BoardModel])
        ensures
            r@ == seq![
                BoardModel::Rak4631,
                BoardModel::Rak11310,
                BoardModel::StationG1,
                BoardModel::StationG2,
                BoardModel::NanoG1,
                BoardModel::NanoG1Explorer,
                BoardModel::NanoG2Ultra,
                BoardModel::Nrf52840Pca10059,
            ],
    {
        let r: &'static [BoardModel] = &[
            BoardModel::Rak4631,
            BoardModel::Rak11310,
            BoardModel::StationG1,
            BoardModel::StationG2,
            BoardModel::NanoG1,
            BoardModel::NanoG1Explorer,
            BoardModel::NanoG2Ultra,
            BoardModel::Nrf52840Pca10059,
        ];
        r
    }
}

impl Board for Nrf52Board {
    /// On an nRF52 build the board is taken to be a RAK4631.
    fn detect() -> (r: Option<BoardModel>)
        ensures
            r == Some(BoardModel::Rak4631),
    {
        Some(BoardModel::Rak4631)
    }

    fn gpio_for(peripheral: Peripheral) -> (g: u32)
        ensures
            g == nrf52_gpio(peripheral),
    {
        match peripheral {
            Peripheral::LoRaCs => GPIO_LORA_CS,
            Peripheral::LoRaReset => GPIO_LORA_RST,
            Peripheral::LoRaBusy => GPIO_LORA_BUSY,
            Peripheral::LoRaDio1 => GPIO_LORA_DIO1,
            Peripheral::SpiMosi => GPIO_SPI_MOSI,
            Peripheral::SpiMiso => GPIO_SPI_MISO,
            Peripheral::SpiSck => GPIO_SPI_SCK,
            Peripheral::I2cSda => GPIO_I2C_SDA,
            Peripheral::I2cScl => GPIO_I2C_SCL,
            Peripheral::BatteryAdc => GPIO_BATTERY_ADC,
            Peripheral::Led => GPIO_LED,
            Peripheral::UsbDm => GPIO_USB_DM,
            Peripheral::UsbDp => GPIO_USB_DP,
        }
    }

    fn spi_config() -> (c: SpiConfig)
        ensures
            c == (SpiConfig { sck: GPIO_SPI_SCK, mosi: GPIO_SPI_MOSI, miso: GPIO_SPI_MISO, frequency_hz: 8_000_000 }),
    {
        Self::spim_config()
    }

    fn i2c_config() -> (c: I2cConfig)
        ensures
            c == (I2cConfig { scl: GPIO_I2C_SCL, sda: GPIO_I2C_SDA, frequency_hz: 400_000 }),
    {
        Self::twim_config()
    }

    fn battery_adc_pin() -> (p: u32)
        ensures
            p == GPIO_BATTERY_ADC,
    {
        Self::saadc_channel()
    }

    fn led_pin() -> (p: Option<u32>)
        ensures
            p == Some(GPIO_LED),
    {
        Some(GPIO_LED)
    }

    fn oled_present() -> (r: bool)
        ensures
            r,
    {
        true
    }
}

/// Law: the SPI and I2C pins of the bus settings are the pins the board
/// assigns to those peripherals.
pub proof fn law_bus_pins_agree()
    ensures
        nrf52_gpio(Peripheral::SpiSck) == GPIO_SPI_SCK,
        nrf52_gpio(Peripheral::SpiMosi) == GPIO_SPI_MOSI,
        nrf52_gpio(Peripheral::SpiMiso) == GPIO_SPI_MISO,
        nrf52_gpio(Peripheral::I2cScl) == GPIO_I2C_SCL,
        nrf52_gpio(Peripheral::I2cSda) == GPIO_I2C_SDA,
        nrf52_gpio(Peripheral::BatteryAdc) == GPIO_BATTERY_ADC,
{
}

} // verus!
