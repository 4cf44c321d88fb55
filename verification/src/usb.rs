//! USB roles and descriptors.
use vstd::prelude::*;

verus! {

#[derive(Debug, Clone, Copy, PartialEq, Eq, Structural)]
pub enum UsbMode {
    CdcSerial,
    MassStorage,
    Composite,
}

#[derive(Debug, Clone, Copy, PartialEq, Eq, Structural)]
pub struct UsbDescriptorSet {
    pub vendor_id: u16,
    pub product_id: u16,
    pub max_power_ma: u16,
}

#[derive(Debug, Clone, Copy, PartialEq, Eq, Structural)]
pub struct UsbRuntime {
    pub cdc_enabled: bool,
    pub msc_enabled: bool,
    pub ble_coexistence: bool,
}

/// The USB mode a runtime prefers: composite with both functions, the
/// single function otherwise, and serial when neither is on.
pub open spec fn preferred_mode_of(cdc: bool, msc: bool) -> UsbMode {
    if cdc && msc {
        UsbMode::Composite
    } else if msc && !cdc {
        UsbMode::MassStorage
    } else {
        UsbMode::CdcSerial
    }
}

impl UsbRuntime {
    /// The nRF52 runtime: serial, mass storage and BLE coexistence all on.
    pub fn nrf52_default() -> (r: Self)
        ensures
            r == (UsbRuntime { cdc_enabled: true, msc_enabled: true, ble_coexistence: true }),
    {
        Self { cdc_enabled: true, msc_enabled: true, ble_coexistence: true }
    }

    pub fn preferred_mode(&self) -> (m: UsbMode)
        ensures
            m == preferred_mode_of(self.cdc_enabled, self.msc_enabled),
    {
        match (self.cdc_enabled, self.msc_enabled) {
            (true, true) => UsbMode::Composite,
            (true, false) => UsbMode::CdcSerial,
            (false, true) => UsbMode::MassStorage,
            (false, false) => UsbMode::CdcSerial,
        }
    }
}

/// The USB descriptors: Adafruit's vendor id 0x239A, product 0x00C9, 250 mA.
pub fn default_descriptors() -> (d: UsbDescriptorSet)
    ensures
        d == (UsbDescriptorSet { vendor_id: 0x239A, product_id: 0x00C9, max_power_ma: 250 }),
{
    UsbDescriptorSet { vendor_id: 0x239A, product_id: 0x00C9, max_power_ma: 250 }
}

/// The USB runtime of this (ESP32) build: no native USB functions.
pub fn init_usb_runtime() -> (r: UsbRuntime)
    ensures
        r == (UsbRuntime { cdc_enabled: false, msc_enabled: false, ble_coexistence: false }),
{
    UsbRuntime { cdc_enabled: false, msc_enabled: false, ble_coexistence: false }
}

/// Where the log goes in this (ESP32) build: the UART.
pub fn usb_log_transport() -> (s: &'static str)
    ensures
        s@ == "uart"@,
{
    "uart"
}

} // verus!
