//! Power-management settings and battery thresholds.
use vstd::prelude::*;

verus! {

pub const MIN_DEEP_SLEEP_US: u64 = 1_000;
pub const MAX_DEEP_SLEEP_US: u64 = 86_400_000_000;
pub const DEFAULT_LIGHT_SLEEP_MS: u32 = 100;
pub const LOW_BATTERY_THRESHOLD_MV: u32 = 3400;
pub const CRITICAL_BATTERY_THRESHOLD_MV: u32 = 3200;

#[derive(Debug, Clone, Copy, Default)]
pub struct Esp32Power;

#[derive(Debug, Clone, Copy, Default)]
pub struct Nrf52Power;

#[derive(Debug, Clone, Copy)]
pub struct Stm32wlPower {
    pub last_sleep_ms: u32,
    pub bor_threshold_mv: u16,
    pub rtc_wakeup_enabled: bool,
}

impl Default for Stm32wlPower {
    /// Light sleeps of `DEFAULT_LIGHT_SLEEP_MS`, brown-out reset at 1.8 V,
    /// RTC wake-up on.
    fn default() -> (p: Self)
        ensures
            p.last_sleep_ms == DEFAULT_LIGHT_SLEEP_MS,
            p.bor_threshold_mv == 1800,
            p.rtc_wakeup_enabled,
    {
        Self { last_sleep_ms: DEFAULT_LIGHT_SLEEP_MS, bor_threshold_mv: 1800, rtc_wakeup_enabled: true }
    }
}

/// The timer wake-up of a light sleep, in microseconds: at least one
/// millisecond.
pub fn light_sleep_us(duration_ms: u32) -> (us: u64)
    ensures
        us == (if duration_ms == 0 { 1 } else { duration_ms as int }) * 1000,
{
    let ms: u32 = if duration_ms < 1 { 1 } else { duration_ms };
    ms as u64 * 1000
}

/// Whether a battery at `voltage_mv` is low.
pub fn is_battery_low(voltage_mv: u32) -> (r: bool)
    ensures
        r == (voltage_mv < LOW_BATTERY_THRESHOLD_MV),
{
    voltage_mv < LOW_BATTERY_THRESHOLD_MV
}

/// Whether a battery at `voltage_mv` is critically low.
pub fn is_battery_critical(voltage_mv: u32) -> (r: bool)
    ensures
        r == (voltage_mv < CRITICAL_BATTERY_THRESHOLD_MV),
{
    voltage_mv < CRITICAL_BATTERY_THRESHOLD_MV
}

/// Law: a critically low battery is also low.
pub proof fn law_critical_is_low(voltage_mv: u32)
    ensures
        voltage_mv < CRITICAL_BATTERY_THRESHOLD_MV ==> voltage_mv < LOW_BATTERY_THRESHOLD_MV,
{
}

} // verus!
