//! Battery state from ADC readings: voltage, charge estimate and alarms.
use vstd::prelude::*;

verus! {

pub const ADC_VREF_MV: u32 = 3300;
pub const ADC_MAX_VALUE: u32 = 4095;
pub const BATTERY_LOW_MV: u32 = 3400;
pub const BATTERY_CRITICAL_MV: u32 = 3200;
pub const BATTERY_CHARGING_MV: u32 = 4200;

pub struct BatteryState {
    pub voltage_mv: u32,
    pub percentage: u8,
    pub is_charging: bool,
    pub is_low: bool,
    pub is_critical: bool,
}

/// The discharge curve: charge rises linearly between these points, from 0%
/// at 3.0 V through 10% at 3.3 V and 10% per 100 mV up to 100% at 4.2 V.
pub open spec fn battery_percent(mv: u32) -> int {
    if mv >= 4200 {
        100
    } else if mv <= 3000 {
        0
    } else if mv >= 4100 {
        90 + (mv - 4100) * 10 / 100
    } else if mv >= 4000 {
        80 + (mv - 4000) * 10 / 100
    } else if mv >= 3900 {
        70 + (mv - 3900) * 10 / 100
    } else if mv >= 3800 {
        60 + (mv - 3800) * 10 / 100
    } else if mv >= 3700 {
        50 + (mv - 3700) * 10 / 100
    } else if mv >= 3600 {
        40 + (mv - 3600) * 10 / 100
    } else if mv >= 3500 {
        30 + (mv - 3500) * 10 / 100
    } else if mv >= 3400 {
        20 + (mv - 3400) * 10 / 100
    } else if mv >= 3300 {
        10 + (mv - 3300) * 10 / 100
    } else {
        (mv - 3000) * 10 / 300
    }
}

/// The battery as seen at `voltage_mv`.
pub open spec fn battery_at(voltage_mv: u32) -> BatteryState {
    BatteryState {
        voltage_mv,
        percentage: battery_percent(voltage_mv) as u8,
        is_charging: voltage_mv > BATTERY_CHARGING_MV,
        is_low: voltage_mv < BATTERY_LOW_MV,
        is_critical: voltage_mv < BATTERY_CRITICAL_MV,
    }
}

/// The ten segments of the curve, from the top: segment `i` runs from
/// point `i + 1` to point `i`.
spec fn curve_mv(i: int) -> u32 {
    if i <= 0 { 4200 } else if i == 10 { 3000 } else { (4200 - 100 * i) as u32 }
}

spec fn curve_pct(i: int) -> u8 {
    if i <= 0 { 100 } else if i >= 10 { 0 } else { (100 - 10 * i) as u8 }
}

fn curve() -> (c: [(u32, u8); 11])
    ensures
        forall|i: int| 0 <= i < 11 ==> (#[trigger] c@[i]).0 == curve_mv(i) && c@[i].1 == curve_pct(i),
{
    let c = [
        (4200, 100),
        (4100, 90),
        (4000, 80),
        (3900, 70),
        (3800, 60),
        (3700, 50),
        (3600, 40),
        (3500, 30),
        (3400, 20),
        (3300, 10),
        (3000, 0),
    ];
    assert forall|i: int| 0 <= i < 11 implies (#[trigger] c@[i]).0 == curve_mv(i) && c@[i].1 == curve_pct(i) by {
        if i == 0 {} else if i == 1 {} else if i == 2 {} else if i == 3 {} else if i == 4 {}
        else if i == 5 {} else if i == 6 {} else if i == 7 {} else if i == 8 {} else if i == 9 {} else {}
    }
    c
}

proof fn lemma_segment(mv: u32, i: int)
    requires
        0 <= i < 10,
        curve_mv(i + 1) <= mv <= curve_mv(i),
        3000 < mv < 4200,
        forall|j: int| 0 <= j < i ==> !(curve_mv(j + 1) <= mv <= #[trigger] curve_mv(j)),
    ensures
        battery_percent(mv) == curve_pct(i + 1) + (mv - curve_mv(i + 1)) * (curve_pct(i) - curve_pct(i + 1))
            / (curve_mv(i) - curve_mv(i + 1)),
{
    if i > 0 {
        assert(!(curve_mv(i) <= mv <= curve_mv(i - 1)));
    }
}

impl BatteryState {
    /// No reading yet.
    pub fn new() -> (b: Self)
        ensures
            b.voltage_mv == 0 && b.percentage == 0,
            !b.is_charging && !b.is_low && !b.is_critical,
    {
        Self { voltage_mv: 0, percentage: 0, is_charging: false, is_low: false, is_critical: false }
    }

    /// The charge estimate for a battery voltage.
    pub fn voltage_to_percentage(mv: u32) -> (p: u8)
        ensures
            p as int == battery_percent(mv),
    {
        let c = curve();
        if mv >= c[0].0 {
            return 100;
        }
        if mv <= c[10].0 {
            return 0;
        }
        for i in 0..10
            invariant
                forall|k: int| 0 <= k < 11 ==> (#[trigger] c@[k]).0 == curve_mv(k) && c@[k].1 == curve_pct(k),
                3000 < mv < 4200,
                forall|j: int| 0 <= j < i ==> !(curve_mv(j + 1) <= mv <= #[trigger] curve_mv(j)),
                mv < curve_mv(i as int),
        {
            let hi = c[i];
            let lo = c[i + 1];
            if mv >= lo.0 && mv <= hi.0 {
                let v_range = hi.0 - lo.0;
                let p_range = hi.1 - lo.1;
                let v_offset = mv - lo.0;
                proof {
                    lemma_segment(mv, i as int);
                }
                assert(v_offset * p_range as u32 <= 3000) by (nonlinear_arith)
                    requires v_offset <= 300, p_range <= 10;
                assert((v_offset * p_range as u32) as int / v_range as int <= 10) by (nonlinear_arith)
                    requires
                        v_offset <= v_range,
                        p_range <= 10,
                        v_range > 0;
                return lo.1 + ((v_offset * p_range as u32) / v_range) as u8;
            }
        }
        50
    }

    /// The battery state at a voltage (after the divider is accounted for):
    /// its charge estimate and alarms.
    pub fn apply_voltage(&mut self, voltage_mv: u32)
        ensures
            *final(self) == battery_at(voltage_mv),
    {
        self.voltage_mv = voltage_mv;
        self.percentage = Self::voltage_to_percentage(voltage_mv);
        self.is_low = voltage_mv < BATTERY_LOW_MV;
        self.is_critical = voltage_mv < BATTERY_CRITICAL_MV;
        self.is_charging = voltage_mv > BATTERY_CHARGING_MV;
    }
}

/// The voltage at the ADC pin for a 12-bit reading against a 3.3 V
/// reference.
pub fn adc_to_pin_mv(adc_value: u32) -> (mv: u32)
    requires
        adc_value * ADC_VREF_MV <= u32::MAX,
    ensures
        mv as int == adc_value * ADC_VREF_MV / (ADC_MAX_VALUE as int),
{
    (adc_value * ADC_VREF_MV) / ADC_MAX_VALUE
}

/// Law: the charge estimate is between 0 and 100 and never falls as the
/// voltage rises.
pub proof fn law_percent_monotonic(mv1: u32, mv2: u32)
    ensures
        0 <= battery_percent(mv1) <= 100,
        mv1 <= mv2 ==> battery_percent(mv1) <= battery_percent(mv2),
{
    lemma_percent_bounds(mv1);
    lemma_percent_bounds(mv2);
    if mv1 <= mv2 {
        lemma_percent_mono(mv1, mv2);
    }
}

proof fn lemma_percent_bounds(mv: u32)
    ensures
        0 <= battery_percent(mv) <= 100,
{
    if 3000 < mv < 4200 {
        let base: int = if mv >= 4100 { 4100 } else if mv >= 4000 { 4000 } else if mv >= 3900 { 3900 }
            else if mv >= 3800 { 3800 } else if mv >= 3700 { 3700 } else if mv >= 3600 { 3600 }
            else if mv >= 3500 { 3500 } else if mv >= 3400 { 3400 } else if mv >= 3300 { 3300 } else { 3000 };
        let d = mv - base;
        if mv >= 3300 {
            assert(0 <= d < 100);
            assert(0 <= d * 10 / 100 <= 9) by (nonlinear_arith)
                requires 0 <= d < 100;
        } else {
            assert(0 <= d < 300);
            assert(0 <= d * 10 / 300 <= 9) by (nonlinear_arith)
                requires 0 <= d < 300;
        }
    }
}

proof fn lemma_div_mono(a: int, b: int, k: int, m: int)
    requires
        0 <= a <= b,
        k >= 0,
        m > 0,
    ensures
        a * k / m <= b * k / m,
{
    assert(a * k <= b * k) by (nonlinear_arith)
        requires 0 <= a <= b, k >= 0;
    vstd::arithmetic::div_mod::lemma_div_is_ordered(a * k, b * k, m);
}

proof fn lemma_percent_mono(mv1: u32, mv2: u32)
    requires
        mv1 <= mv2,
    ensures
        battery_percent(mv1) <= battery_percent(mv2),
{
    lemma_percent_bounds(mv1);
    lemma_percent_bounds(mv2);
    let seg1: int = segment_base(mv1);
    let seg2: int = segment_base(mv2);
    if 3000 < mv1 && mv2 < 4200 {
        if seg1 == seg2 {
            if seg1 == 3000 {
                lemma_div_mono(mv1 - 3000, mv2 - 3000, 10, 300);
            } else {
                lemma_div_mono(mv1 - seg1, mv2 - seg1, 10, 100);
            }
        } else {
            // a lower segment never exceeds the base of the next one up
            lemma_segment_top(mv1);
            lemma_segment_top(mv2);
        }
    }
}

spec fn segment_base(mv: u32) -> int {
    if mv >= 4100 { 4100 } else if mv >= 4000 { 4000 } else if mv >= 3900 { 3900 }
    else if mv >= 3800 { 3800 } else if mv >= 3700 { 3700 } else if mv >= 3600 { 3600 }
    else if mv >= 3500 { 3500 } else if mv >= 3400 { 3400 } else if mv >= 3300 { 3300 } else { 3000 }
}

/// Within a segment the estimate stays below the base value of the next
/// segment up.
proof fn lemma_segment_top(mv: u32)
    requires
        3000 < mv < 4200,
    ensures
        battery_percent(mv) <= (if segment_base(mv) == 3000 { 10 } else { (segment_base(mv) - 3300) / 10 + 20 }),
        battery_percent(mv) >= (if segment_base(mv) == 3000 { 0 } else { (segment_base(mv) - 3300) / 10 + 10 }),
{
    let b = segment_base(mv);
    let d = mv - b;
    if b == 3000 {
        assert(0 <= d * 10 / 300 <= 9) by (nonlinear_arith)
            requires 0 <= d < 300;
    } else {
        assert(0 <= d * 10 / 100 <= 9) by (nonlinear_arith)
            requires 0 <= d < 100;
    }
}

} // verus!
