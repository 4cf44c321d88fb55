use lunarcore::power::{is_battery_critical, is_battery_low};

#[test]
fn thresholds_work() {
    assert!(!is_battery_low(3600));
    assert!(is_battery_low(3300));
    assert!(is_battery_critical(3100));
}
