use lunarcore::at_command::{classify_at_command, uppercase_command, AtCommand};
use lunarcore::battery::BatteryState;
use lunarcore::text::{
    format_battery, format_hex32, format_hex8, format_i16, parse_i8_from_cmd, parse_u32_from_cmd,
    write_u32_to_buf,
};

fn written(val: u32) -> Vec<u8> {
    let mut buf = [0xEEu8; 12];
    let n = write_u32_to_buf(val, &mut buf);
    assert!(buf[n..].iter().all(|&b| b == 0xEE));
    buf[..n].to_vec()
}

#[test]
fn decimal_writing() {
    assert_eq!(written(0), b"0".to_vec());
    assert_eq!(written(7), b"7".to_vec());
    assert_eq!(written(4095), b"4095".to_vec());
    assert_eq!(written(1_000_000), b"1000000".to_vec());
    assert_eq!(written(u32::MAX), b"4294967295".to_vec());
}

#[test]
fn battery_line() {
    let mut b = BatteryState::new();
    b.apply_voltage(3700);
    let line = format_battery(&b);
    assert_eq!(String::from_utf8(line).unwrap(), format!("Battery: 3700mV ({}%)", b.percentage));
    let empty = BatteryState::new();
    assert_eq!(format_battery(&empty), b"Battery: 0mV (0%)".to_vec());
}

#[test]
fn hex_and_signed_text() {
    assert_eq!(format_hex8(0xAB), *b"AB");
    assert_eq!(format_hex8(0x05), *b"05");
    assert_eq!(format_hex32(0x1234ABCD), *b"1234ABCD");
    assert_eq!(format_hex32(0x8000_0001), *b"80000001");
    assert_eq!(format_i16(-42), b"-42".to_vec());
    assert_eq!(format_i16(17), b"17".to_vec());
    assert_eq!(format_i16(0), b"0".to_vec());
    assert_eq!(format_i16(i16::MAX), b"32767".to_vec());
}

#[test]
fn unsigned_arguments() {
    assert_eq!(parse_u32_from_cmd(b"915000000"), Some(915_000_000));
    assert_eq!(parse_u32_from_cmd(b"  868100000 Hz"), Some(868_100_000));
    assert_eq!(parse_u32_from_cmd(b"12x34"), Some(12));
    assert_eq!(parse_u32_from_cmd(b"4294967295"), Some(u32::MAX));
    assert_eq!(parse_u32_from_cmd(b"4294967296"), None);
    assert_eq!(parse_u32_from_cmd(b"abc"), None);
    assert_eq!(parse_u32_from_cmd(b""), None);
}

#[test]
fn signed_arguments() {
    assert_eq!(parse_i8_from_cmd(b"22"), Some(22));
    assert_eq!(parse_i8_from_cmd(b"-9"), Some(-9));
    assert_eq!(parse_i8_from_cmd(b"--5"), Some(-5));
    assert_eq!(parse_i8_from_cmd(b"-128"), Some(-128));
    assert_eq!(parse_i8_from_cmd(b"128"), None);
    assert_eq!(parse_i8_from_cmd(b"200"), None);
    assert_eq!(parse_i8_from_cmd(b"99999999999"), None);
    assert_eq!(parse_i8_from_cmd(b"-"), None);
    assert_eq!(parse_i8_from_cmd(b"x"), None);
}

#[test]
fn command_text_is_upper_case_and_bounded() {
    assert_eq!(uppercase_command(b"at+sf=9"), b"AT+SF=9".to_vec());
    let long = vec![b'a'; 200];
    assert_eq!(uppercase_command(&long), vec![b'A'; 128]);
}

#[test]
fn commands_and_arguments() {
    assert_eq!(classify_at_command(b"AT"), AtCommand::Ping);
    assert_eq!(classify_at_command(b"at"), AtCommand::Ping);
    assert_eq!(classify_at_command(b"AT "), AtCommand::Unknown);
    assert_eq!(classify_at_command(b"ATI"), AtCommand::Version);
    assert_eq!(classify_at_command(b"AT+VERSION"), AtCommand::Version);
    assert_eq!(classify_at_command(b"AT+STATUS"), AtCommand::Status);
    assert_eq!(classify_at_command(b"AT+NODEID"), AtCommand::NodeId);
    assert_eq!(classify_at_command(b"AT+MAC"), AtCommand::Mac);
    assert_eq!(classify_at_command(b"AT+FREQ=868100000"), AtCommand::SetFrequency(868_100_000));
    assert_eq!(classify_at_command(b"AT+FREQ="), AtCommand::FrequencyInvalid);
    assert_eq!(classify_at_command(b"at+sf=9"), AtCommand::SetSpreadingFactor(9));
    assert_eq!(classify_at_command(b"AT+SF=13"), AtCommand::SpreadingFactorOutOfRange);
    assert_eq!(classify_at_command(b"AT+SF=6"), AtCommand::SpreadingFactorOutOfRange);
    assert_eq!(classify_at_command(b"AT+SF=x"), AtCommand::SpreadingFactorInvalid);
    assert_eq!(classify_at_command(b"AT+TXPOWER=22"), AtCommand::SetTxPower(22));
    assert_eq!(classify_at_command(b"AT+TXPOWER=-9"), AtCommand::SetTxPower(-9));
    assert_eq!(classify_at_command(b"AT+TXPOWER=-10"), AtCommand::TxPowerOutOfRange);
    assert_eq!(classify_at_command(b"AT+TXPOWER=abc"), AtCommand::TxPowerInvalid);
    assert_eq!(classify_at_command(b"AT+RESET"), AtCommand::ResetRadio);
    assert_eq!(classify_at_command(b"AT+RX"), AtCommand::StartRx);
    assert_eq!(classify_at_command(b"AT+RSSI"), AtCommand::Rssi);
    assert_eq!(classify_at_command(b"AT+SWITCH"), AtCommand::SwitchProtocol);
    assert_eq!(classify_at_command(b"AT+REPEATER=1"), AtCommand::SetRepeater(true));
    assert_eq!(classify_at_command(b"AT+REPEATER=0"), AtCommand::SetRepeater(false));
    assert_eq!(classify_at_command(b"AT+REPEATER=5"), AtCommand::RepeaterBadValue);
    assert_eq!(classify_at_command(b"AT+REPEATER="), AtCommand::RepeaterMissingValue);
    assert_eq!(classify_at_command(b"AT+REPEATER"), AtCommand::RepeaterStatus);
    assert_eq!(classify_at_command(b"AT+WIFI=1"), AtCommand::SetWifi(true));
    assert_eq!(classify_at_command(b"AT+WIFI=x"), AtCommand::WifiBadValue);
    assert_eq!(classify_at_command(b"AT+WIFI="), AtCommand::WifiMissingValue);
    assert_eq!(classify_at_command(b"AT+WIFI"), AtCommand::WifiStatus);
    assert_eq!(classify_at_command(b"AT+CONTACTS"), AtCommand::Contacts);
    assert_eq!(classify_at_command(b"AT+OTABEGIN"), AtCommand::OtaBegin);
    assert_eq!(classify_at_command(b"AT+OTASTATUS"), AtCommand::OtaStatus);
    assert_eq!(classify_at_command(b"AT+POWER"), AtCommand::Power);
    assert_eq!(classify_at_command(b"AT+FACTORYRESET"), AtCommand::FactoryReset);
    assert_eq!(classify_at_command(b"AT+HELP"), AtCommand::Help);
    assert_eq!(classify_at_command(b"AT?"), AtCommand::Help);
    assert_eq!(classify_at_command(b"HELLO"), AtCommand::Unknown);
}
