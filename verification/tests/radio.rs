use lunarcore::radio::{ModemConfig, Radio, RadioError};
use lunarcore::rnode_frame::{LinkQuality, RNodeFrame, FLAG_RX, FLAG_TX};
use lunarcore::subghz::SubGhzRadio as PlainRadio;
use lunarcore::sx1262::{RadioConfig, RadioState};
use lunarcore::sx1262_subghz::{SubGhzConfig, SubGhzRadio};
use lunarcore::sx1276::{frequency_bytes, Sx1276};
use lunarcore::sx1280::Sx1280;

#[test]
fn rnode_frame_roundtrip() {
    let lq = LinkQuality { rssi_dbm: -100, snr_db: -7 };
    let f = RNodeFrame::new(FLAG_RX, 2, &[1, 2, 3, 250], lq).unwrap();
    assert_eq!(f.mac, [FLAG_RX ^ 2, 0x9C, 0xF9, 0]);
    let bytes = f.encode();
    assert_eq!(&bytes[..], &[FLAG_RX, 2, 4, 0xFF, 0x9C, 0xF9, FLAG_RX ^ 2, 0x9C, 0xF9, 0, 1, 2, 3, 250][..]);
    let back = RNodeFrame::decode(&bytes).unwrap();
    assert_eq!(back, f);
}

#[test]
fn rnode_frame_rejections() {
    let lq = LinkQuality { rssi_dbm: 0, snr_db: 0 };
    assert!(RNodeFrame::new(FLAG_TX, 0, &[0u8; 257], lq).is_none());
    // A full 256-byte payload is accepted but its length byte wraps, so it
    // does not come back.
    let full = RNodeFrame::new(FLAG_TX, 0, &[1u8; 256], lq).unwrap();
    assert!(RNodeFrame::decode(&full.encode()).is_none());
    assert!(RNodeFrame::decode(&[0u8; 9]).is_none());
    let mut bytes = RNodeFrame::new(FLAG_TX, 1, &[9, 9], lq).unwrap().encode();
    let last = bytes.len() - 1;
    bytes[last] = 8;
    assert!(RNodeFrame::decode(&bytes).is_none());
    assert!(RNodeFrame::decode(&bytes[..bytes.len() - 1]).is_none());
}

#[test]
fn subghz_radio_lifecycle() {
    let mut r = SubGhzRadio::new();
    assert_eq!(r.state(), RadioState::Sleep);
    assert_eq!(r.init(), Ok(()));
    assert_eq!(r.state(), RadioState::Standby);
    assert_eq!(r.set_frequency(100_000_000), Err(RadioError::InvalidConfig));
    assert_eq!(r.set_frequency(868_100_000), Ok(()));
    assert_eq!(r.config.radio.frequency, 868_100_000);
    assert_eq!(r.transmit(&[0u8; 256]), Err(RadioError::BufferOverflow));
    assert_eq!(r.transmit(&[1, 2, 3]), Ok(()));
    assert_eq!(r.state(), RadioState::Standby);
    assert!(r.read_packet().is_none());
    assert_eq!(r.inject_received(&[7, 8], -80, 5), Ok(()));
    assert_eq!(r.state(), RadioState::Rx);
    let (p, status) = r.read_packet().unwrap();
    assert_eq!(&p[..], &[7, 8]);
    assert_eq!((status.rssi_dbm, status.snr_db), (-80, 5));
    assert!(r.read_packet().is_none());
    r.start_rx();
    assert_eq!(r.state(), RadioState::Rx);
    r.sleep();
    assert_eq!(r.state(), RadioState::Sleep);
}

#[test]
fn subghz_configure_checks_frequency() {
    let mut r = SubGhzRadio::new();
    let mut cfg = SubGhzConfig::default();
    cfg.radio = RadioConfig { frequency: 961_000_000, ..RadioConfig::default() };
    assert_eq!(r.configure(&cfg), Err(RadioError::InvalidConfig));
    assert_eq!(r.state(), RadioState::Sleep);
    cfg.radio.frequency = 433_000_000;
    assert_eq!(r.configure(&cfg), Ok(()));
    assert_eq!(r.config.radio.frequency, 433_000_000);
}

#[test]
fn sx1276_limits_and_retune() {
    assert!(Sx1276::<(), (), (), (), ()>::supports_frequency(868_000_000));
    assert!(!Sx1276::<(), (), (), (), ()>::supports_frequency(2_400_000_000));
    assert!(Sx1276::<(), (), (), (), ()>::supports_spreading_factor(12));
    assert!(!Sx1276::<(), (), (), (), ()>::supports_spreading_factor(6));
    assert!(!Sx1276::<(), (), (), (), ()>::supports_tx_power(1));
    let mut r = Sx1276::new((), (), (), (), ());
    assert_eq!(r.modem(), ModemConfig::default());
    assert_eq!(r.retune(868_100_000), Ok([0x06, 0xBE, 0x27, 0xA0]));
    assert_eq!(r.modem().frequency_hz, 868_100_000);
    assert_eq!(r.retune(10), Err(RadioError::InvalidConfig));
    assert_eq!(r.modem().frequency_hz, 868_100_000);
    assert_eq!(frequency_bytes(0x12345678), [0x34, 0x56, 0x78]);
    assert_eq!(r.send(&[0u8; 256]), Err(RadioError::BufferOverflow));
}

#[test]
fn sx1280_limits() {
    assert!(Sx1280::<(), (), (), (), ()>::supports_frequency(2_440_000_000));
    assert!(!Sx1280::<(), (), (), (), ()>::supports_frequency(915_000_000));
    let mut r = Sx1280::new((), (), (), (), ());
    assert_eq!(r.set_tx_power(14), Err(RadioError::InvalidConfig));
    assert_eq!(r.set_tx_power(13), Ok(()));
    assert_eq!(r.modem().tx_power_dbm, 13);
}

#[test]
fn plain_radio_keeps_settings() {
    let mut r = PlainRadio::new();
    assert_eq!(r.set_frequency(433_920_000), Ok(()));
    assert_eq!(r.set_tx_power(20), Ok(()));
    assert_eq!(r.send(&[1, 2]), Ok(()));
}
