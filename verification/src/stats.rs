//! Packet and airtime counters of the node.
use vstd::prelude::*;

verus! {

#[derive(Debug, Clone, Copy, PartialEq, Eq, Structural)]
pub struct Stats {
    pub tx_packets: u32,
    pub rx_packets: u32,
    pub tx_errors: u32,
    pub rx_errors: u32,
    pub protocol_switches: u32,
    pub tx_bytes: u64,
    pub rx_bytes: u64,
    pub uptime_seconds: u32,
    pub last_rssi: i16,
    pub last_snr: i8,
    pub airtime_ms: u64,
}

pub open spec fn zero_stats() -> Stats {
    Stats {
        tx_packets: 0,
        rx_packets: 0,
        tx_errors: 0,
        rx_errors: 0,
        protocol_switches: 0,
        tx_bytes: 0,
        rx_bytes: 0,
        uptime_seconds: 0,
        last_rssi: 0,
        last_snr: 0,
        airtime_ms: 0,
    }
}

impl Stats {
    /// All counters at zero.
    pub fn new() -> (s: Self)
        ensures
            s == zero_stats(),
    {
        Stats {
            tx_packets: 0,
            rx_packets: 0,
            tx_errors: 0,
            rx_errors: 0,
            protocol_switches: 0,
            tx_bytes: 0,
            rx_bytes: 0,
            uptime_seconds: 0,
            last_rssi: 0,
            last_snr: 0,
            airtime_ms: 0,
        }
    }

    /// Counts a received packet of `len` bytes and keeps its signal readings.
    pub fn record_rx(&mut self, len: usize, rssi: i16, snr: i8)
        requires
            old(self).rx_packets < u32::MAX,
            old(self).rx_bytes + len <= u64::MAX,
        ensures
            *final(self) == (Stats {
                rx_packets: (old(self).rx_packets + 1) as u32,
                rx_bytes: (old(self).rx_bytes + len) as u64,
                last_rssi: rssi,
                last_snr: snr,
                ..*old(self)
            }),
    {
        self.rx_packets = self.rx_packets + 1;
        self.rx_bytes = self.rx_bytes + len as u64;
        self.last_rssi = rssi;
        self.last_snr = snr;
    }

    /// Counts a transmitted packet of `len` bytes and its time on air.
    pub fn record_tx(&mut self, len: usize, airtime_ms: u32)
        requires
            old(self).tx_packets < u32::MAX,
            old(self).tx_bytes + len <= u64::MAX,
            old(self).airtime_ms + airtime_ms <= u64::MAX,
        ensures
            *final(self) == (Stats {
                tx_packets: (old(self).tx_packets + 1) as u32,
                tx_bytes: (old(self).tx_bytes + len) as u64,
                airtime_ms: (old(self).airtime_ms + airtime_ms) as u64,
                ..*old(self)
            }),
    {
        self.tx_packets = self.tx_packets + 1;
        self.tx_bytes = self.tx_bytes + len as u64;
        self.airtime_ms = self.airtime_ms + airtime_ms as u64;
    }
}

} // verus!
