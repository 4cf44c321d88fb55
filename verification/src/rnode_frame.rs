//! RNode radio frames: a ten-byte header (flags, channel, payload length,
//! RSSI, SNR, a four-byte check value) followed by the payload.
use vstd::prelude::*;
use vstd::slice::slice_subrange;
use crate::hvec::{bytes256_as_slice, bytes256_from_slice, bytes256_view, bytes266_from_slice, bytes266_view};

verus! {

pub const FLAG_TX: u8 = 0x03;
pub const FLAG_RX: u8 = 0x04;
pub const FLAG_ACK: u8 = 0x05;
pub const FLAG_MAC: u8 = 0x40;
pub const MAX_RNODE_FRAME_SIZE: usize = 256;

#[derive(Debug, Clone, Copy, PartialEq, Eq, Structural)]
pub struct LinkQuality {
    pub rssi_dbm: i16,
    pub snr_db: i8,
}

#[derive(Debug, PartialEq, Eq)]
pub struct RNodeFrame {
    pub flags: u8,
    pub channel_index: u8,
    pub link_quality: LinkQuality,
    pub mac: [u8; 4],
    pub payload: heapless::Vec<u8, 256>,
}

/// The model of a frame.
pub struct RNodeFrameView {
    pub flags: u8,
    pub channel_index: u8,
    pub link_quality: LinkQuality,
    pub mac: Seq<u8>,
    pub payload: Seq<u8>,
}

impl View for RNodeFrame {
    type V = RNodeFrameView;

    open spec fn view(&self) -> RNodeFrameView {
        RNodeFrameView {
            flags: self.flags,
            channel_index: self.channel_index,
            link_quality: self.link_quality,
            mac: self.mac@,
            payload: bytes256_view(self.payload),
        }
    }
}

/// The sum of the bytes, modulo 256.
pub open spec fn byte_sum(s: Seq<u8>) -> u8
    decreases s.len(),
{
    if s.len() == 0 {
        0
    } else {
        ((byte_sum(s.drop_last()) + s.last()) % 256) as u8
    }
}

/// The high byte of an RSSI in two's complement, big-endian.
pub open spec fn rssi_hi(rssi: i16) -> u8 {
    ((rssi as u16) / 256) as u8
}

/// The low byte of an RSSI in two's complement, big-endian.
pub open spec fn rssi_lo(rssi: i16) -> u8 {
    ((rssi as u16) % 256) as u8
}

/// The check value: flags xor channel, the low RSSI byte, the SNR byte, and
/// the byte sum of the payload.
pub open spec fn frame_mac(flags: u8, channel_index: u8, lq: LinkQuality, payload: Seq<u8>) -> Seq<u8> {
    seq![flags ^ channel_index, rssi_lo(lq.rssi_dbm), lq.snr_db as u8, byte_sum(payload)]
}

/// The frame `new` builds: the given fields with the check value computed.
pub open spec fn new_frame(flags: u8, channel_index: u8, payload: Seq<u8>, lq: LinkQuality) -> RNodeFrameView {
    RNodeFrameView {
        flags,
        channel_index,
        link_quality: lq,
        mac: frame_mac(flags, channel_index, lq, payload),
        payload,
    }
}

/// The wire form of a frame. The length byte is the payload length mod 256.
pub open spec fn frame_bytes(f: RNodeFrameView) -> Seq<u8> {
    seq![
        f.flags,
        f.channel_index,
        f.payload.len() as u8,
        rssi_hi(f.link_quality.rssi_dbm),
        rssi_lo(f.link_quality.rssi_dbm),
        f.link_quality.snr_db as u8,
    ] + f.mac + f.payload
}

/// What `decode` makes of some bytes: none when there is no full header,
/// when the length byte disagrees with the length, or when the check value
/// does not match.
pub open spec fn decode_model(data: Seq<u8>) -> Option<RNodeFrameView> {
    if data.len() < 10 {
        None
    } else if data.len() != data[2] + 10 {
        None
    } else {
        let lq = LinkQuality {
            rssi_dbm: (data[3] as int * 256 + data[4] as int) as u16 as i16,
            snr_db: data[5] as i8,
        };
        let payload = data.skip(10);
        let mac = data.subrange(6, 10);
        if frame_mac(data[0], data[1], lq, payload) == mac {
            Some(RNodeFrameView { flags: data[0], channel_index: data[1], link_quality: lq, mac, payload })
        } else {
            None
        }
    }
}

proof fn lemma_rssi_bytes(r: i16)
    ensures
        ((r as u16) >> 8u16) as u8 == rssi_hi(r),
        (r as u16) as u8 == rssi_lo(r),
        (rssi_hi(r) as int * 256 + rssi_lo(r) as int) as u16 as i16 == r,
{
    let u = r as u16;
    assert((u >> 8u16) as u8 == (u / 256) as u8) by (bit_vector);
    assert(u as u8 == (u % 256) as u8) by (bit_vector);
    assert(((u / 256) as u8) as int * 256 + ((u % 256) as u8) as int == u as int) by (bit_vector);
    assert(u as i16 == r) by (bit_vector)
        requires u == r as u16;
}

proof fn lemma_snr_byte(s: i8)
    ensures
        (s as u8) as i8 == s,
{
    assert((s as u8) as i8 == s) by (bit_vector);
}

/// Law: a frame made by `new` with at most 255 payload bytes decodes from its
/// own wire form back to itself.
pub proof fn law_encode_decode(flags: u8, channel_index: u8, payload: Seq<u8>, lq: LinkQuality)
    requires
        payload.len() <= 255,
    ensures
        decode_model(frame_bytes(new_frame(flags, channel_index, payload, lq)))
            == Some(new_frame(flags, channel_index, payload, lq)),
{
    let f = new_frame(flags, channel_index, payload, lq);
    let d = frame_bytes(f);
    lemma_rssi_bytes(lq.rssi_dbm);
    lemma_snr_byte(lq.snr_db);
    assert(d.skip(10) =~= payload);
    assert(d.subrange(6, 10) =~= f.mac);
    assert(d[2] == payload.len());
}

/// Law: bytes that decode are exactly the wire form of what they decode to.
pub proof fn law_decode_encode(data: Seq<u8>)
    requires
        decode_model(data) is Some,
    ensures
        frame_bytes(decode_model(data)->0) == data,
{
    let f = decode_model(data)->0;
    lemma_header_bytes(data[3], data[4], data[5]);
    assert(frame_bytes(f) =~= data);
}

/// The RSSI and SNR read from header bytes give those bytes back.
proof fn lemma_header_bytes(hi: u8, lo: u8, b5: u8)
    ensures
        rssi_hi((hi as int * 256 + lo as int) as u16 as i16) == hi,
        rssi_lo((hi as int * 256 + lo as int) as u16 as i16) == lo,
        ((b5 as i8) as u8) == b5,
{
    let u = (hi as int * 256 + lo as int) as u16;
    assert(((hi as int * 256 + lo as int) as u16 / 256) as u8 == hi && ((hi as int * 256 + lo as int) as u16 % 256) as u8 == lo) by (bit_vector);
    assert((u as i16) as u16 == u) by (bit_vector);
    assert(((b5 as i8) as u8) == b5) by (bit_vector);
}

/// Law: the check value of a frame is, byte by byte, the flags xor the
/// channel index, the low byte of the RSSI, the SNR byte, and the sum of the
/// payload bytes modulo 256.
pub proof fn law_check_value(flags: u8, channel_index: u8, payload: Seq<u8>, lq: LinkQuality)
    ensures
        new_frame(flags, channel_index, payload, lq).mac.len() == 4,
        new_frame(flags, channel_index, payload, lq).mac[0] == flags ^ channel_index,
        new_frame(flags, channel_index, payload, lq).mac[1] == (lq.rssi_dbm as u16) as u8,
        new_frame(flags, channel_index, payload, lq).mac[2] == lq.snr_db as u8,
        new_frame(flags, channel_index, payload, lq).mac[3] as int == byte_total(payload) % 256,
{
    lemma_rssi_bytes(lq.rssi_dbm);
    lemma_byte_sum_total(payload);
}

/// The sum of the bytes, as an integer.
pub open spec fn byte_total(s: Seq<u8>) -> int
    decreases s.len(),
{
    if s.len() == 0 { 0 } else { byte_total(s.drop_last()) + s.last() }
}

proof fn lemma_byte_sum_total(s: Seq<u8>)
    ensures
        byte_sum(s) as int == byte_total(s) % 256,
    decreases s.len(),
{
    if s.len() > 0 {
        lemma_byte_sum_total(s.drop_last());
        let t = byte_total(s.drop_last());
        vstd::arithmetic::div_mod::lemma_add_mod_noop(t, s.last() as int, 256);
    }
}

/// Law: `decode` accepts exactly the bytes with a full header whose length
/// byte matches the payload and whose check value is right: byte 6 is byte 0
/// xor byte 1, byte 7 repeats byte 4 (the low RSSI byte), byte 8 repeats
/// byte 5 (the SNR), and byte 9 is the payload's byte sum modulo 256.
pub proof fn law_decode_accepts(data: Seq<u8>)
    ensures
        decode_model(data) is Some <==> {
            &&& data.len() >= 10
            &&& data.len() == data[2] + 10
            &&& data[6] == data[0] ^ data[1]
            &&& data[7] == data[4]
            &&& data[8] == data[5]
            &&& data[9] as int == byte_total(data.skip(10)) % 256
        },
{
    if data.len() >= 10 && data.len() == data[2] + 10 {
        lemma_header_bytes(data[3], data[4], data[5]);
        lemma_byte_sum_total(data.skip(10));
        let lq = LinkQuality {
            rssi_dbm: (data[3] as int * 256 + data[4] as int) as u16 as i16,
            snr_db: data[5] as i8,
        };
        let m = frame_mac(data[0], data[1], lq, data.skip(10));
        let mac = data.subrange(6, 10);
        if m == mac {
            assert(m[0] == mac[0] && m[1] == mac[1] && m[2] == mac[2] && m[3] == mac[3]);
        } else if data[6] == data[0] ^ data[1] && data[7] == data[4] && data[8] == data[5]
            && data[9] as int == byte_total(data.skip(10)) % 256 {
            assert(m =~= mac);
        }
    }
}

fn compute_mac(flags: u8, channel_index: u8, lq: LinkQuality, payload: &[u8]) -> (mac: [u8; 4])
    ensures
        mac@ == frame_mac(flags, channel_index, lq, payload@),
{
    proof {
        lemma_rssi_bytes(lq.rssi_dbm);
    }
    let mut mac = [0u8; 4];
    mac[0] = flags ^ channel_index;
    mac[1] = #[verifier::truncate] ((lq.rssi_dbm as u16) as u8);
    mac[2] = #[verifier::truncate] (lq.snr_db as u8);
    let mut acc = 0u8;
    for i in 0..payload.len()
        invariant
            acc == byte_sum(payload@.take(i as int)),
    {
        assert(payload@.take(i + 1).drop_last() =~= payload@.take(i as int));
        acc = acc.wrapping_add(payload[i]);
    }
    assert(payload@.take(payload@.len() as int) =~= payload@);
    mac[3] = acc;
    assert(mac@ =~= frame_mac(flags, channel_index, lq, payload@));
    mac
}

impl RNodeFrame {
    /// A frame carrying `payload` with its check value computed; none when
    /// the payload is longer than `MAX_RNODE_FRAME_SIZE`.
    pub fn new(flags: u8, channel_index: u8, payload: &[u8], link_quality: LinkQuality) -> (r: Option<Self>)
        ensures
            r is Some <==> payload@.len() <= MAX_RNODE_FRAME_SIZE,
            r matches Some(f) ==> f@ == new_frame(flags, channel_index, payload@, link_quality),
    {
        if payload.len() > MAX_RNODE_FRAME_SIZE {
            return None;
        }
        let data = match bytes256_from_slice(payload) {
            Some(v) => v,
            None => return None,
        };
        let mac = compute_mac(flags, channel_index, link_quality, payload);
        Some(Self { flags, channel_index, link_quality, mac, payload: data })
    }

    /// The wire form of this frame.
    pub fn encode(&self) -> (out: heapless::Vec<u8, 266>)
        ensures
            bytes266_view(out) == frame_bytes(self@),
    {
        let payload = bytes256_as_slice(&self.payload);
        let mut out: Vec<u8> = Vec::new();
        out.push(self.flags);
        out.push(self.channel_index);
        out.push(#[verifier::truncate] (payload.len() as u8));
        proof {
            lemma_rssi_bytes(self.link_quality.rssi_dbm);
        }
        let r = self.link_quality.rssi_dbm as u16;
        out.push(#[verifier::truncate] ((r >> 8) as u8));
        out.push(#[verifier::truncate] (r as u8));
        out.push(#[verifier::truncate] (self.link_quality.snr_db as u8));
        out.push(self.mac[0]);
        out.push(self.mac[1]);
        out.push(self.mac[2]);
        out.push(self.mac[3]);
        let ghost head = out@;
        for i in 0..payload.len()
            invariant
                out@ == head + payload@.take(i as int),
                head.len() == 10,
                payload@.len() <= 256,
        {
            out.push(payload[i]);
            assert(payload@.take(i + 1) =~= payload@.take(i as int).push(payload@[i as int]));
        }
        assert(payload@.take(payload@.len() as int) =~= payload@);
        assert(out@ =~= frame_bytes(self@));
        bytes266_from_slice(out.as_slice()).unwrap()
    }

    /// Reads a frame from its wire form; none when there is no full header,
    /// the length byte disagrees with the data, or the check value does not
    /// match.
    pub fn decode(data: &[u8]) -> (r: Option<Self>)
        ensures
            match r {
                Some(f) => decode_model(data@) == Some(f@),
                None => decode_model(data@) is None,
            },
    {
        if data.len() < 10 {
            return None;
        }
        let payload_len = data[2] as usize;
        if data.len() != payload_len + 10 || payload_len > MAX_RNODE_FRAME_SIZE {
            return None;
        }
        let body = slice_subrange(data, 10, data.len());
        let payload = match bytes256_from_slice(body) {
            Some(v) => v,
            None => return None,
        };
        let link_quality = LinkQuality {
            rssi_dbm: #[verifier::truncate] ((((data[3] as u16) << 8) | data[4] as u16) as i16),
            snr_db: #[verifier::truncate] (data[5] as i8),
        };
        let hi = data[3];
        let lo = data[4];
        assert((((hi as u16) << 8u16) | lo as u16) == (hi as int * 256 + lo as int) as u16) by (bit_vector);
        let mac = [data[6], data[7], data[8], data[9]];
        let expected = compute_mac(data[0], data[1], link_quality, body);
        assert(body@ =~= data@.skip(10));
        assert(mac@ =~= data@.subrange(6, 10));
        if expected[0] == mac[0] && expected[1] == mac[1] && expected[2] == mac[2] && expected[3] == mac[3] {
            assert(expected@ =~= mac@);
            Some(Self { flags: data[0], channel_index: data[1], link_quality, mac, payload })
        } else {
            assert(expected@ != mac@ ==> frame_mac(data@[0], data@[1], link_quality, data@.skip(10)) != data@.subrange(6, 10));
            assert(expected@ != mac@) by {
                if expected[0] != mac[0] { assert(expected@[0] != mac@[0]); }
                else if expected[1] != mac[1] { assert(expected@[1] != mac@[1]); }
                else if expected[2] != mac[2] { assert(expected@[2] != mac@[2]); }
                else { assert(expected@[3] != mac@[3]); }
            }
            None
        }
    }
}

} // verus!
