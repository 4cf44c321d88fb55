//! Meshtastic admin messages: classifying a request, the session passkey
//! that guards state-changing requests, and the replies to read requests.
use vstd::prelude::*;
use vstd::slice::{slice_subrange, slice_to_vec};
use vstd::string::StringSliceAdditionalSpecFns;
use crate::crypto::aes_ccm::constant_time_compare;
use crate::hvec::{bytes256_from_slice, bytes256_view};
use crate::meshtastic::MAX_MESSAGE_SIZE;
use crate::rng::fill_random;
use crate::text::{lemma_shift_nibble, pow16};

verus! {

pub const SESSION_PASSKEY_SIZE: usize = 8;

pub const PASSKEY_LIFETIME_MS: u32 = 300_000;

pub const PASSKEY_REGEN_MS: u32 = 150_000;

pub const ADMIN_GET_CHANNEL_REQUEST: u32 = 1;

pub const ADMIN_GET_CHANNEL_RESPONSE: u32 = 2;

pub const ADMIN_GET_OWNER_REQUEST: u32 = 3;

pub const ADMIN_GET_OWNER_RESPONSE: u32 = 4;

pub const ADMIN_GET_DEVICE_METADATA_REQUEST: u32 = 12;

pub const ADMIN_GET_DEVICE_METADATA_RESPONSE: u32 = 13;

pub const ADMIN_SET_CHANNEL: u32 = 33;

pub const ADMIN_SESSION_PASSKEY: u32 = 101;

pub const WIRE_VARINT: u8 = 0;

pub const WIRE_LEN: u8 = 2;

// ---------------------------------------------------------------------------
// Session passkey
// ---------------------------------------------------------------------------

pub struct AdminSession {
    passkey: [u8; SESSION_PASSKEY_SIZE],
    generated_at_ms: u32,
}

/// The model of a session: its passkey and when it was made (0: never).
pub struct SessionModel {
    pub passkey: [u8; SESSION_PASSKEY_SIZE],
    pub generated_at_ms: u32,
}

impl View for AdminSession {
    type V = SessionModel;

    closed spec fn view(&self) -> SessionModel {
        SessionModel { passkey: self.passkey, generated_at_ms: self.generated_at_ms }
    }
}

/// Milliseconds from `then` to `now`, 0 when `now` is earlier.
pub open spec fn age_ms(now: u32, then: u32) -> int {
    if now >= then { now - then } else { 0 }
}

/// A passkey is made when none was ever made or the current one is
/// `PASSKEY_REGEN_MS` old.
pub open spec fn regen_due(s: SessionModel, now_ms: u32) -> bool {
    s.generated_at_ms == 0 || age_ms(now_ms, s.generated_at_ms) >= PASSKEY_REGEN_MS
}

/// The session after `ensure_fresh` at `now_ms`, when a new passkey would be
/// `fresh`.
pub open spec fn refreshed(s: SessionModel, now_ms: u32, fresh: [u8; SESSION_PASSKEY_SIZE]) -> SessionModel {
    if regen_due(s, now_ms) {
        SessionModel { passkey: fresh, generated_at_ms: now_ms }
    } else {
        s
    }
}

/// A provided passkey is accepted when it is the session's passkey, one was
/// made, and it is at most `PASSKEY_LIFETIME_MS` old.
pub open spec fn passkey_accepted(s: SessionModel, provided: Seq<u8>, now_ms: u32) -> bool {
    &&& provided.len() == SESSION_PASSKEY_SIZE
    &&& s.generated_at_ms != 0
    &&& age_ms(now_ms, s.generated_at_ms) <= PASSKEY_LIFETIME_MS
    &&& provided == s.passkey@
}

impl AdminSession {
    /// A session with no passkey made yet.
    pub fn new() -> (s: Self)
        ensures
            s@.generated_at_ms == 0,
            s@.passkey@ == Seq::new(8, |i: int| 0u8),
    {
        let s = Self { passkey: [0u8; SESSION_PASSKEY_SIZE], generated_at_ms: 0 };
        assert(s.passkey@ =~= Seq::new(8, |i: int| 0u8));
        s
    }

    fn regen_due_now(&self, now_ms: u32) -> (r: bool)
        ensures
            r == regen_due(self@, now_ms),
    {
        self.generated_at_ms == 0 || now_ms.saturating_sub(self.generated_at_ms) >= PASSKEY_REGEN_MS
    }

    /// `ensure_fresh`, with `fresh` as the passkey it would make.
    pub fn ensure_fresh_with(&mut self, now_ms: u32, fresh: [u8; SESSION_PASSKEY_SIZE]) -> (r: &[u8; SESSION_PASSKEY_SIZE])
        ensures
            final(self)@ == refreshed(old(self)@, now_ms, fresh),
            *r == final(self)@.passkey,
    {
        if self.regen_due_now(now_ms) {
            self.passkey = fresh;
            self.generated_at_ms = now_ms;
        }
        &self.passkey
    }

    /// The current passkey, made anew from random bytes when none was made or
    /// the current one is due for regeneration; then stamped `now_ms`.
    pub fn ensure_fresh(&mut self, now_ms: u32) -> (r: &[u8; SESSION_PASSKEY_SIZE])
        ensures
            regen_due(old(self)@, now_ms) ==> final(self)@.generated_at_ms == now_ms,
            !regen_due(old(self)@, now_ms) ==> final(self)@ == old(self)@,
            *r == final(self)@.passkey,
    {
        if self.regen_due_now(now_ms) {
            let mut fresh = [0u8; SESSION_PASSKEY_SIZE];
            fill_random(&mut fresh);
            self.ensure_fresh_with(now_ms, fresh)
        } else {
            &self.passkey
        }
    }

    /// Whether `provided` is the live passkey of this session.
    pub fn validate(&self, provided: &[u8], now_ms: u32) -> (r: bool)
        ensures
            r == passkey_accepted(self@, provided@, now_ms),
    {
        if provided.len() != SESSION_PASSKEY_SIZE {
            return false;
        }
        if self.generated_at_ms == 0 || now_ms.saturating_sub(self.generated_at_ms) > PASSKEY_LIFETIME_MS {
            return false;
        }
        constant_time_compare(provided, &self.passkey)
    }
}

impl Default for AdminSession {
    fn default() -> (s: Self)
        ensures
            s@.generated_at_ms == 0,
            s@.passkey@ == Seq::new(8, |i: int| 0u8),
    {
        Self::new()
    }
}

/// Law: a passkey just made at a nonzero time is accepted at that time.
pub proof fn law_fresh_passkey_accepted(s: SessionModel, now_ms: u32, fresh: [u8; SESSION_PASSKEY_SIZE])
    requires
        now_ms != 0,
        regen_due(s, now_ms),
    ensures
        passkey_accepted(refreshed(s, now_ms, fresh), fresh@, now_ms),
{
}

/// Law: a passkey made at a nonzero time is handed out unchanged until it is
/// `PASSKEY_REGEN_MS` old.
pub proof fn law_passkey_stable(s: SessionModel, now_ms: u32, later_ms: u32, fresh: [u8; SESSION_PASSKEY_SIZE], fresh2: [u8; SESSION_PASSKEY_SIZE])
    requires
        now_ms != 0,
        regen_due(s, now_ms),
        now_ms <= later_ms,
        later_ms - now_ms < PASSKEY_REGEN_MS,
    ensures
        refreshed(refreshed(s, now_ms, fresh), later_ms, fresh2) == refreshed(s, now_ms, fresh),
{
}

/// Law: no passkey is accepted once it is more than `PASSKEY_LIFETIME_MS`
/// old, nor before one was made.
pub proof fn law_passkey_expires(s: SessionModel, provided: Seq<u8>, now_ms: u32)
    requires
        s.generated_at_ms == 0 || age_ms(now_ms, s.generated_at_ms) > PASSKEY_LIFETIME_MS,
    ensures
        !passkey_accepted(s, provided, now_ms),
{
}

// ---------------------------------------------------------------------------
// Request classification
// ---------------------------------------------------------------------------

#[derive(Debug, Clone, Copy, PartialEq, Eq, Structural)]
pub enum AdminKind {
    GetOwner,
    GetDeviceMetadata,
    GetChannel,
    SetChannel,
    StateChanging,
    ReadOnly,
    Unknown,
}

/// A classified admin request. `channel` holds the `set_channel` submessage
/// in its encoded form when it decodes as a channel, and `channel_index`
/// then holds that channel's number.
pub struct ParsedAdmin {
    pub kind: AdminKind,
    pub session_passkey: Option<[u8; SESSION_PASSKEY_SIZE]>,
    pub channel_index: u8,
    pub channel: Option<Vec<u8>>,
}

/// The model of a classified request.
pub struct ParsedAdminView {
    pub kind: AdminKind,
    pub session_passkey: Option<Seq<u8>>,
    pub channel_index: u8,
    pub channel: Option<Seq<u8>>,
}

pub open spec fn opt_key_view(k: Option<[u8; SESSION_PASSKEY_SIZE]>) -> Option<Seq<u8>> {
    match k {
        Some(k) => Some(k@),
        None => None,
    }
}

pub open spec fn opt_bytes_view(c: Option<Vec<u8>>) -> Option<Seq<u8>> {
    match c {
        Some(c) => Some(c@),
        None => None,
    }
}

impl View for ParsedAdmin {
    type V = ParsedAdminView;

    open spec fn view(&self) -> ParsedAdminView {
        ParsedAdminView {
            kind: self.kind,
            session_passkey: opt_key_view(self.session_passkey),
            channel_index: self.channel_index,
            channel: opt_bytes_view(self.channel),
        }
    }
}

/// Decoding a base-128 varint from byte `j` on, with the bits gathered so
/// far in `acc`: the value and the number of bytes consumed. It stops after
/// a byte without the continuation bit, after ten bytes, or at the end.
pub open spec fn varint_acc(data: Seq<u8>, j: nat, acc: u64) -> (u64, nat)
    decreases data.len() - j,
{
    if j >= data.len() {
        (acc, j)
    } else {
        let b = data[j as int];
        let acc2 = acc | (((b & 0x7Fu8) as u64) << ((7 * j) as u64));
        if b & 0x80u8 == 0 {
            (acc2, j + 1)
        } else if 7 * (j + 1) >= 64 {
            (acc2, j + 1)
        } else {
            varint_acc(data, j + 1, acc2)
        }
    }
}

/// The varint at the front of `data` and the bytes it takes.
pub open spec fn varint_decode(data: Seq<u8>) -> (u64, nat) {
    varint_acc(data, 0, 0)
}

/// What the field walk of a request has gathered so far.
pub struct AdminScan {
    pub kind: AdminKind,
    pub session_passkey: Option<Seq<u8>>,
    pub channel_index: u8,
    pub channel: Option<Seq<u8>>,
    pub state_changing: bool,
    pub overflow: bool,
}

pub open spec fn scan_start() -> AdminScan {
    AdminScan {
        kind: AdminKind::Unknown,
        session_passkey: None,
        channel_index: 0,
        channel: None,
        state_changing: false,
        overflow: false,
    }
}

/// A varint field: a nonzero get-channel request (channel numbers on the
/// wire are one-based), get-owner or get-metadata request, or one of the
/// state-changing fields.
pub open spec fn apply_varint_field(st: AdminScan, field: u32, val: u64) -> AdminScan {
    if field == ADMIN_GET_CHANNEL_REQUEST && val != 0 {
        AdminScan { kind: AdminKind::GetChannel, channel_index: (val - 1) as u8, ..st }
    } else if field == ADMIN_GET_OWNER_REQUEST && val != 0 {
        AdminScan { kind: AdminKind::GetOwner, ..st }
    } else if field == ADMIN_GET_DEVICE_METADATA_REQUEST && val != 0 {
        AdminScan { kind: AdminKind::GetDeviceMetadata, ..st }
    } else if field == 97 || field == 98 || field == 99 || field == 100 || field == 102 {
        AdminScan { state_changing: true, ..st }
    } else {
        st
    }
}

/// The walk over the fields of an encoded channel from byte `idx`, with
/// the channel number read so far: the channel number (field 1, a varint,
/// kept to its low byte; 0 when absent) when every field is whole, none
/// when a field runs past the end or has a wire type a message cannot hold.
pub open spec fn channel_scan(b: Seq<u8>, idx: nat, index: u8) -> Option<u8>
    decreases b.len() - idx,
{
    if idx >= b.len() {
        Some(index)
    } else {
        let (tag, c) = varint_decode(b.skip(idx as int));
        if c == 0 || idx + c > b.len() {
            None
        } else {
            let i1 = idx + c;
            let field = (tag as u32) >> 3u32;
            let wire = (tag as u8) & 7u8;
            if wire == 0 {
                let (val, c2) = varint_decode(b.skip(i1 as int));
                if c2 == 0 || i1 + c2 > b.len() {
                    None
                } else {
                    channel_scan(b, i1 + c2, if field == 1 { val as u8 } else { index })
                }
            } else if wire == 1 {
                if i1 + 8 > b.len() { None } else { channel_scan(b, i1 + 8, index) }
            } else if wire == 2 {
                let (len, c2) = varint_decode(b.skip(i1 as int));
                if c2 == 0 || i1 + c2 + len > b.len() {
                    None
                } else {
                    channel_scan(b, (i1 + c2 + len) as nat, index)
                }
            } else if wire == 5 {
                if i1 + 4 > b.len() { None } else { channel_scan(b, i1 + 4, index) }
            } else {
                None
            }
        }
    }
}

/// The channel number of an encoded channel, none when it does not decode.
pub open spec fn channel_number(b: Seq<u8>) -> Option<u8> {
    channel_scan(b, 0, 0)
}

/// A length-delimited field: an 8-byte session passkey or a set-channel
/// message, which is kept with its channel number when it decodes and
/// dropped when it does not.
pub open spec fn apply_len_field(st: AdminScan, field: u32, bytes: Seq<u8>) -> AdminScan {
    if field == ADMIN_SESSION_PASSKEY && bytes.len() == SESSION_PASSKEY_SIZE {
        AdminScan { session_passkey: Some(bytes), ..st }
    } else if field == ADMIN_SET_CHANNEL {
        AdminScan {
            kind: AdminKind::SetChannel,
            state_changing: true,
            channel: if channel_number(bytes) is Some { Some(bytes) } else { None },
            channel_index: match channel_number(bytes) {
                Some(ix) => ix,
                None => st.channel_index,
            },
            ..st
        }
    } else {
        st
    }
}

/// A 32-bit field: fields 95 and 102 change state.
pub open spec fn apply_fixed32_field(st: AdminScan, field: u32) -> AdminScan {
    if field == 95 || field == 102 {
        AdminScan { state_changing: true, ..st }
    } else {
        st
    }
}

/// The walk over the fields of `p` from byte `idx`. It stops at the end, at
/// a field that runs past the end, and at an unknown wire type; `overflow`
/// marks a length field whose end does not fit in a `usize`.
pub open spec fn admin_scan(p: Seq<u8>, idx: nat, st: AdminScan) -> AdminScan
    decreases p.len() - idx,
{
    if idx >= p.len() {
        st
    } else {
        let (tag, c) = varint_decode(p.skip(idx as int));
        if c == 0 || idx + c > p.len() {
            st
        } else {
            let i1 = idx + c;
            let field = (tag as u32) >> 3u32;
            let wire = (tag as u8) & 7u8;
            if wire == 0 {
                let (val, c2) = varint_decode(p.skip(i1 as int));
                if i1 + c2 > p.len() {
                    st
                } else {
                    admin_scan(p, i1 + c2, apply_varint_field(st, field, val))
                }
            } else if wire == 2 {
                if i1 >= p.len() {
                    st
                } else {
                    let (len, c2) = varint_decode(p.skip(i1 as int));
                    let i2 = i1 + c2;
                    let l = len as usize;
                    if i2 + l > usize::MAX {
                        AdminScan { overflow: true, ..st }
                    } else if i2 + l > p.len() {
                        st
                    } else {
                        admin_scan(p, (i2 + l) as nat, apply_len_field(st, field, p.subrange(i2 as int, i2 + l)))
                    }
                }
            } else if wire == 5 {
                if i1 + 4 > p.len() {
                    st
                } else {
                    admin_scan(p, i1 + 4, apply_fixed32_field(st, field))
                }
            } else {
                st
            }
        }
    }
}

/// A request whose walk meets a length field that would run past the end of
/// the address space.
pub open spec fn admin_payload_overflows(p: Seq<u8>) -> bool {
    admin_scan(p, 0, scan_start()).overflow
}

/// The classification of a request: a state-changing field makes it
/// state-changing unless it sets a channel; with nothing recognised it is
/// read-only.
pub open spec fn admin_parse_model(p: Seq<u8>) -> ParsedAdminView {
    let st = admin_scan(p, 0, scan_start());
    ParsedAdminView {
        kind: if st.state_changing && st.kind != AdminKind::SetChannel {
            AdminKind::StateChanging
        } else if st.kind == AdminKind::Unknown {
            AdminKind::ReadOnly
        } else {
            st.kind
        },
        session_passkey: st.session_passkey,
        channel_index: st.channel_index,
        channel: st.channel,
    }
}

proof fn lemma_varint_acc_len(data: Seq<u8>, j: nat, acc: u64)
    requires
        j <= data.len(),
    ensures
        j <= varint_acc(data, j, acc).1 <= data.len(),
        j < data.len() ==> j < varint_acc(data, j, acc).1,
        j <= 9 ==> varint_acc(data, j, acc).1 <= 10,
    decreases data.len() - j,
{
    if j < data.len() {
        let b = data[j as int];
        let acc2 = acc | (((b & 0x7Fu8) as u64) << ((7 * j) as u64));
        if b & 0x80u8 != 0 && 7 * (j + 1) < 64 {
            lemma_varint_acc_len(data, j + 1, acc2);
        }
    }
}

fn decode_varint(data: &[u8]) -> (r: (u64, usize))
    ensures
        r.0 == varint_decode(data@).0,
        r.1 as nat == varint_decode(data@).1,
        r.1 <= data@.len(),
        r.1 <= 10,
        data@.len() > 0 ==> r.1 > 0,
{
    proof {
        lemma_varint_acc_len(data@, 0, 0);
    }
    let mut result: u64 = 0;
    let mut shift: u64 = 0;
    let mut consumed: usize = 0;
    while consumed < data.len()
        invariant
            consumed <= data@.len(),
            consumed <= 9,
            shift == 7 * consumed,
            varint_decode(data@) == varint_acc(data@, consumed as nat, result),
        decreases data@.len() - consumed,
    {
        let byte = data[consumed];
        consumed = consumed + 1;
        result = result | (((byte & 0x7F) as u64) << shift);
        if byte & 0x80 == 0 {
            return (result, consumed);
        }
        shift = shift + 7;
        if shift >= 64 {
            return (result, consumed);
        }
    }
    (result, consumed)
}

/// The channel number of an encoded channel, none when it does not decode.
pub fn decode_channel_number(b: &[u8]) -> (r: Option<u8>)
    ensures
        r == channel_number(b@),
{
    let ghost p = b@;
    let mut index: u8 = 0;
    let mut idx: usize = 0;
    while idx < b.len()
        invariant
            p == b@,
            idx <= p.len(),
            channel_number(p) == channel_scan(p, idx as nat, index),
        decreases p.len() - idx,
    {
        let (tag, c) = decode_varint(slice_subrange(b, idx, b.len()));
        assert(p.subrange(idx as int, p.len() as int) =~= p.skip(idx as int));
        if c == 0 {
            return None;
        }
        idx = idx + c;
        let field = (#[verifier::truncate] (tag as u32)) >> 3;
        let wire = (#[verifier::truncate] (tag as u8)) & 0x07;
        if wire == 0 {
            let (val, c2) = decode_varint(slice_subrange(b, idx, b.len()));
            assert(p.subrange(idx as int, p.len() as int) =~= p.skip(idx as int));
            if c2 == 0 {
                return None;
            }
            idx = idx + c2;
            if field == 1 {
                index = #[verifier::truncate] (val as u8);
            }
        } else if wire == 1 {
            if b.len() - idx < 8 {
                return None;
            }
            idx = idx + 8;
        } else if wire == 2 {
            let (len, c2) = decode_varint(slice_subrange(b, idx, b.len()));
            assert(p.subrange(idx as int, p.len() as int) =~= p.skip(idx as int));
            if c2 == 0 {
                return None;
            }
            idx = idx + c2;
            if len > (b.len() - idx) as u64 {
                return None;
            }
            idx = idx + len as usize;
        } else if wire == 5 {
            if b.len() - idx < 4 {
                return None;
            }
            idx = idx + 4;
        } else {
            return None;
        }
    }
    Some(index)
}

proof fn lemma_varint_tag_parts(f: u32, t: u64)
    requires
        f < 0x2000_0000,
        t == f as u64 * 8,
    ensures
        (t as u32) >> 3u32 == f,
        (t as u8) & 7u8 == 0,
{
    assert((t as u32) >> 3u32 == f && (t as u8) & 7u8 == 0) by (bit_vector)
        requires f < 0x2000_0000, t == f as u64 * 8;
}

proof fn lemma_varint_bytes_nonempty(v: u64)
    ensures
        varint_bytes(v).len() >= 1,
{
}

/// Law: a request made of one varint field `f` with a nonzero value is a
/// get-channel request for field 1 (channel numbers on the wire counting
/// from 1), a get-owner request for field 3, a get-device-metadata request
/// for field 12, state-changing for fields 97 to 100 and 102, and read-only
/// for any other field.
pub proof fn law_single_varint_request(f: u32, v: u64)
    requires
        f < 0x2000_0000,
        v != 0,
    ensures
        ({
            let p = varint_bytes((f * 8) as u64) + varint_bytes(v);
            &&& admin_parse_model(p).kind == (if f == 1 {
                AdminKind::GetChannel
            } else if f == 3 {
                AdminKind::GetOwner
            } else if f == 12 {
                AdminKind::GetDeviceMetadata
            } else if f == 97 || f == 98 || f == 99 || f == 100 || f == 102 {
                AdminKind::StateChanging
            } else {
                AdminKind::ReadOnly
            })
            &&& f == 1 ==> admin_parse_model(p).channel_index == (v - 1) as u8
            &&& admin_parse_model(p).session_passkey is None
            &&& admin_parse_model(p).channel is None
            &&& !admin_payload_overflows(p)
        }),
{
    let t = (f * 8) as u64;
    let p = varint_bytes(t) + varint_bytes(v);
    lemma_varint_tag_parts(f, t);
    lemma_varint_bytes_nonempty(t);
    lemma_varint_bytes_nonempty(v);
    law_varint_roundtrip(t, varint_bytes(v));
    assert(p.skip(0) =~= p);
    let c1 = varint_bytes(t).len();
    law_varint_roundtrip(v, Seq::<u8>::empty());
    assert(p.skip(c1 as int) =~= varint_bytes(v) + Seq::<u8>::empty());
    let st = apply_varint_field(scan_start(), f, v);
    assert(admin_scan(p, p.len(), st) == st);
    assert(admin_scan(p, 0, scan_start()) == st);
}

/// Whether a request can be classified: false when a length field of its
/// walk would end past the end of the address space, where the walk cannot
/// go on.
pub fn admin_payload_fits(payload: &[u8]) -> (ok: bool)
    ensures
        ok == !admin_payload_overflows(payload@),
{
    let ghost p = payload@;
    let ghost mut st = scan_start();
    let mut idx: usize = 0;
    while idx < payload.len()
        invariant_except_break
            admin_scan(p, 0, scan_start()) == admin_scan(p, idx as nat, st),
        invariant
            p == payload@,
            idx <= p.len(),
            !st.overflow,
        ensures
            admin_scan(p, 0, scan_start()) == st,
        decreases p.len() - idx,
    {
        let (tag, consumed) = decode_varint(slice_subrange(payload, idx, payload.len()));
        assert(p.subrange(idx as int, p.len() as int) =~= p.skip(idx as int));
        if consumed == 0 {
            break;
        }
        idx = idx + consumed;
        let field = (#[verifier::truncate] (tag as u32)) >> 3;
        let wire = (#[verifier::truncate] (tag as u8)) & 0x07;
        if wire == 0 {
            let (val, consumed) = decode_varint(slice_subrange(payload, idx, payload.len()));
            assert(p.subrange(idx as int, p.len() as int) =~= p.skip(idx as int));
            idx = idx + consumed;
            proof {
                st = apply_varint_field(st, field, val);
            }
        } else if wire == 2 {
            if idx >= payload.len() {
                break;
            }
            let (len, consumed) = decode_varint(slice_subrange(payload, idx, payload.len()));
            assert(p.subrange(idx as int, p.len() as int) =~= p.skip(idx as int));
            idx = idx + consumed;
            let len = #[verifier::truncate] (len as usize);
            let end = match idx.checked_add(len) {
                Some(e) => e,
                None => {
                    return false;
                },
            };
            if end > payload.len() {
                break;
            }
            proof {
                st = apply_len_field(st, field, p.subrange(idx as int, end as int));
            }
            idx = end;
        } else if wire == 5 {
            if payload.len() - idx < 4 {
                break;
            }
            idx = idx + 4;
            proof {
                st = apply_fixed32_field(st, field);
            }
        } else {
            break;
        }
    }
    true
}

/// The classification of a request, or none when it cannot be classified
/// (`admin_payload_fits` is false).
pub fn parse_admin_request_checked(payload: &[u8]) -> (r: Option<ParsedAdmin>)
    ensures
        admin_payload_overflows(payload@) ==> r is None,
        !admin_payload_overflows(payload@) ==> (r matches Some(parsed) && parsed@ == admin_parse_model(payload@)),
{
    if admin_payload_fits(payload) {
        Some(parse_admin_request(payload))
    } else {
        None
    }
}

/// Classifies an admin request by walking its protobuf fields.
pub fn parse_admin_request(payload: &[u8]) -> (r: ParsedAdmin)
    requires
        !admin_payload_overflows(payload@),
    ensures
        r@ == admin_parse_model(payload@),
{
    let mut kind = AdminKind::Unknown;
    let mut session_passkey: Option<[u8; SESSION_PASSKEY_SIZE]> = None;
    let mut channel_index = 0u8;
    let mut channel: Option<Vec<u8>> = None;
    let mut state_changing = false;
    let ghost p = payload@;

    let mut idx: usize = 0;
    while idx < payload.len()
        invariant_except_break
            admin_scan(p, 0, scan_start()) == admin_scan(p, idx as nat, AdminScan {
                kind,
                session_passkey: opt_key_view(session_passkey),
                channel_index,
                channel: opt_bytes_view(channel),
                state_changing,
                overflow: false,
            }),
        invariant
            p == payload@,
            idx <= p.len(),
            !admin_scan(p, 0, scan_start()).overflow,
        ensures
            admin_scan(p, 0, scan_start()) == (AdminScan {
                kind,
                session_passkey: opt_key_view(session_passkey),
                channel_index,
                channel: opt_bytes_view(channel),
                state_changing,
                overflow: false,
            }),
        decreases p.len() - idx,
    {
        let ghost st = AdminScan {
            kind,
            session_passkey: opt_key_view(session_passkey),
            channel_index,
            channel: opt_bytes_view(channel),
            state_changing,
            overflow: false,
        };
        let (tag, consumed) = decode_varint(slice_subrange(payload, idx, payload.len()));
        assert(p.subrange(idx as int, p.len() as int) =~= p.skip(idx as int));
        if consumed == 0 {
            break;
        }
        idx = idx + consumed;
        let field = (#[verifier::truncate] (tag as u32)) >> 3;
        let wire = (#[verifier::truncate] (tag as u8)) & 0x07;

        if wire == 0 {
            let (val, consumed) = decode_varint(slice_subrange(payload, idx, payload.len()));
            assert(p.subrange(idx as int, p.len() as int) =~= p.skip(idx as int));
            idx = idx + consumed;
            if field == ADMIN_GET_CHANNEL_REQUEST && val != 0 {
                kind = AdminKind::GetChannel;
                channel_index = #[verifier::truncate] (val.saturating_sub(1) as u8);
            } else if field == ADMIN_GET_OWNER_REQUEST && val != 0 {
                kind = AdminKind::GetOwner;
            } else if field == ADMIN_GET_DEVICE_METADATA_REQUEST && val != 0 {
                kind = AdminKind::GetDeviceMetadata;
            } else if field == 97 || field == 98 || field == 99 || field == 100 || field == 102 {
                state_changing = true;
            }
        } else if wire == 2 {
            if idx >= payload.len() {
                break;
            }
            let (len, consumed) = decode_varint(slice_subrange(payload, idx, payload.len()));
            assert(p.subrange(idx as int, p.len() as int) =~= p.skip(idx as int));
            idx = idx + consumed;
            let len = #[verifier::truncate] (len as usize);
            if idx + len > payload.len() {
                break;
            }
            let bytes = slice_subrange(payload, idx, idx + len);
            if field == ADMIN_SESSION_PASSKEY && len == SESSION_PASSKEY_SIZE {
                let mut key = [0u8; SESSION_PASSKEY_SIZE];
                for i in 0..SESSION_PASSKEY_SIZE
                    invariant
                        bytes@.len() == SESSION_PASSKEY_SIZE,
                        forall|j: int| 0 <= j < i ==> key@[j] == bytes@[j],
                {
                    key[i] = bytes[i];
                }
                assert(key@ =~= bytes@);
                session_passkey = Some(key);
            } else if field == ADMIN_SET_CHANNEL {
                kind = AdminKind::SetChannel;
                state_changing = true;
                match decode_channel_number(bytes) {
                    Some(ix) => {
                        channel_index = ix;
                        channel = Some(slice_to_vec(bytes));
                    },
                    None => {
                        channel = None;
                    },
                }
            }
            idx = idx + len;
        } else if wire == 5 {
            if payload.len() - idx < 4 {
                break;
            }
            idx = idx + 4;
            if field == 95 || field == 102 {
                state_changing = true;
            }
        } else {
            break;
        }
    }

    if state_changing && kind != AdminKind::SetChannel {
        kind = AdminKind::StateChanging;
    } else if kind == AdminKind::Unknown {
        kind = AdminKind::ReadOnly;
    }

    ParsedAdmin { kind, session_passkey, channel_index, channel }
}

proof fn lemma_scan_channel_protected(p: Seq<u8>, idx: nat, st: AdminScan)
    requires
        st.channel is Some ==> st.state_changing,
    ensures
        admin_scan(p, idx, st).channel is Some ==> admin_scan(p, idx, st).state_changing,
    decreases p.len() - idx,
{
    if idx < p.len() {
        let (tag, c) = varint_decode(p.skip(idx as int));
        if c != 0 && idx + c <= p.len() {
            let i1 = idx + c;
            let field = (tag as u32) >> 3u32;
            let wire = (tag as u8) & 7u8;
            if wire == 0 {
                let (val, c2) = varint_decode(p.skip(i1 as int));
                if i1 + c2 <= p.len() {
                    lemma_scan_channel_protected(p, i1 + c2, apply_varint_field(st, field, val));
                }
            } else if wire == 2 {
                if i1 < p.len() {
                    let (len, c2) = varint_decode(p.skip(i1 as int));
                    let i2 = i1 + c2;
                    let l = len as usize;
                    if i2 + l <= usize::MAX && i2 + l <= p.len() {
                        lemma_scan_channel_protected(p, (i2 + l) as nat, apply_len_field(st, field, p.subrange(i2 as int, i2 + l)));
                    }
                }
            } else if wire == 5 {
                if i1 + 4 <= p.len() {
                    lemma_scan_channel_protected(p, i1 + 4, apply_fixed32_field(st, field));
                }
            }
        }
    }
}

/// Law: a request carries a channel update only when it is a set-channel
/// or state-changing request, the kinds that must bring the session
/// passkey.
pub proof fn law_channel_only_with_passkey_kinds(p: Seq<u8>)
    ensures
        admin_parse_model(p).channel is Some ==> (admin_parse_model(p).kind == AdminKind::SetChannel
            || admin_parse_model(p).kind == AdminKind::StateChanging),
{
    lemma_scan_channel_protected(p, 0, scan_start());
}

/// The channel a set-channel request carries, in its encoded form.
pub fn apply_channel_update(parsed: &ParsedAdmin) -> (r: Option<Vec<u8>>)
    ensures
        r matches Some(c) ==> parsed@.channel == Some(c@),
        r is None ==> parsed@.channel is None,
{
    match &parsed.channel {
        Some(c) => Some(c.clone()),
        None => None,
    }
}

// ---------------------------------------------------------------------------
// Replies
// ---------------------------------------------------------------------------

/// The base-128 varint encoding of `v`, low group first.
pub open spec fn varint_bytes(v: u64) -> Seq<u8>
    decreases v,
{
    if v < 128 {
        seq![v as u8]
    } else {
        seq![(v % 128 + 128) as u8] + varint_bytes(v / 128)
    }
}

/// A field key: the field number shifted past the three wire-type bits.
pub open spec fn tag_bytes(field: u32, wire: u8) -> Seq<u8> {
    varint_bytes(((field << 3u32) | (wire as u32)) as u64)
}

/// A varint field.
pub open spec fn field_varint(field: u32, v: u64) -> Seq<u8> {
    tag_bytes(field, WIRE_VARINT) + varint_bytes(v)
}

/// A length-delimited field.
pub open spec fn field_bytes(field: u32, data: Seq<u8>) -> Seq<u8> {
    tag_bytes(field, WIRE_LEN) + varint_bytes(data.len() as u64) + data
}

/// The ASCII digit of a nibble, lower-case.
pub open spec fn hex_digit(n: u32) -> u8 {
    if n < 10 { (48 + n) as u8 } else { (97 + n - 10) as u8 }
}

/// `!` followed by the node number in eight lower-case hex digits.
pub open spec fn node_id_text(node_id: u32) -> Seq<u8> {
    seq![33u8] + Seq::new(8, |i: int| hex_digit((node_id >> ((4 * (7 - i)) as u32)) & 0xFu32))
}

/// The value of a lower-case hex digit; 16 for any other byte.
pub open spec fn hex_value(c: u8) -> int {
    if 48 <= c <= 57 {
        c - 48
    } else if 97 <= c <= 102 {
        c - 87
    } else {
        16
    }
}

/// The number a string of hex digits writes, most significant first.
pub open spec fn hex_number(s: Seq<u8>) -> int
    decreases s.len(),
{
    if s.len() == 0 { 0 } else { hex_number(s.drop_last()) * 16 + hex_value(s.last()) }
}

proof fn lemma_pow16_facts(k: int)
    requires
        0 <= k,
    ensures
        pow16(k) > 0,
        pow16(k + 1) == pow16(k) * 16,
    decreases k,
{
    if k > 0 {
        lemma_pow16_facts(k - 1);
    }
}

proof fn lemma_node_id_prefix(id: u32, k: int)
    requires
        0 <= k <= 8,
    ensures
        hex_number(node_id_text(id).skip(1).take(k)) == id as int / pow16(8 - k),
    decreases k,
{
    let t = node_id_text(id).skip(1);
    if k == 0 {
        assert(pow16(8) == 0x1_0000_0000) by {
            reveal_with_fuel(pow16, 9);
        }
        assert(t.take(0) =~= Seq::<u8>::empty());
    } else {
        lemma_node_id_prefix(id, k - 1);
        let j = 8 - k;
        let ju = j as u32;
        lemma_shift_nibble(id, ju, (ju * 4) as u32);
        let n = (id >> ((ju * 4) as u32)) & 0xFu32;
        assert(t[k - 1] == hex_digit(n));
        assert(hex_value(hex_digit(n)) == n);
        assert(t.take(k).drop_last() =~= t.take(k - 1));
        lemma_pow16_facts(j);
        let q = id as int / pow16(j);
        vstd::arithmetic::div_mod::lemma_div_denominator(id as int, pow16(j), 16);
        vstd::arithmetic::div_mod::lemma_fundamental_div_mod(q, 16);
        assert(id as int / pow16(j + 1) == q / 16);
    }
}

/// Law: the node id text is '!' and eight lower-case hex digits that,
/// read most significant first, give back the node number.
pub proof fn law_node_id_text_reads_back(id: u32)
    ensures
        node_id_text(id).len() == 9,
        node_id_text(id)[0] == 33u8,
        forall|i: int| 1 <= i < 9 ==> hex_value(#[trigger] node_id_text(id)[i]) < 16,
        hex_number(node_id_text(id).skip(1)) == id as int,
{
    lemma_node_id_prefix(id, 8);
    assert(node_id_text(id).skip(1).take(8) =~= node_id_text(id).skip(1));
    assert forall|i: int| 1 <= i < 9 implies hex_value(#[trigger] node_id_text(id)[i]) < 16 by {
        let ju = (7 - (i - 1)) as u32;
        lemma_shift_nibble(id, ju, (ju * 4) as u32);
    }
}

/// The long and short names the node reports.
pub open spec fn long_name() -> Seq<u8> {
    seq![76u8, 117u8, 110u8, 97u8, 114u8, 78u8, 111u8, 100u8, 101u8]
}

pub open spec fn short_name() -> Seq<u8> {
    seq![76u8, 78u8, 79u8, 68u8]
}

/// The owner record: id, long name, short name, hardware model 43, role 4.
pub open spec fn owner_record(node_id: u32) -> Seq<u8> {
    field_bytes(1, node_id_text(node_id)) + field_bytes(2, long_name()) + field_bytes(3, short_name())
        + field_varint(5, 43) + field_varint(7, 4)
}

/// The device metadata record: firmware version with flags 1 and 1.
pub open spec fn metadata_record(firmware: Seq<u8>) -> Seq<u8> {
    field_varint(1, 1) + field_bytes(2, firmware) + field_varint(3, 1)
}

/// The body of the reply to a request, before the passkey; none for kinds
/// that get no reply or a channel request without a channel.
pub open spec fn reply_body(kind: AdminKind, node_id: u32, firmware: Seq<u8>, channel: Option<Seq<u8>>) -> Option<Seq<u8>> {
    match kind {
        AdminKind::GetOwner => Some(field_bytes(ADMIN_GET_OWNER_RESPONSE, owner_record(node_id))),
        AdminKind::GetDeviceMetadata => Some(field_bytes(ADMIN_GET_DEVICE_METADATA_RESPONSE, metadata_record(firmware))),
        AdminKind::GetChannel | AdminKind::SetChannel => match channel {
            Some(c) => Some(field_bytes(ADMIN_GET_CHANNEL_RESPONSE, c)),
            None => None,
        },
        _ => None,
    }
}

/// The whole reply: the body followed by the passkey field, when it fits in
/// a message.
pub open spec fn reply_message(kind: AdminKind, passkey: Seq<u8>, node_id: u32, firmware: Seq<u8>, channel: Option<Seq<u8>>) -> Option<Seq<u8>> {
    match reply_body(kind, node_id, firmware, channel) {
        Some(b) => {
            let m = b + field_bytes(ADMIN_SESSION_PASSKEY, passkey);
            if m.len() <= MAX_MESSAGE_SIZE { Some(m) } else { None }
        },
        None => None,
    }
}

/// Requests that change state must carry the live passkey.
pub open spec fn reply_allowed(parsed: ParsedAdminView, s: SessionModel, now_ms: u32) -> bool {
    (parsed.kind == AdminKind::SetChannel || parsed.kind == AdminKind::StateChanging) ==> (
        match parsed.session_passkey {
            Some(k) => passkey_accepted(s, k, now_ms),
            None => false,
        })
}

proof fn lemma_varint_step(v: u64)
    ensures
        (v & 0x7Fu64) as u8 == (v % 128) as u8,
        v >> 7u64 == v / 128,
        v % 128 < 128,
        ((v & 0x7Fu64) as u8) | 0x80u8 == (v % 128 + 128) as u8,
{
    assert((v & 0x7Fu64) as u8 == (v % 128) as u8) by (bit_vector);
    assert(v >> 7u64 == v / 128) by (bit_vector);
    assert(((v & 0x7Fu64) as u8) | 0x80u8 == (v % 128 + 128) as u8) by (bit_vector);
}

proof fn lemma_varint_bits(acc: u64, w: u64, s: u64)
    requires
        s + 7 < 64,
        acc < (1u64 << s),
        w <= (0xFFFF_FFFF_FFFF_FFFFu64 >> s),
        w >= 128,
    ensures
        (acc | ((w % 128) << s)) < (1u64 << (s + 7)),
        w / 128 <= (0xFFFF_FFFF_FFFF_FFFFu64 >> (s + 7)),
        (acc | ((w % 128) << s)) | ((w / 128) << (s + 7)) == acc | (w << s),
{
    assert((acc | ((w % 128) << s)) < (1u64 << (s + 7))) by (bit_vector)
        requires s + 7 < 64, acc < (1u64 << s);
    assert(w / 128 <= (0xFFFF_FFFF_FFFF_FFFFu64 >> (s + 7))) by (bit_vector)
        requires s + 7 < 64, w <= (0xFFFF_FFFF_FFFF_FFFFu64 >> s);
    assert((acc | ((w % 128) << s)) | ((w / 128) << (s + 7)) == acc | (w << s)) by (bit_vector)
        requires s + 7 < 64, acc < (1u64 << s), w <= (0xFFFF_FFFF_FFFF_FFFFu64 >> s);
}

proof fn lemma_varint_byte(w: u64)
    ensures
        w < 128 ==> (((w as u8) & 0x7Fu8) as u64 == w && (w as u8) & 0x80u8 == 0),
        ((((w % 128 + 128) as u8) & 0x7Fu8) as u64 == w % 128),
        ((w % 128 + 128) as u8) & 0x80u8 != 0,
        w >= 128 && w <= (0xFFFF_FFFF_FFFF_FFFFu64 >> 63u64) ==> false,
{
    assert(w < 128 ==> (((w as u8) & 0x7Fu8) as u64 == w && (w as u8) & 0x80u8 == 0)) by (bit_vector);
    assert(((((w % 128 + 128) as u8) & 0x7Fu8) as u64 == w % 128) && ((w % 128 + 128) as u8) & 0x80u8 != 0)
        by (bit_vector);
    assert(w >= 128 && w <= (0xFFFF_FFFF_FFFF_FFFFu64 >> 63u64) ==> false) by (bit_vector);
}

proof fn lemma_varint_decode_from(data: Seq<u8>, j: nat, acc: u64, w: u64)
    requires
        j <= 9,
        acc < (1u64 << ((7 * j) as u64)),
        w <= (0xFFFF_FFFF_FFFF_FFFFu64 >> ((7 * j) as u64)),
        j + varint_bytes(w).len() <= data.len(),
        forall|i: int| 0 <= i < varint_bytes(w).len() ==> data[j + i] == #[trigger] varint_bytes(w)[i],
    ensures
        varint_acc(data, j, acc) == (acc | (w << ((7 * j) as u64)), j + varint_bytes(w).len()),
    decreases w,
{
    let s = (7 * j) as u64;
    lemma_varint_byte(w);
    if w < 128 {
        assert(data[j as int] == varint_bytes(w)[0]);
    } else {
        assert(data[j as int] == varint_bytes(w)[0]);
        if j == 9 {
            assert(s == 63);
        }
        assert(j < 9) by {
            if j >= 9 {
                assert(w <= (0xFFFF_FFFF_FFFF_FFFFu64 >> 63u64)) by (bit_vector)
                    requires w <= (0xFFFF_FFFF_FFFF_FFFFu64 >> s), s == 63;
            }
        }
        lemma_varint_bits(acc, w, s);
        let rest = varint_bytes(w / 128);
        assert(varint_bytes(w) == seq![(w % 128 + 128) as u8] + rest);
        assert forall|i: int| 0 <= i < rest.len() implies data[(j + 1) + i] == #[trigger] rest[i] by {
            assert(varint_bytes(w)[i + 1] == rest[i]);
        }
        assert(((7 * (j + 1)) as u64) == s + 7);
        lemma_varint_decode_from(data, j + 1, acc | ((w % 128) << s), w / 128);
    }
}

/// Law: a varint written by the admin reply writer is read back by the
/// request walker, whatever follows it.
pub proof fn law_varint_roundtrip(v: u64, rest: Seq<u8>)
    ensures
        varint_decode(varint_bytes(v) + rest) == (v, varint_bytes(v).len()),
{
    let data = varint_bytes(v) + rest;
    assert((1u64 << 0u64) == 1u64 && (0xFFFF_FFFF_FFFF_FFFFu64 >> 0u64) == 0xFFFF_FFFF_FFFF_FFFFu64
        && (0u64 | (v << 0u64)) == v) by (bit_vector);
    assert forall|i: int| 0 <= i < varint_bytes(v).len() implies data[0 + i] == #[trigger] varint_bytes(v)[i] by {}
    lemma_varint_decode_from(data, 0, 0, v);
}

fn write_varint(value: u64, buf: &mut Vec<u8>)
    ensures
        final(buf)@ == old(buf)@ + varint_bytes(value),
{
    let mut v = value;
    let ghost b0 = buf@;
    loop
        invariant_except_break
            b0 + varint_bytes(value) == buf@ + varint_bytes(v),
        ensures
            buf@ == b0 + varint_bytes(value),
        decreases v,
    {
        proof {
            lemma_varint_step(v);
        }
        let byte = #[verifier::truncate] ((v & 0x7F) as u8);
        let ghost vv = v;
        v = v >> 7;
        if v == 0 {
            buf.push(byte);
            assert(varint_bytes(vv) == seq![byte]);
            assert(buf@ =~= b0 + varint_bytes(value));
            break;
        } else {
            buf.push(byte | 0x80);
            assert(varint_bytes(vv) == seq![(byte | 0x80u8)] + varint_bytes(v));
            assert(buf@ + varint_bytes(v) =~= b0 + varint_bytes(value));
        }
    }
}

fn write_tag(field: u32, wire_type: u8, buf: &mut Vec<u8>)
    ensures
        final(buf)@ == old(buf)@ + tag_bytes(field, wire_type),
{
    write_varint(((field << 3) | wire_type as u32) as u64, buf)
}

fn write_field_varint(field: u32, value: u64, buf: &mut Vec<u8>)
    ensures
        final(buf)@ == old(buf)@ + field_varint(field, value),
{
    write_tag(field, WIRE_VARINT, buf);
    write_varint(value, buf);
    assert(buf@ =~= old(buf)@ + field_varint(field, value));
}

fn write_bytes(field: u32, data: &[u8], buf: &mut Vec<u8>)
    ensures
        final(buf)@ == old(buf)@ + field_bytes(field, data@),
{
    write_tag(field, WIRE_LEN, buf);
    write_varint(data.len() as u64, buf);
    let mut i: usize = 0;
    let ghost b1 = buf@;
    while i < data.len()
        invariant
            i <= data@.len(),
            buf@ == b1 + data@.take(i as int),
        decreases data@.len() - i,
    {
        buf.push(data[i]);
        assert(data@.take(i + 1) =~= data@.take(i as int).push(data@[i as int]));
        i = i + 1;
    }
    assert(data@.take(data@.len() as int) =~= data@);
    assert(buf@ =~= old(buf)@ + field_bytes(field, data@));
}

fn write_message(field: u32, inner: &[u8], buf: &mut Vec<u8>)
    ensures
        final(buf)@ == old(buf)@ + field_bytes(field, inner@),
{
    write_bytes(field, inner, buf)
}

fn format_node_id(node_id: u32) -> (s: [u8; 9])
    ensures
        s@ == node_id_text(node_id),
{
    let mut s = [0u8; 9];
    s[0] = 0x21; // '!'
    for k in 0..8
        invariant
            s@[0] == 33u8,
            forall|j: int| 1 <= j < 1 + k ==> s@[j] == node_id_text(node_id)[j],
    {
        let i: u32 = 7 - k as u32;
        let nibble = (node_id >> (i * 4)) & 0xF;
        assert(nibble < 16) by (bit_vector)
            requires nibble == (node_id >> (i * 4)) & 0xFu32;
        let c = if nibble < 10 { 0x30 + nibble as u8 } else { 0x61 + (nibble - 10) as u8 }; // '0'.., 'a'..
        s[1 + k] = c;
    }
    assert(s@ =~= node_id_text(node_id));
    s
}

/// The reply to a request, with `passkey` as the session passkey: the owner
/// record, the device metadata, or the channel (given as its encoded form),
/// followed by the passkey; none for other kinds, without a channel, or when
/// it would not fit in a message.
pub fn encode_admin_response(
    kind: AdminKind,
    passkey: &[u8; SESSION_PASSKEY_SIZE],
    node_id: u32,
    firmware_version: &str,
    channel: Option<&[u8]>,
) -> (r: Option<heapless::Vec<u8, MAX_MESSAGE_SIZE>>)
    ensures
        match r {
            Some(v) => reply_message(kind, passkey@, node_id, firmware_version.spec_bytes(),
                match channel { Some(c) => Some(c@), None => None }) == Some(bytes256_view(v)),
            None => reply_message(kind, passkey@, node_id, firmware_version.spec_bytes(),
                match channel { Some(c) => Some(c@), None => None }) is None,
        },
{
    let mut admin: Vec<u8> = Vec::new();
    match kind {
        AdminKind::GetOwner => {
            let mut user: Vec<u8> = Vec::new();
            let id = format_node_id(node_id);
            write_bytes(1, &id, &mut user);
            // "LunarNode"
            let long: [u8; 9] = [0x4c, 0x75, 0x6e, 0x61, 0x72, 0x4e, 0x6f, 0x64, 0x65];
            // "LNOD"
            let short: [u8; 4] = [0x4c, 0x4e, 0x4f, 0x44];
            assert(long@ =~= long_name());
            assert(short@ =~= short_name());
            write_bytes(2, &long, &mut user);
            write_bytes(3, &short, &mut user);
            write_field_varint(5, 43, &mut user);
            write_field_varint(7, 4, &mut user);
            assert(user@ =~= owner_record(node_id));
            write_message(ADMIN_GET_OWNER_RESPONSE, user.as_slice(), &mut admin);
        },
        AdminKind::GetDeviceMetadata => {
            let mut metadata: Vec<u8> = Vec::new();
            write_field_varint(1, 1, &mut metadata);
            write_bytes(2, firmware_version.as_bytes(), &mut metadata);
            write_field_varint(3, 1, &mut metadata);
            assert(metadata@ =~= metadata_record(firmware_version.spec_bytes()));
            write_message(ADMIN_GET_DEVICE_METADATA_RESPONSE, metadata.as_slice(), &mut admin);
        },
        AdminKind::GetChannel | AdminKind::SetChannel => {
            match channel {
                Some(ch) => write_message(ADMIN_GET_CHANNEL_RESPONSE, ch, &mut admin),
                None => return None,
            }
        },
        _ => {
            return None;
        },
    }
    write_bytes(ADMIN_SESSION_PASSKEY, passkey, &mut admin);
    bytes256_from_slice(admin.as_slice())
}

/// The reply to a classified request. A set-channel or state-changing
/// request must carry the session's live passkey, else there is no reply
/// and the session is untouched; otherwise the session passkey is made fresh
/// as `AdminSession::ensure_fresh` does and the reply of
/// `encode_admin_response` is built with it.
pub fn build_admin_response(
    parsed: &ParsedAdmin,
    session: &mut AdminSession,
    now_ms: u32,
    node_id: u32,
    firmware_version: &str,
    channel: Option<&[u8]>,
) -> (r: Option<heapless::Vec<u8, MAX_MESSAGE_SIZE>>)
    ensures
        !reply_allowed(parsed@, old(session)@, now_ms) ==> r is None && final(session)@ == old(session)@,
        reply_allowed(parsed@, old(session)@, now_ms) ==> {
            &&& regen_due(old(session)@, now_ms) ==> final(session)@.generated_at_ms == now_ms
            &&& !regen_due(old(session)@, now_ms) ==> final(session)@ == old(session)@
            &&& match r {
                Some(v) => reply_message(parsed@.kind, final(session)@.passkey@, node_id,
                    firmware_version.spec_bytes(),
                    match channel { Some(c) => Some(c@), None => None }) == Some(bytes256_view(v)),
                None => reply_message(parsed@.kind, final(session)@.passkey@, node_id,
                    firmware_version.spec_bytes(),
                    match channel { Some(c) => Some(c@), None => None }) is None,
            }
        },
{
    if parsed.kind == AdminKind::SetChannel || parsed.kind == AdminKind::StateChanging {
        match &parsed.session_passkey {
            Some(key) => {
                if !session.validate(key, now_ms) {
                    return None;
                }
            },
            None => return None,
        }
    }
    let passkey = *session.ensure_fresh(now_ms);
    encode_admin_response(parsed.kind, &passkey, node_id, firmware_version, channel)
}

} // verus!
