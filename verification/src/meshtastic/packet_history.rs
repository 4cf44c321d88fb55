//! A fixed ring of recently seen packets: who sent them, the next hop that
//! was observed, and which relay nodes have been heard forwarding them.
use vstd::prelude::*;

verus! {

pub const NUM_RELAYERS: usize = 6;

pub const HISTORY_SIZE: usize = 32;

#[derive(Clone, Copy)]
struct PacketRecord {
    sender: u32,
    id: u32,
    next_hop: u8,
    hop_limit: u8,
    relayed_by: [u8; NUM_RELAYERS],
}

/// The model of one record.
pub struct RecordView {
    pub sender: u32,
    pub id: u32,
    pub next_hop: u8,
    pub hop_limit: u8,
    pub relayers: Seq<u8>,
}

/// The model of a history: its records, slot by slot, and the slot that
/// the next new packet overwrites.
pub struct HistoryView {
    pub records: Seq<RecordView>,
    pub index: int,
}

impl PacketRecord {
    spec fn model(self) -> RecordView {
        RecordView {
            sender: self.sender,
            id: self.id,
            next_hop: self.next_hop,
            hop_limit: self.hop_limit,
            relayers: self.relayed_by@,
        }
    }

    fn empty() -> (r: Self)
        ensures
            r.model() == empty_record(),
    {
        let r = Self { sender: 0, id: 0, next_hop: 0, hop_limit: 0, relayed_by: [0; NUM_RELAYERS] };
        assert(r.relayed_by@ =~= no_relayers());
        r
    }
}

/// Six empty relay slots.
pub open spec fn no_relayers() -> Seq<u8> {
    Seq::new(NUM_RELAYERS as nat, |i: int| 0u8)
}

/// A record that tracks nothing.
pub open spec fn empty_record() -> RecordView {
    RecordView { sender: 0, id: 0, next_hop: 0, hop_limit: 0, relayers: no_relayers() }
}

/// The empty history.
pub open spec fn empty_history() -> HistoryView {
    HistoryView { records: Seq::new(HISTORY_SIZE as nat, |i: int| empty_record()), index: 0 }
}

/// A record stands for packet `(sender, id)`; a record whose sender is 0
/// stands for nothing.
pub open spec fn record_matches(r: RecordView, sender: u32, id: u32) -> bool {
    r.sender == sender && r.id == id && r.sender != 0
}

/// The first slot at or after `k` that stands for `(sender, id)`.
pub open spec fn first_match_from(records: Seq<RecordView>, sender: u32, id: u32, k: int) -> Option<int>
    decreases records.len() - k,
{
    if k < 0 || k >= records.len() {
        None
    } else if record_matches(records[k], sender, id) {
        Some(k)
    } else {
        first_match_from(records, sender, id, k + 1)
    }
}

/// The slot of packet `(sender, id)`, the first one if several stand for it.
pub open spec fn lookup(h: HistoryView, sender: u32, id: u32) -> Option<int> {
    first_match_from(h.records, sender, id, 0)
}

/// Recording relay `r` in slots from `k` on: nothing if it is already there
/// before the first free slot, else it takes the first free slot, and
/// nothing if there is none.
pub open spec fn add_slot_from(slots: Seq<u8>, r: u8, k: int) -> Seq<u8>
    decreases slots.len() - k,
{
    if k < 0 || k >= slots.len() {
        slots
    } else if slots[k] == r {
        slots
    } else if slots[k] == 0 {
        slots.update(k, r)
    } else {
        add_slot_from(slots, r, k + 1)
    }
}

/// Recording relay `r` in a record's slots; relay 0 is never recorded.
pub open spec fn add_slot(slots: Seq<u8>, r: u8) -> Seq<u8> {
    if r == 0 {
        slots
    } else {
        add_slot_from(slots, r, 0)
    }
}

/// The number of occupied slots.
pub open spec fn count_nonzero(s: Seq<u8>) -> nat
    decreases s.len(),
{
    if s.len() == 0 {
        0
    } else {
        count_nonzero(s.drop_last()) + if s.last() != 0 { 1nat } else { 0nat }
    }
}

/// The history after a transmission of `(sender, id)` was noted.
pub open spec fn note_tx_model(h: HistoryView, sender: u32, id: u32, next_hop: u8, hop_limit: u8, relay: u8) -> HistoryView {
    match lookup(h, sender, id) {
        Some(k) => {
            let r = h.records[k];
            HistoryView {
                records: h.records.update(k, RecordView {
                    next_hop, hop_limit, relayers: add_slot(r.relayers, relay), ..r
                }),
                index: h.index,
            }
        },
        None => HistoryView {
            records: h.records.update(h.index, RecordView {
                sender, id, next_hop, hop_limit, relayers: add_slot(no_relayers(), relay),
            }),
            index: (h.index + 1) % (HISTORY_SIZE as int),
        },
    }
}

/// The history after relay `relay` was heard forwarding `(sender, id)`.
pub open spec fn add_relayer_model(h: HistoryView, sender: u32, id: u32, relay: u8) -> HistoryView {
    if relay == 0 {
        h
    } else {
        match lookup(h, sender, id) {
            Some(k) => {
                let r = h.records[k];
                HistoryView {
                    records: h.records.update(k, RecordView { relayers: add_slot(r.relayers, relay), ..r }),
                    index: h.index,
                }
            },
            None => note_tx_model(h, sender, id, 0, 0, relay),
        }
    }
}

/// Whether `relayer` forwarded `(sender, id)`, and whether it was the only
/// relay that did.
pub open spec fn was_relayer_model(h: HistoryView, relayer: u8, id: u32, sender: u32) -> (bool, bool) {
    if relayer == 0 {
        (false, false)
    } else {
        match lookup(h, sender, id) {
            None => (false, false),
            Some(k) => {
                let slots = h.records[k].relayers;
                let matched = slots.contains(relayer);
                (matched, matched && count_nonzero(slots) == 1)
            },
        }
    }
}

/// The next hop observed for `(sender, id)`, or 0 when it is not tracked.
pub open spec fn observed_next_hop_model(h: HistoryView, sender: u32, id: u32) -> u8 {
    match lookup(h, sender, id) {
        Some(k) => h.records[k].next_hop,
        None => 0,
    }
}

pub struct PacketHistory {
    records: [PacketRecord; HISTORY_SIZE],
    index: usize,
}

impl View for PacketHistory {
    type V = HistoryView;

    closed spec fn view(&self) -> HistoryView {
        HistoryView {
            records: Seq::new(HISTORY_SIZE as nat, |i: int| self.records@[i].model()),
            index: self.index as int,
        }
    }
}

/// Relay slots in order: the taken slots come before the free ones (0), and
/// no relay is recorded twice.
pub open spec fn slots_ordered(s: Seq<u8>) -> bool {
    &&& forall|i: int, j: int| 0 <= i < j < s.len() && #[trigger] s[i] == 0 ==> #[trigger] s[j] == 0
    &&& forall|i: int, j: int| 0 <= i < j < s.len() && #[trigger] s[i] != 0 ==> s[i] != #[trigger] s[j]
}

/// A well-formed history: every record has six relay slots, in order, and
/// the next slot to overwrite is a slot.
pub open spec fn history_wf(h: HistoryView) -> bool {
    &&& h.records.len() == HISTORY_SIZE
    &&& 0 <= h.index < HISTORY_SIZE
    &&& forall|k: int| 0 <= k < HISTORY_SIZE ==> (#[trigger] h.records[k]).relayers.len() == NUM_RELAYERS
    &&& forall|k: int| 0 <= k < HISTORY_SIZE ==> slots_ordered(#[trigger] h.records[k].relayers)
}

// ---------------------------------------------------------------------------
// Lemmas and laws
// ---------------------------------------------------------------------------

proof fn lemma_first_match_found(records: Seq<RecordView>, sender: u32, id: u32, k: int)
    requires
        0 <= k,
        first_match_from(records, sender, id, k) is Some,
    ensures
        k <= first_match_from(records, sender, id, k)->0 < records.len(),
        record_matches(records[first_match_from(records, sender, id, k)->0], sender, id),
        forall|j: int| k <= j < first_match_from(records, sender, id, k)->0
            ==> !record_matches(#[trigger] records[j], sender, id),
    decreases records.len() - k,
{
    if k < records.len() && !record_matches(records[k], sender, id) {
        lemma_first_match_found(records, sender, id, k + 1);
    }
}

proof fn lemma_first_match_none(records: Seq<RecordView>, sender: u32, id: u32, k: int)
    requires
        0 <= k,
        first_match_from(records, sender, id, k) is None,
    ensures
        forall|j: int| k <= j < records.len() ==> !record_matches(#[trigger] records[j], sender, id),
    decreases records.len() - k,
{
    if k < records.len() {
        lemma_first_match_none(records, sender, id, k + 1);
    }
}

/// A slot `k` that matches, with no match before it, is what lookup finds.
proof fn lemma_first_match_is(records: Seq<RecordView>, sender: u32, id: u32, k: int, from: int)
    requires
        0 <= from <= k < records.len(),
        record_matches(records[k], sender, id),
        forall|j: int| from <= j < k ==> !record_matches(#[trigger] records[j], sender, id),
    ensures
        first_match_from(records, sender, id, from) == Some(k),
    decreases k - from,
{
    if from < k {
        lemma_first_match_is(records, sender, id, k, from + 1);
    }
}

proof fn lemma_add_slot_from_len(slots: Seq<u8>, r: u8, k: int)
    ensures
        add_slot_from(slots, r, k).len() == slots.len(),
    decreases slots.len() - k,
{
    if 0 <= k < slots.len() && slots[k] != r && slots[k] != 0 {
        lemma_add_slot_from_len(slots, r, k + 1);
    }
}

proof fn lemma_add_slot_from_contains(slots: Seq<u8>, r: u8, k: int)
    requires
        0 <= k,
        r != 0,
        exists|j: int| k <= j < slots.len() && (slots[j] == r || slots[j] == 0),
    ensures
        add_slot_from(slots, r, k).contains(r),
    decreases slots.len() - k,
{
    if slots[k] == r {
        assert(slots[k] == r);
    } else if slots[k] == 0 {
        assert(slots.update(k, r)[k] == r);
    } else {
        let j = choose|j: int| k <= j < slots.len() && (slots[j] == r || slots[j] == 0);
        assert(j != k);
        lemma_add_slot_from_contains(slots, r, k + 1);
    }
}

proof fn lemma_add_slot_from_keeps(slots: Seq<u8>, r: u8, k: int, x: u8)
    requires
        x != 0,
        slots.contains(x),
    ensures
        add_slot_from(slots, r, k).contains(x),
    decreases slots.len() - k,
{
    if 0 <= k < slots.len() && slots[k] != r {
        if slots[k] == 0 {
            let j = choose|j: int| 0 <= j < slots.len() && slots[j] == x;
            assert(j != k);
            assert(slots.update(k, r)[j] == x);
        } else {
            lemma_add_slot_from_keeps(slots, r, k + 1, x);
        }
    }
}

proof fn lemma_count_one(s: Seq<u8>, k: int, r: u8)
    requires
        0 <= k < s.len(),
        r != 0,
        forall|j: int| 0 <= j < s.len() && j != k ==> s[j] == 0,
        s[k] == r,
    ensures
        count_nonzero(s) == 1,
    decreases s.len(),
{
    if k == s.len() - 1 {
        lemma_count_zero(s.drop_last());
    } else {
        lemma_count_one(s.drop_last(), k, r);
    }
}

proof fn lemma_count_zero(s: Seq<u8>)
    requires
        forall|j: int| 0 <= j < s.len() ==> s[j] == 0,
    ensures
        count_nonzero(s) == 0,
    decreases s.len(),
{
    if s.len() > 0 {
        lemma_count_zero(s.drop_last());
    }
}

proof fn lemma_add_slot_from_ordered(s: Seq<u8>, r: u8, k: int)
    requires
        slots_ordered(s),
        r != 0,
        0 <= k <= s.len(),
        forall|j: int| 0 <= j < k ==> #[trigger] s[j] != 0 && s[j] != r,
    ensures
        slots_ordered(add_slot_from(s, r, k)),
        (s.contains(r) || !s.contains(0u8)) ==> add_slot_from(s, r, k) == s,
        (!s.contains(r) && s.contains(0u8)) ==> exists|z: int| 0 <= z < s.len() && s[z] == 0
            && (forall|j: int| 0 <= j < z ==> #[trigger] s[j] != 0)
            && add_slot_from(s, r, k) == s.update(z, r),
    decreases s.len() - k,
{
    if k == s.len() {
        assert(!s.contains(r) && !s.contains(0u8)) by {
            if s.contains(r) {
                let j = choose|j: int| 0 <= j < s.len() && s[j] == r;
                assert(s[j] != r);
            }
            if s.contains(0u8) {
                let j = choose|j: int| 0 <= j < s.len() && s[j] == 0u8;
                assert(s[j] != 0);
            }
        }
    } else if s[k] == r {
        assert(s.contains(r));
    } else if s[k] == 0 {
        let s2 = s.update(k, r);
        assert(!s.contains(r)) by {
            if s.contains(r) {
                let j = choose|j: int| 0 <= j < s.len() && s[j] == r;
                if j > k {
                    assert(s[j] == 0);
                }
            }
        }
        assert(s.contains(0u8)) by {
            assert(s[k] == 0u8);
        }
        assert forall|i: int, j: int| 0 <= i < j < s2.len() && #[trigger] s2[i] == 0 implies #[trigger] s2[j] == 0 by {
            assert(i > k);
            assert(s[i] == 0);
        }
        assert forall|i: int, j: int| 0 <= i < j < s2.len() && #[trigger] s2[i] != 0 implies s2[i] != #[trigger] s2[j] by {
            if j == k {
                assert(s[i] != r);
            } else if j > k {
                assert(s[j] == 0);
            } else {
                assert(s[i] != s[j]);
            }
        }
    } else {
        lemma_add_slot_from_ordered(s, r, k + 1);
    }
}

/// Law: recording a relay keeps a record's slots in order. Nothing changes
/// for relay 0, for a relay already recorded, or when all slots are taken;
/// otherwise the relay takes the first free slot.
pub proof fn law_add_slot_ordered(s: Seq<u8>, r: u8)
    requires
        slots_ordered(s),
    ensures
        slots_ordered(add_slot(s, r)),
        (r == 0 || s.contains(r) || !s.contains(0u8)) ==> add_slot(s, r) == s,
        (r != 0 && !s.contains(r) && s.contains(0u8)) ==> exists|z: int| 0 <= z < s.len() && s[z] == 0
            && (forall|j: int| 0 <= j < z ==> #[trigger] s[j] != 0)
            && add_slot(s, r) == s.update(z, r),
{
    if r != 0 {
        lemma_add_slot_from_ordered(s, r, 0);
    }
}

proof fn lemma_no_relayers_ordered()
    ensures
        slots_ordered(no_relayers()),
{
}

proof fn lemma_count_at_least_one(s: Seq<u8>, p: int)
    requires
        0 <= p < s.len(),
        s[p] != 0,
    ensures
        count_nonzero(s) >= 1,
    decreases s.len(),
{
    if p < s.len() - 1 {
        lemma_count_at_least_one(s.drop_last(), p);
    }
}

proof fn lemma_count_at_least_two(s: Seq<u8>, p: int, q: int)
    requires
        0 <= p < q < s.len(),
        s[p] != 0,
        s[q] != 0,
    ensures
        count_nonzero(s) >= 2,
    decreases s.len(),
{
    if q == s.len() - 1 {
        lemma_count_at_least_one(s.drop_last(), p);
    } else {
        lemma_count_at_least_two(s.drop_last(), p, q);
    }
}

/// Law: in ordered slots that hold relay `r`, `r` is the only relay
/// recorded exactly when one slot is taken; so a history reports a relayer
/// as the sole one exactly when no other relay forwarded the packet.
pub proof fn law_sole_relayer(s: Seq<u8>, r: u8)
    requires
        slots_ordered(s),
        r != 0,
        s.contains(r),
    ensures
        (count_nonzero(s) == 1) <==> (forall|j: int| 0 <= j < s.len() && s[j] != 0 ==> #[trigger] s[j] == r),
{
    let p = choose|p: int| 0 <= p < s.len() && s[p] == r;
    if forall|j: int| 0 <= j < s.len() && s[j] != 0 ==> #[trigger] s[j] == r {
        assert forall|j: int| 0 <= j < s.len() && j != p implies s[j] == 0 by {
            if s[j] != 0 {
                assert(s[j] == r);
                if j < p {
                    assert(s[j] != s[p]);
                } else {
                    assert(s[p] != s[j]);
                }
            }
        }
        lemma_count_one(s, p, r);
    } else {
        let q = choose|q: int| 0 <= q < s.len() && s[q] != 0 && s[q] != r;
        if p < q {
            lemma_count_at_least_two(s, p, q);
        } else {
            lemma_count_at_least_two(s, q, p);
        }
    }
}

/// Law: in a well-formed history, a relay forwarded a packet when it is
/// among the relays recorded for the packet, and it was the sole relay when
/// no other relay is recorded for it.
pub proof fn law_was_relayer_meaning(h: HistoryView, relayer: u8, id: u32, sender: u32)
    requires
        history_wf(h),
    ensures
        was_relayer_model(h, relayer, id, sender).0 <==> (relayer != 0 && match lookup(h, sender, id) {
            Some(k) => h.records[k].relayers.contains(relayer),
            None => false,
        }),
        was_relayer_model(h, relayer, id, sender).1 <==> (was_relayer_model(h, relayer, id, sender).0
            && forall|j: int| 0 <= j < NUM_RELAYERS && h.records[lookup(h, sender, id)->0].relayers[j] != 0
                ==> #[trigger] h.records[lookup(h, sender, id)->0].relayers[j] == relayer),
{
    if relayer != 0 {
        if let Some(k) = lookup(h, sender, id) {
            lemma_first_match_found(h.records, sender, id, 0);
            let slots = h.records[k].relayers;
            if slots.contains(relayer) {
                law_sole_relayer(slots, relayer);
            }
        }
    }
}

/// Law: what `note_tx` records about a packet sent by a real node is what a
/// lookup of its next hop returns.
pub proof fn law_note_tx_then_next_hop(h: HistoryView, sender: u32, id: u32, next_hop: u8, hop_limit: u8, relay: u8)
    requires
        history_wf(h),
        sender != 0,
    ensures
        observed_next_hop_model(note_tx_model(h, sender, id, next_hop, hop_limit, relay), sender, id) == next_hop,
        history_wf(note_tx_model(h, sender, id, next_hop, hop_limit, relay)),
{
    lemma_note_tx_found(h, sender, id, next_hop, hop_limit, relay);
}

/// Where a noted packet lands, and that the history stays well formed.
proof fn lemma_note_tx_found(h: HistoryView, sender: u32, id: u32, next_hop: u8, hop_limit: u8, relay: u8)
    requires
        history_wf(h),
        sender != 0,
    ensures
        ({
            let h2 = note_tx_model(h, sender, id, next_hop, hop_limit, relay);
            &&& history_wf(h2)
            &&& lookup(h2, sender, id) is Some
            &&& h2.records[lookup(h2, sender, id)->0].next_hop == next_hop
            &&& h2.records[lookup(h2, sender, id)->0].relayers == add_slot(
                match lookup(h, sender, id) {
                    Some(k) => h.records[k].relayers,
                    None => no_relayers(),
                }, relay)
        }),
{
    let h2 = note_tx_model(h, sender, id, next_hop, hop_limit, relay);
    match lookup(h, sender, id) {
        Some(k) => {
            lemma_first_match_found(h.records, sender, id, 0);
            lemma_add_slot_from_len(h.records[k].relayers, relay, 0);
            law_add_slot_ordered(h.records[k].relayers, relay);
            assert forall|j: int| 0 <= j < HISTORY_SIZE implies slots_ordered(#[trigger] h2.records[j].relayers) by {
                if j != k {
                    assert(h2.records[j] == h.records[j]);
                }
            }
            assert(record_matches(h2.records[k], sender, id));
            assert forall|j: int| 0 <= j < k implies !record_matches(#[trigger] h2.records[j], sender, id) by {
                assert(h2.records[j] == h.records[j]);
            }
            lemma_first_match_is(h2.records, sender, id, k, 0);
        },
        None => {
            lemma_first_match_none(h.records, sender, id, 0);
            lemma_add_slot_from_len(no_relayers(), relay, 0);
            let k = h.index;
            lemma_no_relayers_ordered();
            law_add_slot_ordered(no_relayers(), relay);
            assert forall|j: int| 0 <= j < HISTORY_SIZE implies slots_ordered(#[trigger] h2.records[j].relayers) by {
                if j != k {
                    assert(h2.records[j] == h.records[j]);
                }
            }
            assert(record_matches(h2.records[k], sender, id));
            assert forall|j: int| 0 <= j < k implies !record_matches(#[trigger] h2.records[j], sender, id) by {
                assert(h2.records[j] == h.records[j]);
            }
            lemma_first_match_is(h2.records, sender, id, k, 0);
        },
    }
}

/// Law: the relay that carried the first transmission of a packet is its
/// sole relayer.
pub proof fn law_first_relay_is_sole(h: HistoryView, sender: u32, id: u32, next_hop: u8, hop_limit: u8, relay: u8)
    requires
        history_wf(h),
        sender != 0,
        relay != 0,
        lookup(h, sender, id) is None,
    ensures
        was_relayer_model(note_tx_model(h, sender, id, next_hop, hop_limit, relay), relay, id, sender) == (true, true),
{
    lemma_note_tx_found(h, sender, id, next_hop, hop_limit, relay);
    let slots = add_slot(no_relayers(), relay);
    assert(slots == no_relayers().update(0, relay));
    assert(slots[0] == relay);
    lemma_count_one(slots, 0, relay);
}

/// Law: after a real relay is heard forwarding a packet of a real sender, the
/// history reports it as a relayer, unless all six slots of the packet's
/// record were already taken by other relays.
pub proof fn law_add_relayer_recorded(h: HistoryView, sender: u32, id: u32, relay: u8)
    requires
        history_wf(h),
        sender != 0,
        relay != 0,
        match lookup(h, sender, id) {
            Some(k) => h.records[k].relayers.contains(relay) || h.records[k].relayers.contains(0u8),
            None => true,
        },
    ensures
        was_relayer_model(add_relayer_model(h, sender, id, relay), relay, id, sender).0,
{
    match lookup(h, sender, id) {
        Some(k) => {
            lemma_first_match_found(h.records, sender, id, 0);
            let h2 = add_relayer_model(h, sender, id, relay);
            let slots = h.records[k].relayers;
            assert(exists|j: int| 0 <= j < slots.len() && (slots[j] == relay || slots[j] == 0));
            lemma_add_slot_from_contains(slots, relay, 0);
            assert(record_matches(h2.records[k], sender, id));
            assert forall|j: int| 0 <= j < k implies !record_matches(#[trigger] h2.records[j], sender, id) by {
                assert(h2.records[j] == h.records[j]);
            }
            lemma_first_match_is(h2.records, sender, id, k, 0);
        },
        None => {
            lemma_note_tx_found(h, sender, id, 0, 0, relay);
            assert(no_relayers()[0] == 0u8);
            lemma_add_slot_from_contains(no_relayers(), relay, 0);
        },
    }
}

/// Law: noting a transmission of a real sender's packet records its next
/// hop, keeps every relay already recorded for the packet, and records the
/// relay that carried it unless it is 0 or the packet's six relay slots are
/// all taken by others.
pub proof fn law_note_tx_records(h: HistoryView, sender: u32, id: u32, next_hop: u8, hop_limit: u8, relay: u8, r: u8)
    requires
        history_wf(h),
        sender != 0,
    ensures
        ({
            let h2 = note_tx_model(h, sender, id, next_hop, hop_limit, relay);
            &&& observed_next_hop_model(h2, sender, id) == next_hop
            &&& was_relayer_model(h, r, id, sender).0 ==> was_relayer_model(h2, r, id, sender).0
            &&& (relay != 0 && match lookup(h, sender, id) {
                Some(k) => h.records[k].relayers.contains(relay) || h.records[k].relayers.contains(0u8),
                None => true,
            }) ==> was_relayer_model(h2, relay, id, sender).0
        }),
{
    lemma_note_tx_found(h, sender, id, next_hop, hop_limit, relay);
    let old_slots = match lookup(h, sender, id) {
        Some(k) => h.records[k].relayers,
        None => no_relayers(),
    };
    if was_relayer_model(h, r, id, sender).0 {
        law_add_slot_keeps(old_slots, relay, r);
    }
    if relay != 0 {
        match lookup(h, sender, id) {
            Some(k) => {
                lemma_first_match_found(h.records, sender, id, 0);
                if old_slots.contains(relay) || old_slots.contains(0u8) {
                    if old_slots.contains(relay) {
                        let j = choose|j: int| 0 <= j < old_slots.len() && old_slots[j] == relay;
                        assert(0 <= j < old_slots.len() && (old_slots[j] == relay || old_slots[j] == 0));
                    } else {
                        let j = choose|j: int| 0 <= j < old_slots.len() && old_slots[j] == 0u8;
                        assert(0 <= j < old_slots.len() && (old_slots[j] == relay || old_slots[j] == 0));
                    }
                    lemma_add_slot_from_contains(old_slots, relay, 0);
                }
            },
            None => {
                assert(no_relayers()[0] == 0u8);
                lemma_add_slot_from_contains(no_relayers(), relay, 0);
            },
        }
    }
}

/// Law: hearing relay 0 changes nothing; hearing a real relay forward a
/// tracked packet keeps its observed next hop; hearing one forward an
/// untracked packet of a real sender tracks it with next hop 0 and that
/// relay as its sole relayer.
pub proof fn law_add_relayer_effect(h: HistoryView, sender: u32, id: u32, relay: u8)
    requires
        history_wf(h),
    ensures
        relay == 0 ==> add_relayer_model(h, sender, id, relay) == h,
        (relay != 0 && lookup(h, sender, id) is Some) ==> observed_next_hop_model(add_relayer_model(h, sender, id, relay), sender, id)
            == observed_next_hop_model(h, sender, id),
        (relay != 0 && lookup(h, sender, id) is None && sender != 0) ==> {
            &&& observed_next_hop_model(add_relayer_model(h, sender, id, relay), sender, id) == 0
            &&& was_relayer_model(add_relayer_model(h, sender, id, relay), relay, id, sender) == (true, true)
        },
{
    if relay != 0 {
        match lookup(h, sender, id) {
            Some(k) => {
                lemma_first_match_found(h.records, sender, id, 0);
                let h2 = add_relayer_model(h, sender, id, relay);
                assert(record_matches(h2.records[k], sender, id));
                assert forall|j: int| 0 <= j < k implies !record_matches(#[trigger] h2.records[j], sender, id) by {
                    assert(h2.records[j] == h.records[j]);
                }
                lemma_first_match_is(h2.records, sender, id, k, 0);
            },
            None => {
                if sender != 0 {
                    law_note_tx_then_next_hop(h, sender, id, 0, 0, relay);
                    law_first_relay_is_sole(h, sender, id, 0, 0, relay);
                }
            },
        }
    }
}

/// Histories `hs` where each step notes a packet the history does not track
/// yet (`note_tx`, or `add_relayer` of a real relay, which does the same for
/// such a packet), with the packets and arguments of `steps`.
pub open spec fn fresh_note_chain(hs: Seq<HistoryView>, steps: Seq<(u32, u32, u8, u8, u8)>) -> bool {
    &&& hs.len() == steps.len() + 1
    &&& forall|j: int| 0 <= j < steps.len() ==> #[trigger] fresh_note(hs[j], steps[j], hs[j + 1])
}

/// `h2` is `h` after noting packet `(st.0, st.1)`, which `h` does not
/// track, with next hop `st.2`, hop limit `st.3` and relay `st.4`.
#[verifier::opaque]
pub open spec fn fresh_note(h: HistoryView, st: (u32, u32, u8, u8, u8), h2: HistoryView) -> bool {
    &&& lookup(h, st.0, st.1) is None
    &&& h2 == note_tx_model(h, st.0, st.1, st.2, st.3, st.4)
}

proof fn lemma_fresh_step(h: HistoryView, h2: HistoryView, st: (u32, u32, u8, u8, u8), sender: u32, id: u32)
    requires
        h.records.len() == HISTORY_SIZE,
        0 <= h.index < HISTORY_SIZE,
        fresh_note(h, st, h2),
        st.0 != sender || st.1 != id,
    ensures
        h2.records.len() == HISTORY_SIZE,
        h2.index == (h.index + 1) % (HISTORY_SIZE as int),
        forall|m: int| 0 <= m < HISTORY_SIZE && m != h.index ==> #[trigger] h2.records[m] == h.records[m],
        !record_matches(h2.records[h.index], sender, id),
{
    reveal(fresh_note);
}

proof fn lemma_fresh_chain_slots(
    hs: Seq<HistoryView>,
    steps: Seq<(u32, u32, u8, u8, u8)>,
    sender: u32,
    id: u32,
    next_hop: u8,
    slot: int,
    j: int,
)
    requires
        fresh_note_chain(hs, steps),
        steps.len() <= HISTORY_SIZE,
        0 <= j <= steps.len(),
        0 <= slot < HISTORY_SIZE,
        hs[0].records.len() == HISTORY_SIZE,
        hs[0].index == (slot + 1) % (HISTORY_SIZE as int),
        record_matches(hs[0].records[slot], sender, id),
        hs[0].records[slot].next_hop == next_hop,
        forall|m: int| 0 <= m < HISTORY_SIZE && m != slot ==> !record_matches(#[trigger] hs[0].records[m], sender, id),
        forall|i: int| 0 <= i < steps.len() ==> (#[trigger] steps[i]).0 != sender || steps[i].1 != id,
    ensures
        hs[j].records.len() == HISTORY_SIZE,
        hs[j].index == (slot + 1 + j) % (HISTORY_SIZE as int),
        forall|m: int| 0 <= m < HISTORY_SIZE && m != slot ==> !record_matches(#[trigger] hs[j].records[m], sender, id),
        j < HISTORY_SIZE ==> record_matches(hs[j].records[slot], sender, id) && hs[j].records[slot].next_hop == next_hop,
        j == HISTORY_SIZE ==> !record_matches(hs[j].records[slot], sender, id),
    decreases j,
{
    if j > 0 {
        lemma_fresh_chain_slots(hs, steps, sender, id, next_hop, slot, j - 1);
        let h = hs[j - 1];
        let h2 = hs[j];
        let st = steps[j - 1];
        assert(fresh_note(hs[j - 1], steps[j - 1], hs[j - 1 + 1]));
        assert(st.0 != sender || st.1 != id);
        lemma_fresh_step(h, h2, st, sender, id);
        assert forall|m: int| 0 <= m < HISTORY_SIZE && m != slot implies !record_matches(#[trigger] h2.records[m], sender, id) by {
            if m != h.index {
                assert(h2.records[m] == h.records[m]);
            }
        }
        if j < HISTORY_SIZE {
            assert(h.index != slot);
            assert(h2.records[slot] == h.records[slot]);
        } else {
            assert(h.index == slot);
        }
    }
}

/// Law: the history keeps a packet's record while fewer than
/// `HISTORY_SIZE` other new packets are noted after it, and forgets it when
/// the `HISTORY_SIZE`-th one takes its slot: the oldest record goes first.
pub proof fn law_oldest_record_evicted(
    h0: HistoryView,
    sender: u32,
    id: u32,
    next_hop: u8,
    hop_limit: u8,
    relay: u8,
    hs: Seq<HistoryView>,
    steps: Seq<(u32, u32, u8, u8, u8)>,
)
    requires
        history_wf(h0),
        sender != 0,
        lookup(h0, sender, id) is None,
        hs.len() >= 1,
        hs[0] == note_tx_model(h0, sender, id, next_hop, hop_limit, relay),
        fresh_note_chain(hs, steps),
        steps.len() <= HISTORY_SIZE,
        forall|i: int| 0 <= i < steps.len() ==> (#[trigger] steps[i]).0 != sender || steps[i].1 != id,
    ensures
        steps.len() < HISTORY_SIZE ==> observed_next_hop_model(hs.last(), sender, id) == next_hop,
        steps.len() == HISTORY_SIZE ==> lookup(hs.last(), sender, id) is None
            && observed_next_hop_model(hs.last(), sender, id) == 0
            && forall|x: u8| was_relayer_model(hs.last(), x, id, sender) == (false, false),
{
    let slot = h0.index;
    lemma_first_match_none(h0.records, sender, id, 0);
    assert forall|m: int| 0 <= m < HISTORY_SIZE && m != slot implies !record_matches(#[trigger] hs[0].records[m], sender, id) by {
        assert(hs[0].records[m] == h0.records[m]);
    }
    let n = steps.len() as int;
    lemma_fresh_chain_slots(hs, steps, sender, id, next_hop, slot, n);
    assert(hs.last() == hs[n]);
    if n < HISTORY_SIZE {
        lemma_first_match_is(hs[n].records, sender, id, slot, 0);
    } else {
        if let Some(k) = lookup(hs[n], sender, id) {
            lemma_first_match_found(hs[n].records, sender, id, 0);
        }
    }
}

/// Law: recording a relay never forgets a relay already recorded in the
/// same record.
pub proof fn law_add_slot_keeps(slots: Seq<u8>, relay: u8, x: u8)
    requires
        x != 0,
        slots.contains(x),
    ensures
        add_slot(slots, relay).contains(x),
{
    if relay != 0 {
        lemma_add_slot_from_keeps(slots, relay, 0, x);
    }
}

/// Law: packets whose sender is 0 are never tracked.
pub proof fn law_sender_zero_untracked(h: HistoryView, relayer: u8, id: u32)
    ensures
        lookup(h, 0, id) is None,
        observed_next_hop_model(h, 0, id) == 0,
        was_relayer_model(h, relayer, id, 0) == (false, false),
{
    lemma_sender_zero_from(h.records, id, 0);
}

proof fn lemma_sender_zero_from(records: Seq<RecordView>, id: u32, k: int)
    ensures
        first_match_from(records, 0, id, k) is None,
    decreases records.len() - k,
{
    if 0 <= k < records.len() {
        lemma_sender_zero_from(records, id, k + 1);
    }
}

// ---------------------------------------------------------------------------
// Implementation
// ---------------------------------------------------------------------------

fn add_relayer_slot(slots: &mut [u8; NUM_RELAYERS], relay_node: u8)
    ensures
        final(slots)@ == add_slot(old(slots)@, relay_node),
{
    if relay_node == 0 {
        return;
    }
    let ghost s0 = slots@;
    for i in 0..NUM_RELAYERS
        invariant
            slots@ == s0,
            s0 == old(slots)@,
            s0.len() == NUM_RELAYERS,
            relay_node != 0,
            add_slot(s0, relay_node) == add_slot_from(s0, relay_node, i as int),
    {
        if slots[i] == relay_node {
            assert(add_slot_from(s0, relay_node, i as int) == s0);
            return;
        }
        if slots[i] == 0 {
            slots[i] = relay_node;
            assert(add_slot_from(s0, relay_node, i as int) == s0.update(i as int, relay_node));
            return;
        }
    }
}

impl PacketHistory {
    #[verifier::type_invariant]
    spec fn inv(self) -> bool {
        &&& self.index < HISTORY_SIZE
        &&& forall|k: int| 0 <= k < HISTORY_SIZE ==> slots_ordered(#[trigger] self.records@[k].relayed_by@)
    }

    proof fn lemma_wf(&self)
        requires
            self.inv(),
        ensures
            history_wf(self@),
    {
        assert forall|k: int| 0 <= k < HISTORY_SIZE implies (#[trigger] self@.records[k]).relayers.len() == NUM_RELAYERS by {
            assert(self.records@[k].relayed_by@.len() == NUM_RELAYERS);
        }
        assert forall|k: int| 0 <= k < HISTORY_SIZE implies slots_ordered(#[trigger] self@.records[k].relayers) by {
            assert(slots_ordered(self.records@[k].relayed_by@));
        }
    }

    /// An empty history.
    pub fn new() -> (h: Self)
        ensures
            h@ == empty_history(),
    {
        let e = PacketRecord::empty();
        proof {
            lemma_no_relayers_ordered();
        }
        let h = Self { records: [e; HISTORY_SIZE], index: 0 };
        assert(h@.records =~= empty_history().records);
        h
    }

    /// The slot of the first record that stands for `(sender, id)`.
    fn find(&self, sender: u32, id: u32) -> (r: Option<usize>)
        ensures
            match r {
                Some(k) => lookup(self@, sender, id) == Some(k as int) && k < HISTORY_SIZE,
                None => lookup(self@, sender, id) is None,
            },
    {
        let ghost recs = self@.records;
        for k in 0..HISTORY_SIZE
            invariant
                recs == self@.records,
                recs.len() == HISTORY_SIZE,
                lookup(self@, sender, id) == first_match_from(recs, sender, id, k as int),
        {
            let r = self.records[k];
            assert(recs[k as int] == r.model());
            if r.sender == sender && r.id == id && r.sender != 0 {
                return Some(k);
            }
        }
        None
    }

    /// Notes a transmission of packet `(sender, id)`: an existing record gets
    /// the new next hop and hop limit and the relay is added to it; otherwise
    /// a new record takes the oldest slot.
    pub fn note_tx(&mut self, sender: u32, id: u32, next_hop: u8, hop_limit: u8, relay_node: u8)
        ensures
            final(self)@ == note_tx_model(old(self)@, sender, id, next_hop, hop_limit, relay_node),
            history_wf(final(self)@),
    {
        proof {
            use_type_invariant(&*self);
            self.lemma_wf();
        }
        let ghost h0 = self@;
        if let Some(k) = self.find(sender, id) {
            let mut record = self.records[k];
            record.next_hop = next_hop;
            record.hop_limit = hop_limit;
            let mut slots = record.relayed_by;
            proof {
                law_add_slot_ordered(slots@, relay_node);
            }
            add_relayer_slot(&mut slots, relay_node);
            record.relayed_by = slots;
            self.records[k] = record;
            assert(self@.records =~= note_tx_model(h0, sender, id, next_hop, hop_limit, relay_node).records);
        } else {
            let mut slots = [0u8; NUM_RELAYERS];
            assert(slots@ =~= no_relayers());
            proof {
                lemma_no_relayers_ordered();
                law_add_slot_ordered(slots@, relay_node);
            }
            add_relayer_slot(&mut slots, relay_node);
            let record = PacketRecord { sender, id, next_hop, hop_limit, relayed_by: slots };
            let idx = self.index;
            self.records[idx] = record;
            self.index = (idx + 1) % HISTORY_SIZE;
            assert(self@.records =~= note_tx_model(h0, sender, id, next_hop, hop_limit, relay_node).records);
        }
        proof {
            use_type_invariant(&*self);
            self.lemma_wf();
        }
    }

    /// Notes that `relay_node` was heard forwarding `(sender, id)`; relay 0
    /// is ignored, and an unknown packet is noted as a new transmission with
    /// next hop and hop limit 0.
    pub fn add_relayer(&mut self, sender: u32, id: u32, relay_node: u8)
        ensures
            final(self)@ == add_relayer_model(old(self)@, sender, id, relay_node),
    {
        if relay_node == 0 {
            return;
        }
        proof {
            use_type_invariant(&*self);
        }
        let ghost h0 = self@;
        if let Some(k) = self.find(sender, id) {
            let mut record = self.records[k];
            let mut slots = record.relayed_by;
            proof {
                law_add_slot_ordered(slots@, relay_node);
            }
            add_relayer_slot(&mut slots, relay_node);
            record.relayed_by = slots;
            self.records[k] = record;
            assert(self@.records =~= add_relayer_model(h0, sender, id, relay_node).records);
            return;
        }
        self.note_tx(sender, id, 0, 0, relay_node);
    }

    /// Whether `relayer` forwarded `(sender, id)`, and whether it is the only
    /// relay known to have done so.
    pub fn was_relayer(&self, relayer: u8, id: u32, sender: u32) -> (r: (bool, bool))
        ensures
            r == was_relayer_model(self@, relayer, id, sender),
    {
        if relayer == 0 {
            return (false, false);
        }
        let k = match self.find(sender, id) {
            Some(k) => k,
            None => return (false, false),
        };
        let record = self.records[k];
        let ghost slots = record.relayed_by@;
        assert(self@.records[k as int].relayers == slots);

        let mut count = 0u8;
        let mut matched = false;
        for i in 0..NUM_RELAYERS
            invariant
                slots == record.relayed_by@,
                slots.len() == NUM_RELAYERS,
                relayer != 0,
                count as nat == count_nonzero(slots.take(i as int)),
                count <= i,
                matched == slots.take(i as int).contains(relayer),
        {
            let r = record.relayed_by[i];
            assert(slots.take(i + 1).drop_last() =~= slots.take(i as int));
            if r != 0 {
                count = count + 1;
                if r == relayer {
                    matched = true;
                }
            }
            proof {
                if matched {
                    if r == relayer {
                        assert(slots.take(i + 1)[i as int] == relayer);
                    } else {
                        let j = choose|j: int| 0 <= j < i && slots.take(i as int)[j] == relayer;
                        assert(slots.take(i + 1)[j] == relayer);
                    }
                } else {
                    assert forall|j: int| 0 <= j < i + 1 implies #[trigger] slots.take(i + 1)[j] != relayer by {
                        if j < i {
                            assert(slots.take(i as int)[j] == slots.take(i + 1)[j]);
                        }
                    }
                }
            }
        }
        assert(slots.take(NUM_RELAYERS as int) =~= slots);
        (matched, matched && count == 1)
    }

    /// The next hop observed for `(sender, id)`, or 0 when it is unknown.
    pub fn observed_next_hop(&self, sender: u32, id: u32) -> (r: u8)
        ensures
            r == observed_next_hop_model(self@, sender, id),
    {
        match self.find(sender, id) {
            Some(k) => self.records[k].next_hop,
            None => 0,
        }
    }
}

impl Default for PacketHistory {
    fn default() -> (h: Self)
        ensures
            h@ == empty_history(),
    {
        Self::new()
    }
}

} // verus!
