//! A ring of the fingerprints of the last 32 relayed packets, so that a
//! packet heard again is not relayed twice.
use vstd::prelude::*;

verus! {

pub const DEDUP_RING_SIZE: usize = 32;

pub struct DeduplicatorRing {
    hashes: [u32; DEDUP_RING_SIZE],
    head: usize,
    count: usize,
}

/// The slot of the oldest remembered fingerprint.
pub open spec fn ring_start(head: int, count: int) -> int {
    (head + 32 - count) % 32
}

/// The remembered fingerprints, oldest first, and at most 32 of them.
pub open spec fn ring_window(hashes: Seq<u32>, head: int, count: int) -> Seq<u32> {
    Seq::new(count as nat, |j: int| hashes[(ring_start(head, count) + j) % 32])
}

/// Remembering a fingerprint: it is appended, and the oldest is forgotten
/// when 32 are remembered.
pub open spec fn window_push(w: Seq<u32>, h: u32) -> Seq<u32> {
    if w.len() < DEDUP_RING_SIZE { w.push(h) } else { w.skip(1).push(h) }
}

impl View for DeduplicatorRing {
    type V = Seq<u32>;

    closed spec fn view(&self) -> Seq<u32> {
        ring_window(self.hashes@, self.head as int, self.count as int)
    }
}

/// Law: a fingerprint that is let through is turned away when it comes
/// again straight after.
pub proof fn law_repeat_rejected(w: Seq<u32>, h: u32)
    ensures
        window_push(w, h).contains(h),
{
    assert(window_push(w, h).last() == h);
    assert(window_push(w, h)[window_push(w, h).len() - 1] == h);
}

/// Law: a remembered fingerprint stays remembered while fewer than
/// `DEDUP_RING_SIZE` others arrive after it.
pub proof fn law_remembered_while_recent(w: Seq<u32>, h: u32, x: u32, pos: int)
    requires
        w.len() <= DEDUP_RING_SIZE,
        0 <= pos < w.len(),
        w[pos] == x,
        w.len() < DEDUP_RING_SIZE || pos >= 1,
    ensures
        window_push(w, h).contains(x),
{
    if w.len() < DEDUP_RING_SIZE {
        assert(window_push(w, h)[pos] == x);
    } else {
        assert(window_push(w, h)[pos - 1] == x);
    }
}

impl DeduplicatorRing {
    #[verifier::type_invariant]
    spec fn inv(self) -> bool {
        &&& self.count <= DEDUP_RING_SIZE
        &&& self.head < DEDUP_RING_SIZE
        &&& self.count < DEDUP_RING_SIZE ==> self.head == self.count
    }

    /// An empty ring.
    pub fn new() -> (r: Self)
        ensures
            r@ == Seq::<u32>::empty(),
    {
        let r = Self { hashes: [0u32; DEDUP_RING_SIZE], head: 0, count: 0 };
        assert(r@ =~= Seq::<u32>::empty());
        r
    }

    /// A packet's fingerprint from the CRC-16 of its first half
    /// (`len / 2` bytes) and that of the rest: the first in the high half
    /// of the word.
    pub fn fingerprint(first_half_crc: u16, second_half_crc: u16) -> (h: u32)
        ensures
            h == first_half_crc as int * 65536 + second_half_crc as int,
    {
        let hi = first_half_crc as u32;
        let lo = second_half_crc as u32;
        assert((hi << 16u32) | lo == hi * 65536 + lo) by (bit_vector)
            requires
                hi < 65536,
                lo < 65536,
        ;
        (hi << 16) | lo
    }

    /// Forgets every fingerprint.
    pub fn clear(&mut self)
        ensures
            final(self)@ == Seq::<u32>::empty(),
    {
        *self = Self::new();
    }

    /// True when `hash` is not among the remembered fingerprints, which then
    /// remember it; false, changing nothing, when it is.
    pub fn check_and_insert_fingerprint(&mut self, hash: u32) -> (fresh: bool)
        ensures
            fresh == !old(self)@.contains(hash),
            fresh ==> final(self)@ == window_push(old(self)@, hash),
            !fresh ==> final(self)@ == old(self)@,
    {
        proof {
            use_type_invariant(&*self);
        }
        let ghost w = self@;
        let ghost hs = self.hashes@;
        let slots = if self.count < DEDUP_RING_SIZE { self.count } else { DEDUP_RING_SIZE };
        for i in 0..slots
            invariant
                self.hashes@ == hs,
                w == ring_window(hs, self.head as int, self.count as int),
                self.count <= DEDUP_RING_SIZE,
                self.head < DEDUP_RING_SIZE,
                self.count < DEDUP_RING_SIZE ==> self.head == self.count,
                slots == self.count,
                self.count < DEDUP_RING_SIZE ==> forall|j: int| 0 <= j < i ==> w[j] != hash,
                self.count == DEDUP_RING_SIZE ==> forall|j: int| 32 - i <= j < 32 ==> w[j] != hash,
        {
            let idx = if self.count < DEDUP_RING_SIZE {
                i
            } else {
                (self.head + DEDUP_RING_SIZE - 1 - i) % DEDUP_RING_SIZE
            };
            proof {
                if self.count < DEDUP_RING_SIZE {
                    assert(ring_start(self.head as int, self.count as int) == 0);
                    assert(w[i as int] == hs[idx as int]);
                } else {
                    assert(ring_start(self.head as int, self.count as int) == self.head as int);
                    assert(w[31 - i] == hs[idx as int]);
                }
            }
            if self.hashes[idx] == hash {
                proof {
                    if self.count < DEDUP_RING_SIZE {
                        assert(w[i as int] == hash);
                    } else {
                        assert(w[31 - i] == hash);
                    }
                }
                return false;
            }
        }
        assert(!w.contains(hash));

        let head = self.head;
        let count = self.count;
        let mut hashes = self.hashes;
        hashes[head] = hash;
        let new_count = if count < DEDUP_RING_SIZE { count + 1 } else { count };
        *self = Self { hashes, head: (head + 1) % DEDUP_RING_SIZE, count: new_count };
        proof {
            let w2 = self@;
            let np = window_push(w, hash);
            assert(w2.len() == np.len());
            assert forall|j: int| 0 <= j < w2.len() implies w2[j] == np[j] by {
                if count < DEDUP_RING_SIZE {
                    assert(ring_start(head as int, count as int) == 0);
                    assert(ring_start(self.head as int, self.count as int) == 0);
                } else {
                    assert(ring_start(head as int, count as int) == head as int);
                    assert(ring_start(self.head as int, self.count as int) == self.head as int);
                    if j < 31 {
                        assert((self.head + j) % 32 == (head + j + 1) % 32);
                        assert((head + j + 1) % 32 != head);
                    }
                }
            }
            assert(w2 =~= np);
        }
        true
    }
}

} // verus!
