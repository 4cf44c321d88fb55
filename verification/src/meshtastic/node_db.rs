//! The public keys of known nodes, at most `MAX_NODES` of them; when full,
//! the oldest entry makes room for a new node.
use vstd::prelude::*;
use crate::hvec::{
    ids32_as_slice, ids32_new, ids32_push, ids32_remove, ids32_view, keys32_as_slice, keys32_new,
    keys32_push, keys32_remove, keys32_set, keys32_view,
};

verus! {

pub const MAX_NODES: usize = 32;

pub struct NodeDb {
    ids: heapless::Vec<u32, MAX_NODES>,
    keys: heapless::Vec<[u8; 32], MAX_NODES>,
}

/// The model of the database: node ids and their keys, oldest first.
pub struct NodeDbView {
    pub ids: Seq<u32>,
    pub keys: Seq<[u8; 32]>,
}

impl View for NodeDb {
    type V = NodeDbView;

    closed spec fn view(&self) -> NodeDbView {
        NodeDbView { ids: ids32_view(self.ids), keys: keys32_view(self.keys) }
    }
}

/// The first position of `id` at or after `k`.
pub open spec fn position_from(ids: Seq<u32>, id: u32, k: int) -> Option<int>
    decreases ids.len() - k,
{
    if k < 0 || k >= ids.len() {
        None
    } else if ids[k] == id {
        Some(k)
    } else {
        position_from(ids, id, k + 1)
    }
}

/// The first position of `id`.
pub open spec fn position(ids: Seq<u32>, id: u32) -> Option<int> {
    position_from(ids, id, 0)
}

/// An all-zero key stands for "no key".
pub open spec fn is_zero_key(key: [u8; 32]) -> bool {
    forall|i: int| 0 <= i < 32 ==> key@[i] == 0
}

/// A well-formed database: one key per id, at most `MAX_NODES` entries.
pub open spec fn db_wf(db: NodeDbView) -> bool {
    db.ids.len() == db.keys.len() && db.ids.len() <= MAX_NODES
}

/// The database after `set_public_key(node_id, key)`: a zero key is
/// ignored; a known node gets the new key; a new node is appended, after the
/// oldest entry is dropped when the database is full.
pub open spec fn set_key_model(db: NodeDbView, node_id: u32, key: [u8; 32]) -> NodeDbView {
    if is_zero_key(key) {
        db
    } else {
        match position(db.ids, node_id) {
            Some(i) => NodeDbView { ids: db.ids, keys: db.keys.update(i, key) },
            None => if db.ids.len() >= MAX_NODES {
                NodeDbView { ids: db.ids.remove(0).push(node_id), keys: db.keys.remove(0).push(key) }
            } else {
                NodeDbView { ids: db.ids.push(node_id), keys: db.keys.push(key) }
            },
        }
    }
}

/// The key stored for `node_id`.
pub open spec fn get_key_model(db: NodeDbView, node_id: u32) -> Option<[u8; 32]> {
    match position(db.ids, node_id) {
        Some(i) => Some(db.keys[i]),
        None => None,
    }
}

proof fn lemma_position_found(ids: Seq<u32>, id: u32, k: int)
    requires
        0 <= k,
        position_from(ids, id, k) is Some,
    ensures
        k <= position_from(ids, id, k)->0 < ids.len(),
        ids[position_from(ids, id, k)->0] == id,
    decreases ids.len() - k,
{
    if k < ids.len() && ids[k] != id {
        lemma_position_found(ids, id, k + 1);
    }
}

proof fn lemma_position_none(ids: Seq<u32>, id: u32, k: int)
    requires
        0 <= k,
        position_from(ids, id, k) is None,
    ensures
        forall|j: int| k <= j < ids.len() ==> ids[j] != id,
    decreases ids.len() - k,
{
    if k < ids.len() {
        lemma_position_none(ids, id, k + 1);
    }
}

proof fn lemma_position_is(ids: Seq<u32>, id: u32, k: int, from: int)
    requires
        0 <= from <= k < ids.len(),
        ids[k] == id,
        forall|j: int| from <= j < k ==> ids[j] != id,
    ensures
        position_from(ids, id, from) == Some(k),
    decreases k - from,
{
    if from < k {
        lemma_position_is(ids, id, k, from + 1);
    }
}

proof fn lemma_position_unchanged(ids: Seq<u32>, ids2: Seq<u32>, id: u32, k: int)
    requires
        0 <= k,
        ids.len() <= ids2.len(),
        forall|j: int| k <= j < ids.len() ==> ids2[j] == ids[j],
        forall|j: int| ids.len() <= j < ids2.len() ==> ids2[j] != id,
    ensures
        position_from(ids2, id, k) == position_from(ids, id, k),
    decreases ids2.len() - k,
{
    if k < ids2.len() {
        lemma_position_unchanged(ids, ids2, id, k + 1);
    }
}

/// Law: a nonzero key just set for a node is the key read back for it.
pub proof fn law_set_then_get(db: NodeDbView, node_id: u32, key: [u8; 32])
    requires
        db_wf(db),
        !is_zero_key(key),
    ensures
        get_key_model(set_key_model(db, node_id, key), node_id) == Some(key),
        db_wf(set_key_model(db, node_id, key)),
{
    let db2 = set_key_model(db, node_id, key);
    match position(db.ids, node_id) {
        Some(i) => {
            lemma_position_found(db.ids, node_id, 0);
        },
        None => {
            lemma_position_none(db.ids, node_id, 0);
            let n = db2.ids.len() - 1;
            assert(db2.ids[n] == node_id);
            assert forall|j: int| 0 <= j < n implies db2.ids[j] != node_id by {
                if db.ids.len() >= MAX_NODES {
                    assert(db2.ids[j] == db.ids[j + 1]);
                } else {
                    assert(db2.ids[j] == db.ids[j]);
                }
            }
            lemma_position_is(db2.ids, node_id, n, 0);
        },
    }
}

/// Law: an all-zero key changes nothing.
pub proof fn law_zero_key_ignored(db: NodeDbView, node_id: u32, key: [u8; 32])
    requires
        is_zero_key(key),
    ensures
        set_key_model(db, node_id, key) == db,
{
}

/// Law: setting a key for one node leaves the key read for any other node
/// as it was, unless the database was full and dropped its oldest entry.
pub proof fn law_set_keeps_others(db: NodeDbView, node_id: u32, key: [u8; 32], other: u32)
    requires
        db_wf(db),
        other != node_id,
        position(db.ids, node_id) is Some || db.ids.len() < MAX_NODES,
    ensures
        get_key_model(set_key_model(db, node_id, key), other) == get_key_model(db, other),
{
    let db2 = set_key_model(db, node_id, key);
    if !is_zero_key(key) {
        match position(db.ids, node_id) {
            Some(i) => {
                lemma_position_unchanged(db.ids, db2.ids, other, 0);
                if let Some(p) = position(db.ids, other) {
                    lemma_position_found(db.ids, other, 0);
                    lemma_position_found(db.ids, node_id, 0);
                }
            },
            None => {
                lemma_position_unchanged(db.ids, db2.ids, other, 0);
                if let Some(p) = position(db.ids, other) {
                    lemma_position_found(db.ids, other, 0);
                }
            },
        }
    }
}

proof fn lemma_position_shifted(ids: Seq<u32>, ids2: Seq<u32>, id: u32, k: int)
    requires
        0 <= k,
        ids.len() >= 1,
        ids2.len() == ids.len(),
        forall|j: int| 0 <= j < ids.len() - 1 ==> ids2[j] == ids[j + 1],
        ids2[ids.len() - 1] != id,
    ensures
        match position_from(ids, id, k + 1) {
            Some(p) => position_from(ids2, id, k) == Some(p - 1),
            None => position_from(ids2, id, k) is None,
        },
    decreases ids2.len() - k,
{
    if k < ids2.len() {
        lemma_position_shifted(ids, ids2, id, k + 1);
    }
}

/// Law: a full database that takes a new node drops only its oldest entry:
/// it stays full, and every other node keeps its key.
pub proof fn law_full_drops_only_oldest(db: NodeDbView, node_id: u32, key: [u8; 32], other: u32)
    requires
        db_wf(db),
        !is_zero_key(key),
        position(db.ids, node_id) is None,
        db.ids.len() == MAX_NODES,
        other != node_id,
        other != db.ids[0],
    ensures
        set_key_model(db, node_id, key).ids.len() == MAX_NODES,
        get_key_model(set_key_model(db, node_id, key), other) == get_key_model(db, other),
{
    let db2 = set_key_model(db, node_id, key);
    lemma_position_shifted(db.ids, db2.ids, other, 0);
    assert(position(db.ids, other) == position_from(db.ids, other, 1));
    if let Some(p) = position(db.ids, other) {
        lemma_position_found(db.ids, other, 1);
    }
}

/// Law: the database grows by one for a nonzero key of a new node while it
/// has room, and otherwise keeps its size; it never exceeds `MAX_NODES`.
pub proof fn law_set_size(db: NodeDbView, node_id: u32, key: [u8; 32])
    requires
        db_wf(db),
    ensures
        set_key_model(db, node_id, key).ids.len() == (if !is_zero_key(key) && position(db.ids, node_id) is None
            && db.ids.len() < MAX_NODES { db.ids.len() + 1 } else { db.ids.len() }),
        db_wf(set_key_model(db, node_id, key)),
{
    if position(db.ids, node_id) is Some {
        lemma_position_found(db.ids, node_id, 0);
    }
}

impl NodeDb {
    #[verifier::type_invariant]
    spec fn inv(self) -> bool {
        db_wf(self@)
    }

    /// An empty database.
    pub fn new() -> (db: Self)
        ensures
            db@.ids == Seq::<u32>::empty(),
            db@.keys == Seq::<[u8; 32]>::empty(),
    {
        Self { ids: ids32_new(), keys: keys32_new() }
    }

    /// The number of nodes with a key.
    pub fn len(&self) -> (n: usize)
        ensures
            n == self@.ids.len(),
    {
        ids32_as_slice(&self.ids).len()
    }

    fn position(&self, node_id: u32) -> (r: Option<usize>)
        ensures
            match r {
                Some(i) => position(self@.ids, node_id) == Some(i as int),
                None => position(self@.ids, node_id) is None,
            },
    {
        let ids = ids32_as_slice(&self.ids);
        for i in 0..ids.len()
            invariant
                ids@ == self@.ids,
                position(self@.ids, node_id) == position_from(ids@, node_id, i as int),
        {
            if ids[i] == node_id {
                return Some(i);
            }
        }
        None
    }

    /// Stores `public_key` for `node_id`, ignoring an all-zero key; a new
    /// node replaces the oldest entry when the database is full.
    pub fn set_public_key(&mut self, node_id: u32, public_key: [u8; 32])
        ensures
            final(self)@ == set_key_model(old(self)@, node_id, public_key),
    {
        proof {
            use_type_invariant(&*self);
        }
        let mut all_zero = true;
        for i in 0..32
            invariant
                all_zero == (forall|j: int| 0 <= j < i ==> public_key@[j] == 0),
        {
            if public_key[i] != 0 {
                all_zero = false;
            }
        }
        if all_zero {
            return;
        }

        let found = self.position(node_id);
        let ghost db0 = self@;
        let mut taken = NodeDb::new();
        core::mem::swap(&mut taken, self);
        proof {
            use_type_invariant(&taken);
        }
        let NodeDb { mut ids, mut keys } = taken;

        if let Some(idx) = found {
            proof {
                lemma_position_found(db0.ids, node_id, 0);
            }
            keys32_set(&mut keys, idx, public_key);
            *self = NodeDb { ids, keys };
            assert(self@ == set_key_model(db0, node_id, public_key));
            return;
        }

        if ids32_as_slice(&ids).len() >= MAX_NODES {
            let _ = ids32_remove(&mut ids, 0);
            let _ = keys32_remove(&mut keys, 0);
        }
        let _ = ids32_push(&mut ids, node_id);
        let _ = keys32_push(&mut keys, public_key);
        *self = NodeDb { ids, keys };
        assert(self@ == set_key_model(db0, node_id, public_key));
    }

    /// The key stored for `node_id`.
    pub fn get_public_key(&self, node_id: u32) -> (r: Option<&[u8; 32]>)
        ensures
            match r {
                Some(k) => get_key_model(self@, node_id) == Some(*k),
                None => get_key_model(self@, node_id) is None,
            },
    {
        proof {
            use_type_invariant(self);
        }
        match self.position(node_id) {
            Some(idx) => {
                proof {
                    lemma_position_found(self@.ids, node_id, 0);
                }
                let keys = keys32_as_slice(&self.keys);
                Some(&keys[idx])
            },
            None => None,
        }
    }
}

impl Default for NodeDb {
    fn default() -> (db: Self)
        ensures
            db@.ids == Seq::<u32>::empty(),
            db@.keys == Seq::<[u8; 32]>::empty(),
    {
        Self::new()
    }
}

} // verus!
