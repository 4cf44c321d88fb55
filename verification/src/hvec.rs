//! The fixed-capacity vectors of `heapless` that the radio, frame and node
//! database code keeps its bytes and entries in, with the calls made on them.
use vstd::prelude::*;

verus! {

#[verifier::external_type_specification]
#[verifier::external_body]
#[verifier::reject_recursive_types(T)]
pub struct ExHeaplessVec<T, const N: usize>(heapless::Vec<T, N>);

/// The bytes held by a `heapless::Vec<u8, 256>`.
pub uninterp spec fn bytes256_view(v: heapless::Vec<u8, 256>) -> Seq<u8>;

/// The bytes held by a `heapless::Vec<u8, 266>`.
pub uninterp spec fn bytes266_view(v: heapless::Vec<u8, 266>) -> Seq<u8>;

/// The bytes held by a `heapless::Vec<u8, 128>`.
pub uninterp spec fn bytes128_view(v: heapless::Vec<u8, 128>) -> Seq<u8>;

/// The entries held by a `heapless::Vec<u32, 32>`.
pub uninterp spec fn ids32_view(v: heapless::Vec<u32, 32>) -> Seq<u32>;

/// The entries held by a `heapless::Vec<[u8; 32], 32>`.
pub uninterp spec fn keys32_view(v: heapless::Vec<[u8; 32], 32>) -> Seq<[u8; 32]>;

/// `heapless::Vec::<u8, 128>::new`: an empty vector.
#[verifier::external_body]
pub(crate) fn bytes128_new() -> (v: heapless::Vec<u8, 128>)
    ensures
        bytes128_view(v) == Seq::<u8>::empty(),
{
    heapless::Vec::new()
}

/// `heapless::Vec::<u8, 128>::push`: appends when there is room, else
/// leaves the vector as it was; true when it appended.
#[verifier::external_body]
pub(crate) fn bytes128_push(v: &mut heapless::Vec<u8, 128>, item: u8) -> (ok: bool)
    ensures
        ok == (bytes128_view(*old(v)).len() < 128),
        ok ==> bytes128_view(*final(v)) == bytes128_view(*old(v)).push(item),
        !ok ==> bytes128_view(*final(v)) == bytes128_view(*old(v)),
{
    v.push(item).is_ok()
}

/// `heapless::Vec::<u8, 128>::clear`: empties the vector.
#[verifier::external_body]
pub(crate) fn bytes128_clear(v: &mut heapless::Vec<u8, 128>)
    ensures
        bytes128_view(*final(v)) == Seq::<u8>::empty(),
{
    v.clear()
}

/// `heapless::Vec::<u8, 128>::as_slice`: the bytes held, never more than
/// the capacity.
#[verifier::external_body]
pub(crate) fn bytes128_as_slice(v: &heapless::Vec<u8, 128>) -> (r: &[u8])
    ensures
        r@ == bytes128_view(*v),
        r@.len() <= 128,
{
    v.as_slice()
}

/// `heapless::Vec::<u8, 256>::new`: an empty vector.
#[verifier::external_body]
pub(crate) fn bytes256_new() -> (v: heapless::Vec<u8, 256>)
    ensures
        bytes256_view(v) == Seq::<u8>::empty(),
{
    heapless::Vec::new()
}

/// `heapless::Vec::<u8, 256>::from_slice`: a copy of `data` when it fits in
/// 256 bytes, `None` (the crate's `Err(())`) otherwise.
#[verifier::external_body]
pub(crate) fn bytes256_from_slice(data: &[u8]) -> (r: Option<heapless::Vec<u8, 256>>)
    ensures
        r is Some <==> data@.len() <= 256,
        r matches Some(v) ==> bytes256_view(v) == data@,
{
    heapless::Vec::from_slice(data).ok()
}

/// `heapless::Vec::<u8, 256>::as_slice`: the bytes held, never more than
/// the capacity.
#[verifier::external_body]
pub(crate) fn bytes256_as_slice(v: &heapless::Vec<u8, 256>) -> (r: &[u8])
    ensures
        r@ == bytes256_view(*v),
        r@.len() <= 256,
{
    v.as_slice()
}

/// `heapless::Vec::<u8, 266>::from_slice`: a copy of `data` when it fits in
/// 266 bytes, `None` otherwise.
#[verifier::external_body]
pub(crate) fn bytes266_from_slice(data: &[u8]) -> (r: Option<heapless::Vec<u8, 266>>)
    ensures
        r is Some <==> data@.len() <= 266,
        r matches Some(v) ==> bytes266_view(v) == data@,
{
    heapless::Vec::from_slice(data).ok()
}

/// `heapless::Vec::<u32, 32>::new`: an empty vector.
#[verifier::external_body]
pub(crate) fn ids32_new() -> (v: heapless::Vec<u32, 32>)
    ensures
        ids32_view(v) == Seq::<u32>::empty(),
{
    heapless::Vec::new()
}

/// `heapless::Vec::<u32, 32>::as_slice`: the entries held, never more than
/// the capacity.
#[verifier::external_body]
pub(crate) fn ids32_as_slice(v: &heapless::Vec<u32, 32>) -> (r: &[u32])
    ensures
        r@ == ids32_view(*v),
        r@.len() <= 32,
{
    v.as_slice()
}

/// `heapless::Vec::<u32, 32>::push`: appends when there is room, else
/// leaves the vector as it was; true when it appended.
#[verifier::external_body]
pub(crate) fn ids32_push(v: &mut heapless::Vec<u32, 32>, item: u32) -> (ok: bool)
    ensures
        ok == (ids32_view(*old(v)).len() < 32),
        ok ==> ids32_view(*final(v)) == ids32_view(*old(v)).push(item),
        !ok ==> ids32_view(*final(v)) == ids32_view(*old(v)),
{
    v.push(item).is_ok()
}

/// `heapless::Vec::<u32, 32>::remove`: takes out the entry at `index`,
/// shifting the later ones down (the crate panics on an index out of range).
#[verifier::external_body]
pub(crate) fn ids32_remove(v: &mut heapless::Vec<u32, 32>, index: usize) -> (item: u32)
    requires
        index < ids32_view(*old(v)).len(),
    ensures
        item == ids32_view(*old(v))[index as int],
        ids32_view(*final(v)) == ids32_view(*old(v)).remove(index as int),
{
    v.remove(index)
}

/// `heapless::Vec::<[u8; 32], 32>::new`: an empty vector.
#[verifier::external_body]
pub(crate) fn keys32_new() -> (v: heapless::Vec<[u8; 32], 32>)
    ensures
        keys32_view(v) == Seq::<[u8; 32]>::empty(),
{
    heapless::Vec::new()
}

/// `heapless::Vec::<[u8; 32], 32>::as_slice`: the entries held, never more
/// than the capacity.
#[verifier::external_body]
pub(crate) fn keys32_as_slice(v: &heapless::Vec<[u8; 32], 32>) -> (r: &[[u8; 32]])
    ensures
        r@ == keys32_view(*v),
        r@.len() <= 32,
{
    v.as_slice()
}

/// `heapless::Vec::<[u8; 32], 32>::push`: appends when there is room, else
/// leaves the vector as it was; true when it appended.
#[verifier::external_body]
pub(crate) fn keys32_push(v: &mut heapless::Vec<[u8; 32], 32>, item: [u8; 32]) -> (ok: bool)
    ensures
        ok == (keys32_view(*old(v)).len() < 32),
        ok ==> keys32_view(*final(v)) == keys32_view(*old(v)).push(item),
        !ok ==> keys32_view(*final(v)) == keys32_view(*old(v)),
{
    v.push(item).is_ok()
}

/// `heapless::Vec::<[u8; 32], 32>::remove`: takes out the entry at `index`,
/// shifting the later ones down (the crate panics on an index out of range).
#[verifier::external_body]
pub(crate) fn keys32_remove(v: &mut heapless::Vec<[u8; 32], 32>, index: usize) -> (item: [u8; 32])
    requires
        index < keys32_view(*old(v)).len(),
    ensures
        item == keys32_view(*old(v))[index as int],
        keys32_view(*final(v)) == keys32_view(*old(v)).remove(index as int),
{
    v.remove(index)
}

/// Assignment through `heapless::Vec::<[u8; 32], 32>`'s `DerefMut` to its
/// slice: replaces the entry at `index` (the slice panics on an index out of
/// range).
#[verifier::external_body]
pub(crate) fn keys32_set(v: &mut heapless::Vec<[u8; 32], 32>, index: usize, item: [u8; 32])
    requires
        index < keys32_view(*old(v)).len(),
    ensures
        keys32_view(*final(v)) == keys32_view(*old(v)).update(index as int, item),
{
    v[index] = item;
}

} // verus!
