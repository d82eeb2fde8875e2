//! The compressed post-id sets of the index.
//!
//! The sets are `roaring::RoaringBitmap` values. Verus cannot look inside
//! them, so this module gives their contents a name, [`members`], and states
//! over that name what each method used by the index does. Nothing here is
//! proved: the contracts restate the behaviour of the `roaring` crate.

use roaring::RoaringBitmap;
use vstd::prelude::*;

verus! {

/// `roaring::RoaringBitmap`, made known to the verifier as an opaque type.
#[verifier::external_type_specification]
#[verifier::external_body]
pub struct ExRoaringBitmap(roaring::RoaringBitmap);

/// `roaring::bitmap::IntoIter`, the iterator that consumes a bitmap, made
/// known to the verifier as an opaque type.
#[verifier::external_type_specification]
#[verifier::external_body]
pub struct ExBitmapIntoIter(roaring::bitmap::IntoIter);

/// The integers held by a bitmap.
pub uninterp spec fn members(bitmap: RoaringBitmap) -> Set<u32>;

/// The integers an iterator over a bitmap has yet to give out, in the order
/// in which it will give them.
pub uninterp spec fn pending(iter: roaring::bitmap::IntoIter) -> Seq<u32>;

/// `s` lists the elements of `set` in strictly ascending order.
pub open spec fn ascending_listing(s: Seq<u32>, set: Set<u32>) -> bool {
    &&& forall|i: int, j: int| 0 <= i < j < s.len() ==> s[i] < s[j]
    &&& forall|v: u32| set.contains(v) <==> s.contains(v)
}

/// `RoaringBitmap::new`: a bitmap without elements.
#[verifier::external_body]
pub(crate) fn bitmap_new() -> (bitmap: RoaringBitmap)
    ensures
        members(bitmap) == Set::<u32>::empty(),
{
    RoaringBitmap::new()
}

/// `RoaringBitmap::insert`: adds `value` to the set and reports whether it
/// was absent before.
#[verifier::external_body]
pub(crate) fn bitmap_insert(bitmap: &mut RoaringBitmap, value: u32) -> (added: bool)
    ensures
        members(*final(bitmap)) == members(*old(bitmap)).insert(value),
        added == !members(*old(bitmap)).contains(value),
{
    bitmap.insert(value)
}

/// `RoaringBitmap::is_empty`: whether the set has no element.
#[verifier::external_body]
pub(crate) fn bitmap_is_empty(bitmap: &RoaringBitmap) -> (empty: bool)
    ensures
        empty == (members(*bitmap) == Set::<u32>::empty()),
{
    bitmap.is_empty()
}

/// `RoaringBitmap::clone`: a bitmap with the same elements.
#[verifier::external_body]
pub(crate) fn bitmap_clone(bitmap: &RoaringBitmap) -> (copy: RoaringBitmap)
    ensures
        members(copy) == members(*bitmap),
{
    bitmap.clone()
}

/// `RoaringBitmap &= &RoaringBitmap`: keeps the elements that `other` holds
/// too.
#[verifier::external_body]
pub(crate) fn bitmap_intersect_with(bitmap: &mut RoaringBitmap, other: &RoaringBitmap)
    ensures
        members(*final(bitmap)) == members(*old(bitmap)).intersect(members(*other)),
{
    *bitmap &= other;
}

/// `RoaringBitmap::into_iter`: an iterator that gives out every element once,
/// smallest first.
#[verifier::external_body]
pub(crate) fn bitmap_into_iter(bitmap: RoaringBitmap) -> (iter: roaring::bitmap::IntoIter)
    ensures
        ascending_listing(pending(iter), members(bitmap)),
{
    bitmap.into_iter()
}

/// `Iterator::next` of `roaring::bitmap::IntoIter`: hands out the first
/// pending element, if there is one.
#[verifier::external_body]
pub(crate) fn bitmap_iter_next(iter: &mut roaring::bitmap::IntoIter) -> (item: Option<u32>)
    ensures
        pending(*old(iter)).len() == 0 ==> item is None && pending(*final(iter)).len() == 0,
        pending(*old(iter)).len() > 0 ==> item == Some(pending(*old(iter))[0])
            && pending(*final(iter)) == pending(*old(iter)).skip(1),
{
    iter.next()
}

} // verus!
