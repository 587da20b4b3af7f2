//! Trusted access to `roaring::RoaringBitmap`, whose contents are modelled as a
//! finite set of offset ids.
use roaring::RoaringBitmap;
use vstd::prelude::*;

verus! {

#[verifier::external_type_specification]
#[verifier::external_body]
pub struct ExRoaringBitmap(RoaringBitmap);

/// The set of ids that a bitmap holds.
pub uninterp spec fn ids_of(b: RoaringBitmap) -> Set<u32>;

/// Relies on `RoaringBitmap::new`: a new bitmap holds no id.
#[verifier::external_body]
pub(crate) fn bitmap_new() -> (r: RoaringBitmap)
    ensures
        ids_of(r) == Set::<u32>::empty(),
{
    RoaringBitmap::new()
}

/// Relies on `RoaringBitmap::insert`: the id is added, nothing else changes.
#[verifier::external_body]
pub(crate) fn bitmap_insert(b: &mut RoaringBitmap, v: u32)
    ensures
        ids_of(*final(b)) == ids_of(*old(b)).insert(v),
{
    b.insert(v);
}

/// Relies on `Clone for RoaringBitmap`: the copy holds the same ids.
#[verifier::external_body]
pub(crate) fn bitmap_clone(b: &RoaringBitmap) -> (r: RoaringBitmap)
    ensures
        ids_of(r) == ids_of(*b),
{
    b.clone()
}

/// Relies on `BitAnd for &RoaringBitmap`: the intersection.
#[verifier::external_body]
pub(crate) fn bitmap_and(a: &RoaringBitmap, b: &RoaringBitmap) -> (r: RoaringBitmap)
    ensures
        ids_of(r) == ids_of(*a).intersect(ids_of(*b)),
{
    a & b
}

/// Relies on `BitOr for &RoaringBitmap`: the union.
#[verifier::external_body]
pub(crate) fn bitmap_or(a: &RoaringBitmap, b: &RoaringBitmap) -> (r: RoaringBitmap)
    ensures
        ids_of(r) == ids_of(*a).union(ids_of(*b)),
{
    a | b
}

/// Relies on `Sub for &RoaringBitmap`: the ids of `a` that are not in `b`.
#[verifier::external_body]
pub(crate) fn bitmap_sub(a: &RoaringBitmap, b: &RoaringBitmap) -> (r: RoaringBitmap)
    ensures
        ids_of(r) == ids_of(*a).difference(ids_of(*b)),
{
    a - b
}

} // verus!
