//! The per-sweep set of title ids seen by the anchor feed.
use vstd::prelude::*;

use roaring::RoaringBitmap;

verus! {

#[verifier::external_type_specification]
#[verifier::external_body]
pub struct ExRoaringBitmap(RoaringBitmap);

/// The integers that a bitmap holds.
pub uninterp spec fn bitmap_ids(b: RoaringBitmap) -> Set<u32>;

/// Relies on `RoaringBitmap::new`: a bitmap that holds nothing.
#[verifier::external_body]
fn bitmap_new() -> (r: RoaringBitmap)
    ensures
        bitmap_ids(r) == Set::<u32>::empty(),
{
    RoaringBitmap::new()
}

/// Relies on `RoaringBitmap::insert`: adds `v`, and reports whether it was absent.
#[verifier::external_body]
fn bitmap_insert(b: &mut RoaringBitmap, v: u32) -> (r: bool)
    ensures
        bitmap_ids(*final(b)) == bitmap_ids(*old(b)).insert(v),
        r == !bitmap_ids(*old(b)).contains(v),
{
    b.insert(v)
}

/// Relies on `RoaringBitmap::contains`: whether `v` is held.
#[verifier::external_body]
fn bitmap_contains(b: &RoaringBitmap, v: u32) -> (r: bool)
    ensures
        r == bitmap_ids(*b).contains(v),
{
    b.contains(v)
}

/// A compact set of title ids. The anchor feed fills it; dependent feeds
/// only test membership.
pub struct KnownIds {
    bits: RoaringBitmap,
}

impl View for KnownIds {
    type V = Set<u32>;

    closed spec fn view(&self) -> Set<u32> {
        bitmap_ids(self.bits)
    }
}

impl KnownIds {
    pub fn new() -> (r: KnownIds)
        ensures
            r@ == Set::<u32>::empty(),
    {
        KnownIds { bits: bitmap_new() }
    }

    /// Adds `id`; returns whether it was new.
    pub fn insert(&mut self, id: u32) -> (r: bool)
        ensures
            final(self)@ == old(self)@.insert(id),
            r == !old(self)@.contains(id),
    {
        bitmap_insert(&mut self.bits, id)
    }

    pub fn contains(&self, id: u32) -> (r: bool)
        ensures
            r == self@.contains(id),
    {
        bitmap_contains(&self.bits, id)
    }
}

} // verus!
