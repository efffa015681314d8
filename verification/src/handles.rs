//! Opaque handles for the four cacheable kinds (image, font, text, timer)
//! and the monotonic counters that issue them.
//!
//! A handle is an identity value: equality is identity-only, two handles are
//! equal exactly when they were issued by the same allocation. The allocator
//! hands out strictly increasing raw values per kind, so no two live handles
//! of one kind ever compare equal.

use vstd::prelude::*;

verus! {

/// Identity of an image asset in the resource cache.
#[derive(Copy, Clone, Debug, PartialEq, Eq, Hash, PartialOrd, Ord, Structural)]
pub struct ImageId {
    pub id: u64,
}

/// Identity of a font asset in the resource cache.
#[derive(Copy, Clone, Debug, PartialEq, Eq, Hash, PartialOrd, Ord, Structural)]
pub struct FontId {
    pub id: u64,
}

/// Identity of a stored text in the resource cache.
#[derive(Copy, Clone, Debug, PartialEq, Eq, Hash, PartialOrd, Ord, Structural)]
pub struct TextId {
    pub id: u64,
}

/// Identity of a recurring timer in the timer registry.
#[derive(Copy, Clone, Debug, PartialEq, Eq, Hash, PartialOrd, Ord, Structural)]
pub struct TimerId {
    pub id: u64,
}

impl ImageId {
    pub fn from_raw(id: u64) -> (r: ImageId)
        ensures
            r.id == id,
    {
        ImageId { id }
    }
}

impl FontId {
    pub fn from_raw(id: u64) -> (r: FontId)
        ensures
            r.id == id,
    {
        FontId { id }
    }
}

impl TextId {
    pub fn from_raw(id: u64) -> (r: TextId)
        ensures
            r.id == id,
    {
        TextId { id }
    }
}

impl TimerId {
    pub fn from_raw(id: u64) -> (r: TimerId)
        ensures
            r.id == id,
    {
        TimerId { id }
    }
}

/// A monotonic counter issuing raw handle values for one handle kind.
///
/// `next` returns the current counter value and advances it, so every issued
/// value is strictly greater than every earlier one. The counter never
/// wraps — issuing asks for headroom — so an identity is never reused
/// within the process.
#[derive(Copy, Clone, Debug, PartialEq, Eq, Structural)]
pub struct IdCounter {
    pub next_id: u64,
}

impl IdCounter {
    pub fn new() -> (r: IdCounter)
        ensures
            r.next_id == 0,
    {
        IdCounter { next_id: 0 }
    }

    /// Issues the next raw handle value.
    ///
    /// The issued value equals the counter before the call, and the counter
    /// after the call is strictly greater, so a later call never issues the
    /// same value again.
    pub fn next(&mut self) -> (r: u64)
        requires
            old(self).next_id < u64::MAX,
        ensures
            r == old(self).next_id,
            final(self).next_id == old(self).next_id + 1,
    {
        let r = self.next_id;
        self.next_id = self.next_id + 1;
        r
    }
}

} // verus!
