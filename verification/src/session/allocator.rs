//! Display numbers for new sessions.
use vstd::prelude::*;
use crate::session::traits::{DisplayAllocator, SessionError};
use std::collections::HashSet;

verus! {

broadcast use vstd::std_specs::hash::group_hash_axioms;

/// Hands out display numbers of a fixed range, skipping those in use.
pub struct LocalDisplayAllocator {
    min_display: u8,
    max_display: u8,
    allocated: HashSet<u8>,
}

/// The first display of `d..=max` that is neither allocated nor has a socket.
pub open spec fn first_free(d: int, max: int, allocated: Set<u8>, existing: Seq<u8>) -> Option<u8>
    decreases max + 1 - d,
{
    if d > max || d < 0 || d > 255 {
        None
    } else if !allocated.contains(d as u8) && !existing.contains(d as u8) {
        Some(d as u8)
    } else {
        first_free(d + 1, max, allocated, existing)
    }
}

/// The display `first_free` finds is in the range, not handed out and has no socket.
pub proof fn lemma_first_free_is_free(d: int, max: int, allocated: Set<u8>, existing: Seq<u8>)
    ensures
        match first_free(d, max, allocated, existing) {
            Some(x) => d <= x <= max && !allocated.contains(x) && !existing.contains(x),
            None => true,
        },
    decreases max + 1 - d,
{
    if !(d > max || d < 0 || d > 255) && !(!allocated.contains(d as u8) && !existing.contains(d as u8)) {
        lemma_first_free_is_free(d + 1, max, allocated, existing);
    }
}

impl LocalDisplayAllocator {
    pub closed spec fn min(&self) -> u8 {
        self.min_display
    }

    pub closed spec fn max(&self) -> u8 {
        self.max_display
    }

    /// The display numbers handed out and not yet given back.
    pub closed spec fn allocated(&self) -> Set<u8> {
        self.allocated@
    }

    /// An allocator for the displays `min..=max`, none of them handed out.
    pub fn new(min: u8, max: u8) -> (r: LocalDisplayAllocator)
        ensures
            r.min() == min,
            r.max() == max,
            r.allocated() == Set::<u8>::empty(),
    {
        LocalDisplayAllocator { min_display: min, max_display: max, allocated: HashSet::new() }
    }

    fn holds(&self, d: u8) -> (r: bool)
        ensures
            r == self.allocated().contains(d),
    {
        self.allocated.contains(&d)
    }
}

fn contains_u8(v: &Vec<u8>, d: u8) -> (r: bool)
    ensures
        r == v@.contains(d),
{
    let mut i: usize = 0;
    while i < v.len()
        invariant
            i <= v@.len(),
            forall|j: int| 0 <= j < i ==> v@[j] != d,
        decreases v.len() - i,
    {
        if v[i] == d {
            return true;
        }
        i = i + 1;
    }
    false
}

impl DisplayAllocator for LocalDisplayAllocator {
    /// The first display of the range that is neither handed out nor has a
    /// socket in `existing`; it is then handed out. When there is none, the
    /// range is reported and nothing changes.
    fn allocate(&mut self, existing: &Vec<u8>) -> (r: Result<u8, SessionError>)
        ensures
            final(self).min() == old(self).min(),
            final(self).max() == old(self).max(),
            match first_free(old(self).min() as int, old(self).max() as int, old(self).allocated(), existing@) {
                Some(d) => r == Ok::<u8, SessionError>(d) && final(self).allocated() == old(self).allocated().insert(d),
                None => r == Err::<u8, SessionError>(SessionError::NoDisplayAvailable { min: old(self).min(), max: old(self).max() })
                    && final(self).allocated() == old(self).allocated(),
            },
    {
        let min = self.min_display;
        let max = self.max_display;
        let mut d: u16 = min as u16;
        while d <= max as u16
            invariant
                min == self.min_display,
                max == self.max_display,
                self.min_display == old(self).min_display,
                self.max_display == old(self).max_display,
                self.allocated@ == old(self).allocated@,
                min <= d <= max as u16 + 1 || d == min,
                first_free(min as int, max as int, self.allocated(), existing@)
                    == first_free(d as int, max as int, self.allocated(), existing@),
            decreases max as u16 + 1 - d,
        {
            let x = d as u8;
            if !self.holds(x) && !contains_u8(existing, x) {
                self.allocated.insert(x);
                return Ok(x);
            }
            d = d + 1;
        }
        Err(SessionError::NoDisplayAvailable { min, max })
    }

    /// Give `display_id` back.
    fn release(&mut self, display_id: u8)
        ensures
            final(self).min() == old(self).min(),
            final(self).max() == old(self).max(),
            final(self).allocated() == old(self).allocated().remove(display_id),
    {
        self.allocated.remove(&display_id);
    }
}

} // verus!
