//! A transform that keeps a fixed run of bytes from inside the key.

use crate::contract::{Call, SliceTransformFns};
use vstd::prelude::*;
use vstd::slice::slice_subrange;

verus! {

/// Maps a key to its bytes `start..end`. Its domain is the keys of at least
/// `end` bytes, and none where `end` is below `start`; a key outside the
/// domain is handed back whole. A key is in range where it has the length of
/// such a run, `end - start`.
pub struct FixedSegment {
    pub start: usize,
    pub end: usize,
    pub answered: Ghost<Seq<Call>>,
}

impl FixedSegment {
    /// The transform that keeps the bytes `start..end`. It has answered no
    /// call yet.
    pub fn new(start: usize, end: usize) -> (segment: Self)
        ensures
            segment.start == start,
            segment.end == end,
            segment.calls() == Seq::<Call>::empty(),
    {
        FixedSegment { start, end, answered: Ghost(Seq::empty()) }
    }

    /// A key of `len` bytes has the length of a run `start..end`.
    pub open spec fn has_run_length(&self, len: nat) -> bool {
        self.start <= self.end && len == self.end - self.start
    }
}

impl SliceTransformFns for FixedSegment {
    open spec fn domain(&self) -> Set<Seq<u8>> {
        Set::new(|key: Seq<u8>| self.start <= self.end && key.len() >= self.end)
    }

    open spec fn prefix_of(&self, key: Seq<u8>) -> Seq<u8> {
        if self.start <= self.end && key.len() >= self.end {
            key.subrange(self.start as int, self.end as int)
        } else {
            key
        }
    }

    open spec fn out_of_range(&self) -> Set<Seq<u8>> {
        Set::new(|key: Seq<u8>| !self.has_run_length(key.len()))
    }

    open spec fn calls(&self) -> Seq<Call> {
        self.answered@
    }

    proof fn prefix_lies_in_key(&self, key: Seq<u8>) {
        let prefix = key.subrange(self.start as int, self.end as int);
        assert(key.subrange(self.start as int, self.start + prefix.len()) == prefix);
    }

    fn transform<'a>(&mut self, key: &'a [u8]) -> (prefix: &'a [u8])
        ensures
            final(self).start == old(self).start,
            final(self).end == old(self).end,
    {
        proof {
            self.answered@ = self.answered@.push(Call::Transform(key@));
        }
        if self.start <= self.end && key.len() >= self.end {
            slice_subrange(key, self.start, self.end)
        } else {
            key
        }
    }

    fn in_domain(&mut self, key: &[u8]) -> (inside: bool)
        ensures
            final(self).start == old(self).start,
            final(self).end == old(self).end,
    {
        proof {
            self.answered@ = self.answered@.push(Call::InDomain(key@));
        }
        self.start <= self.end && key.len() >= self.end
    }

    fn in_range(&mut self, key: &[u8]) -> (inside: bool)
        ensures
            inside == old(self).has_run_length(key@.len()),
            *final(self) == *old(self),
    {
        self.start <= self.end && key.len() == self.end - self.start
    }
}

} // verus!
