//! A transform that keeps a fixed number of leading bytes.

use crate::contract::{Call, SliceTransformFns};
use vstd::prelude::*;
use vstd::slice::slice_subrange;

verus! {

/// Maps a key to its first `len` bytes. Its domain is the keys of at least
/// `len` bytes; a shorter key is handed back whole. No key is out of range.
pub struct FixedPrefix {
    pub len: usize,
    pub answered: Ghost<Seq<Call>>,
}

impl FixedPrefix {
    /// The transform that keeps the first `len` bytes. It has answered no
    /// call yet.
    pub fn new(len: usize) -> (fixed: Self)
        ensures
            fixed.len == len,
            fixed.calls() == Seq::<Call>::empty(),
    {
        FixedPrefix { len, answered: Ghost(Seq::empty()) }
    }
}

impl SliceTransformFns for FixedPrefix {
    open spec fn domain(&self) -> Set<Seq<u8>> {
        Set::new(|key: Seq<u8>| key.len() >= self.len)
    }

    open spec fn prefix_of(&self, key: Seq<u8>) -> Seq<u8> {
        if key.len() >= self.len {
            key.take(self.len as int)
        } else {
            key
        }
    }

    open spec fn out_of_range(&self) -> Set<Seq<u8>> {
        Set::empty()
    }

    open spec fn calls(&self) -> Seq<Call> {
        self.answered@
    }

    proof fn prefix_lies_in_key(&self, key: Seq<u8>) {
        let prefix = key.take(self.len as int);
        assert(key.subrange(0, 0int + prefix.len()) =~= prefix);
    }

    fn transform<'a>(&mut self, key: &'a [u8]) -> (prefix: &'a [u8])
        ensures
            final(self).len == old(self).len,
    {
        proof {
            self.answered@ = self.answered@.push(Call::Transform(key@));
        }
        if key.len() >= self.len {
            slice_subrange(key, 0, self.len)
        } else {
            key
        }
    }

    fn in_domain(&mut self, key: &[u8]) -> (inside: bool)
        ensures
            final(self).len == old(self).len,
    {
        proof {
            self.answered@ = self.answered@.push(Call::InDomain(key@));
        }
        key.len() >= self.len
    }
}

} // verus!
