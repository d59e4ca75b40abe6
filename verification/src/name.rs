//! Display names as the engine reads them: bytes closed by a nul.

use vstd::prelude::*;
use vstd::slice::slice_to_vec;
use vstd::string::StringSliceAdditionalSpecFns;

verus! {

/// Some byte of `bytes` is a nul.
pub open spec fn has_nul(bytes: Seq<u8>) -> bool {
    exists|i: int| 0 <= i < bytes.len() && bytes[i] == 0u8
}

/// `name` followed by the closing nul.
pub open spec fn nul_terminated(name: Seq<u8>) -> Seq<u8> {
    name.push(0u8)
}

/// What a reader that stops at the first nul takes from `bytes`: the bytes
/// before that nul, or all of them where there is none.
pub open spec fn until_nul(bytes: Seq<u8>) -> Seq<u8>
    decreases bytes.len(),
{
    if bytes.len() == 0 || bytes[0] == 0u8 {
        Seq::empty()
    } else {
        seq![bytes[0]] + until_nul(bytes.skip(1))
    }
}

/// A name without a nul is read back whole from its nul-terminated form.
pub proof fn lemma_until_nul_of_terminated(name: Seq<u8>)
    requires
        !has_nul(name),
    ensures
        until_nul(nul_terminated(name)) == name,
    decreases name.len(),
{
    let closed = nul_terminated(name);
    if name.len() == 0 {
        assert(closed[0] == 0u8);
        assert(until_nul(closed) =~= name);
    } else {
        let rest = name.skip(1);
        assert(closed[0] == name[0]);
        assert(name[0] != 0u8);
        assert forall|i: int| 0 <= i < rest.len() implies rest[i] != 0u8 by {
            assert(rest[i] == name[i + 1]);
        }
        lemma_until_nul_of_terminated(rest);
        assert(closed.skip(1) =~= nul_terminated(rest));
        assert(until_nul(closed) =~= name);
    }
}

/// The place of the first nul in `name`, if it has one.
pub fn nul_position(name: &[u8]) -> (found: Option<usize>)
    ensures
        found is None <==> !has_nul(name@),
        found matches Some(at) ==> at < name@.len() && name@[at as int] == 0u8 && !has_nul(
            name@.take(at as int),
        ),
{
    let mut at: usize = 0;
    while at < name.len()
        invariant
            at <= name@.len(),
            forall|i: int| 0 <= i < at ==> name@[i] != 0u8,
        decreases name@.len() - at,
    {
        if name[at] == 0 {
            return Some(at);
        }
        at += 1;
    }
    None
}

/// A display name, stored with its closing nul so that it can be read in
/// place. The bytes before the closing nul hold no nul.
pub struct TransformName {
    stored: Vec<u8>,
}

impl TransformName {
    #[verifier::type_invariant]
    spec fn is_closed(&self) -> bool {
        &&& self.stored@.len() > 0
        &&& self.stored@.last() == 0u8
        &&& !has_nul(self.stored@.drop_last())
    }

    /// The name, without its closing nul.
    pub closed spec fn bytes(&self) -> Seq<u8> {
        self.stored@.drop_last()
    }

    /// Stores `name` as its UTF-8 bytes and closes it with a nul. The name
    /// may hold no nul of its own, which would cut it short for a reader.
    pub fn new(name: &str) -> (stored: Self)
        requires
            !has_nul(name.spec_bytes()),
        ensures
            stored.bytes() == name.spec_bytes(),
    {
        let mut stored = slice_to_vec(name.as_bytes());
        stored.push(0u8);
        assert(stored@.drop_last() =~= name.spec_bytes());
        TransformName { stored }
    }

    /// The name and its closing nul.
    pub fn as_bytes_with_nul(&self) -> (all: &[u8])
        ensures
            all@ == nul_terminated(self.bytes()),
            !has_nul(self.bytes()),
    {
        proof {
            use_type_invariant(self);
            assert(self.stored@ =~= nul_terminated(self.stored@.drop_last()));
        }
        self.stored.as_slice()
    }
}

} // verus!
