//! The behaviour that an implementation of a prefix transform owes the adapter.

use vstd::prelude::*;

verus! {

/// `part` is a contiguous run of `whole`: some `start..start + part.len()` of
/// `whole` holds exactly the bytes of `part`.
pub open spec fn is_sub_view(part: Seq<u8>, whole: Seq<u8>) -> bool {
    exists|start: int|
        0 <= start && start + part.len() <= whole.len()
        && #[trigger] whole.subrange(start, start + part.len()) == part
}

/// `after` is the very value that `before` is.
pub open spec fn unchanged<T: ?Sized>(before: &T, after: &T) -> bool {
    before == after
}

/// One call that an implementation has answered, with the key it was given.
pub enum Call {
    /// A call of `transform`.
    Transform(Seq<u8>),
    /// A call of `in_domain`.
    InDomain(Seq<u8>),
}

/// A pluggable way of mapping a key to the prefix under which it is indexed.
///
/// An implementation stands for fixed rules: a domain, a prefix for every
/// key, and the keys that it may declare out of range. The three methods take
/// `&mut self`, so it may keep state of its own, but no call changes the
/// rules. It also keeps a log of the calls of `transform` and `in_domain`
/// that it has answered, so that contracts can say which calls were made.
pub trait SliceTransformFns {
    /// The keys that this transform applies to.
    spec fn domain(&self) -> Set<Seq<u8>>;

    /// What `transform` gives for `key`, inside the domain or not.
    spec fn prefix_of(&self, key: Seq<u8>) -> Seq<u8>;

    /// The keys for which `in_range` may answer `false`. An implementation
    /// that keeps the provided `in_range` can leave it empty.
    spec fn out_of_range(&self) -> Set<Seq<u8>>;

    /// The calls of `transform` and `in_domain` answered so far, oldest
    /// first.
    spec fn calls(&self) -> Seq<Call>;

    /// The prefix of a key of the domain is a contiguous run of that key.
    proof fn prefix_lies_in_key(&self, key: Seq<u8>)
        requires
            self.domain().contains(key),
        ensures
            is_sub_view(self.prefix_of(key), key),
    ;

    /// Extracts the prefix of `key`.
    fn transform<'a>(&mut self, key: &'a [u8]) -> (prefix: &'a [u8])
        ensures
            prefix@ == old(self).prefix_of(key@),
            final(self).domain() == old(self).domain(),
            final(self).out_of_range() == old(self).out_of_range(),
            forall|other: Seq<u8>| #[trigger]
                final(self).prefix_of(other) == old(self).prefix_of(other),
            final(self).calls() == old(self).calls().push(Call::Transform(key@)),
    ;

    /// Says whether `key` belongs to the domain. Callers ask this before
    /// every `transform` and skip the transform where the answer is `false`.
    fn in_domain(&mut self, key: &[u8]) -> (inside: bool)
        ensures
            inside == old(self).domain().contains(key@),
            final(self).domain() == old(self).domain(),
            final(self).out_of_range() == old(self).out_of_range(),
            forall|other: Seq<u8>| #[trigger]
                final(self).prefix_of(other) == old(self).prefix_of(other),
            final(self).calls() == old(self).calls().push(Call::InDomain(key@)),
    ;

    /// Kept for callers that still supply it. Unless an implementation
    /// overrides it, every key is in range and the implementation is left
    /// as it was; an override may refuse the keys of `out_of_range` and no
    /// others. It answers without a call of `transform` or `in_domain`.
    fn in_range(&mut self, key: &[u8]) -> (inside: bool)
        ensures
            !old(self).out_of_range().contains(key@) ==> inside,
            final(self).domain() == old(self).domain(),
            final(self).out_of_range() == old(self).out_of_range(),
            forall|other: Seq<u8>| #[trigger]
                final(self).prefix_of(other) == old(self).prefix_of(other),
            final(self).calls() == old(self).calls(),
        default_ensures
            inside,
            unchanged(&*old(self), &*final(self)),
    {
        true
    }
}

/// Two values of an implementation follow the same rules: the same domain,
/// the same prefix for every key, the same keys out of range.
pub open spec fn same_rules<T: SliceTransformFns + ?Sized>(before: &T, after: &T) -> bool {
    &&& after.domain() == before.domain()
    &&& after.out_of_range() == before.out_of_range()
    &&& forall|key: Seq<u8>| #[trigger] after.prefix_of(key) == before.prefix_of(key)
}

} // verus!
