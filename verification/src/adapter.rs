//! The state that the engine holds for a custom transform, and the entry
//! points that it calls on it, one per callback of its table.
//!
//! Each entry point takes the state that the engine was given at
//! registration and the key as a view of the engine's own buffer. None copies
//! the key, and the prefix that `transform` hands back borrows from it.

use crate::contract::{is_sub_view, same_rules, Call, SliceTransformFns};
use crate::name::{has_nul, nul_terminated, TransformName};
use vstd::prelude::*;
use vstd::slice::slice_subrange;
use vstd::string::StringSliceAdditionalSpecFns;

verus! {

/// A transform together with the name that the engine shows for it.
pub struct SliceTransformState<T: SliceTransformFns> {
    name: TransformName,
    transform: T,
}

impl<T: SliceTransformFns> SliceTransformState<T> {
    /// The name, without its closing nul.
    pub closed spec fn name(&self) -> Seq<u8> {
        self.name.bytes()
    }

    /// The transform that the state owns.
    pub closed spec fn fns(&self) -> T {
        self.transform
    }

    /// The domain of the transform that the state owns.
    pub open spec fn domain(&self) -> Set<Seq<u8>> {
        self.fns().domain()
    }

    /// What the transform that the state owns gives for `key`.
    pub open spec fn prefix_of(&self, key: Seq<u8>) -> Seq<u8> {
        self.fns().prefix_of(key)
    }

    /// The keys that the transform that the state owns may declare out of
    /// range.
    pub open spec fn out_of_range(&self) -> Set<Seq<u8>> {
        self.fns().out_of_range()
    }

    /// The calls of `transform` and `in_domain` that the transform that the
    /// state owns has answered, oldest first.
    pub open spec fn calls(&self) -> Seq<Call> {
        self.fns().calls()
    }

    /// Every key that the transform was called with belongs to its domain.
    pub open spec fn gated(&self) -> bool {
        forall|i: int|
            0 <= i < self.calls().len() ==> (#[trigger] self.calls()[i] matches Call::Transform(key)
                ==> self.domain().contains(key))
    }

    /// Bundles `fns` with `name`. The name is stored as its UTF-8 bytes; it
    /// may hold no nul, which would cut it short for the engine.
    pub fn new(name: &str, fns: T) -> (state: Self)
        requires
            !has_nul(name.spec_bytes()),
        ensures
            state.name() == name.spec_bytes(),
            state.fns() == fns,
    {
        SliceTransformState { name: TransformName::new(name), transform: fns }
    }
}

/// Whatever a state hands out for a key of its domain is a contiguous run
/// of that key: re-sliced from the key at some offset, the same bytes come
/// out again.
pub proof fn lemma_prefix_is_run_of_key<T: SliceTransformFns>(
    state: SliceTransformState<T>,
    key: Seq<u8>,
)
    requires
        state.domain().contains(key),
    ensures
        is_sub_view(state.prefix_of(key), key),
{
    state.fns().prefix_lies_in_key(key);
}

/// A boolean as the engine takes it: one byte, 1 for `true` and 0 for `false`.
pub fn flag_of(answer: bool) -> (flag: u8)
    ensures
        flag == (if answer { 1u8 } else { 0u8 }),
{
    if answer {
        1
    } else {
        0
    }
}

/// The name of the transform, closed by a nul. The view stays valid for as
/// long as the state lives.
pub fn get_name<T: SliceTransformFns>(state: &SliceTransformState<T>) -> (bytes: &[u8])
    ensures
        bytes@ == nul_terminated(state.name()),
        !has_nul(state.name()),
{
    state.name.as_bytes_with_nul()
}

/// The prefix of `key`, as the transform gives it. The prefix and the new
/// value of the implementation are what one call of its `transform` with
/// `key` made of the old value.
pub fn transform<'a, T: SliceTransformFns>(
    state: &mut SliceTransformState<T>,
    key: &'a [u8],
) -> (prefix: &'a [u8])
    ensures
        exists|fns: &mut T|
            *fns == old(state).fns() && *final(fns) == final(state).fns() && #[trigger] call_ensures(
                T::transform,
                (fns, key),
                prefix,
            ),
        prefix@ == old(state).prefix_of(key@),
        old(state).domain().contains(key@) ==> is_sub_view(prefix@, key@),
        final(state).calls() == old(state).calls().push(Call::Transform(key@)),
        final(state).name() == old(state).name(),
        same_rules(&old(state).fns(), &final(state).fns()),
{
    proof {
        if state.domain().contains(key@) {
            state.transform.prefix_lies_in_key(key@);
        }
    }
    state.transform.transform(key)
}

/// 1 where `key` is in the domain of the transform, else 0. The answer and
/// the new value of the implementation are what one call of its `in_domain`
/// with `key` made of the old value.
pub fn in_domain<T: SliceTransformFns>(state: &mut SliceTransformState<T>, key: &[u8]) -> (flag: u8)
    ensures
        exists|inside: bool, fns: &mut T|
            *fns == old(state).fns() && *final(fns) == final(state).fns() && flag == (if inside {
                1u8
            } else {
                0u8
            }) && #[trigger] call_ensures(T::in_domain, (fns, key), inside),
        flag == (if old(state).domain().contains(key@) { 1u8 } else { 0u8 }),
        final(state).calls() == old(state).calls().push(Call::InDomain(key@)),
        final(state).name() == old(state).name(),
        same_rules(&old(state).fns(), &final(state).fns()),
{
    let inside = state.transform.in_domain(key);
    flag_of(inside)
}

/// 1 where the transform says that `key` is in its range, else 0.
///
/// The answer and the new value of the implementation are what one call of
/// its `in_range` with `key` made of the old value. So the flag is 1 for
/// every key but those that the implementation declares out of range, and
/// always 1 where it keeps the provided `in_range`.
pub fn in_range<T: SliceTransformFns>(state: &mut SliceTransformState<T>, key: &[u8]) -> (flag: u8)
    ensures
        exists|inside: bool, fns: &mut T|
            *fns == old(state).fns() && *final(fns) == final(state).fns() && flag == (if inside {
                1u8
            } else {
                0u8
            }) && #[trigger] call_ensures(T::in_range, (fns, key), inside),
        flag == 0u8 || flag == 1u8,
        !old(state).out_of_range().contains(key@) ==> flag == 1u8,
        final(state).calls() == old(state).calls(),
        final(state).name() == old(state).name(),
        same_rules(&old(state).fns(), &final(state).fns()),
{
    let inside = state.transform.in_range(key);
    flag_of(inside)
}

/// What the engine does with a key that it inserts: it asks for the domain
/// first and calls the transform only for a key inside it.
///
/// The result is the prefix to index the key under, or `None` for a key
/// outside the domain. For such a key the transform is not called at all:
/// the implementation is what the one call of its `in_domain` left. For a
/// key of the domain it is what one call of `in_domain` and then one of
/// `transform` left.
pub fn extract_prefix<'a, T: SliceTransformFns>(
    state: &mut SliceTransformState<T>,
    key: &'a [u8],
) -> (prefix: Option<&'a [u8]>)
    ensures
        prefix is None ==> exists|asked: &mut T|
            *asked == old(state).fns() && *final(asked) == final(state).fns()
                && #[trigger] call_ensures(T::in_domain, (asked, key), false),
        prefix is Some ==> exists|asked: &mut T, called: &mut T|
            *asked == old(state).fns() && *called == *final(asked)
                && *final(called) == final(state).fns()
                && #[trigger] call_ensures(T::in_domain, (asked, key), true)
                && #[trigger] call_ensures(T::transform, (called, key), prefix.unwrap()),
        prefix is Some <==> old(state).domain().contains(key@),
        prefix matches Some(bytes) ==> bytes@ == old(state).prefix_of(key@) && is_sub_view(
            bytes@,
            key@,
        ),
        final(state).calls() == (if old(state).domain().contains(key@) {
            old(state).calls().push(Call::InDomain(key@)).push(Call::Transform(key@))
        } else {
            old(state).calls().push(Call::InDomain(key@))
        }),
        old(state).gated() ==> final(state).gated(),
        final(state).name() == old(state).name(),
        same_rules(&old(state).fns(), &final(state).fns()),
{
    let ghost before = state.fns();
    let flag = in_domain(state, key);
    let ghost asked = state.fns();
    if flag == 1 {
        let ghost first = choose|fns: &mut T|
            *fns == before && *final(fns) == asked && #[trigger] call_ensures(
                T::in_domain,
                (fns, key),
                true,
            );
        let bytes = transform(state, key);
        let ghost second = choose|fns: &mut T|
            *fns == asked && *final(fns) == state.fns() && #[trigger] call_ensures(
                T::transform,
                (fns, key),
                bytes,
            );
        let prefix = Some(bytes);
        assert(call_ensures(T::in_domain, (first, key), true));
        assert(call_ensures(T::transform, (second, key), prefix.unwrap()));
        prefix
    } else {
        None
    }
}

/// The flag to hand the engine for a domain or range question that the
/// transform may have failed to answer: the flag of the call that returned,
/// and 0 for a call that did not, so that a failing transform counts as not
/// applying to the key.
pub fn flag_or_outside(outcome: Option<u8>) -> (flag: u8)
    ensures
        flag == (match outcome {
            Some(answered) => answered,
            None => 0u8,
        }),
{
    match outcome {
        Some(answered) => answered,
        None => 0,
    }
}

/// The prefix to hand the engine for a `transform` that may have failed: the
/// prefix of the call that returned, and the empty prefix at the start of
/// `key` for a call that did not.
pub fn prefix_or_empty<'a>(key: &'a [u8], outcome: Option<&'a [u8]>) -> (prefix: &'a [u8])
    ensures
        prefix@ == (match outcome {
            Some(extracted) => extracted@,
            None => Seq::<u8>::empty(),
        }),
        outcome is None ==> is_sub_view(prefix@, key@),
{
    match outcome {
        Some(extracted) => extracted,
        None => {
            let prefix = slice_subrange(key, 0, 0);
            proof {
                assert(prefix@ =~= Seq::<u8>::empty());
                assert(key@.subrange(0, 0int + prefix@.len()) == prefix@);
            }
            prefix
        },
    }
}

} // verus!
