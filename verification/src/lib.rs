//! Adapter between a key-to-prefix transform and a storage engine that drives
//! it through a fixed table of callbacks.
//!
//! An implementation of [`SliceTransformFns`] is bundled with its display name
//! into a [`SliceTransformState`]. The engine then reaches it through the
//! entry points of [`adapter`], one per callback.

pub mod adapter;
pub mod contract;
pub mod fixed_prefix;
pub mod fixed_segment;
pub mod name;

pub use adapter::{
    extract_prefix, flag_of, flag_or_outside, get_name, in_domain, in_range, prefix_or_empty,
    transform, SliceTransformState,
};
pub use contract::{is_sub_view, same_rules, unchanged, Call, SliceTransformFns};
pub use fixed_prefix::FixedPrefix;
pub use fixed_segment::FixedSegment;
pub use name::{has_nul, nul_position, nul_terminated, until_nul, TransformName};
