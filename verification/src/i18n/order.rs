//! The order of pairs as the comparison operators see it.

use crate::i18n::pair::StringValuePathPair;
use crate::i18n::path::{compare_paths, path_rank};
use crate::text::Rank;
use std::cmp::Ordering;
use vstd::prelude::*;
use vstd::std_specs::cmp::PartialOrdSpecImpl;

verus! {

/// The ordering that stands for `rank`.
pub open spec fn ordering_of(rank: Rank) -> Ordering {
    match rank {
        Rank::Before => Ordering::Less,
        Rank::Same => Ordering::Equal,
        Rank::After => Ordering::Greater,
    }
}

impl StringValuePathPair {
    /// Where this pair stands relative to `other`, by path alone.
    pub fn cmp(&self, other: &StringValuePathPair) -> (r: Ordering)
        ensures
            r == ordering_of(path_rank(self@.path, other@.path)),
    {
        match compare_paths(&self.path, &other.path) {
            Rank::Before => Ordering::Less,
            Rank::Same => Ordering::Equal,
            Rank::After => Ordering::Greater,
        }
    }
}

impl PartialOrd for StringValuePathPair {
    fn partial_cmp(&self, other: &StringValuePathPair) -> (r: Option<Ordering>) {
        Some(self.cmp(other))
    }
}

impl PartialOrdSpecImpl for StringValuePathPair {
    open spec fn obeys_partial_cmp_spec() -> bool {
        true
    }

    open spec fn partial_cmp_spec(&self, other: &StringValuePathPair) -> Option<Ordering> {
        Some(ordering_of(path_rank(self@.path, other@.path)))
    }
}

} // verus!
