//! Pure fan-out policy: given the depth of a directory and a census of its
//! immediate children, decide whether sibling subtrees are worth processing
//! in parallel, and how often a traversal should emit a progress tick.

use vstd::prelude::*;

verus! {

/// Depth beyond which fan-out is never attempted.
pub const MAX_PARALLEL_DEPTH: usize = 10;

/// A directory with more subdirectories than this is always fanned out.
pub const MANY_SUBDIRS: usize = 8;

/// A directory with more children than this is always fanned out.
pub const MANY_ITEMS: usize = 100;

/// What `decide` returns, rule by rule, first match wins:
/// depth cutoff, subdirectory cutoff, item cutoff, a cautious deep rule,
/// and an eager shallow rule.
pub open spec fn spec_decide(depth: nat, directory_count: nat, total_items: nat) -> bool {
    if depth > 10 {
        false
    } else if directory_count > 8 {
        true
    } else if total_items > 100 {
        true
    } else if depth > 5 {
        directory_count > 4
    } else {
        depth < 3 || (depth < 6 && directory_count > 2)
    }
}

/// Decide whether the children of a directory at `depth` should be processed
/// with parallel fan-out. Pure and deterministic; `directory_count` and
/// `total_items` are the child census of that directory.
pub fn decide(depth: usize, directory_count: usize, total_items: usize) -> (r: bool)
    ensures
        r == spec_decide(depth as nat, directory_count as nat, total_items as nat),
{
    if depth > MAX_PARALLEL_DEPTH {
        false
    } else if directory_count > MANY_SUBDIRS {
        true
    } else if total_items > MANY_ITEMS {
        true
    } else if depth > 5 {
        directory_count > 4
    } else {
        depth < 3 || (depth < 6 && directory_count > 2)
    }
}

/// Number of child entries a traversal walks between two progress ticks:
/// frequent at the root, sparse deep in the tree.
pub open spec fn spec_tick_interval(depth: nat) -> nat {
    if depth == 0 {
        50
    } else if depth < 3 {
        100
    } else {
        200
    }
}

/// Tick throttle for a directory at `depth`; always positive, so a walk may
/// take `i % tick_interval(depth)` without a precondition.
pub fn tick_interval(depth: usize) -> (r: usize)
    ensures
        r == spec_tick_interval(depth as nat),
        r >= 1,
{
    if depth == 0 {
        50
    } else if depth < 3 {
        100
    } else {
        200
    }
}

} // verus!
