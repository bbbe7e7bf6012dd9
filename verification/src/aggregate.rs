//! Subtree size aggregation. Both execution paths — serial folding and
//! parallel fan-out over the work-stealing pool — compute the same
//! aggregated size `agg_node` of the model; the fan-out policy only picks
//! which path runs for each directory.

use vstd::prelude::*;
use rayon::iter::IntoParallelRefIterator;
use rayon::iter::ParallelIterator;
use crate::model::{FsEntry, FsNode, agg_entries, agg_node, census, lemma_agg_skip_step};
use crate::policy::{decide, tick_interval};
use crate::progress::{ScanStatus, channel_send, progress_percent};
use crate::text::join_path;
use crate::units::{human_readable_size, spec_decimal, spec_human_readable, u64_to_decimal};

verus! {

/// Serial aggregation: folds every readable directory's children in listing
/// order on the calling thread; an unreadable directory contributes zero.
/// Periodic `Scanning` ticks go to `tx`, sparser at greater depth.
#[verifier::loop_isolation(false)]
pub fn aggregate_serial(path: &String, n: &FsNode, depth: usize, tx: &std::sync::mpsc::Sender<
    ScanStatus,
>) -> (r: u64)
    requires
        agg_node(*n) <= u64::MAX,
    ensures
        r as nat == agg_node(*n),
    decreases *n,
{
    match n {
        FsNode::File { size, .. } => *size,
        FsNode::Dir { readable, children, .. } => {
            if !*readable {
                return 0;
            }
            let interval = tick_interval(depth);
            let total_items = children.len();
            let mut total: u64 = 0;
            let mut i: usize = 0;
            proof {
                assert(children@.skip(0) =~= children@);
            }
            while i < children.len()
                invariant
                    i <= children@.len(),
                    total_items == children@.len(),
                    interval >= 1,
                    agg_entries(children@) <= u64::MAX,
                    total as nat + agg_entries(children@.skip(i as int)) == agg_entries(
                        children@,
                    ),
                decreases children@.len() - i,
            {
                if i % interval == 0 {
                    let ev = ScanStatus::Scanning {
                        current_path: path.clone(),
                        progress: progress_percent(i, total_items),
                        total_items,
                        processed_items: i,
                    };
                    let _ = channel_send(tx, ev);
                }
                proof {
                    lemma_agg_skip_step(children@, i as int);
                }
                let e = &children[i];
                match &e.node {
                    FsNode::File { size, .. } => {
                        total = total + *size;
                    },
                    FsNode::Dir { .. } => {
                        let child_path = join_path(path.as_str(), e.name.as_str());
                        let child_depth = if depth < usize::MAX {
                            depth + 1
                        } else {
                            depth
                        };
                        let sub = aggregate_serial(&child_path, &e.node, child_depth, tx);
                        total = total + sub;
                    },
                }
                i = i + 1;
            }
            proof {
                assert(children@.skip(children@.len() as int) =~= Seq::<FsEntry>::empty());
            }
            total
        },
    }
}

/// Relies on rayon's work-stealing pool: `par_iter().map(..).sum()` runs the
/// verified per-child aggregation `aggregate_child` over the pool and adds
/// the per-child results. Addition is commutative and associative, so the
/// total over these same children equals the serial left-to-right sum.
#[verifier::external_body]
fn par_aggregate_children(
    path: &String,
    children: &Vec<FsEntry>,
    depth: usize,
    tx: &std::sync::mpsc::Sender<ScanStatus>,
) -> (r: u64)
    requires
        agg_entries(children@) <= u64::MAX,
    ensures
        r as nat == agg_entries(children@),
{
    children.par_iter().map(|e| aggregate_child(path, e, depth, tx)).sum()
}

/// Aggregated size of one child of the directory at `path`/`depth`: a file
/// contributes its size, a subdirectory its dynamically aggregated subtree.
pub fn aggregate_child(path: &String, e: &FsEntry, depth: usize, tx: &std::sync::mpsc::Sender<
    ScanStatus,
>) -> (r: u64)
    requires
        agg_node(e.node) <= u64::MAX,
    ensures
        r as nat == agg_node(e.node),
    decreases e.node, 1nat,
{
    match &e.node {
        FsNode::File { size, .. } => *size,
        FsNode::Dir { .. } => {
            let child_path = join_path(path.as_str(), e.name.as_str());
            let child_depth = if depth < usize::MAX {
                depth + 1
            } else {
                depth
            };
            aggregate(&child_path, &e.node, child_depth, tx)
        },
    }
}

/// Dynamic aggregation: each readable directory's child census feeds the
/// fan-out policy; approved directories hand their children to the parallel
/// pool, the rest are folded serially on the calling thread. Both paths
/// return the aggregated size of the subtree.
#[verifier::loop_isolation(false)]
pub fn aggregate(path: &String, n: &FsNode, depth: usize, tx: &std::sync::mpsc::Sender<
    ScanStatus,
>) -> (r: u64)
    requires
        agg_node(*n) <= u64::MAX,
    ensures
        r as nat == agg_node(*n),
    decreases *n, 0nat,
{
    match n {
        FsNode::File { size, .. } => *size,
        FsNode::Dir { readable, children, .. } => {
            if !*readable {
                return 0;
            }
            let (total_items, dir_count) = census(children);
            if decide(depth, dir_count, total_items) {
                par_aggregate_children(path, children, depth, tx)
            } else {
                let interval = tick_interval(depth);
                let mut total: u64 = 0;
                let mut i: usize = 0;
                proof {
                    assert(children@.skip(0) =~= children@);
                }
                while i < children.len()
                    invariant
                        i <= children@.len(),
                        total_items == children@.len(),
                        interval >= 1,
                        agg_entries(children@) <= u64::MAX,
                        total as nat + agg_entries(children@.skip(i as int)) == agg_entries(
                            children@,
                        ),
                    decreases children@.len() - i,
                {
                    if i % interval == 0 {
                        let ev = ScanStatus::Scanning {
                            current_path: path.clone(),
                            progress: progress_percent(i, total_items),
                            total_items,
                            processed_items: i,
                        };
                        let _ = channel_send(tx, ev);
                    }
                    proof {
                        lemma_agg_skip_step(children@, i as int);
                    }
                    let e = &children[i];
                    let sub = aggregate_child(path, e, depth, tx);
                    total = total + sub;
                    i = i + 1;
                }
                proof {
                    assert(children@.skip(children@.len() as int) =~= Seq::<FsEntry>::empty());
                }
                total
            }
        },
    }
}

/// Law: the serial and the fan-out path agree on every tree. Both
/// aggregation contracts pin the result to the subtree's one aggregated
/// size, so any two results for the same tree are the same number.
pub proof fn lemma_aggregation_agrees(n: FsNode, r1: u64, r2: u64)
    requires
        r1 as nat == agg_node(n),
        r2 as nat == agg_node(n),
    ensures
        r1 == r2,
{
}

/// Aggregates a whole subtree and renders the total, human-readably or as a
/// plain decimal; `parallel` picks dynamic fan-out or the purely serial
/// path, and either way the total is the subtree's aggregated size.
pub fn calculate_dir_size(
    path: &String,
    n: &FsNode,
    human_readable: bool,
    parallel: bool,
    tx: &std::sync::mpsc::Sender<ScanStatus>,
) -> (r: (u64, String))
    requires
        agg_node(*n) <= u64::MAX,
    ensures
        r.0 as nat == agg_node(*n),
        r.1@ == (if human_readable {
            spec_human_readable(r.0 as nat)
        } else {
            spec_decimal(r.0 as nat)
        }),
{
    let total = if parallel {
        aggregate(path, n, 0, tx)
    } else {
        aggregate_serial(path, n, 0, tx)
    };
    let converted = if human_readable {
        human_readable_size(total)
    } else {
        u64_to_decimal(total)
    };
    (total, converted)
}

} // verus!
