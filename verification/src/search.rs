//! The interactive search walk: every entry (file or directory) whose name
//! contains the pattern is reported with its aggregated size, and the walk
//! descends into every readable directory, matched or not. Results are
//! streamed over a channel; when the receiver goes away the walk stops
//! early, and what it returns is a prefix of the full result list.

use vstd::prelude::*;
use crate::aggregate::aggregate;
use crate::model::{FsEntry, FsNode, agg_node, lemma_agg_entry_le, node_readonly};
use crate::models::{
    EntryModel, FileEntry, entry_model, models_of, new_entry, spec_perm_string, wf_emitted_entry,
};
use crate::progress::{ScanStatus, channel_send};
use crate::text::{is_substring, spec_join, str_contains, join_path};

verus! {

/// Entries the search reports under a node at `path`.
pub open spec fn spec_search_node(path: Seq<char>, n: FsNode, pattern: Seq<char>) -> Seq<
    EntryModel,
>
    decreases n,
{
    match n {
        FsNode::File { .. } => Seq::<EntryModel>::empty(),
        FsNode::Dir { readable, children, .. } => if readable {
            spec_search_children(path, children@, pattern)
        } else {
            Seq::<EntryModel>::empty()
        },
    }
}

/// Search results of a listing of children, in listing order.
pub open spec fn spec_search_children(path: Seq<char>, s: Seq<FsEntry>, pattern: Seq<char>) -> Seq<
    EntryModel,
>
    decreases s,
{
    if s.len() == 0 {
        Seq::<EntryModel>::empty()
    } else {
        spec_search_entry(path, s[0], pattern) + spec_search_children(
            path,
            s.drop_first(),
            pattern,
        )
    }
}

/// Search results of one child: its own entry if the name contains the
/// pattern, then whatever a directory child's subtree reports.
pub open spec fn spec_search_entry(path: Seq<char>, e: FsEntry, pattern: Seq<char>) -> Seq<
    EntryModel,
>
    decreases e,
{
    (if is_substring(pattern, e.name@) {
        seq![
            EntryModel {
                path: spec_join(path, e.name@),
                size: agg_node(e.node),
                perm: spec_perm_string(node_readonly(e.node)),
                is_dir: e.node is Dir,
            },
        ]
    } else {
        Seq::<EntryModel>::empty()
    }) + (match e.node {
        FsNode::Dir { .. } => spec_search_node(spec_join(path, e.name@), e.node, pattern),
        _ => Seq::<EntryModel>::empty(),
    })
}

/// `a` is an initial segment of `b`.
pub open spec fn is_prefix_of<A>(a: Seq<A>, b: Seq<A>) -> bool {
    a.len() <= b.len() && a == b.take(a.len() as int)
}

proof fn lemma_concat_prefix<A>(a: Seq<A>, b: Seq<A>, c: Seq<A>)
    requires
        c == a + b,
    ensures
        is_prefix_of(a, c),
{
    assert(c.take(a.len() as int) =~= a);
}

proof fn lemma_prefix_concat<A>(p: Seq<A>, q1: Seq<A>, q2: Seq<A>)
    requires
        is_prefix_of(q1, q2),
    ensures
        is_prefix_of(p + q1, p + q2),
{
    assert((p + q2).take(p.len() + q1.len() as int) =~= p + q1);
}

proof fn lemma_prefix_trans<A>(a: Seq<A>, b: Seq<A>, c: Seq<A>)
    requires
        is_prefix_of(a, b),
        is_prefix_of(b, c),
    ensures
        is_prefix_of(a, c),
{
    assert(c.take(a.len() as int) =~= a);
}

/// Peeling one child off the unprocessed suffix of the search results.
proof fn lemma_search_children_skip_step(path: Seq<char>, s: Seq<FsEntry>, pattern: Seq<char>, i: int)
    requires
        0 <= i < s.len(),
    ensures
        spec_search_children(path, s.skip(i), pattern) == spec_search_entry(path, s[i], pattern)
            + spec_search_children(path, s.skip(i + 1), pattern),
{
    assert(s.skip(i)[0] == s[i]);
    assert(s.skip(i).drop_first() =~= s.skip(i + 1));
}

/// Searches a subtree, streaming every match over `entry_tx` as it is
/// found and returning the same entries as a batch. The first component
/// says whether the walk ran to completion: it is false only when the
/// receiving side went away, in which case the walk stopped early and the
/// batch is a strictly short prefix of the full result list; on completion
/// the batch is exactly the full result list, in listing order. A walk that
/// has nothing to send cannot be cut short, so completion is owed whenever
/// the subtree holds no match at all.
#[verifier::loop_isolation(false)]
pub fn search_directory_recursive(
    path: &String,
    n: &FsNode,
    pattern: &String,
    status_tx: &std::sync::mpsc::Sender<ScanStatus>,
    entry_tx: &std::sync::mpsc::Sender<FileEntry>,
) -> (r: (bool, Vec<FileEntry>))
    requires
        agg_node(*n) <= u64::MAX,
    ensures
        is_prefix_of(models_of(r.1@), spec_search_node(path@, *n, pattern@)),
        r.0 ==> models_of(r.1@) == spec_search_node(path@, *n, pattern@),
        !r.0 ==> models_of(r.1@).len() < spec_search_node(path@, *n, pattern@).len(),
        spec_search_node(path@, *n, pattern@).len() == 0 ==> r.0,
        forall|k: int| 0 <= k < r.1@.len() ==> wf_emitted_entry(#[trigger] r.1@[k]),
    decreases *n,
{
    let ghost full = spec_search_node(path@, *n, pattern@);
    match n {
        FsNode::File { .. } => {
            let r: Vec<FileEntry> = Vec::new();
            proof {
                assert(models_of(r@) =~= Seq::<EntryModel>::empty());
                assert(full.take(0) =~= Seq::<EntryModel>::empty());
            }
            (true, r)
        },
        FsNode::Dir { readable, children, .. } => {
            let mut out: Vec<FileEntry> = Vec::new();
            if !*readable {
                proof {
                    assert(models_of(out@) =~= Seq::<EntryModel>::empty());
                    assert(full.take(0) =~= Seq::<EntryModel>::empty());
                }
                return (true, out);
            }
            let mut i: usize = 0;
            proof {
                assert(children@.skip(0) =~= children@);
                assert(models_of(out@) =~= Seq::<EntryModel>::empty());
                assert(models_of(out@) + spec_search_children(path@, children@.skip(0), pattern@)
                    =~= full);
            }
            while i < children.len()
                invariant
                    i <= children@.len(),
                    models_of(out@) + spec_search_children(
                        path@,
                        children@.skip(i as int),
                        pattern@,
                    ) == full,
                    forall|k: int| 0 <= k < out@.len() ==> wf_emitted_entry(#[trigger] out@[k]),
                decreases children@.len() - i,
            {
                proof {
                    lemma_agg_entry_le(children@, i as int);
                    lemma_search_children_skip_step(path@, children@, pattern@, i as int);
                }
                let e = &children[i];
                let child_path = join_path(path.as_str(), e.name.as_str());
                let ghost rest_after = spec_search_children(
                    path@,
                    children@.skip(i as int + 1),
                    pattern@,
                );
                if str_contains(e.name.as_str(), pattern.as_str()) {
                    let size = aggregate(&child_path, &e.node, 0, status_tx);
                    let is_dir = match &e.node {
                        FsNode::Dir { .. } => true,
                        FsNode::File { .. } => false,
                    };
                    let ro = match &e.node {
                        FsNode::File { readonly, .. } => *readonly,
                        FsNode::Dir { readonly, .. } => *readonly,
                    };
                    let fe = new_entry(child_path.clone(), size, ro, is_dir);
                    let delivered = channel_send(entry_tx, fe.clone());
                    if !delivered {
                        proof {
                            lemma_concat_prefix(
                                models_of(out@),
                                spec_search_children(path@, children@.skip(i as int), pattern@),
                                full,
                            );
                            assert(spec_search_entry(path@, children@[i as int], pattern@).len()
                                >= 1);
                            assert(models_of(out@).len() < full.len());
                        }
                        return (false, out);
                    }
                    let ghost old_out = out@;
                    out.push(fe);
                    proof {
                        assert(out@ =~= old_out.push(fe));
                        assert(old_out.push(fe) =~= old_out + seq![fe]);
                        assert(models_of(old_out + seq![fe]) =~= models_of(old_out) + seq![
                            entry_model(fe),
                        ]);
                    }
                }
                let descend = match &e.node {
                    FsNode::Dir { .. } => true,
                    FsNode::File { .. } => false,
                };
                let ghost node_block = (match children@[i as int].node {
                    FsNode::Dir { .. } => spec_search_node(
                        spec_join(path@, children@[i as int].name@),
                        children@[i as int].node,
                        pattern@,
                    ),
                    _ => Seq::<EntryModel>::empty(),
                });
                let ghost mid_out = out@;
                proof {
                    // What is in `out` now, plus this child's subtree block and the
                    // suffix, is the full listing.
                    assert(models_of(mid_out) + node_block + rest_after =~= full);
                }
                if descend {
                    let rec = search_directory_recursive(
                        &child_path,
                        &e.node,
                        pattern,
                        status_tx,
                        entry_tx,
                    );
                    let sub_ok = rec.0;
                    let mut sub = rec.1;
                    let ghost sub_v = sub@;
                    out.append(&mut sub);
                    proof {
                        assert(models_of(mid_out + sub_v) =~= models_of(mid_out) + models_of(
                            sub_v,
                        ));
                    }
                    if !sub_ok {
                        proof {
                            lemma_concat_prefix(node_block, rest_after, node_block + rest_after);
                            lemma_prefix_trans(
                                models_of(sub_v),
                                node_block,
                                node_block + rest_after,
                            );
                            lemma_prefix_concat(
                                models_of(mid_out),
                                models_of(sub_v),
                                node_block + rest_after,
                            );
                            assert(models_of(mid_out) + (node_block + rest_after) =~= full);
                            assert(models_of(out@).len() < full.len());
                        }
                        return (false, out);
                    }
                    proof {
                        assert(models_of(out@) + rest_after =~= full);
                    }
                } else {
                    proof {
                        assert(node_block =~= Seq::<EntryModel>::empty());
                        assert(models_of(out@) + rest_after =~= full);
                    }
                }
                i = i + 1;
            }
            proof {
                assert(children@.skip(children@.len() as int) =~= Seq::<FsEntry>::empty());
                assert(models_of(out@) =~= full);
                assert(full.take(full.len() as int) =~= full);
            }
            (true, out)
        },
    }
}

} // verus!
