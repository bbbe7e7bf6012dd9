//! The Matcher/Collector: walks the tree, skips files and (below the root)
//! hidden names, reports each directory whose name is in the target set with
//! its aggregated size — without descending into it — and explores every
//! other directory, serially or through the parallel pool as the fan-out
//! policy decides. The multiset of reported entries is a function of the
//! tree alone, whatever order the branches ran in.

use vstd::prelude::*;
use rayon::iter::IntoParallelRefIterator;
use rayon::iter::ParallelIterator;
use vstd::multiset::group_multiset_axioms;
use vstd::seq_lib::group_to_multiset_ensures;
use vstd::seq_lib::lemma_multiset_commutative;
use crate::aggregate::aggregate;
use crate::model::{FsEntry, FsNode, agg_entries, agg_node, census, lemma_agg_entry_le, node_readonly};
use crate::models::{
    EntryModel, FileEntry, entry_model, models_of, new_entry, spec_perm_string, wf_emitted_entry,
};
use crate::order::{reorder, sorted_names, sorted_order};
use crate::policy::decide;
use crate::progress::{ScanStatus, channel_send, progress_percent};
use crate::sums::{
    flat_by, lemma_flat_by_permutation, lemma_sum_by_concat, lemma_sum_by_permutation,
    lemma_sum_by_skip_step, sum_by,
};
use crate::text::{
    is_hidden, join_path, name_matches, spec_hidden, spec_in_targets, spec_join, target_views,
};
use crate::units::human_readable_size;

verus! {

/// Entries the walk reports under a node at `path`. A file and an
/// unreadable directory contribute nothing; a readable directory reports
/// whatever its children report.
pub open spec fn spec_collect_node(
    path: Seq<char>,
    n: FsNode,
    targets: Seq<Seq<char>>,
    at_root: bool,
) -> Seq<EntryModel>
    decreases n,
{
    match n {
        FsNode::File { .. } => Seq::<EntryModel>::empty(),
        FsNode::Dir { readable, children, .. } => if readable {
            spec_collect_children(path, children@, targets, at_root)
        } else {
            Seq::<EntryModel>::empty()
        },
    }
}

/// Entries reported for a listing of children, in listing order.
pub open spec fn spec_collect_children(
    path: Seq<char>,
    s: Seq<FsEntry>,
    targets: Seq<Seq<char>>,
    at_root: bool,
) -> Seq<EntryModel>
    decreases s,
{
    if s.len() == 0 {
        Seq::<EntryModel>::empty()
    } else {
        spec_collect_entry(path, s[0], targets, at_root) + spec_collect_children(
            path,
            s.drop_first(),
            targets,
            at_root,
        )
    }
}

/// Entries reported for one child of the directory at `path`: files are not
/// candidates; below the root a hidden name is skipped entirely; a directory
/// whose name is in the target set is reported with its aggregated size and
/// treated as a leaf; any other directory is explored recursively.
pub open spec fn spec_collect_entry(
    path: Seq<char>,
    e: FsEntry,
    targets: Seq<Seq<char>>,
    at_root: bool,
) -> Seq<EntryModel>
    decreases e,
{
    if !(e.node is Dir) {
        Seq::<EntryModel>::empty()
    } else if !at_root && spec_hidden(e.name@) {
        Seq::<EntryModel>::empty()
    } else if spec_in_targets(targets, e.name@) {
        seq![
            EntryModel {
                path: spec_join(path, e.name@),
                size: agg_node(e.node),
                perm: spec_perm_string(node_readonly(e.node)),
                is_dir: true,
            },
        ]
    } else {
        spec_collect_node(spec_join(path, e.name@), e.node, targets, false)
    }
}

/// The per-child entry block, as one value the concatenation laws accept.
pub open spec fn collect_entry_fn(
    path: Seq<char>,
    targets: Seq<Seq<char>>,
    at_root: bool,
) -> spec_fn(FsEntry) -> Seq<EntryModel> {
    |e: FsEntry| spec_collect_entry(path, e, targets, at_root)
}

/// A listing's reported entries are the concatenation of per-child blocks.
pub proof fn lemma_collect_children_is_flat(
    path: Seq<char>,
    s: Seq<FsEntry>,
    targets: Seq<Seq<char>>,
    at_root: bool,
)
    ensures
        spec_collect_children(path, s, targets, at_root) == flat_by(
            s,
            collect_entry_fn(path, targets, at_root),
        ),
    decreases s.len(),
{
    if s.len() > 0 {
        lemma_collect_children_is_flat(path, s.drop_first(), targets, at_root);
    }
}

/// Peeling one child off the unprocessed suffix of a listing's entries.
pub proof fn lemma_collect_children_skip_step(
    path: Seq<char>,
    s: Seq<FsEntry>,
    targets: Seq<Seq<char>>,
    at_root: bool,
    i: int,
)
    requires
        0 <= i < s.len(),
    ensures
        spec_collect_children(path, s.skip(i), targets, at_root) == spec_collect_entry(
            path,
            s[i],
            targets,
            at_root,
        ) + spec_collect_children(path, s.skip(i + 1), targets, at_root),
{
    assert(s.skip(i)[0] == s[i]);
    assert(s.skip(i).drop_first() =~= s.skip(i + 1));
}

/// The weight that reads a model's size.
pub open spec fn model_size_fn() -> spec_fn(EntryModel) -> nat {
    |m: EntryModel| m.size
}

/// Law: what a walk reports under a node never sums to more than the node's
/// aggregated size — matched subtrees are disjoint.
pub proof fn lemma_collect_node_sizes_le(
    path: Seq<char>,
    n: FsNode,
    targets: Seq<Seq<char>>,
    at_root: bool,
)
    ensures
        sum_by(spec_collect_node(path, n, targets, at_root), model_size_fn()) <= agg_node(n),
    decreases n,
{
    match n {
        FsNode::File { .. } => {},
        FsNode::Dir { readable, children, .. } => {
            if readable {
                lemma_collect_children_sizes_le(path, children@, targets, at_root);
            }
        },
    }
}

/// Companion of `lemma_collect_node_sizes_le` for a listing of children.
pub proof fn lemma_collect_children_sizes_le(
    path: Seq<char>,
    s: Seq<FsEntry>,
    targets: Seq<Seq<char>>,
    at_root: bool,
)
    ensures
        sum_by(spec_collect_children(path, s, targets, at_root), model_size_fn()) <= agg_entries(s),
    decreases s,
{
    if s.len() > 0 {
        lemma_collect_entry_sizes_le(path, s[0], targets, at_root);
        lemma_collect_children_sizes_le(path, s.drop_first(), targets, at_root);
        lemma_sum_by_concat(
            spec_collect_entry(path, s[0], targets, at_root),
            spec_collect_children(path, s.drop_first(), targets, at_root),
            model_size_fn(),
        );
    }
}

/// Companion of `lemma_collect_node_sizes_le` for one child.
pub proof fn lemma_collect_entry_sizes_le(
    path: Seq<char>,
    e: FsEntry,
    targets: Seq<Seq<char>>,
    at_root: bool,
)
    ensures
        sum_by(spec_collect_entry(path, e, targets, at_root), model_size_fn()) <= agg_node(e.node),
    decreases e,
{
    if e.node is Dir && (at_root || !spec_hidden(e.name@)) {
        if spec_in_targets(targets, e.name@) {
            let m = EntryModel {
                path: spec_join(path, e.name@),
                size: agg_node(e.node),
                perm: spec_perm_string(node_readonly(e.node)),
                is_dir: true,
            };
            assert(seq![m].drop_first() =~= Seq::<EntryModel>::empty());
            assert(model_size_fn()(m) == m.size);
            assert(sum_by(Seq::<EntryModel>::empty(), model_size_fn()) == 0);
            assert(sum_by(seq![m], model_size_fn()) == m.size);
        } else {
            lemma_collect_node_sizes_le(spec_join(path, e.name@), e.node, targets, false);
        }
    }
}

/// The readonly bit of a node, whichever variant it is.
pub fn node_readonly_exec(n: &FsNode) -> (r: bool)
    ensures
        r == node_readonly(*n),
{
    match n {
        FsNode::File { readonly, .. } => *readonly,
        FsNode::Dir { readonly, .. } => *readonly,
    }
}

/// Walks one child of the directory at `path`; `depth` 0 is the root
/// listing. Returns the entries reported under that child; their multiset
/// is exactly what the specification reports for it.
pub fn collect_entry(
    path: &String,
    e: &FsEntry,
    targets: &Vec<String>,
    depth: usize,
    tx: &std::sync::mpsc::Sender<ScanStatus>,
) -> (r: Vec<FileEntry>)
    requires
        agg_node(e.node) <= u64::MAX,
    ensures
        models_of(r@).to_multiset() == spec_collect_entry(
            path@,
            *e,
            target_views(targets@),
            depth == 0,
        ).to_multiset(),
        forall|k: int| 0 <= k < r@.len() ==> wf_emitted_entry(#[trigger] r@[k]),
    decreases e.node, 1nat,
{
    let ghost tv = target_views(targets@);
    let ghost goal = spec_collect_entry(path@, *e, tv, depth == 0);
    match &e.node {
        FsNode::File { .. } => {
            let r: Vec<FileEntry> = Vec::new();
            proof {
                assert(models_of(r@) =~= goal);
            }
            r
        },
        FsNode::Dir { .. } => {
            if depth > 0 && is_hidden(e.name.as_str()) {
                let r: Vec<FileEntry> = Vec::new();
                proof {
                    assert(models_of(r@) =~= goal);
                }
                r
            } else if name_matches(targets, &e.name) {
                let child_path = join_path(path.as_str(), e.name.as_str());
                let size = aggregate(&child_path, &e.node, 0, tx);
                let ro = node_readonly_exec(&e.node);
                let fe = new_entry(child_path, size, ro, true);
                let mut r: Vec<FileEntry> = Vec::new();
                r.push(fe);
                proof {
                    assert(models_of(r@) =~= goal);
                }
                r
            } else {
                let child_path = join_path(path.as_str(), e.name.as_str());
                let child_depth = if depth < usize::MAX {
                    depth + 1
                } else {
                    depth
                };
                let r = collect_node(&child_path, &e.node, targets, child_depth, tx);
                r
            }
        },
    }
}

/// Relies on rayon's work-stealing pool: `par_iter().flat_map(..).collect()`
/// runs the verified per-child walk `collect_entry` across the pool and
/// concatenates the per-child result blocks in whatever order branches
/// finish. Concatenation in any order carries the same entries, so the
/// multiset collected equals the serial one.
#[verifier::external_body]
fn par_collect_children(
    path: &String,
    children: &Vec<FsEntry>,
    targets: &Vec<String>,
    depth: usize,
    tx: &std::sync::mpsc::Sender<ScanStatus>,
) -> (r: Vec<FileEntry>)
    requires
        agg_entries(children@) <= u64::MAX,
    ensures
        models_of(r@).to_multiset() == spec_collect_children(
            path@,
            children@,
            target_views(targets@),
            depth == 0,
        ).to_multiset(),
        forall|k: int| 0 <= k < r@.len() ==> wf_emitted_entry(#[trigger] r@[k]),
{
    children.par_iter().flat_map(|e| collect_entry(path, e, targets, depth, tx)).collect()
}

/// Walks all children of the readable directory at `path`, serially or in
/// parallel as the fan-out policy decides; an unreadable directory or a
/// file reports nothing.
#[verifier::loop_isolation(false)]
pub fn collect_node(
    path: &String,
    n: &FsNode,
    targets: &Vec<String>,
    depth: usize,
    tx: &std::sync::mpsc::Sender<ScanStatus>,
) -> (r: Vec<FileEntry>)
    requires
        agg_node(*n) <= u64::MAX,
    ensures
        models_of(r@).to_multiset() == spec_collect_node(
            path@,
            *n,
            target_views(targets@),
            depth == 0,
        ).to_multiset(),
        forall|k: int| 0 <= k < r@.len() ==> wf_emitted_entry(#[trigger] r@[k]),
    decreases *n, 0nat,
{
    broadcast use group_multiset_axioms;
    broadcast use group_to_multiset_ensures;

    let ghost tv = target_views(targets@);
    match n {
        FsNode::File { .. } => {
            let r: Vec<FileEntry> = Vec::new();
            proof {
                assert(models_of(r@) =~= Seq::<EntryModel>::empty());
            }
            r
        },
        FsNode::Dir { readable, children, .. } => {
            if !*readable {
                let r: Vec<FileEntry> = Vec::new();
                proof {
                    assert(models_of(r@) =~= Seq::<EntryModel>::empty());
                    assert(r@ =~= Seq::<FileEntry>::empty());
                }
                return r;
            }
            let (total_items, dir_count) = census(children);
            if decide(depth, dir_count, total_items) {
                par_collect_children(path, children, targets, depth, tx)
            } else {
                let ghost full = spec_collect_children(path@, children@, tv, depth == 0);
                let mut out: Vec<FileEntry> = Vec::new();
                let mut i: usize = 0;
                proof {
                    assert(children@.skip(0) =~= children@);
                    assert(models_of(out@) =~= Seq::<EntryModel>::empty());
                    assert(models_of(out@).to_multiset().add(
                        spec_collect_children(path@, children@.skip(0), tv, depth == 0)
                            .to_multiset(),
                    ) =~= full.to_multiset());
                }
                while i < children.len()
                    invariant
                        i <= children@.len(),
                        models_of(out@).to_multiset().add(
                            spec_collect_children(
                                path@,
                                children@.skip(i as int),
                                tv,
                                depth == 0,
                            ).to_multiset(),
                        ) == full.to_multiset(),
                        forall|k: int| 0 <= k < out@.len() ==> wf_emitted_entry(
                            #[trigger] out@[k],
                        ),
                    decreases children@.len() - i,
                {
                    proof {
                        lemma_agg_entry_le(children@, i as int);
                        lemma_collect_children_skip_step(
                            path@,
                            children@,
                            tv,
                            depth == 0,
                            i as int,
                        );
                    }
                    let e = &children[i];
                    let mut sub = collect_entry(path, e, targets, depth, tx);
                    let ghost old_out = out@;
                    let ghost sub_v = sub@;
                    out.append(&mut sub);
                    proof {
                        assert(models_of(old_out + sub_v) =~= models_of(old_out) + models_of(
                            sub_v,
                        ));
                        lemma_multiset_commutative(models_of(old_out), models_of(sub_v));
                        lemma_multiset_commutative(
                            spec_collect_entry(path@, children@[i as int], tv, depth == 0),
                            spec_collect_children(
                                path@,
                                children@.skip(i as int + 1),
                                tv,
                                depth == 0,
                            ),
                        );
                        assert(models_of(out@).to_multiset().add(
                            spec_collect_children(
                                path@,
                                children@.skip(i as int + 1),
                                tv,
                                depth == 0,
                            ).to_multiset(),
                        ) =~= full.to_multiset());
                    }
                    i = i + 1;
                }
                proof {
                    assert(children@.skip(children@.len() as int) =~= Seq::<FsEntry>::empty());
                    assert(models_of(out@).to_multiset() =~= full.to_multiset());
                }
                out
            }
        },
    }
}

/// Sums the raw sizes of a batch of entries.
fn sum_entry_sizes(v: &Vec<FileEntry>) -> (r: u64)
    requires
        sum_by(models_of(v@), model_size_fn()) <= u64::MAX,
    ensures
        r as nat == sum_by(models_of(v@), model_size_fn()),
{
    let ghost ms = models_of(v@);
    let mut total: u64 = 0;
    let mut k: usize = 0;
    proof {
        assert(ms.skip(0) =~= ms);
    }
    while k < v.len()
        invariant
            k <= v@.len(),
            ms == models_of(v@),
            ms.len() == v@.len(),
            total as nat + sum_by(ms.skip(k as int), model_size_fn()) == sum_by(
                ms,
                model_size_fn(),
            ),
            sum_by(ms, model_size_fn()) <= u64::MAX,
        decreases v@.len() - k,
    {
        proof {
            lemma_sum_by_skip_step(ms, model_size_fn(), k as int);
            assert(ms[k as int] == entry_model(v@[k as int]));
        }
        let e = &v[k];
        total = total + e.size_raw;
        k = k + 1;
    }
    proof {
        assert(ms.skip(ms.len() as int) =~= Seq::<EntryModel>::empty());
    }
    total
}

/// One block per root child: `perm` lists the root's children in
/// codepoint-lexicographic name order, and block `k` holds exactly the
/// entries reported under child `perm[k]`, as a multiset of models.
pub open spec fn blocks_cover_children(
    blocks: Seq<Seq<FileEntry>>,
    perm: Seq<usize>,
    path: Seq<char>,
    children: Seq<FsEntry>,
    targets: Seq<Seq<char>>,
) -> bool {
    &&& perm.len() == children.len()
    &&& blocks.len() == children.len()
    &&& (forall|k: int| 0 <= k < perm.len() ==> (#[trigger] perm[k]) < children.len())
    &&& reorder(children, perm).to_multiset() == children.to_multiset()
    &&& sorted_names(reorder(children, perm))
    &&& (forall|k: int|
        0 <= k < blocks.len() ==> models_of(#[trigger] blocks[k]).to_multiset()
            == spec_collect_entry(path, children[perm[k] as int], targets, true).to_multiset())
}

/// The batch a scan returns is grouped by root child: one block per child
/// of a readable root directory, the children taken in name-sorted order
/// and the blocks concatenated in that order; under any other root the
/// batch is empty.
pub open spec fn root_grouped_sorted(
    batch: Seq<FileEntry>,
    path: Seq<char>,
    n: FsNode,
    targets: Seq<Seq<char>>,
) -> bool {
    match n {
        FsNode::Dir { readable, children, .. } => if readable {
            exists|perm: Seq<usize>, blocks: Seq<Seq<FileEntry>>|
                #[trigger] blocks_cover_children(blocks, perm, path, children@, targets)
                    && batch == blocks.flatten()
        } else {
            batch == Seq::<FileEntry>::empty()
        },
        FsNode::File { .. } => batch == Seq::<FileEntry>::empty(),
    }
}

/// Scans a whole tree for target directories. The root listing is visited
/// in name-sorted order; every discovered entry is pushed over `entry_tx`
/// as it is found and also returned as a batch; `status_tx` carries the
/// initial and per-child `Scanning` updates and exactly one terminal
/// `Completed` event naming the entry count and their total size.
#[verifier::loop_isolation(false)]
pub fn scan_directory_with_progress(
    root_path: &String,
    root: &FsNode,
    targets: &Vec<String>,
    status_tx: &std::sync::mpsc::Sender<ScanStatus>,
    entry_tx: &std::sync::mpsc::Sender<FileEntry>,
) -> (r: Vec<FileEntry>)
    requires
        agg_node(*root) <= u64::MAX,
    ensures
        models_of(r@).to_multiset() == spec_collect_node(
            root_path@,
            *root,
            target_views(targets@),
            true,
        ).to_multiset(),
        root_grouped_sorted(r@, root_path@, *root, target_views(targets@)),
        forall|k: int| 0 <= k < r@.len() ==> wf_emitted_entry(#[trigger] r@[k]),
{
    broadcast use group_multiset_axioms;
    broadcast use group_to_multiset_ensures;
    broadcast use Seq::lemma_flatten_push;

    let ghost tv = target_views(targets@);
    let start = ScanStatus::Scanning {
        current_path: root_path.clone(),
        progress: 0,
        total_items: 0,
        processed_items: 0,
    };
    let _ = channel_send(status_tx, start);
    match root {
        FsNode::File { .. } => {
            let r: Vec<FileEntry> = Vec::new();
            proof {
                assert(models_of(r@) =~= Seq::<EntryModel>::empty());
                assert(r@ =~= Seq::<FileEntry>::empty());
            }
            let done = ScanStatus::Completed { total_files: 0, total_size: human_readable_size(0) };
            let _ = channel_send(status_tx, done);
            r
        },
        FsNode::Dir { readable, children, .. } => {
            if !*readable {
                let r: Vec<FileEntry> = Vec::new();
                proof {
                    assert(models_of(r@) =~= Seq::<EntryModel>::empty());
                    assert(r@ =~= Seq::<FileEntry>::empty());
                }
                let done = ScanStatus::Completed {
                    total_files: 0,
                    total_size: human_readable_size(0),
                };
                let _ = channel_send(status_tx, done);
                return r;
            }
            let order = sorted_order(children);
            let ghost re = reorder(children@, order@);
            let ghost f = collect_entry_fn(root_path@, tv, true);
            let ghost full = flat_by(re, f);
            proof {
                lemma_collect_children_is_flat(root_path@, re, tv, true);
                lemma_collect_children_is_flat(root_path@, children@, tv, true);
                lemma_flat_by_permutation(re, children@, f);
                lemma_collect_children_sizes_le(root_path@, children@, tv, true);
                lemma_sum_by_permutation(full, flat_by(children@, f), model_size_fn());
            }
            let n = children.len();
            let mut out: Vec<FileEntry> = Vec::new();
            let mut total: u64 = 0;
            let mut j: usize = 0;
            let ghost mut blocks: Seq<Seq<FileEntry>> = Seq::<Seq<FileEntry>>::empty();
            proof {
                assert(re.skip(0) =~= re);
                assert(models_of(out@) =~= Seq::<EntryModel>::empty());
                assert(models_of(out@).to_multiset().add(
                    flat_by(re.skip(0), f).to_multiset(),
                ) =~= full.to_multiset());
                assert(out@ =~= blocks.flatten());
            }
            while j < n
                invariant
                    j <= n,
                    models_of(out@).to_multiset().add(flat_by(re.skip(j as int), f).to_multiset())
                        == full.to_multiset(),
                    total as nat + sum_by(flat_by(re.skip(j as int), f), model_size_fn()) == sum_by(
                        full,
                        model_size_fn(),
                    ),
                    blocks.len() == j,
                    out@ == blocks.flatten(),
                    forall|k: int|
                        0 <= k < blocks.len() ==> models_of(#[trigger] blocks[k]).to_multiset()
                            == spec_collect_entry(
                            root_path@,
                            children@[order@[k] as int],
                            tv,
                            true,
                        ).to_multiset(),
                    forall|k: int| 0 <= k < out@.len() ==> wf_emitted_entry(#[trigger] out@[k]),
                decreases n - j,
            {
                let idx = order[j];
                let e = &children[idx];
                proof {
                    assert(re[j as int] == children@[idx as int]);
                    lemma_agg_entry_le(children@, idx as int);
                    assert(re.skip(j as int)[0] == re[j as int]);
                    assert(re.skip(j as int).drop_first() =~= re.skip(j as int + 1));
                    assert(flat_by(re.skip(j as int), f) == f(re[j as int]) + flat_by(
                        re.skip(j as int + 1),
                        f,
                    ));
                    lemma_sum_by_concat(f(re[j as int]), flat_by(re.skip(j as int + 1), f),
                        model_size_fn());
                    lemma_collect_entry_sizes_le(root_path@, children@[idx as int], tv, true);
                }
                let ev = ScanStatus::Scanning {
                    current_path: join_path(root_path.as_str(), e.name.as_str()),
                    progress: progress_percent(j + 1, n),
                    total_items: n,
                    processed_items: j + 1,
                };
                let _ = channel_send(status_tx, ev);
                let mut sub = collect_entry(root_path, e, targets, 0, status_tx);
                proof {
                    lemma_sum_by_permutation(models_of(sub@), f(re[j as int]), model_size_fn());
                }
                let sub_total = sum_entry_sizes(&sub);
                let mut k: usize = 0;
                while k < sub.len()
                    decreases sub@.len() - k,
                {
                    let fe = &sub[k];
                    let _ = channel_send(entry_tx, fe.clone());
                    k = k + 1;
                }
                let ghost old_out = out@;
                let ghost sub_v = sub@;
                out.append(&mut sub);
                total = total + sub_total;
                proof {
                    assert(models_of(old_out + sub_v) =~= models_of(old_out) + models_of(sub_v));
                    lemma_multiset_commutative(models_of(old_out), models_of(sub_v));
                    lemma_multiset_commutative(f(re[j as int]), flat_by(re.skip(j as int + 1), f));
                    assert(models_of(out@).to_multiset().add(
                        flat_by(re.skip(j as int + 1), f).to_multiset(),
                    ) =~= full.to_multiset());
                    blocks = blocks.push(sub_v);
                    assert(out@ =~= blocks.flatten());
                }
                j = j + 1;
            }
            proof {
                assert(re.skip(re.len() as int) =~= Seq::<FsEntry>::empty());
                assert(models_of(out@).to_multiset() =~= full.to_multiset());
                assert(blocks_cover_children(blocks, order@, root_path@, children@, tv));
            }
            let done = ScanStatus::Completed {
                total_files: out.len(),
                total_size: human_readable_size(total),
            };
            let _ = channel_send(status_tx, done);
            out
        },
    }
}

/// Law: classification is idempotent. Two scans of the same unchanged tree
/// with the same targets report the same entries — equal as multisets of
/// path, size, permission and kind.
pub proof fn lemma_scan_deterministic(
    r1: Seq<FileEntry>,
    r2: Seq<FileEntry>,
    path: Seq<char>,
    n: FsNode,
    targets: Seq<Seq<char>>,
)
    requires
        models_of(r1).to_multiset() == spec_collect_node(path, n, targets, true).to_multiset(),
        models_of(r2).to_multiset() == spec_collect_node(path, n, targets, true).to_multiset(),
    ensures
        models_of(r1).to_multiset() == models_of(r2).to_multiset(),
{
}

} // verus!
