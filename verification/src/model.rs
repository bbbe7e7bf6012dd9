//! In-memory model of a directory tree. The engine walks this model; reading
//! it out of a real filesystem is the caller's concern. A directory whose
//! listing failed is modelled as unreadable: the walk treats its subtree as
//! empty instead of failing, so one bad directory never aborts a scan.

use vstd::prelude::*;

verus! {

/// One node: a regular file with its byte size, or a directory with its
/// children. `readable` is whether listing the directory succeeded;
/// `readonly` is the best-effort readonly permission bit.
pub enum FsNode {
    File { size: u64, readonly: bool },
    Dir { readable: bool, readonly: bool, children: Vec<FsEntry> },
}

/// A named child of a directory.
pub struct FsEntry {
    pub name: String,
    pub node: FsNode,
}

/// The readonly flag of a node, whichever variant it is.
pub open spec fn node_readonly(n: FsNode) -> bool {
    match n {
        FsNode::File { readonly, .. } => readonly,
        FsNode::Dir { readonly, .. } => readonly,
    }
}

/// Aggregated byte size of a subtree: file sizes summed over every readable
/// directory; an unreadable directory contributes nothing.
pub open spec fn agg_node(n: FsNode) -> nat
    decreases n,
{
    match n {
        FsNode::File { size, .. } => size as nat,
        FsNode::Dir { readable, children, .. } => if readable {
            agg_entries(children@)
        } else {
            0
        },
    }
}

/// Sum of `agg_node` over a sequence of children, left to right.
pub open spec fn agg_entries(s: Seq<FsEntry>) -> nat
    decreases s,
{
    if s.len() == 0 {
        0
    } else {
        agg_node(s[0].node) + agg_entries(s.drop_first())
    }
}

/// How many of these children are directories.
pub open spec fn spec_dir_count(s: Seq<FsEntry>) -> nat
    decreases s,
{
    if s.len() == 0 {
        0
    } else {
        (if s[0].node is Dir {
            1nat
        } else {
            0nat
        }) + spec_dir_count(s.drop_first())
    }
}

/// Peeling one child off the unprocessed suffix of a size sum.
pub proof fn lemma_agg_skip_step(s: Seq<FsEntry>, i: int)
    requires
        0 <= i < s.len(),
    ensures
        agg_entries(s.skip(i)) == agg_node(s[i].node) + agg_entries(s.skip(i + 1)),
{
    assert(s.skip(i)[0] == s[i]);
    assert(s.skip(i).drop_first() =~= s.skip(i + 1));
}

/// Peeling one child off the unprocessed suffix of a directory count.
pub proof fn lemma_dir_count_skip_step(s: Seq<FsEntry>, i: int)
    requires
        0 <= i < s.len(),
    ensures
        spec_dir_count(s.skip(i)) == (if s[i].node is Dir {
            1nat
        } else {
            0nat
        }) + spec_dir_count(s.skip(i + 1)),
{
    assert(s.skip(i)[0] == s[i]);
    assert(s.skip(i).drop_first() =~= s.skip(i + 1));
}

/// Each child's aggregated size is at most the whole listing's sum.
pub proof fn lemma_agg_entry_le(s: Seq<FsEntry>, i: int)
    requires
        0 <= i < s.len(),
    ensures
        agg_node(s[i].node) <= agg_entries(s),
    decreases s.len(),
{
    if i > 0 {
        assert(s.drop_first()[i - 1] == s[i]);
        lemma_agg_entry_le(s.drop_first(), i - 1);
    }
}

/// Census of a directory's immediate children: total child count and how
/// many of them are directories; the input the fan-out policy consumes.
pub fn census(children: &Vec<FsEntry>) -> (c: (usize, usize))
    ensures
        c.0 == children@.len(),
        c.1 as nat == spec_dir_count(children@),
{
    let ghost s = children@;
    let mut dirs: usize = 0;
    let mut i: usize = 0;
    proof {
        assert(s.skip(0) =~= s);
    }
    while i < children.len()
        invariant
            0 <= i <= s.len(),
            children@ == s,
            dirs <= i,
            dirs as nat + spec_dir_count(s.skip(i as int)) == spec_dir_count(s),
        decreases s.len() - i,
    {
        proof {
            lemma_dir_count_skip_step(s, i as int);
        }
        match &children[i] {
            FsEntry { node: FsNode::Dir { .. }, .. } => {
                dirs = dirs + 1;
            },
            _ => {},
        }
        i = i + 1;
    }
    proof {
        assert(s.skip(s.len() as int) =~= Seq::<FsEntry>::empty());
    }
    (children.len(), dirs)
}

} // verus!
