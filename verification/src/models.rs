//! The data the engine hands its consumers: a discovered entry with its
//! display fields, the configuration record, and the ghost-level model a
//! scan's contract speaks of.

use vstd::prelude::*;
use crate::lifecycle::{DeleteAction, DeleteStatus, spec_step};
use crate::units::{human_readable_size, spec_human_readable};
use vstd::string::StringExecFns;

verus! {

/// One discovered node, as reported to the consumer. The size fields are
/// final at creation; `delete_status` is the only field that changes later,
/// and only through the lifecycle methods below.
#[derive(Debug, Clone)]
pub struct FileEntry {
    pub file_type: char,
    pub permissions: String,
    pub size_display: String,
    pub size_raw: u64,
    pub path: String,
    pub delete_status: DeleteStatus,
}

/// What a walk's contract says about an emitted entry: its path, its exact
/// byte size, its permission rendering, and whether it is a directory.
pub struct EntryModel {
    pub path: Seq<char>,
    pub size: nat,
    pub perm: Seq<char>,
    pub is_dir: bool,
}

/// The model of one concrete entry.
pub open spec fn entry_model(e: FileEntry) -> EntryModel {
    EntryModel {
        path: e.path@,
        size: e.size_raw as nat,
        perm: e.permissions@,
        is_dir: e.file_type == 'd',
    }
}

/// The models of a whole result list.
pub open spec fn models_of(s: Seq<FileEntry>) -> Seq<EntryModel> {
    s.map_values(|e: FileEntry| entry_model(e))
}

/// The coarse permission rendering: a readonly flag in front of the
/// best-effort write/execute columns.
pub open spec fn spec_perm_string(readonly: bool) -> Seq<char> {
    if readonly {
        seq!['r', '-', 'w', '-', 'x']
    } else {
        seq![' ', '-', 'w', '-', 'x']
    }
}

/// Renders the permission column of an entry.
pub fn permission_string(readonly: bool) -> (r: String)
    ensures
        r@ == spec_perm_string(readonly),
{
    proof {
        reveal_strlit("r-w-x");
        reveal_strlit(" -w-x");
    }
    let r: String = if readonly {
        String::from_str("r-w-x")
    } else {
        String::from_str(" -w-x")
    };
    proof {
        assert(r@ =~= spec_perm_string(readonly));
    }
    r
}

/// The invariants every entry a walk emits satisfies: not yet deleted, a
/// known file-type column, and a display size that renders its raw size.
pub open spec fn wf_emitted_entry(e: FileEntry) -> bool {
    &&& e.delete_status == DeleteStatus::NotDeleted
    &&& (e.file_type == 'd' || e.file_type == '-')
    &&& e.size_display@ == spec_human_readable(e.size_raw as nat)
    &&& (e.permissions@ == spec_perm_string(true) || e.permissions@ == spec_perm_string(false))
}

/// Builds the entry a walk emits for a discovered node.
pub fn new_entry(path: String, size: u64, readonly: bool, is_dir: bool) -> (e: FileEntry)
    ensures
        entry_model(e) == (EntryModel {
            path: path@,
            size: size as nat,
            perm: spec_perm_string(readonly),
            is_dir,
        }),
        wf_emitted_entry(e),
{
    let e = FileEntry {
        file_type: if is_dir {
            'd'
        } else {
            '-'
        },
        permissions: permission_string(readonly),
        size_display: human_readable_size(size),
        size_raw: size,
        path,
        delete_status: DeleteStatus::NotDeleted,
    };
    e
}

impl FileEntry {
    /// The consumer asks for this entry's deletion. Returns whether a
    /// removal should actually begin: only an entry in `NotDeleted` starts
    /// one; a re-entrant request and a finished entry are no-ops.
    pub fn request_delete(&mut self) -> (begin: bool)
        ensures
            final(self).delete_status == spec_step(
                old(self).delete_status,
                DeleteAction::RequestDelete,
            ),
            begin == (old(self).delete_status is NotDeleted),
            final(self).file_type == old(self).file_type,
            final(self).permissions == old(self).permissions,
            final(self).size_display == old(self).size_display,
            final(self).size_raw == old(self).size_raw,
            final(self).path == old(self).path,
    {
        match self.delete_status {
            DeleteStatus::NotDeleted => {
                self.delete_status = DeleteStatus::Deleting;
                true
            },
            DeleteStatus::Deleting => false,
            DeleteStatus::Deleted => false,
        }
    }

    /// The removal that `request_delete` began reports its outcome: success
    /// finishes the entry, failure reverts it to `NotDeleted` for a retry.
    pub fn finish_delete(&mut self, success: bool)
        requires
            old(self).delete_status is Deleting,
        ensures
            final(self).delete_status == spec_step(
                old(self).delete_status,
                if success {
                    DeleteAction::RemovalSucceeded
                } else {
                    DeleteAction::RemovalFailed
                },
            ),
            final(self).file_type == old(self).file_type,
            final(self).permissions == old(self).permissions,
            final(self).size_display == old(self).size_display,
            final(self).size_raw == old(self).size_raw,
            final(self).path == old(self).path,
    {
        if success {
            self.delete_status = DeleteStatus::Deleted;
        } else {
            self.delete_status = DeleteStatus::NotDeleted;
        }
    }
}

/// The scan configuration, as the command line supplies it: the root to
/// walk, the directory names to match, and the behaviour switches.
#[derive(Debug, Clone)]
pub struct Cli {
    pub dir: String,
    pub dirs_to_delete: Vec<String>,
    pub dry_run: bool,
    pub verbose: bool,
    pub force: bool,
    pub recursive: bool,
    pub search: Option<String>,
}

/// A bare directory record: its path, aggregated size and kind.
#[derive(Debug, Clone)]
pub struct DirEntry {
    pub path: String,
    pub size: u64,
    pub is_directory: bool,
}

} // verus!
