use std::sync::mpsc::channel;

use ruskish::model::{FsEntry, FsNode};
use ruskish::models::FileEntry;
use ruskish::order::sorted_order;
use ruskish::progress::{progress_percent, ScanStatus};
use ruskish::search::search_directory_recursive;
use ruskish::text::{is_hidden, join_path, name_matches, str_contains, str_le};

fn file(name: &str, size: u64) -> FsEntry {
    FsEntry { name: name.to_string(), node: FsNode::File { size, readonly: false } }
}

fn dir(name: &str, children: Vec<FsEntry>) -> FsEntry {
    FsEntry {
        name: name.to_string(),
        node: FsNode::Dir { readable: true, readonly: false, children },
    }
}

fn search_tree() -> FsNode {
    FsNode::Dir {
        readable: true,
        readonly: false,
        children: vec![
            dir("node_modules", vec![file("mod.js", 30)]),
            dir("src", vec![file("module.rs", 50), file("main.rs", 10)]),
            file("modern.txt", 7),
        ],
    }
}

fn run_search(root: &FsNode, pattern: &str) -> (bool, Vec<FileEntry>, Vec<FileEntry>) {
    let path = "root".to_string();
    let pattern = pattern.to_string();
    let (stx, _srx) = channel::<ScanStatus>();
    let (etx, erx) = channel::<FileEntry>();
    let (ok, batch) = search_directory_recursive(&path, root, &pattern, &stx, &etx);
    drop(etx);
    let streamed: Vec<FileEntry> = erx.into_iter().collect();
    (ok, batch, streamed)
}

fn by_path_and_size(entries: &[FileEntry]) -> Vec<(String, u64)> {
    let mut v: Vec<(String, u64)> =
        entries.iter().map(|e| (e.path.clone(), e.size_raw)).collect();
    v.sort();
    v
}

#[test]
fn substring_matches_files_and_directories() {
    let root = search_tree();
    let (ok, batch, streamed) = run_search(&root, "mod");
    assert!(ok);
    let got = by_path_and_size(&batch);
    assert_eq!(
        got,
        vec![
            ("root/modern.txt".to_string(), 7),
            ("root/node_modules".to_string(), 30),
            ("root/node_modules/mod.js".to_string(), 30),
            ("root/src/module.rs".to_string(), 50),
        ]
    );
    assert_eq!(by_path_and_size(&streamed), got);
}

#[test]
fn matched_directory_size_is_aggregated() {
    let root = search_tree();
    let (ok, batch, _) = run_search(&root, "node_modules");
    assert!(ok);
    assert_eq!(by_path_and_size(&batch), vec![("root/node_modules".to_string(), 30)]);
    assert_eq!(batch[0].file_type, 'd');
}

#[test]
fn file_matches_are_marked_regular() {
    let root = search_tree();
    let (ok, batch, _) = run_search(&root, "modern");
    assert!(ok);
    assert_eq!(batch.len(), 1);
    assert_eq!(batch[0].file_type, '-');
}

#[test]
fn dropped_receiver_stops_the_walk_early() {
    let root = search_tree();
    let path = "root".to_string();
    let pattern = "mod".to_string();
    let (stx, _srx) = channel::<ScanStatus>();
    let (etx, erx) = channel::<FileEntry>();
    drop(erx);
    let (ok, batch) = search_directory_recursive(&path, &root, &pattern, &stx, &etx);
    assert!(!ok);
    // The walk aborted before delivering anything.
    assert!(batch.is_empty());
}

#[test]
fn search_descends_into_matched_directories() {
    let root = FsNode::Dir {
        readable: true,
        readonly: false,
        children: vec![dir("mod_outer", vec![file("mod_inner.txt", 4)])],
    };
    let (ok, batch, _) = run_search(&root, "mod");
    assert!(ok);
    assert_eq!(
        by_path_and_size(&batch),
        vec![
            ("root/mod_outer".to_string(), 4),
            ("root/mod_outer/mod_inner.txt".to_string(), 4),
        ]
    );
}

#[test]
fn str_contains_is_substring_search() {
    assert!(str_contains("node_modules", "mod"));
    assert!(str_contains("node_modules", ""));
    assert!(str_contains("node_modules", "node_modules"));
    assert!(!str_contains("node_modules", "node_modulesx"));
    assert!(!str_contains("src", "mod"));
    assert!(str_contains("abcabd", "abd"));
    assert!(!str_contains("abcabc", "abd"));
}

#[test]
fn str_le_is_lexicographic() {
    assert!(str_le("", "a"));
    assert!(str_le("a", "a"));
    assert!(str_le("a", "b"));
    assert!(!str_le("b", "a"));
    assert!(str_le("ab", "b"));
    assert!(str_le("a", "ab"));
    assert!(!str_le("ab", "a"));
}

#[test]
fn sorted_order_sorts_by_name() {
    let children = vec![
        file("zeta", 1),
        file("alpha", 2),
        dir("mid", vec![]),
        file("beta", 3),
    ];
    let order = sorted_order(&children);
    let names: Vec<&str> = order.iter().map(|&i| children[i].name.as_str()).collect();
    assert_eq!(names, vec!["alpha", "beta", "mid", "zeta"]);
}

#[test]
fn join_path_inserts_one_slash() {
    assert_eq!(join_path("root", "node_modules"), "root/node_modules");
    assert_eq!(join_path("", "x"), "/x");
}

#[test]
fn hidden_names_start_with_a_dot() {
    assert!(is_hidden(".git"));
    assert!(!is_hidden("git"));
    assert!(!is_hidden(""));
}

#[test]
fn name_matching_is_exact() {
    let targets = vec!["target".to_string(), "node_modules".to_string()];
    assert!(name_matches(&targets, &"target".to_string()));
    assert!(name_matches(&targets, &"node_modules".to_string()));
    assert!(!name_matches(&targets, &"node_modules2".to_string()));
    assert!(!name_matches(&targets, &"node".to_string()));
    assert!(!name_matches(&vec![], &"target".to_string()));
}

#[test]
fn progress_percent_truncates() {
    assert_eq!(progress_percent(0, 0), 0);
    assert_eq!(progress_percent(0, 7), 0);
    assert_eq!(progress_percent(1, 3), 33);
    assert_eq!(progress_percent(2, 3), 66);
    assert_eq!(progress_percent(3, 3), 100);
}

#[test]
fn no_match_search_completes_even_without_receiver() {
    // A walk that has nothing to send cannot be cut short: with a dropped
    // receiver but no matching name, the walk still reports completion.
    let root = search_tree();
    let path = "root".to_string();
    let pattern = "does_not_occur".to_string();
    let (stx, _srx) = channel::<ScanStatus>();
    let (etx, erx) = channel::<FileEntry>();
    drop(erx);
    let (ok, batch) = search_directory_recursive(&path, &root, &pattern, &stx, &etx);
    assert!(ok);
    assert!(batch.is_empty());
}

#[test]
fn aborted_search_returns_a_strict_prefix() {
    let root = search_tree();
    let path = "root".to_string();
    let pattern = "mod".to_string();
    let (stx, _srx) = channel::<ScanStatus>();
    let (etx, erx) = channel::<FileEntry>();
    drop(erx);
    let (ok, batch) = search_directory_recursive(&path, &root, &pattern, &stx, &etx);
    assert!(!ok);
    // Four entries match "mod" in this tree; an aborted walk returns fewer.
    assert!(batch.len() < 4);
}
