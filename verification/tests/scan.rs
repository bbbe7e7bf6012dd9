use std::sync::mpsc::channel;

use ruskish::aggregate::{aggregate, aggregate_serial, calculate_dir_size};
use ruskish::lifecycle::DeleteStatus;
use ruskish::matcher::{collect_node, scan_directory_with_progress};
use ruskish::model::{FsEntry, FsNode};
use ruskish::models::FileEntry;
use ruskish::progress::ScanStatus;
use ruskish::units::human_readable_size;

fn file(name: &str, size: u64) -> FsEntry {
    FsEntry { name: name.to_string(), node: FsNode::File { size, readonly: false } }
}

fn dir(name: &str, children: Vec<FsEntry>) -> FsEntry {
    FsEntry {
        name: name.to_string(),
        node: FsNode::Dir { readable: true, readonly: false, children },
    }
}

fn unreadable_dir(name: &str) -> FsEntry {
    FsEntry {
        name: name.to_string(),
        node: FsNode::Dir { readable: false, readonly: false, children: vec![] },
    }
}

/// The tree of the cleanup scenario: two node_modules trees at different
/// depths and one ordinary source directory.
fn scenario_tree() -> FsNode {
    let mb = 1024 * 1024;
    let node_modules_big = dir(
        "node_modules",
        vec![file("big0.bin", 40 * mb), file("big1.bin", 40 * mb), file("big2.bin", 20 * mb)],
    );
    let src_files: Vec<FsEntry> =
        (0..10).map(|i| file(&format!("f{}.rs", i), 1024 / 10)).collect();
    let node_modules_top = dir("node_modules", vec![file("dep.js", 5 * mb)]);
    FsNode::Dir {
        readable: true,
        readonly: false,
        children: vec![
            dir("a", vec![node_modules_big]),
            dir("b", vec![dir("src", src_files)]),
            node_modules_top,
        ],
    }
}

fn run_scan(root: &FsNode, targets: &[&str]) -> (Vec<FileEntry>, Vec<ScanStatus>, Vec<FileEntry>) {
    let root_path = "root".to_string();
    let targets: Vec<String> = targets.iter().map(|t| t.to_string()).collect();
    let (status_tx, status_rx) = channel::<ScanStatus>();
    let (entry_tx, entry_rx) = channel::<FileEntry>();
    let batch = scan_directory_with_progress(&root_path, root, &targets, &status_tx, &entry_tx);
    drop(status_tx);
    drop(entry_tx);
    let statuses: Vec<ScanStatus> = status_rx.into_iter().collect();
    let streamed: Vec<FileEntry> = entry_rx.into_iter().collect();
    (batch, statuses, streamed)
}

fn by_path_and_size(entries: &[FileEntry]) -> Vec<(String, u64)> {
    let mut v: Vec<(String, u64)> =
        entries.iter().map(|e| (e.path.clone(), e.size_raw)).collect();
    v.sort();
    v
}

#[test]
fn scenario_two_matches_no_descent_into_matched() {
    let mb = 1024 * 1024;
    let root = scenario_tree();
    let (batch, _, _) = run_scan(&root, &["node_modules"]);
    let got = by_path_and_size(&batch);
    assert_eq!(
        got,
        vec![
            ("root/a/node_modules".to_string(), 100 * mb),
            ("root/node_modules".to_string(), 5 * mb),
        ]
    );
}

#[test]
fn scenario_entry_fields() {
    let root = scenario_tree();
    let (batch, _, _) = run_scan(&root, &["node_modules"]);
    for e in &batch {
        assert_eq!(e.file_type, 'd');
        assert_eq!(e.delete_status, DeleteStatus::NotDeleted);
        assert_eq!(e.size_display, human_readable_size(e.size_raw));
        assert_eq!(e.permissions, " -w-x");
    }
}

#[test]
fn streamed_entries_match_batch() {
    let root = scenario_tree();
    let (batch, _, streamed) = run_scan(&root, &["node_modules"]);
    assert_eq!(by_path_and_size(&batch), by_path_and_size(&streamed));
}

#[test]
fn exactly_one_terminal_completed_event() {
    let mb = 1024 * 1024;
    let root = scenario_tree();
    let (batch, statuses, _) = run_scan(&root, &["node_modules"]);
    let completed: Vec<&ScanStatus> = statuses
        .iter()
        .filter(|s| matches!(s, ScanStatus::Completed { .. }))
        .collect();
    assert_eq!(completed.len(), 1);
    assert!(matches!(statuses.last().unwrap(), ScanStatus::Completed { .. }));
    match statuses.last().unwrap() {
        ScanStatus::Completed { total_files, total_size } => {
            assert_eq!(*total_files, batch.len());
            assert_eq!(total_size, &human_readable_size(105 * mb));
        },
        _ => unreachable!(),
    }
}

#[test]
fn unreadable_subtree_never_aborts_the_scan() {
    let mb = 1024 * 1024;
    let root = FsNode::Dir {
        readable: true,
        readonly: false,
        children: vec![
            dir("alpha", vec![unreadable_dir("locked")]),
            unreadable_dir("secrets"),
            dir("work", vec![dir("node_modules", vec![file("d.js", 2 * mb)])]),
        ],
    };
    let (batch, statuses, _) = run_scan(&root, &["node_modules"]);
    assert_eq!(
        by_path_and_size(&batch),
        vec![("root/work/node_modules".to_string(), 2 * mb)]
    );
    assert!(matches!(statuses.last().unwrap(), ScanStatus::Completed { .. }));
}

#[test]
fn hidden_directories_skipped_below_root_only() {
    let root = FsNode::Dir {
        readable: true,
        readonly: false,
        children: vec![
            // A hidden directory at the root listing is still a candidate.
            FsEntry {
                name: ".cache".to_string(),
                node: FsNode::Dir {
                    readable: true,
                    readonly: false,
                    children: vec![file("c.bin", 10)],
                },
            },
            // Below the root, hidden directories are not explored at all.
            dir("w", vec![
                FsEntry {
                    name: ".git".to_string(),
                    node: FsNode::Dir {
                        readable: true,
                        readonly: false,
                        children: vec![dir(".cache", vec![file("x", 7)])],
                    },
                },
                dir(".cache", vec![file("y", 8)]),
            ]),
        ],
    };
    let (batch, _, _) = run_scan(&root, &[".cache"]);
    assert_eq!(by_path_and_size(&batch), vec![("root/.cache".to_string(), 10)]);
}

#[test]
fn serial_and_parallel_aggregation_agree() {
    // Eleven subdirectories force the fan-out policy to approve parallel
    // processing at the root; the totals must be identical.
    let children: Vec<FsEntry> = (0..11)
        .map(|i| {
            dir(
                &format!("d{}", i),
                vec![file("a.bin", 1000 + i as u64), file("b.bin", 2000 + i as u64)],
            )
        })
        .collect();
    let root = FsNode::Dir { readable: true, readonly: false, children };
    let expected: u64 = (0..11u64).map(|i| 3000 + 2 * i).sum();
    let path = "root".to_string();
    let (tx, _rx) = channel::<ScanStatus>();
    assert_eq!(aggregate_serial(&path, &root, 0, &tx), expected);
    assert_eq!(aggregate(&path, &root, 0, &tx), expected);
    let (total, shown) = calculate_dir_size(&path, &root, true, true, &tx);
    assert_eq!(total, expected);
    assert_eq!(shown, human_readable_size(expected));
    let (total2, raw) = calculate_dir_size(&path, &root, false, false, &tx);
    assert_eq!(total2, expected);
    assert_eq!(raw, format!("{}", expected));
}

#[test]
fn parallel_collection_finds_every_match() {
    // A wide directory below the root: the walk there goes through the
    // parallel pool and must still report every matched subtree exactly.
    let children: Vec<FsEntry> = (0..12)
        .map(|i| {
            dir(
                &format!("proj{:02}", i),
                vec![dir("target", vec![file("o.bin", 100 + i as u64)])],
            )
        })
        .collect();
    let root = FsNode::Dir {
        readable: true,
        readonly: false,
        children: vec![FsEntry {
            name: "ws".to_string(),
            node: FsNode::Dir { readable: true, readonly: false, children },
        }],
    };
    let (batch, _, _) = run_scan(&root, &["target"]);
    let mut expected: Vec<(String, u64)> = (0..12)
        .map(|i| (format!("root/ws/proj{:02}/target", i), 100 + i as u64))
        .collect();
    expected.sort();
    assert_eq!(by_path_and_size(&batch), expected);
}

#[test]
fn rescan_reports_the_same_entries() {
    let root = scenario_tree();
    let (first, _, _) = run_scan(&root, &["node_modules"]);
    let (second, _, _) = run_scan(&root, &["node_modules"]);
    assert_eq!(by_path_and_size(&first), by_path_and_size(&second));
}

#[test]
fn collect_node_matches_scan_results() {
    let root = scenario_tree();
    let path = "root".to_string();
    let targets = vec!["node_modules".to_string()];
    let (tx, _rx) = channel::<ScanStatus>();
    let collected = collect_node(&path, &root, &targets, 0, &tx);
    let (batch, _, _) = run_scan(&root, &["node_modules"]);
    assert_eq!(by_path_and_size(&collected), by_path_and_size(&batch));
}

#[test]
fn files_are_not_match_candidates() {
    let root = FsNode::Dir {
        readable: true,
        readonly: false,
        children: vec![file("node_modules", 123), dir("node_modules", vec![file("x", 9)])],
    };
    let (batch, _, _) = run_scan(&root, &["node_modules"]);
    assert_eq!(by_path_and_size(&batch), vec![("root/node_modules".to_string(), 9)]);
}

#[test]
fn matched_directory_with_unreadable_listing_counts_zero() {
    let root = FsNode::Dir {
        readable: true,
        readonly: false,
        children: vec![unreadable_dir("node_modules")],
    };
    let (batch, _, _) = run_scan(&root, &["node_modules"]);
    assert_eq!(by_path_and_size(&batch), vec![("root/node_modules".to_string(), 0)]);
    assert_eq!(batch[0].size_display, "0B");
}

#[test]
fn empty_target_set_matches_nothing() {
    let root = scenario_tree();
    let (batch, _, _) = run_scan(&root, &[]);
    assert!(batch.is_empty());
}

#[test]
fn root_blocks_appear_in_sorted_name_order() {
    // Root children deliberately out of name order, each contributing one
    // match: the batch must be grouped by root child, children sorted.
    let root = FsNode::Dir {
        readable: true,
        readonly: false,
        children: vec![
            dir("zeta", vec![dir("target", vec![file("z.bin", 3)])]),
            dir("alpha", vec![dir("target", vec![file("a.bin", 1)])]),
            dir("mid", vec![dir("target", vec![file("m.bin", 2)])]),
        ],
    };
    let (batch, _, _) = run_scan(&root, &["target"]);
    let paths: Vec<&str> = batch.iter().map(|e| e.path.as_str()).collect();
    assert_eq!(
        paths,
        vec!["root/alpha/target", "root/mid/target", "root/zeta/target"]
    );
}

#[test]
fn scenario_batch_order_follows_sorted_root() {
    let root = scenario_tree();
    let (batch, _, _) = run_scan(&root, &["node_modules"]);
    let paths: Vec<&str> = batch.iter().map(|e| e.path.as_str()).collect();
    // Root children in name order: a, b, node_modules.
    assert_eq!(paths, vec!["root/a/node_modules", "root/node_modules"]);
}
