use ruskish::model::{census, FsEntry, FsNode};
use ruskish::policy::{decide, tick_interval};

#[test]
fn depth_cutoff_overrides_volume() {
    assert_eq!(decide(11, 100, 1000), false);
    assert_eq!(decide(0, 9, 1), true);
}

#[test]
fn many_subdirectories_fan_out() {
    assert_eq!(decide(10, 9, 0), true);
    assert_eq!(decide(4, 9, 9), true);
}

#[test]
fn many_items_fan_out() {
    assert_eq!(decide(10, 0, 101), true);
    assert_eq!(decide(4, 0, 101), true);
    assert_eq!(decide(4, 0, 100), false);
}

#[test]
fn deep_levels_need_clear_benefit() {
    assert_eq!(decide(6, 5, 10), true);
    assert_eq!(decide(6, 4, 10), false);
    assert_eq!(decide(10, 5, 1), true);
}

#[test]
fn shallow_levels_fan_out_eagerly() {
    assert_eq!(decide(0, 0, 0), true);
    assert_eq!(decide(2, 0, 1), true);
    assert_eq!(decide(3, 3, 1), true);
    assert_eq!(decide(3, 2, 1), false);
    assert_eq!(decide(5, 3, 1), true);
    assert_eq!(decide(5, 2, 1), false);
}

#[test]
fn tick_interval_decreases_with_depth() {
    assert_eq!(tick_interval(0), 50);
    assert_eq!(tick_interval(1), 100);
    assert_eq!(tick_interval(2), 100);
    assert_eq!(tick_interval(3), 200);
    assert_eq!(tick_interval(12), 200);
}

#[test]
fn census_counts_children_and_directories() {
    let children = vec![
        FsEntry { name: "a".to_string(), node: FsNode::File { size: 1, readonly: false } },
        FsEntry {
            name: "b".to_string(),
            node: FsNode::Dir { readable: true, readonly: false, children: vec![] },
        },
        FsEntry { name: "c".to_string(), node: FsNode::File { size: 2, readonly: true } },
        FsEntry {
            name: "d".to_string(),
            node: FsNode::Dir { readable: false, readonly: false, children: vec![] },
        },
    ];
    let (total, dirs) = census(&children);
    assert_eq!(total, 4);
    assert_eq!(dirs, 2);
}
