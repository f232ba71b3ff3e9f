use egui_mcp::protocol::{NodeInfo, UiTree};
use egui_mcp::snapshots::{SnapshotStore, diff_snapshots, load_snapshot};

fn tree(ids: &[u64]) -> UiTree {
    UiTree {
        roots: ids.iter().copied().take(1).collect(),
        nodes: ids
            .iter()
            .map(|&id| NodeInfo { id, role: "Button".into(), label: None, value: None, children: vec![], toggled: None, disabled: false, focused: false })
            .collect(),
    }
}

#[test]
fn load_gives_back_what_was_saved() {
    let mut store = SnapshotStore::new();
    store.save("before", tree(&[1, 2]));
    store.save("after", tree(&[1, 3]));
    let t = load_snapshot(&store, "before").ok().unwrap();
    assert_eq!(t.nodes.iter().map(|n| n.id).collect::<Vec<_>>(), vec![1, 2]);
    store.save("before", tree(&[5]));
    let t = load_snapshot(&store, "before").ok().unwrap();
    assert_eq!(t.roots, vec![5]);
    let t = load_snapshot(&store, "after").ok().unwrap();
    assert_eq!(t.nodes.len(), 2);
}

#[test]
fn missing_snapshots_are_reported() {
    let mut store = SnapshotStore::new();
    assert_eq!(
        load_snapshot(&store, "nope").err().unwrap(),
        "{\"error\":\"not_found\",\"message\":\"Snapshot 'nope' not found\"}"
    );
    store.save("a", tree(&[1]));
    assert!(diff_snapshots(&store, "x", "y").err().unwrap().contains("'x'"));
    assert!(diff_snapshots(&store, "a", "y").err().unwrap().contains("'y'"));
}

#[test]
fn snapshot_diff() {
    let mut store = SnapshotStore::new();
    store.save("a", tree(&[1, 2]));
    store.save("b", tree(&[2, 3]));
    let d = diff_snapshots(&store, "a", "b").ok().unwrap();
    assert_eq!(d.added.len(), 1);
    assert_eq!(d.added[0].id, 3);
    assert_eq!(d.removed[0].id, 1);
    assert!(d.modified.is_empty());
}
