use egui_mcp::protocol::{NodeInfo, UiTree};
use egui_mcp::tree_diff::{DiffField, FieldValue, compute_tree_diff, node_changes};

fn node(id: u64, role: &str, label: Option<&str>, toggled: Option<bool>) -> NodeInfo {
    NodeInfo {
        id,
        role: role.to_string(),
        label: label.map(|s| s.to_string()),
        value: None,
        children: vec![],
        toggled,
        disabled: false,
        focused: false,
    }
}

#[test]
fn diff_with_itself_is_empty() {
    let t = UiTree { roots: vec![1], nodes: vec![node(1, "Window", None, None), node(2, "Button", Some("OK"), None)] };
    let d = compute_tree_diff(&t, &t);
    assert!(d.added.is_empty());
    assert!(d.removed.is_empty());
    assert!(d.modified.is_empty());
}

#[test]
fn added_removed_and_modified_nodes() {
    let a = UiTree {
        roots: vec![1],
        nodes: vec![node(1, "Window", None, None), node(2, "Button", Some("OK"), None), node(3, "CheckBox", Some("x"), Some(false))],
    };
    let b = UiTree {
        roots: vec![1],
        nodes: vec![node(1, "Window", None, None), node(3, "CheckBox", Some("x"), Some(true)), node(4, "Label", Some("new"), None)],
    };
    let d = compute_tree_diff(&a, &b);
    assert_eq!(d.added.len(), 1);
    assert_eq!(d.added[0].id, 4);
    assert_eq!(d.added[0].role, "Label");
    assert_eq!(d.removed.len(), 1);
    assert_eq!(d.removed[0].id, 2);
    assert_eq!(d.removed[0].label.as_deref(), Some("OK"));
    assert_eq!(d.modified.len(), 1);
    assert_eq!(d.modified[0].id, 3);
    assert_eq!(d.modified[0].changes.len(), 1);
    assert_eq!(d.modified[0].changes[0].field, DiffField::Toggled);
    assert!(matches!(d.modified[0].changes[0].old, FieldValue::MaybeFlag(Some(false))));
    assert!(matches!(d.modified[0].changes[0].new, FieldValue::MaybeFlag(Some(true))));
}

#[test]
fn swapping_the_trees_swaps_added_and_removed() {
    let a = UiTree { roots: vec![], nodes: vec![node(1, "A", None, None)] };
    let b = UiTree { roots: vec![], nodes: vec![node(2, "B", None, None)] };
    let ab = compute_tree_diff(&a, &b);
    let ba = compute_tree_diff(&b, &a);
    assert_eq!(ab.added[0].id, ba.removed[0].id);
    assert_eq!(ab.removed[0].id, ba.added[0].id);
}

#[test]
fn changes_are_listed_in_field_order() {
    let mut x = node(5, "Button", Some("a"), None);
    let mut y = node(5, "Label", Some("b"), None);
    x.focused = true;
    y.disabled = true;
    let ch = node_changes(&x, &y);
    let fields: Vec<DiffField> = ch.iter().map(|c| c.field).collect();
    assert_eq!(fields, vec![DiffField::Role, DiffField::Label, DiffField::Disabled, DiffField::Focused]);
}

#[test]
fn duplicate_ids_compare_the_last_node() {
    let a = UiTree { roots: vec![], nodes: vec![node(1, "Old", None, None), node(1, "Button", None, None)] };
    let b = UiTree { roots: vec![], nodes: vec![node(1, "Button", None, None)] };
    let d = compute_tree_diff(&a, &b);
    assert!(d.modified.is_empty());
    assert!(d.added.is_empty() && d.removed.is_empty());
}

#[test]
fn swapping_the_trees_swaps_old_and_new_values() {
    let a = UiTree { roots: vec![], nodes: vec![node(7, "Button", Some("Save"), Some(true))] };
    let b = UiTree { roots: vec![], nodes: vec![node(7, "Button", Some("Saved"), Some(false))] };
    let ab = compute_tree_diff(&a, &b);
    let ba = compute_tree_diff(&b, &a);
    assert_eq!(ab.modified.len(), 1);
    assert_eq!(ba.modified.len(), 1);
    assert_eq!(ab.modified[0].id, ba.modified[0].id);
    assert_eq!(ab.modified[0].changes.len(), 2);
    assert!(matches!(&ab.modified[0].changes[0].old, FieldValue::MaybeText(Some(s)) if s == "Save"));
    assert!(matches!(&ba.modified[0].changes[0].new, FieldValue::MaybeText(Some(s)) if s == "Save"));
    assert!(matches!(ab.modified[0].changes[1].new, FieldValue::MaybeFlag(Some(false))));
    assert!(matches!(ba.modified[0].changes[1].old, FieldValue::MaybeFlag(Some(false))));
}
