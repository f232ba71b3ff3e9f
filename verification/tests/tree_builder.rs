use egui_mcp::tree::{AccessNode, AccessTreeUpdate, ToggleState, UiRole, UiTreeBuilder, role_to_string};

#[test]
fn test_empty_tree() {
    let update = AccessTreeUpdate { nodes: vec![], root: None };
    let tree = UiTreeBuilder::from_accesskit(&update);
    assert!(tree.nodes.is_empty());
    assert!(tree.roots.is_empty());
}

fn node(role: UiRole, label: Option<&str>, children: Vec<u64>, toggled: Option<ToggleState>) -> AccessNode {
    AccessNode {
        role,
        label: label.map(|s| s.to_string()),
        value: None,
        children,
        toggled,
        disabled: false,
    }
}

#[test]
fn nodes_get_sequential_ids_and_mapped_children() {
    let update = AccessTreeUpdate {
        nodes: vec![
            (100, node(UiRole::Window, Some("main"), vec![200, 300, 999], None)),
            (200, node(UiRole::Button, Some("OK"), vec![], None)),
            (300, node(UiRole::CheckBox, None, vec![], Some(ToggleState::Mixed))),
        ],
        root: Some(100),
    };
    let tree = UiTreeBuilder::from_accesskit(&update);
    assert_eq!(tree.roots, vec![0]);
    assert_eq!(tree.nodes.len(), 3);
    assert_eq!(tree.nodes[0].id, 0);
    assert_eq!(tree.nodes[0].role, "Window");
    assert_eq!(tree.nodes[0].children, vec![1, 2]);
    assert_eq!(tree.nodes[1].role, "Button");
    assert_eq!(tree.nodes[1].label.as_deref(), Some("OK"));
    assert_eq!(tree.nodes[2].toggled, Some(false));
    assert!(!tree.nodes[2].focused);
}

#[test]
fn duplicate_ids_take_the_last_position_and_missing_root_is_zero() {
    let update = AccessTreeUpdate {
        nodes: vec![
            (7, node(UiRole::Label, None, vec![7], Some(ToggleState::True))),
            (7, node(UiRole::Other, None, vec![], None)),
        ],
        root: Some(42),
    };
    let tree = UiTreeBuilder::from_accesskit(&update);
    assert_eq!(tree.nodes[0].id, 1);
    assert_eq!(tree.nodes[1].id, 1);
    assert_eq!(tree.nodes[0].children, vec![1]);
    assert_eq!(tree.nodes[0].toggled, Some(true));
    assert_eq!(tree.nodes[1].role, "Other");
    assert_eq!(tree.roots, vec![0]);
}

#[test]
fn role_names() {
    assert_eq!(role_to_string(UiRole::TextInput), "TextInput");
    assert_eq!(role_to_string(UiRole::GenericContainer), "GenericContainer");
    assert_eq!(role_to_string(UiRole::Other), "Other");
}
