use egui_mcp::accessibility::{
    ElementStates, accessible_node, checked_state, combo_selected_count, find_by_label, find_by_role,
    get_element, visible_state,
};
use egui_mcp::protocol::{NodeInfo, UiTree};
use egui_mcp::text_search::{text_contains, text_equals};

fn states() -> ElementStates {
    ElementStates { focused: false, enabled: true, visible: false, showing: false, checked: false, pressed: false, checkable: false }
}

fn node(id: u64, role: &str, label: Option<&str>) -> NodeInfo {
    NodeInfo { id, role: role.into(), label: label.map(|s| s.into()), value: None, children: vec![], toggled: None, disabled: false, focused: false }
}

fn tree() -> UiTree {
    UiTree {
        roots: vec![1],
        nodes: vec![
            node(1, "Frame", Some("Demo app")),
            node(2, "PushButton", Some("Submit")),
            node(3, "CheckBox", None),
            node(4, "PushButton", Some("Submit form")),
            node(2, "Label", Some("dup")),
        ],
    }
}

#[test]
fn checked_and_visible_states() {
    assert_eq!(checked_state(states()), None);
    assert_eq!(checked_state(ElementStates { checkable: true, ..states() }), Some(false));
    assert_eq!(checked_state(ElementStates { pressed: true, ..states() }), Some(true));
    assert_eq!(checked_state(ElementStates { checked: true, checkable: true, ..states() }), Some(true));
    assert!(!visible_state(states()));
    assert!(visible_state(ElementStates { showing: true, ..states() }));
}

#[test]
fn accessible_nodes_take_their_id_from_the_path() {
    let n = accessible_node(
        "/org/a11y/atspi/accessible/0/77",
        String::new(),
        "a description".into(),
        None,
        Some(ElementStates { focused: true, enabled: false, checkable: true, ..states() }),
        vec![5, 6],
    );
    assert_eq!(n.id, 77);
    assert_eq!(n.role, "Unknown");
    assert_eq!(n.label.as_deref(), Some("a description"));
    assert_eq!(n.toggled, Some(false));
    assert!(n.disabled && n.focused);
    assert_eq!(n.children, vec![5, 6]);
    let n = accessible_node("/x/root", "name".into(), "desc".into(), Some("PushButton".into()), None, vec![]);
    assert_eq!(n.id, 0);
    assert_eq!(n.label.as_deref(), Some("name"));
    assert_eq!(n.role, "PushButton");
    assert!(!n.disabled && !n.focused && n.toggled.is_none());
    let n = accessible_node("/1", String::new(), String::new(), None, None, vec![]);
    assert!(n.label.is_none());
}

#[test]
fn label_search_exact_and_substring() {
    let t = tree();
    let ids = |v: Vec<NodeInfo>| v.iter().map(|n| n.id).collect::<Vec<_>>();
    assert_eq!(ids(find_by_label(Some(&t), "Submit", false)), vec![2, 4]);
    assert_eq!(ids(find_by_label(Some(&t), "Submit", true)), vec![2]);
    assert_eq!(ids(find_by_label(Some(&t), "", false)), vec![1, 2, 4, 2]);
    assert!(find_by_label(None, "Submit", false).is_empty());
}

#[test]
fn role_search_ignores_case() {
    let t = tree();
    let ids: Vec<u64> = find_by_role(Some(&t), "pushbutton").iter().map(|n| n.id).collect();
    assert_eq!(ids, vec![2, 4]);
    let ids: Vec<u64> = find_by_role(Some(&t), "BOX").iter().map(|n| n.id).collect();
    assert_eq!(ids, vec![3]);
    assert!(find_by_role(None, "x").is_empty());
}

#[test]
fn element_lookup_returns_the_first_match() {
    let t = tree();
    assert_eq!(get_element(Some(&t), 2).unwrap().role, "PushButton");
    assert!(get_element(Some(&t), 9).is_none());
    assert!(get_element(None, 1).is_none());
}

#[test]
fn combo_box_selection_count() {
    assert_eq!(combo_selected_count(""), 0);
    assert_eq!(combo_selected_count("Option B"), 1);
}

#[test]
fn text_search_basics() {
    assert!(text_contains("hello world", "o w"));
    assert!(text_contains("abc", ""));
    assert!(!text_contains("", "a"));
    assert!(!text_contains("ab", "abc"));
    assert!(text_contains("日本語テキスト", "テキ"));
    assert!(text_equals("é", "é"));
    assert!(!text_equals("a", "ab"));
}

#[test]
fn node_ids_fall_back_per_path() {
    let paths = vec!["/org/a11y/atspi/accessible/12".to_string(), "/org/a11y/atspi/accessible/root".to_string()];
    assert_eq!(egui_mcp::accessibility::node_ids(&paths, 1), vec![12, 1]);
    assert_eq!(egui_mcp::accessibility::node_ids(&paths, 0), vec![12, 0]);
    assert!(egui_mcp::accessibility::node_ids(&vec![], 0).is_empty());
}
