//! Building a `UiTree` from an accessibility tree update.
//!
//! The update's nodes are given new identifiers: their positions in the
//! update. When an identifier occurs several times, its last position
//! stands for it. Children the update does not hold are dropped.

use std::collections::HashMap;
use vstd::prelude::*;
use crate::protocol::{NodeInfo, NodeView, UiTree, nodes_view, clone_opt_string};

verus! {

broadcast use vstd::std_specs::hash::group_hash_axioms;

/// The roles the tree builder names; every other role is `Other`.
#[derive(Clone, Copy, PartialEq, Eq, Structural, Debug)]
pub enum UiRole {
    Unknown,
    Button,
    CheckBox,
    ComboBox,
    Dialog,
    GenericContainer,
    Group,
    Image,
    Label,
    Link,
    List,
    ListItem,
    Menu,
    MenuBar,
    MenuItem,
    ProgressIndicator,
    RadioButton,
    ScrollBar,
    ScrollView,
    Slider,
    SpinButton,
    Tab,
    TabList,
    TabPanel,
    TextInput,
    Toolbar,
    Tooltip,
    Tree,
    TreeItem,
    Window,
    Other,
}

/// The toggle state of a checkable node.
#[derive(Clone, Copy, PartialEq, Eq, Structural, Debug)]
pub enum ToggleState {
    True,
    False,
    Mixed,
}

/// A node of an accessibility tree update: what the builder reads of it.
pub struct AccessNode {
    pub role: UiRole,
    pub label: Option<String>,
    pub value: Option<String>,
    /// Identifiers (in the update) of the children.
    pub children: Vec<u64>,
    pub toggled: Option<ToggleState>,
    pub disabled: bool,
}

/// An accessibility tree update: its nodes with their identifiers, and the
/// identifier of the tree's root when the update carries the tree.
pub struct AccessTreeUpdate {
    pub nodes: Vec<(u64, AccessNode)>,
    pub root: Option<u64>,
}

/// Name of a role.
pub open spec fn role_name(role: UiRole) -> Seq<char> {
    match role {
        UiRole::Unknown => "Unknown"@,
        UiRole::Button => "Button"@,
        UiRole::CheckBox => "CheckBox"@,
        UiRole::ComboBox => "ComboBox"@,
        UiRole::Dialog => "Dialog"@,
        UiRole::GenericContainer => "GenericContainer"@,
        UiRole::Group => "Group"@,
        UiRole::Image => "Image"@,
        UiRole::Label => "Label"@,
        UiRole::Link => "Link"@,
        UiRole::List => "List"@,
        UiRole::ListItem => "ListItem"@,
        UiRole::Menu => "Menu"@,
        UiRole::MenuBar => "MenuBar"@,
        UiRole::MenuItem => "MenuItem"@,
        UiRole::ProgressIndicator => "ProgressIndicator"@,
        UiRole::RadioButton => "RadioButton"@,
        UiRole::ScrollBar => "ScrollBar"@,
        UiRole::ScrollView => "ScrollView"@,
        UiRole::Slider => "Slider"@,
        UiRole::SpinButton => "SpinButton"@,
        UiRole::Tab => "Tab"@,
        UiRole::TabList => "TabList"@,
        UiRole::TabPanel => "TabPanel"@,
        UiRole::TextInput => "TextInput"@,
        UiRole::Toolbar => "Toolbar"@,
        UiRole::Tooltip => "Tooltip"@,
        UiRole::Tree => "Tree"@,
        UiRole::TreeItem => "TreeItem"@,
        UiRole::Window => "Window"@,
        UiRole::Other => "Other"@,
    }
}

/// The toggle state as a flag: mixed counts as not toggled.
pub open spec fn toggle_flag(t: Option<ToggleState>) -> Option<bool> {
    match t {
        Some(ToggleState::True) => Some(true),
        Some(_) => Some(false),
        None => None,
    }
}

/// The update's identifiers, in order.
pub open spec fn update_ids(nodes: Seq<(u64, AccessNode)>) -> Seq<u64> {
    nodes.map_values(|p: (u64, AccessNode)| p.0)
}

/// Identifier to the last position, among the first `n`, where it occurs.
pub open spec fn position_map(ids: Seq<u64>, n: int) -> Map<u64, u64>
    decreases n,
{
    if n <= 0 {
        Map::empty()
    } else {
        position_map(ids, n - 1).insert(ids[n - 1], (n - 1) as u64)
    }
}

/// The new identifier of each identifier of the update.
pub open spec fn new_ids(ids: Seq<u64>) -> Map<u64, u64> {
    position_map(ids, ids.len() as int)
}

/// The children, by their new identifiers, among the first `n`; children
/// the update lacks are dropped.
pub open spec fn mapped_children(m: Map<u64, u64>, cs: Seq<u64>, n: int) -> Seq<u64>
    decreases n,
{
    if n <= 0 {
        Seq::empty()
    } else {
        let prev = mapped_children(m, cs, n - 1);
        if m.contains_key(cs[n - 1]) {
            prev.push(m[cs[n - 1]])
        } else {
            prev
        }
    }
}

/// The node the builder makes of an update node with the new identifier `id`.
pub open spec fn converted_node(id: u64, node: AccessNode, m: Map<u64, u64>) -> NodeView {
    NodeView {
        id,
        role: role_name(node.role),
        label: node.label.deep_view(),
        value: node.value.deep_view(),
        children: mapped_children(m, node.children@, node.children@.len() as int),
        toggled: toggle_flag(node.toggled),
        disabled: node.disabled,
        focused: false,
    }
}

/// The builder's tree for an update: each node converted under its new
/// identifier, in the update's order, and the root's new identifier (0 when
/// the update lacks it).
pub open spec fn built_nodes(u: Seq<(u64, AccessNode)>) -> Seq<NodeView> {
    let m = new_ids(update_ids(u));
    Seq::new(u.len(), |i: int| converted_node(m[u[i].0], u[i].1, m))
}

/// The roots of the builder's tree.
pub open spec fn built_roots(u: Seq<(u64, AccessNode)>, root: Option<u64>) -> Seq<u64> {
    let m = new_ids(update_ids(u));
    match root {
        Some(r) => seq![
            if m.contains_key(r) {
                m[r]
            } else {
                0
            },
        ],
        None => Seq::empty(),
    }
}

/// Every identifier occurring among the first `n` has a position.
pub proof fn lemma_position_map(ids: Seq<u64>, n: int)
    requires
        0 <= n <= ids.len(),
    ensures
        forall|i: int| 0 <= i < n ==> #[trigger] position_map(ids, n).contains_key(ids[i]),
    decreases n,
{
    if n > 0 {
        lemma_position_map(ids, n - 1);
        assert forall|i: int| 0 <= i < n implies #[trigger] position_map(ids, n).contains_key(
            ids[i],
        ) by {
            if i < n - 1 {
                assert(position_map(ids, n - 1).contains_key(ids[i]));
            }
        }
    }
}

/// With no identifier repeated, every node keeps its position as its new
/// identifier.
pub proof fn lemma_distinct_ids_are_positions(ids: Seq<u64>, n: int)
    requires
        0 <= n <= ids.len(),
        n <= u64::MAX + 1,
        forall|i: int, j: int| 0 <= i < j < ids.len() ==> ids[i] != ids[j],
    ensures
        forall|i: int| 0 <= i < n ==> #[trigger] position_map(ids, n)[ids[i]] == i,
    decreases n,
{
    if n > 0 {
        lemma_distinct_ids_are_positions(ids, n - 1);
        let m = position_map(ids, n);
        assert forall|i: int| 0 <= i < n implies #[trigger] m[ids[i]] == i by {
            if i < n - 1 {
                assert(ids[i] != ids[n - 1]);
                assert(position_map(ids, n - 1)[ids[i]] == i);
            }
        }
    }
}

fn lookup_id(m: &HashMap<u64, u64>, id: u64) -> (r: Option<u64>)
    ensures
        match r {
            Some(v) => m@.contains_key(id) && m@[id] == v,
            None => !m@.contains_key(id),
        },
{
    match m.get(&id) {
        Some(v) => Some(*v),
        None => None,
    }
}

/// Name of a role.
pub fn role_to_string(role: UiRole) -> (s: String)
    ensures
        s@ == role_name(role),
{
    let name = match role {
        UiRole::Unknown => "Unknown",
        UiRole::Button => "Button",
        UiRole::CheckBox => "CheckBox",
        UiRole::ComboBox => "ComboBox",
        UiRole::Dialog => "Dialog",
        UiRole::GenericContainer => "GenericContainer",
        UiRole::Group => "Group",
        UiRole::Image => "Image",
        UiRole::Label => "Label",
        UiRole::Link => "Link",
        UiRole::List => "List",
        UiRole::ListItem => "ListItem",
        UiRole::Menu => "Menu",
        UiRole::MenuBar => "MenuBar",
        UiRole::MenuItem => "MenuItem",
        UiRole::ProgressIndicator => "ProgressIndicator",
        UiRole::RadioButton => "RadioButton",
        UiRole::ScrollBar => "ScrollBar",
        UiRole::ScrollView => "ScrollView",
        UiRole::Slider => "Slider",
        UiRole::SpinButton => "SpinButton",
        UiRole::Tab => "Tab",
        UiRole::TabList => "TabList",
        UiRole::TabPanel => "TabPanel",
        UiRole::TextInput => "TextInput",
        UiRole::Toolbar => "Toolbar",
        UiRole::Tooltip => "Tooltip",
        UiRole::Tree => "Tree",
        UiRole::TreeItem => "TreeItem",
        UiRole::Window => "Window",
        UiRole::Other => "Other",
    };
    String::from_str(name)
}

/// Builder of `UiTree`s from accessibility tree updates.
pub struct UiTreeBuilder;

impl UiTreeBuilder {
    /// The tree of an update: its nodes in order, each under its new
    /// identifier, with children and root mapped to new identifiers.
    pub fn from_accesskit(update: &AccessTreeUpdate) -> (tree: UiTree)
        requires
            update.nodes@.len() <= u64::MAX,
        ensures
            nodes_view(tree.nodes@) == built_nodes(update.nodes@),
            tree.roots@ == built_roots(update.nodes@, update.root),
    {
        let ghost u = update.nodes@;
        let ghost ids = update_ids(u);
        let mut id_map: HashMap<u64, u64> = HashMap::new();
        let mut i: usize = 0;
        while i < update.nodes.len()
            invariant
                i <= u.len(),
                u == update.nodes@,
                ids == update_ids(u),
                u.len() <= u64::MAX,
                id_map@ == position_map(ids, i as int),
            decreases u.len() - i,
        {
            id_map.insert(update.nodes[i].0, i as u64);
            i += 1;
        }
        proof {
            lemma_position_map(ids, u.len() as int);
        }
        let ghost m = new_ids(ids);
        let mut nodes: Vec<NodeInfo> = Vec::new();
        let mut j: usize = 0;
        while j < update.nodes.len()
            invariant
                j <= u.len(),
                u == update.nodes@,
                ids == update_ids(u),
                m == new_ids(ids),
                id_map@ == m,
                u.len() <= u64::MAX,
                forall|k: int| 0 <= k < u.len() ==> #[trigger] m.contains_key(ids[k]),
                nodes@.len() == j,
                forall|k: int|
                    0 <= k < j ==> #[trigger] nodes_view(nodes@)[k] == converted_node(
                        m[u[k].0],
                        u[k].1,
                        m,
                    ),
            decreases u.len() - j,
        {
            let (node_id, node) = &update.nodes[j];
            assert(ids[j as int] == *node_id);
            let id = match lookup_id(&id_map, *node_id) {
                Some(v) => v,
                None => 0,
            };
            let info = Self::convert_node(id, node, &id_map);
            let ghost before = nodes@;
            nodes.push(info);
            proof {
                assert(m.contains_key(ids[j as int]));
                assert(id == m[u[j as int].0]);
                assert(*node == u[j as int].1);
                assert(nodes_view(nodes@) =~= nodes_view(before).push(info@));
            }
            j += 1;
        }
        let roots = match update.root {
            Some(r) => {
                let rid = match lookup_id(&id_map, r) {
                    Some(v) => v,
                    None => 0,
                };
                vec![rid]
            },
            None => Vec::new(),
        };
        let tree = UiTree { roots, nodes };
        assert(nodes_view(tree.nodes@) =~= built_nodes(u));
        assert(tree.roots@ =~= built_roots(u, update.root));
        tree
    }

    fn convert_node(id: u64, node: &AccessNode, id_map: &HashMap<u64, u64>) -> (n: NodeInfo)
        ensures
            n@ == converted_node(id, *node, id_map@),
    {
        let mut children: Vec<u64> = Vec::new();
        let mut k: usize = 0;
        while k < node.children.len()
            invariant
                k <= node.children@.len(),
                children@ == mapped_children(id_map@, node.children@, k as int),
            decreases node.children@.len() - k,
        {
            match lookup_id(id_map, node.children[k]) {
                Some(v) => children.push(v),
                None => {},
            }
            k += 1;
        }
        let toggled = match node.toggled {
            Some(ToggleState::True) => Some(true),
            Some(_) => Some(false),
            None => None,
        };
        NodeInfo {
            id,
            role: role_to_string(node.role),
            label: clone_opt_string(&node.label),
            value: clone_opt_string(&node.value),
            children,
            toggled,
            disabled: node.disabled,
            focused: false,
        }
    }
}

/// With no identifier repeated in the update, the builder's nodes are
/// numbered by their positions: node `i` gets identifier `i`.
pub proof fn lemma_sequential_ids(u: Seq<(u64, AccessNode)>)
    requires
        u.len() <= u64::MAX,
        forall|i: int, j: int| 0 <= i < j < u.len() ==> u[i].0 != u[j].0,
    ensures
        forall|i: int| 0 <= i < u.len() ==> #[trigger] built_nodes(u)[i].id == i,
        built_nodes(u).len() == u.len(),
{
    let ids = update_ids(u);
    lemma_distinct_ids_are_positions(ids, u.len() as int);
    assert forall|i: int| 0 <= i < u.len() implies #[trigger] built_nodes(u)[i].id == i by {
        assert(ids[i] == u[i].0);
    }
}


/// Each node the builder makes keeps what its update node says: the same
/// label and value text, the disabled flag, the toggle state as a flag
/// (mixed as not toggled), the name of its role, and no focus. There is one
/// node for each update node, in the update's order.
pub proof fn lemma_built_node_fields(u: Seq<(u64, AccessNode)>, i: int)
    requires
        0 <= i < u.len(),
    ensures
        built_nodes(u).len() == u.len(),
        built_nodes(u)[i].label == (match u[i].1.label {
            Some(l) => Some(l@),
            None => None::<Seq<char>>,
        }),
        built_nodes(u)[i].value == (match u[i].1.value {
            Some(v) => Some(v@),
            None => None::<Seq<char>>,
        }),
        built_nodes(u)[i].disabled == u[i].1.disabled,
        built_nodes(u)[i].focused == false,
        u[i].1.toggled == Some(ToggleState::True) ==> built_nodes(u)[i].toggled == Some(true),
        u[i].1.toggled == Some(ToggleState::False) ==> built_nodes(u)[i].toggled == Some(false),
        u[i].1.toggled == Some(ToggleState::Mixed) ==> built_nodes(u)[i].toggled == Some(false),
        u[i].1.toggled == None::<ToggleState> ==> built_nodes(u)[i].toggled == None::<bool>,
        u[i].1.role == UiRole::Unknown ==> built_nodes(u)[i].role == "Unknown"@,
        u[i].1.role == UiRole::Button ==> built_nodes(u)[i].role == "Button"@,
        u[i].1.role == UiRole::CheckBox ==> built_nodes(u)[i].role == "CheckBox"@,
        u[i].1.role == UiRole::ComboBox ==> built_nodes(u)[i].role == "ComboBox"@,
        u[i].1.role == UiRole::Dialog ==> built_nodes(u)[i].role == "Dialog"@,
        u[i].1.role == UiRole::GenericContainer ==> built_nodes(u)[i].role == "GenericContainer"@,
        u[i].1.role == UiRole::Group ==> built_nodes(u)[i].role == "Group"@,
        u[i].1.role == UiRole::Image ==> built_nodes(u)[i].role == "Image"@,
        u[i].1.role == UiRole::Label ==> built_nodes(u)[i].role == "Label"@,
        u[i].1.role == UiRole::Link ==> built_nodes(u)[i].role == "Link"@,
        u[i].1.role == UiRole::List ==> built_nodes(u)[i].role == "List"@,
        u[i].1.role == UiRole::ListItem ==> built_nodes(u)[i].role == "ListItem"@,
        u[i].1.role == UiRole::Menu ==> built_nodes(u)[i].role == "Menu"@,
        u[i].1.role == UiRole::MenuBar ==> built_nodes(u)[i].role == "MenuBar"@,
        u[i].1.role == UiRole::MenuItem ==> built_nodes(u)[i].role == "MenuItem"@,
        u[i].1.role == UiRole::ProgressIndicator ==> built_nodes(u)[i].role == "ProgressIndicator"@,
        u[i].1.role == UiRole::RadioButton ==> built_nodes(u)[i].role == "RadioButton"@,
        u[i].1.role == UiRole::ScrollBar ==> built_nodes(u)[i].role == "ScrollBar"@,
        u[i].1.role == UiRole::ScrollView ==> built_nodes(u)[i].role == "ScrollView"@,
        u[i].1.role == UiRole::Slider ==> built_nodes(u)[i].role == "Slider"@,
        u[i].1.role == UiRole::SpinButton ==> built_nodes(u)[i].role == "SpinButton"@,
        u[i].1.role == UiRole::Tab ==> built_nodes(u)[i].role == "Tab"@,
        u[i].1.role == UiRole::TabList ==> built_nodes(u)[i].role == "TabList"@,
        u[i].1.role == UiRole::TabPanel ==> built_nodes(u)[i].role == "TabPanel"@,
        u[i].1.role == UiRole::TextInput ==> built_nodes(u)[i].role == "TextInput"@,
        u[i].1.role == UiRole::Toolbar ==> built_nodes(u)[i].role == "Toolbar"@,
        u[i].1.role == UiRole::Tooltip ==> built_nodes(u)[i].role == "Tooltip"@,
        u[i].1.role == UiRole::Tree ==> built_nodes(u)[i].role == "Tree"@,
        u[i].1.role == UiRole::TreeItem ==> built_nodes(u)[i].role == "TreeItem"@,
        u[i].1.role == UiRole::Window ==> built_nodes(u)[i].role == "Window"@,
        u[i].1.role == UiRole::Other ==> built_nodes(u)[i].role == "Other"@,
{
}


proof fn lemma_position_values(ids: Seq<u64>, n: int, id: u64)
    requires
        0 <= n <= ids.len(),
        ids.len() <= u64::MAX,
        position_map(ids, n).contains_key(id),
    ensures
        position_map(ids, n)[id] < n,
        ids[position_map(ids, n)[id] as int] == id,
    decreases n,
{
    if n > 0 && ids[n - 1] != id {
        lemma_position_values(ids, n - 1, id);
    }
}

proof fn lemma_mapped_children_origin(ids: Seq<u64>, cs: Seq<u64>, n: int)
    requires
        0 <= n <= cs.len(),
        ids.len() <= u64::MAX,
    ensures
        forall|t: int|
            0 <= t < mapped_children(new_ids(ids), cs, n).len() ==> {
                let c = #[trigger] mapped_children(new_ids(ids), cs, n)[t];
                c < ids.len() && cs.contains(ids[c as int])
            },
    decreases n,
{
    if n > 0 {
        lemma_mapped_children_origin(ids, cs, n - 1);
        let m = new_ids(ids);
        let prev = mapped_children(m, cs, n - 1);
        if m.contains_key(cs[n - 1]) {
            lemma_position_values(ids, ids.len() as int, cs[n - 1]);
            assert(mapped_children(m, cs, n) == prev.push(m[cs[n - 1]]));
            assert forall|t: int| 0 <= t < mapped_children(m, cs, n).len() implies {
                let c = #[trigger] mapped_children(m, cs, n)[t];
                c < ids.len() && cs.contains(ids[c as int])
            } by {
                if t < prev.len() {
                    assert(mapped_children(m, cs, n)[t] == prev[t]);
                } else {
                    assert(cs[n - 1] == ids[m[cs[n - 1]] as int]);
                }
            }
        }
    }
}

/// Every child of a built node is a node of the built tree whose update
/// node is one of the children that the update node lists; and the root,
/// when the update names one it holds, is the built node of that update
/// node.
pub proof fn lemma_built_links(u: Seq<(u64, AccessNode)>, root: Option<u64>, i: int, t: int)
    requires
        u.len() <= u64::MAX,
        0 <= i < u.len(),
        0 <= t < built_nodes(u)[i].children.len(),
    ensures
        built_nodes(u)[i].children[t] < u.len(),
        u[i].1.children@.contains(u[built_nodes(u)[i].children[t] as int].0),
        root is Some && update_ids(u).contains(root->0) ==> built_roots(u, root).len() == 1
            && built_roots(u, root)[0] < u.len() && u[built_roots(u, root)[0] as int].0
            == root->0,
{
    let ids = update_ids(u);
    let cs = u[i].1.children@;
    lemma_mapped_children_origin(ids, cs, cs.len() as int);
    let c = mapped_children(new_ids(ids), cs, cs.len() as int)[t];
    assert(ids[c as int] == u[c as int].0);
    if root is Some && ids.contains(root->0) {
        let r = root->0;
        let w = choose|w: int| 0 <= w < ids.len() && ids[w] == r;
        lemma_position_map(ids, ids.len() as int);
        assert(position_map(ids, ids.len() as int).contains_key(ids[w]));
        lemma_position_values(ids, ids.len() as int, r);
    }
}


proof fn lemma_mapped_children_complete(m: Map<u64, u64>, cs: Seq<u64>, n: int, t: int)
    requires
        0 <= t < n <= cs.len(),
        m.contains_key(cs[t]),
    ensures
        mapped_children(m, cs, n).contains(m[cs[t]]),
    decreases n,
{
    let prev = mapped_children(m, cs, n - 1);
    if t == n - 1 {
        assert(mapped_children(m, cs, n)[prev.len() as int] == m[cs[t]]);
    } else {
        lemma_mapped_children_complete(m, cs, n - 1, t);
        let w = choose|w: int| 0 <= w < prev.len() && prev[w] == m[cs[t]];
        if m.contains_key(cs[n - 1]) {
            assert(mapped_children(m, cs, n)[w] == prev[w]);
        }
    }
}

/// Every child that an update node lists and the update holds is a child
/// of the built node: the built node of the last update node with that
/// identifier.
pub proof fn lemma_built_children_complete(u: Seq<(u64, AccessNode)>, i: int, t: int)
    requires
        u.len() <= u64::MAX,
        0 <= i < u.len(),
        0 <= t < u[i].1.children@.len(),
        update_ids(u).contains(u[i].1.children@[t]),
    ensures
        exists|c: int|
            0 <= c < u.len() && u[c].0 == u[i].1.children@[t] && (forall|d: int|
                c < d < u.len() ==> (#[trigger] u[d]).0 != u[c].0) && built_nodes(
                u,
            )[i].children.contains(c as u64),
{
    let ids = update_ids(u);
    let cs = u[i].1.children@;
    let m = new_ids(ids);
    let w = choose|w: int| 0 <= w < ids.len() && ids[w] == cs[t];
    lemma_position_map(ids, ids.len() as int);
    assert(m.contains_key(ids[w]));
    lemma_position_values(ids, ids.len() as int, cs[t]);
    lemma_position_last(ids, ids.len() as int, cs[t]);
    lemma_mapped_children_complete(m, cs, cs.len() as int, t);
    let c = m[cs[t]] as int;
    assert(u[c].0 == ids[c]);
    assert forall|d: int| c < d < u.len() implies (#[trigger] u[d]).0 != u[c].0 by {
        assert(ids[d] == u[d].0);
    }
}

proof fn lemma_position_last(ids: Seq<u64>, n: int, id: u64)
    requires
        0 <= n <= ids.len(),
        ids.len() <= u64::MAX,
        position_map(ids, n).contains_key(id),
    ensures
        forall|d: int| position_map(ids, n)[id] < d < n ==> #[trigger] ids[d] != id,
    decreases n,
{
    if n > 0 && ids[n - 1] != id {
        lemma_position_last(ids, n - 1, id);
    }
}


/// Each built node's identifier is the position, in the update, of the
/// last update node with the same identifier as its own update node.
pub proof fn lemma_built_ids(u: Seq<(u64, AccessNode)>, i: int)
    requires
        u.len() <= u64::MAX,
        0 <= i < u.len(),
    ensures
        built_nodes(u)[i].id < u.len(),
        u[built_nodes(u)[i].id as int].0 == u[i].0,
        i <= built_nodes(u)[i].id,
        forall|d: int| built_nodes(u)[i].id < d < u.len() ==> (#[trigger] u[d]).0 != u[i].0,
{
    let ids = update_ids(u);
    lemma_position_map(ids, ids.len() as int);
    assert(ids[i] == u[i].0);
    assert(position_map(ids, ids.len() as int).contains_key(ids[i]));
    lemma_position_values(ids, ids.len() as int, u[i].0);
    lemma_position_last(ids, ids.len() as int, u[i].0);
    let c = new_ids(ids)[u[i].0] as int;
    assert(u[c].0 == ids[c]);
    assert forall|d: int| c < d < u.len() implies (#[trigger] u[d]).0 != u[i].0 by {
        assert(ids[d] == u[d].0);
    }
    if c < i {
        assert(ids[i] == u[i].0);
        assert(false);
    }
}

} // verus!
