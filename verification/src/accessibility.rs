//! What the MCP server decides from AT-SPI answers: the node it records for
//! an accessible object, the states it reports, and the searches over a
//! UI tree. Talking to AT-SPI over D-Bus is the caller's work.

use vstd::prelude::*;
use vstd::string::StringSliceAdditionalSpecFns;
use crate::ids::extract_atspi_node_id;
use crate::ids::{last_segment, spec_parse_u64};
use crate::input::{lowercase_of, str_to_lowercase};
use crate::protocol::{NodeInfo, NodeView, UiTree, clone_opt_string, nodes_view};
use crate::text_search::{contains_text, occurs_at, text_contains, text_equals};

verus! {

/// Text content of an element, from the AT-SPI Text interface.
pub struct TextInfo {
    pub text: String,
    pub length: i32,
    pub caret_offset: i32,
}

/// A text selection range.
pub struct TextSelection {
    pub start: i32,
    pub end: i32,
}

/// The states of an accessible object that the server reads.
#[derive(Clone, Copy, PartialEq, Eq, Structural, Debug)]
pub struct ElementStates {
    pub focused: bool,
    pub enabled: bool,
    pub visible: bool,
    pub showing: bool,
    pub checked: bool,
    pub pressed: bool,
    pub checkable: bool,
}

/// Checked state: on when checked or pressed, off when merely checkable,
/// none when the object cannot be checked.
pub open spec fn spec_checked_state(s: ElementStates) -> Option<bool> {
    if s.checked || s.pressed {
        Some(true)
    } else if s.checkable {
        Some(false)
    } else {
        None
    }
}

/// Checked state of an object (for checkboxes and toggle buttons).
pub fn checked_state(s: ElementStates) -> (r: Option<bool>)
    ensures
        r == spec_checked_state(s),
{
    if s.checked || s.pressed {
        Some(true)
    } else if s.checkable {
        Some(false)
    } else {
        None
    }
}

/// Whether an object is visible: it has the Visible or the Showing state.
pub fn visible_state(s: ElementStates) -> (r: bool)
    ensures
        r == (s.visible || s.showing),
{
    s.visible || s.showing
}

/// The label of an accessible object: its name, else its description,
/// else none.
pub open spec fn spec_label(name: Seq<char>, description: Seq<char>) -> Option<Seq<char>> {
    if name.len() > 0 {
        Some(name)
    } else if description.len() > 0 {
        Some(description)
    } else {
        None
    }
}

/// The node recorded for an accessible object at `path`: its identifier is
/// the path's last segment read as a number (0 when it is none), its role
/// the role's name ("Unknown" when it could not be read), and the states
/// give focus, disablement and toggle state (none of them when the states
/// could not be read).
pub open spec fn spec_accessible_node(
    path: &str,
    name: Seq<char>,
    description: Seq<char>,
    role: Option<Seq<char>>,
    states: Option<ElementStates>,
    children: Seq<u64>,
) -> NodeView {
    NodeView {
        id: match spec_parse_u64(last_segment(path.spec_bytes())) {
            Some(v) => v,
            None => 0,
        },
        role: match role {
            Some(r) => r,
            None => "Unknown"@,
        },
        label: spec_label(name, description),
        value: None,
        children,
        toggled: match states {
            Some(s) => spec_checked_state(s),
            None => None,
        },
        disabled: match states {
            Some(s) => !s.enabled,
            None => false,
        },
        focused: match states {
            Some(s) => s.focused,
            None => false,
        },
    }
}

/// Builds the node recorded for an accessible object.
pub fn accessible_node(
    path: &str,
    name: String,
    description: String,
    role: Option<String>,
    states: Option<ElementStates>,
    children: Vec<u64>,
) -> (n: NodeInfo)
    ensures
        n@ == spec_accessible_node(
            path,
            name@,
            description@,
            role.deep_view(),
            states,
            children@,
        ),
{
    let id = match extract_atspi_node_id(path) {
        Some(v) => v,
        None => 0,
    };
    let role = match role {
        Some(r) => r,
        None => String::from_str("Unknown"),
    };
    let (focused, disabled, toggled) = match states {
        Some(s) => (s.focused, !s.enabled, checked_state(s)),
        None => (false, false, None),
    };
    let label = if !name.as_str().is_empty() {
        Some(name)
    } else if !description.as_str().is_empty() {
        Some(description)
    } else {
        None
    };
    NodeInfo { id, role, label, value: None, children, toggled, disabled, focused }
}

/// The node id that ends an object path (the text after its last '/', read
/// as a decimal number), or `fallback` when there is none.
pub open spec fn path_id_or(path: Seq<char>, fallback: u64) -> u64 {
    match spec_parse_u64(last_segment(vstd::utf8::encode_utf8(path))) {
        Some(v) => v,
        None => fallback,
    }
}

/// The node ids of the objects at `paths`, in order, each `fallback` when
/// its path ends in no number.
pub fn node_ids(paths: &Vec<String>, fallback: u64) -> (ids: Vec<u64>)
    ensures
        ids@.len() == paths@.len(),
        forall|i: int| 0 <= i < paths@.len() ==> ids@[i] == path_id_or(paths@[i]@, fallback),
{
    let mut ids: Vec<u64> = Vec::new();
    let mut i: usize = 0;
    while i < paths.len()
        invariant
            i <= paths@.len(),
            ids@.len() == i,
            forall|k: int| 0 <= k < i ==> ids@[k] == path_id_or(paths@[k]@, fallback),
        decreases paths@.len() - i,
    {
        let id = match extract_atspi_node_id(paths[i].as_str()) {
            Some(v) => v,
            None => fallback,
        };
        ids.push(id);
        i += 1;
    }
    ids
}

/// Number of selected items of a combo box: its name holds the selected
/// value, so one when the name is not empty.
pub fn combo_selected_count(name: &str) -> (n: i32)
    ensures
        n == (if name@.len() == 0 {
            0i32
        } else {
            1i32
        }),
{
    if name.is_empty() {
        0
    } else {
        1
    }
}

/// A copy of a node.
pub fn clone_node(n: &NodeInfo) -> (c: NodeInfo)
    ensures
        c@ == n@,
{
    let mut children: Vec<u64> = Vec::new();
    let mut i: usize = 0;
    while i < n.children.len()
        invariant
            i <= n.children@.len(),
            children@ == n.children@.subrange(0, i as int),
        decreases n.children@.len() - i,
    {
        children.push(n.children[i]);
        i += 1;
        assert(children@ =~= n.children@.subrange(0, i as int));
    }
    assert(children@ =~= n.children@);
    NodeInfo {
        id: n.id,
        role: n.role.clone(),
        label: clone_opt_string(&n.label),
        value: clone_opt_string(&n.value),
        children,
        toggled: n.toggled,
        disabled: n.disabled,
        focused: n.focused,
    }
}

/// The nodes among the first `k` of `s` that satisfy `p`, in order.
pub open spec fn kept(s: Seq<NodeView>, p: spec_fn(NodeView) -> bool, k: int) -> Seq<NodeView>
    decreases k,
{
    if k <= 0 {
        Seq::empty()
    } else if p(s[k - 1]) {
        kept(s, p, k - 1).push(s[k - 1])
    } else {
        kept(s, p, k - 1)
    }
}

/// The nodes of `s` that satisfy `p`, in order.
pub open spec fn all_kept(s: Seq<NodeView>, p: spec_fn(NodeView) -> bool) -> Seq<NodeView> {
    kept(s, p, s.len() as int)
}

/// Whether a node's label matches the pattern: equal to it when `exact`,
/// else containing it. A node without label never matches.
pub open spec fn label_matches(n: NodeView, pattern: Seq<char>, exact: bool) -> bool {
    match n.label {
        Some(l) => if exact {
            l == pattern
        } else {
            contains_text(l, pattern)
        },
        None => false,
    }
}

/// Whether a node's role, lower-cased, contains the lower-cased role asked for.
pub open spec fn role_matches(n: NodeView, role: Seq<char>) -> bool {
    contains_text(lowercase_of(n.role), lowercase_of(role))
}

/// The nodes of a tree (none without a tree), in order.
pub open spec fn tree_nodes(tree: Option<&UiTree>) -> Seq<NodeView> {
    match tree {
        Some(t) => nodes_view(t.nodes@),
        None => Seq::empty(),
    }
}

/// The nodes of the tree whose label matches `pattern` (exactly, or as a
/// substring), in the tree's order; none without a tree.
pub fn find_by_label(tree: Option<&UiTree>, pattern: &str, exact: bool) -> (r: Vec<NodeInfo>)
    ensures
        nodes_view(r@) == all_kept(
            tree_nodes(tree),
            |n: NodeView| label_matches(n, pattern@, exact),
        ),
{
    let ghost p = |n: NodeView| label_matches(n, pattern@, exact);
    let mut out: Vec<NodeInfo> = Vec::new();
    match tree {
        None => {
            assert(nodes_view(out@) =~= all_kept(tree_nodes(tree), p));
            out
        },
        Some(t) => {
            let ghost s = nodes_view(t.nodes@);
            let mut i: usize = 0;
            while i < t.nodes.len()
                invariant
                    i <= t.nodes@.len(),
                    s == nodes_view(t.nodes@),
                    p == (|n: NodeView| label_matches(n, pattern@, exact)),
                    nodes_view(out@) == kept(s, p, i as int),
                decreases t.nodes@.len() - i,
            {
                let node = &t.nodes[i];
                let hit = match &node.label {
                    Some(l) => if exact {
                        text_equals(l.as_str(), pattern)
                    } else {
                        text_contains(l.as_str(), pattern)
                    },
                    None => false,
                };
                assert(s[i as int] == node@);
                if hit {
                    let ghost before = out@;
                    out.push(clone_node(node));
                    assert(nodes_view(out@) =~= nodes_view(before).push(node@));
                }
                i += 1;
            }
            out
        },
    }
}

/// The nodes of the tree whose role, lower-cased, contains the lower-cased
/// `role`, in the tree's order; none without a tree.
pub fn find_by_role(tree: Option<&UiTree>, role: &str) -> (r: Vec<NodeInfo>)
    ensures
        nodes_view(r@) == all_kept(tree_nodes(tree), |n: NodeView| role_matches(n, role@)),
{
    let ghost p = |n: NodeView| role_matches(n, role@);
    let mut out: Vec<NodeInfo> = Vec::new();
    match tree {
        None => {
            assert(nodes_view(out@) =~= all_kept(tree_nodes(tree), p));
            out
        },
        Some(t) => {
            let wanted = str_to_lowercase(role);
            let ghost s = nodes_view(t.nodes@);
            let mut i: usize = 0;
            while i < t.nodes.len()
                invariant
                    i <= t.nodes@.len(),
                    s == nodes_view(t.nodes@),
                    wanted@ == lowercase_of(role@),
                    p == (|n: NodeView| role_matches(n, role@)),
                    nodes_view(out@) == kept(s, p, i as int),
                decreases t.nodes@.len() - i,
            {
                let node = &t.nodes[i];
                let lower = str_to_lowercase(node.role.as_str());
                let hit = text_contains(lower.as_str(), wanted.as_str());
                assert(s[i as int] == node@);
                if hit {
                    let ghost before = out@;
                    out.push(clone_node(node));
                    assert(nodes_view(out@) =~= nodes_view(before).push(node@));
                }
                i += 1;
            }
            out
        },
    }
}

/// The first node of the tree with the given identifier; none without a
/// tree or such a node.
pub fn get_element(tree: Option<&UiTree>, id: u64) -> (r: Option<NodeInfo>)
    ensures
        match r {
            Some(n) => exists|i: int|
                0 <= i < tree_nodes(tree).len() && tree_nodes(tree)[i] == n@ && (forall|j: int|
                    0 <= j < i ==> (#[trigger] tree_nodes(tree)[j]).id != id) && n@.id == id,
            None => forall|j: int|
                0 <= j < tree_nodes(tree).len() ==> (#[trigger] tree_nodes(tree)[j]).id != id,
        },
{
    match tree {
        None => None,
        Some(t) => {
            let ghost s = nodes_view(t.nodes@);
            let mut i: usize = 0;
            while i < t.nodes.len()
                invariant
                    i <= t.nodes@.len(),
                    s == nodes_view(t.nodes@),
                    s == tree_nodes(tree),
                    forall|j: int| 0 <= j < i ==> (#[trigger] s[j]).id != id,
                decreases t.nodes@.len() - i,
            {
                assert(s[i as int] == t.nodes@[i as int]@);
                if t.nodes[i].id == id {
                    return Some(clone_node(&t.nodes[i]));
                }
                i += 1;
            }
            None
        },
    }
}

/// Every node found by label matches the pattern, and every node of the
/// tree that matches is found.
pub proof fn lemma_found_nodes_match(s: Seq<NodeView>, p: spec_fn(NodeView) -> bool, k: int)
    requires
        0 <= k <= s.len(),
    ensures
        forall|i: int| 0 <= i < kept(s, p, k).len() ==> p(#[trigger] kept(s, p, k)[i]),
        forall|j: int| 0 <= j < k && p(s[j]) ==> kept(s, p, k).contains(#[trigger] s[j]),
    decreases k,
{
    if k > 0 {
        lemma_found_nodes_match(s, p, k - 1);
        let prev = kept(s, p, k - 1);
        if p(s[k - 1]) {
            assert(kept(s, p, k) == prev.push(s[k - 1]));
            assert forall|j: int| 0 <= j < k && p(s[j]) implies kept(s, p, k).contains(
                #[trigger] s[j],
            ) by {
                if j < k - 1 {
                    let w = choose|w: int| 0 <= w < prev.len() && prev[w] == s[j];
                    assert(kept(s, p, k)[w] == s[j]);
                } else {
                    assert(kept(s, p, k)[prev.len() as int] == s[j]);
                }
            }
        }
    }
}


/// Searching by label, not exactly: a labelled node is found whenever the
/// pattern occurs in its label at some position `k`, wherever that is.
pub proof fn lemma_label_search_finds_substring(
    s: Seq<NodeView>,
    pattern: Seq<char>,
    j: int,
    k: int,
)
    requires
        0 <= j < s.len(),
        s[j].label is Some,
        0 <= k,
        k + pattern.len() <= s[j].label->0.len(),
        s[j].label->0.subrange(k, k + pattern.len()) == pattern,
    ensures
        all_kept(s, |n: NodeView| label_matches(n, pattern, false)).contains(s[j]),
{
    let p = |n: NodeView| label_matches(n, pattern, false);
    let l = s[j].label->0;
    assert(occurs_at(l, pattern, k));
    assert(p(s[j]));
    lemma_found_nodes_match(s, p, s.len() as int);
}

/// Searching by label, not exactly: every node found has a label in which
/// the pattern occurs at some position.
pub proof fn lemma_label_search_found_has_pattern(s: Seq<NodeView>, pattern: Seq<char>, i: int)
    requires
        0 <= i < all_kept(s, |n: NodeView| label_matches(n, pattern, false)).len(),
    ensures
        ({
            let f = all_kept(s, |n: NodeView| label_matches(n, pattern, false))[i];
            f.label is Some && exists|k: int|
                0 <= k && k + pattern.len() <= f.label->0.len() && #[trigger] f.label->0.subrange(
                    k,
                    k + pattern.len(),
                ) == pattern
        }),
{
    let p = |n: NodeView| label_matches(n, pattern, false);
    lemma_found_nodes_match(s, p, s.len() as int);
    let f = all_kept(s, p)[i];
    assert(p(f));
    let l = f.label->0;
    let k = choose|k: int| #[trigger] occurs_at(l, pattern, k);
    assert(l.subrange(k, k + pattern.len()) == pattern);
}

/// Searching by label exactly: a node is found exactly when its label is
/// the pattern.
pub proof fn lemma_label_search_exact(s: Seq<NodeView>, pattern: Seq<char>, j: int, i: int)
    requires
        0 <= j < s.len(),
    ensures
        s[j].label == Some(pattern) ==> all_kept(
            s,
            |n: NodeView| label_matches(n, pattern, true),
        ).contains(s[j]),
        0 <= i < all_kept(s, |n: NodeView| label_matches(n, pattern, true)).len() ==> all_kept(
            s,
            |n: NodeView| label_matches(n, pattern, true),
        )[i].label == Some(pattern),
{
    let p = |n: NodeView| label_matches(n, pattern, true);
    lemma_found_nodes_match(s, p, s.len() as int);
    if s[j].label == Some(pattern) {
        assert(p(s[j]));
    }
    if 0 <= i < all_kept(s, p).len() {
        assert(p(all_kept(s, p)[i]));
    }
}


/// Searching by role: a node is found whenever the lower-cased role asked
/// for occurs, at some position, in the node's lower-cased role; and every
/// node found has such an occurrence.
pub proof fn lemma_role_search(s: Seq<NodeView>, role: Seq<char>, j: int, k: int, i: int)
    requires
        0 <= j < s.len(),
    ensures
        0 <= k && k + lowercase_of(role).len() <= lowercase_of(s[j].role).len()
            && lowercase_of(s[j].role).subrange(k, k + lowercase_of(role).len()) == lowercase_of(
            role,
        ) ==> all_kept(s, |n: NodeView| role_matches(n, role)).contains(s[j]),
        0 <= i < all_kept(s, |n: NodeView| role_matches(n, role)).len() ==> ({
            let fr = lowercase_of(all_kept(s, |n: NodeView| role_matches(n, role))[i].role);
            exists|t: int|
                0 <= t && t + lowercase_of(role).len() <= fr.len() && #[trigger] fr.subrange(
                    t,
                    t + lowercase_of(role).len(),
                ) == lowercase_of(role)
        }),
{
    let p = |n: NodeView| role_matches(n, role);
    lemma_found_nodes_match(s, p, s.len() as int);
    let w = lowercase_of(role);
    if 0 <= k && k + w.len() <= lowercase_of(s[j].role).len() && lowercase_of(s[j].role).subrange(
        k,
        k + w.len(),
    ) == w {
        assert(occurs_at(lowercase_of(s[j].role), w, k));
        assert(p(s[j]));
    }
    if 0 <= i < all_kept(s, p).len() {
        let f = all_kept(s, p)[i];
        assert(p(f));
        let t = choose|t: int| #[trigger] occurs_at(lowercase_of(f.role), w, t);
        assert(lowercase_of(f.role).subrange(t, t + w.len()) == w);
    }
}

/// The nodes found by any search are nodes of the tree, in the tree's
/// order: each found node is a node of the tree at a position after the
/// previous found node's.
pub proof fn lemma_search_keeps_order(s: Seq<NodeView>, p: spec_fn(NodeView) -> bool, k: int)
    requires
        0 <= k <= s.len(),
    ensures
        kept(s, p, k).len() <= k,
        exists|pos: Seq<int>|
            #![trigger pos.len()]
            pos.len() == kept(s, p, k).len() && (forall|i: int|
                0 <= i < pos.len() ==> 0 <= #[trigger] pos[i] < k && s[pos[i]] == kept(s, p, k)[i])
                && (forall|i: int, i2: int| 0 <= i < i2 < pos.len() ==> pos[i] < pos[i2]),
    decreases k,
{
    if k == 0 {
        let pos = Seq::<int>::empty();
        assert(pos.len() == kept(s, p, k).len());
    } else {
        lemma_search_keeps_order(s, p, k - 1);
        let prev = kept(s, p, k - 1);
        let pos0 = choose|pos: Seq<int>|
            #![trigger pos.len()]
            pos.len() == prev.len() && (forall|i: int|
                0 <= i < pos.len() ==> 0 <= #[trigger] pos[i] < k - 1 && s[pos[i]] == prev[i])
                && (forall|i: int, i2: int| 0 <= i < i2 < pos.len() ==> pos[i] < pos[i2]);
        if p(s[k - 1]) {
            let pos = pos0.push(k - 1);
            assert(kept(s, p, k) == prev.push(s[k - 1]));
            assert forall|i: int| 0 <= i < pos.len() implies 0 <= #[trigger] pos[i] < k && s[pos[i]]
                == kept(s, p, k)[i] by {
                if i < pos0.len() {
                    assert(pos[i] == pos0[i]);
                }
            }
            assert forall|i: int, i2: int| 0 <= i < i2 < pos.len() implies pos[i] < pos[i2] by {
                if i2 < pos0.len() {
                    assert(pos[i2] == pos0[i2]);
                }
                assert(pos[i] == pos0[i]);
            }
            assert(pos.len() == kept(s, p, k).len());
        } else {
            assert forall|i: int| 0 <= i < pos0.len() implies 0 <= #[trigger] pos0[i] < k && s[pos0[i]]
                == kept(s, p, k)[i] by {}
            assert(pos0.len() == kept(s, p, k).len());
        }
    }
}

} // verus!
