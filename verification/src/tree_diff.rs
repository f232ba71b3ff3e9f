//! Difference between two UI trees: nodes added, removed and modified.
//!
//! Nodes are matched by identifier. When a tree holds several nodes with
//! the same identifier, the last of them stands for that identifier.

use std::collections::HashMap;
use vstd::prelude::*;
use crate::protocol::{NodeInfo, NodeView, UiTree, nodes_view, clone_opt_string, opt_string_eq};

verus! {

broadcast use vstd::std_specs::hash::group_hash_axioms;

/// A node reported as added or removed: identifier, role and label.
pub struct NodeSummary {
    pub id: u64,
    pub role: String,
    pub label: Option<String>,
}

/// View of a `NodeSummary`.
pub struct SummaryView {
    pub id: u64,
    pub role: Seq<char>,
    pub label: Option<Seq<char>>,
}

impl View for NodeSummary {
    type V = SummaryView;

    open spec fn view(&self) -> SummaryView {
        SummaryView { id: self.id, role: self.role@, label: self.label.deep_view() }
    }
}

/// A field compared between two versions of a node.
#[derive(Clone, Copy, PartialEq, Eq, Structural, Debug)]
pub enum DiffField {
    Role,
    Label,
    Value,
    Toggled,
    Disabled,
    Focused,
}

/// The value of a compared field.
pub enum FieldValue {
    Text(String),
    MaybeText(Option<String>),
    MaybeFlag(Option<bool>),
    Flag(bool),
}

/// View of a `FieldValue`.
pub enum FieldValueView {
    Text(Seq<char>),
    MaybeText(Option<Seq<char>>),
    MaybeFlag(Option<bool>),
    Flag(bool),
}

impl View for FieldValue {
    type V = FieldValueView;

    open spec fn view(&self) -> FieldValueView {
        match self {
            FieldValue::Text(s) => FieldValueView::Text(s@),
            FieldValue::MaybeText(o) => FieldValueView::MaybeText(o.deep_view()),
            FieldValue::MaybeFlag(b) => FieldValueView::MaybeFlag(*b),
            FieldValue::Flag(b) => FieldValueView::Flag(*b),
        }
    }
}

/// One changed field: its old and its new value.
pub struct FieldChange {
    pub field: DiffField,
    pub old: FieldValue,
    pub new: FieldValue,
}

/// View of a `FieldChange`.
pub struct ChangeView {
    pub field: DiffField,
    pub old: FieldValueView,
    pub new: FieldValueView,
}

impl View for FieldChange {
    type V = ChangeView;

    open spec fn view(&self) -> ChangeView {
        ChangeView { field: self.field, old: self.old@, new: self.new@ }
    }
}

/// A node present in both trees whose fields differ.
pub struct ModifiedNode {
    /// Identifier of the node.
    pub id: u64,
    /// Role in the first tree.
    pub role: String,
    /// Label in the first tree.
    pub label: Option<String>,
    /// The fields that differ, in the order role, label, value, toggled,
    /// disabled, focused.
    pub changes: Vec<FieldChange>,
}

/// View of a `ModifiedNode`.
pub struct ModifiedView {
    pub id: u64,
    pub role: Seq<char>,
    pub label: Option<Seq<char>>,
    pub changes: Seq<ChangeView>,
}

impl View for ModifiedNode {
    type V = ModifiedView;

    open spec fn view(&self) -> ModifiedView {
        ModifiedView {
            id: self.id,
            role: self.role@,
            label: self.label.deep_view(),
            changes: self.changes@.map_values(|c: FieldChange| c@),
        }
    }
}

/// The difference between two trees.
pub struct TreeDiff {
    /// Nodes of the second tree whose identifier the first lacks.
    pub added: Vec<NodeSummary>,
    /// Nodes of the first tree whose identifier the second lacks.
    pub removed: Vec<NodeSummary>,
    /// Nodes of both trees whose compared fields differ.
    pub modified: Vec<ModifiedNode>,
}

/// View of a `TreeDiff`.
pub struct TreeDiffView {
    pub added: Seq<SummaryView>,
    pub removed: Seq<SummaryView>,
    pub modified: Seq<ModifiedView>,
}

impl View for TreeDiff {
    type V = TreeDiffView;

    open spec fn view(&self) -> TreeDiffView {
        TreeDiffView {
            added: self.added@.map_values(|s: NodeSummary| s@),
            removed: self.removed@.map_values(|s: NodeSummary| s@),
            modified: self.modified@.map_values(|m: ModifiedNode| m@),
        }
    }
}

/// Identifier to index of the last node among the first `n` with that identifier.
pub open spec fn index_map(nodes: Seq<NodeView>, n: int) -> Map<u64, usize>
    decreases n,
{
    if n <= 0 {
        Map::empty()
    } else {
        index_map(nodes, n - 1).insert(nodes[n - 1].id, (n - 1) as usize)
    }
}

/// Identifier to index of the last node with that identifier.
pub open spec fn id_index(nodes: Seq<NodeView>) -> Map<u64, usize> {
    index_map(nodes, nodes.len() as int)
}

/// Whether node `j` is the one that stands for its identifier.
pub open spec fn stands_for_id(nodes: Seq<NodeView>, j: int) -> bool {
    id_index(nodes)[nodes[j].id] == j
}

/// Summary of a node.
pub open spec fn summary_of(n: NodeView) -> SummaryView {
    SummaryView { id: n.id, role: n.role, label: n.label }
}

/// Among the first `j` nodes of `xs`, those standing for an identifier that
/// `ys` lacks, summarised, in order.
pub open spec fn unmatched_upto(xs: Seq<NodeView>, ys: Seq<NodeView>, j: int) -> Seq<SummaryView>
    decreases j,
{
    if j <= 0 {
        Seq::empty()
    } else {
        let prev = unmatched_upto(xs, ys, j - 1);
        if stands_for_id(xs, j - 1) && !id_index(ys).contains_key(xs[j - 1].id) {
            prev.push(summary_of(xs[j - 1]))
        } else {
            prev
        }
    }
}

/// Nodes of `xs` (one per identifier) whose identifier `ys` lacks.
pub open spec fn unmatched(xs: Seq<NodeView>, ys: Seq<NodeView>) -> Seq<SummaryView> {
    unmatched_upto(xs, ys, xs.len() as int)
}

/// A change entry when the two values differ, else nothing.
pub open spec fn change_if(
    differ: bool,
    field: DiffField,
    old: FieldValueView,
    new: FieldValueView,
) -> Seq<ChangeView> {
    if differ {
        seq![ChangeView { field, old, new }]
    } else {
        Seq::empty()
    }
}

/// The fields in which `a` and `b` differ, in the order role, label, value,
/// toggled, disabled, focused.
pub open spec fn changes_of(a: NodeView, b: NodeView) -> Seq<ChangeView> {
    change_if(
        a.role != b.role,
        DiffField::Role,
        FieldValueView::Text(a.role),
        FieldValueView::Text(b.role),
    ) + change_if(
        a.label != b.label,
        DiffField::Label,
        FieldValueView::MaybeText(a.label),
        FieldValueView::MaybeText(b.label),
    ) + change_if(
        a.value != b.value,
        DiffField::Value,
        FieldValueView::MaybeText(a.value),
        FieldValueView::MaybeText(b.value),
    ) + change_if(
        a.toggled != b.toggled,
        DiffField::Toggled,
        FieldValueView::MaybeFlag(a.toggled),
        FieldValueView::MaybeFlag(b.toggled),
    ) + change_if(
        a.disabled != b.disabled,
        DiffField::Disabled,
        FieldValueView::Flag(a.disabled),
        FieldValueView::Flag(b.disabled),
    ) + change_if(
        a.focused != b.focused,
        DiffField::Focused,
        FieldValueView::Flag(a.focused),
        FieldValueView::Flag(b.focused),
    )
}

/// Among the first `j` nodes of `xs`, those standing for an identifier that
/// `ys` also has and whose compared fields differ from the node of `ys`.
pub open spec fn modified_upto(xs: Seq<NodeView>, ys: Seq<NodeView>, j: int) -> Seq<ModifiedView>
    decreases j,
{
    if j <= 0 {
        Seq::empty()
    } else {
        let prev = modified_upto(xs, ys, j - 1);
        let x = xs[j - 1];
        if stands_for_id(xs, j - 1) && id_index(ys).contains_key(x.id) {
            let y = ys[id_index(ys)[x.id] as int];
            let ch = changes_of(x, y);
            if ch.len() > 0 {
                prev.push(ModifiedView { id: x.id, role: x.role, label: x.label, changes: ch })
            } else {
                prev
            }
        } else {
            prev
        }
    }
}

/// The difference from `a` to `b`.
pub open spec fn spec_tree_diff(a: Seq<NodeView>, b: Seq<NodeView>) -> TreeDiffView {
    TreeDiffView {
        added: unmatched(b, a),
        removed: unmatched(a, b),
        modified: modified_upto(a, b, a.len() as int),
    }
}


fn build_index(nodes: &Vec<NodeInfo>) -> (m: HashMap<u64, usize>)
    ensures
        m@ == id_index(nodes_view(nodes@)),
{
    let ghost v = nodes_view(nodes@);
    let mut m: HashMap<u64, usize> = HashMap::new();
    let mut i: usize = 0;
    while i < nodes.len()
        invariant
            i <= nodes@.len(),
            v == nodes_view(nodes@),
            m@ == index_map(v, i as int),
        decreases nodes@.len() - i,
    {
        m.insert(nodes[i].id, i);
        i += 1;
    }
    m
}

fn lookup(m: &HashMap<u64, usize>, id: u64) -> (r: Option<usize>)
    ensures
        match r {
            Some(j) => m@.contains_key(id) && m@[id] == j,
            None => !m@.contains_key(id),
        },
{
    match m.get(&id) {
        Some(j) => Some(*j),
        None => None,
    }
}

fn summarize(n: &NodeInfo) -> (s: NodeSummary)
    ensures
        s@ == summary_of(n@),
{
    NodeSummary { id: n.id, role: n.role.clone(), label: clone_opt_string(&n.label) }
}

fn unmatched_nodes(
    xs: &Vec<NodeInfo>,
    index_x: &HashMap<u64, usize>,
    index_y: &HashMap<u64, usize>,
    Ghost(ys): Ghost<Seq<NodeView>>,
) -> (out: Vec<NodeSummary>)
    requires
        index_x@ == id_index(nodes_view(xs@)),
        index_y@ == id_index(ys),
    ensures
        out@.map_values(|s: NodeSummary| s@) == unmatched(nodes_view(xs@), ys),
{
    let ghost xv = nodes_view(xs@);
    let mut out: Vec<NodeSummary> = Vec::new();
    let mut j: usize = 0;
    while j < xs.len()
        invariant
            j <= xs@.len(),
            xv == nodes_view(xs@),
            xv.len() == xs@.len(),
            index_x@ == id_index(xv),
            index_y@ == id_index(ys),
            out@.map_values(|s: NodeSummary| s@) == unmatched_upto(xv, ys, j as int),
        decreases xs@.len() - j,
    {
        let x = &xs[j];
        assert(xv[j as int] == xs@[j as int]@);
        proof {
            lemma_index_has_ids(xv, xv.len() as int, j as int);
        }
        let stands = match lookup(index_x, x.id) {
            Some(k) => k == j,
            None => false,
        };
        if stands && lookup(index_y, x.id).is_none() {
            out.push(summarize(x));
        }
        j += 1;
        assert(out@.map_values(|s: NodeSummary| s@) =~= unmatched_upto(xv, ys, j as int));
    }
    out
}

/// The fields in which two nodes differ.
pub fn node_changes(a: &NodeInfo, b: &NodeInfo) -> (ch: Vec<FieldChange>)
    ensures
        ch@.map_values(|c: FieldChange| c@) == changes_of(a@, b@),
{
    let mut ch: Vec<FieldChange> = Vec::new();
    let ghost av = a@;
    let ghost bv = b@;
    if a.role != b.role {
        ch.push(FieldChange {
            field: DiffField::Role,
            old: FieldValue::Text(a.role.clone()),
            new: FieldValue::Text(b.role.clone()),
        });
    }
    let ghost s1 = change_if(av.role != bv.role, DiffField::Role, FieldValueView::Text(av.role), FieldValueView::Text(bv.role));
    assert(ch@.map_values(|c: FieldChange| c@) =~= s1);
    if !opt_string_eq(&a.label, &b.label) {
        ch.push(FieldChange {
            field: DiffField::Label,
            old: FieldValue::MaybeText(clone_opt_string(&a.label)),
            new: FieldValue::MaybeText(clone_opt_string(&b.label)),
        });
    }
    let ghost s2 = s1 + change_if(av.label != bv.label, DiffField::Label, FieldValueView::MaybeText(av.label), FieldValueView::MaybeText(bv.label));
    assert(ch@.map_values(|c: FieldChange| c@) =~= s2);
    if !opt_string_eq(&a.value, &b.value) {
        ch.push(FieldChange {
            field: DiffField::Value,
            old: FieldValue::MaybeText(clone_opt_string(&a.value)),
            new: FieldValue::MaybeText(clone_opt_string(&b.value)),
        });
    }
    let ghost s3 = s2 + change_if(av.value != bv.value, DiffField::Value, FieldValueView::MaybeText(av.value), FieldValueView::MaybeText(bv.value));
    assert(ch@.map_values(|c: FieldChange| c@) =~= s3);
    let toggled_differ = match (a.toggled, b.toggled) {
        (Some(x), Some(y)) => x != y,
        (None, None) => false,
        _ => true,
    };
    if toggled_differ {
        ch.push(FieldChange {
            field: DiffField::Toggled,
            old: FieldValue::MaybeFlag(a.toggled),
            new: FieldValue::MaybeFlag(b.toggled),
        });
    }
    let ghost s4 = s3 + change_if(av.toggled != bv.toggled, DiffField::Toggled, FieldValueView::MaybeFlag(av.toggled), FieldValueView::MaybeFlag(bv.toggled));
    assert(ch@.map_values(|c: FieldChange| c@) =~= s4);
    if a.disabled != b.disabled {
        ch.push(FieldChange {
            field: DiffField::Disabled,
            old: FieldValue::Flag(a.disabled),
            new: FieldValue::Flag(b.disabled),
        });
    }
    let ghost s5 = s4 + change_if(av.disabled != bv.disabled, DiffField::Disabled, FieldValueView::Flag(av.disabled), FieldValueView::Flag(bv.disabled));
    assert(ch@.map_values(|c: FieldChange| c@) =~= s5);
    if a.focused != b.focused {
        ch.push(FieldChange {
            field: DiffField::Focused,
            old: FieldValue::Flag(a.focused),
            new: FieldValue::Flag(b.focused),
        });
    }
    assert(ch@.map_values(|c: FieldChange| c@) =~= changes_of(av, bv));
    ch
}

fn modified_nodes(
    xs: &Vec<NodeInfo>,
    ys: &Vec<NodeInfo>,
    index_x: &HashMap<u64, usize>,
    index_y: &HashMap<u64, usize>,
) -> (out: Vec<ModifiedNode>)
    requires
        index_x@ == id_index(nodes_view(xs@)),
        index_y@ == id_index(nodes_view(ys@)),
    ensures
        out@.map_values(|m: ModifiedNode| m@) == modified_upto(
            nodes_view(xs@),
            nodes_view(ys@),
            xs@.len() as int,
        ),
{
    let ghost xv = nodes_view(xs@);
    let ghost yv = nodes_view(ys@);
    let mut out: Vec<ModifiedNode> = Vec::new();
    let _ylen = ys.len();
    let mut j: usize = 0;
    while j < xs.len()
        invariant
            j <= xs@.len(),
            xv == nodes_view(xs@),
            yv == nodes_view(ys@),
            yv.len() == ys@.len(),
            ys@.len() <= usize::MAX,
            index_x@ == id_index(xv),
            index_y@ == id_index(yv),
            out@.map_values(|m: ModifiedNode| m@) == modified_upto(xv, yv, j as int),
        decreases xs@.len() - j,
    {
        let x = &xs[j];
        assert(xv[j as int] == xs@[j as int]@);
        proof {
            lemma_index_has_ids(xv, xv.len() as int, j as int);
        }
        let stands = match lookup(index_x, x.id) {
            Some(k) => k == j,
            None => false,
        };
        if stands {
            match lookup(index_y, x.id) {
                Some(k) => {
                    proof {
                        lemma_index_in_range(yv, yv.len() as int, x.id);
                    }
                    let y = &ys[k];
                    assert(yv[k as int] == ys@[k as int]@);
                    let changes = node_changes(x, y);
                    if changes.len() > 0 {
                        out.push(ModifiedNode {
                            id: x.id,
                            role: x.role.clone(),
                            label: clone_opt_string(&x.label),
                            changes,
                        });
                    }
                },
                None => {},
            }
        }
        j += 1;
        assert(out@.map_values(|m: ModifiedNode| m@) =~= modified_upto(xv, yv, j as int));
    }
    out
}

proof fn lemma_index_has_ids(nodes: Seq<NodeView>, n: int, j: int)
    requires
        0 <= j < n <= nodes.len(),
    ensures
        index_map(nodes, n).contains_key(nodes[j].id),
    decreases n,
{
    if j < n - 1 {
        lemma_index_has_ids(nodes, n - 1, j);
    }
}

proof fn lemma_index_in_range(nodes: Seq<NodeView>, n: int, id: u64)
    requires
        0 <= n <= nodes.len(),
        nodes.len() <= usize::MAX,
        index_map(nodes, n).contains_key(id),
    ensures
        0 <= index_map(nodes, n)[id] < n,
        nodes[index_map(nodes, n)[id] as int].id == id,
    decreases n,
{
    if n > 0 && nodes[n - 1].id != id {
        lemma_index_in_range(nodes, n - 1, id);
    }
}


proof fn lemma_unmatched_self(xs: Seq<NodeView>, j: int)
    requires
        0 <= j <= xs.len(),
        xs.len() <= usize::MAX,
    ensures
        unmatched_upto(xs, xs, j) == Seq::<SummaryView>::empty(),
    decreases j,
{
    if j > 0 {
        lemma_unmatched_self(xs, j - 1);
        lemma_index_has_ids(xs, xs.len() as int, j - 1);
    }
}

proof fn lemma_modified_self(xs: Seq<NodeView>, j: int)
    requires
        0 <= j <= xs.len(),
        xs.len() <= usize::MAX,
    ensures
        modified_upto(xs, xs, j) == Seq::<ModifiedView>::empty(),
    decreases j,
{
    if j > 0 {
        lemma_modified_self(xs, j - 1);
        let x = xs[j - 1];
        if stands_for_id(xs, j - 1) {
            assert(changes_of(x, x) =~= Seq::<ChangeView>::empty());
        }
    }
}

/// A tree compared with itself shows no added, removed or modified node.
pub proof fn lemma_diff_with_itself(nodes: Seq<NodeView>)
    requires
        nodes.len() <= usize::MAX,
    ensures
        spec_tree_diff(nodes, nodes).added.len() == 0,
        spec_tree_diff(nodes, nodes).removed.len() == 0,
        spec_tree_diff(nodes, nodes).modified.len() == 0,
{
    lemma_unmatched_self(nodes, nodes.len() as int);
    lemma_modified_self(nodes, nodes.len() as int);
}

/// Swapping the two trees swaps the added and the removed nodes.
pub proof fn lemma_diff_swap(a: Seq<NodeView>, b: Seq<NodeView>)
    ensures
        spec_tree_diff(a, b).added == spec_tree_diff(b, a).removed,
        spec_tree_diff(a, b).removed == spec_tree_diff(b, a).added,
{
}


proof fn lemma_unmatched_absent(xs: Seq<NodeView>, ys: Seq<NodeView>, j: int)
    requires
        0 <= j <= xs.len(),
    ensures
        forall|i: int|
            0 <= i < unmatched_upto(xs, ys, j).len() ==> !id_index(ys).contains_key(
                #[trigger] unmatched_upto(xs, ys, j)[i].id,
            ),
    decreases j,
{
    if j > 0 {
        lemma_unmatched_absent(xs, ys, j - 1);
    }
}

proof fn lemma_modified_present(xs: Seq<NodeView>, ys: Seq<NodeView>, j: int)
    requires
        0 <= j <= xs.len(),
    ensures
        forall|i: int|
            0 <= i < modified_upto(xs, ys, j).len() ==> id_index(ys).contains_key(
                #[trigger] modified_upto(xs, ys, j)[i].id,
            ) && modified_upto(xs, ys, j)[i].changes.len() > 0,
    decreases j,
{
    if j > 0 {
        lemma_modified_present(xs, ys, j - 1);
    }
}

/// The changes with their old and new values exchanged.
pub open spec fn swap_changes(cs: Seq<ChangeView>) -> Seq<ChangeView> {
    cs.map_values(|c: ChangeView| ChangeView { field: c.field, old: c.new, new: c.old })
}

/// The entry that node `k` of `xs` gives when it is modified in `ys`.
spec fn entry_for(xs: Seq<NodeView>, ys: Seq<NodeView>, k: int) -> ModifiedView {
    let x = xs[k];
    let y = ys[id_index(ys)[x.id] as int];
    ModifiedView { id: x.id, role: x.role, label: x.label, changes: changes_of(x, y) }
}

proof fn lemma_change_if_swap(differ: bool, field: DiffField, old: FieldValueView, new: FieldValueView)
    ensures
        change_if(differ, field, new, old) == swap_changes(change_if(differ, field, old, new)),
{
    assert(change_if(differ, field, new, old) =~= swap_changes(change_if(differ, field, old, new)));
}

proof fn lemma_swap_concat(s: Seq<ChangeView>, t: Seq<ChangeView>)
    ensures
        swap_changes(s + t) == swap_changes(s) + swap_changes(t),
{
    assert(swap_changes(s + t) =~= swap_changes(s) + swap_changes(t));
}

proof fn lemma_changes_swap(a: NodeView, b: NodeView)
    ensures
        changes_of(b, a) == swap_changes(changes_of(a, b)),
{
    let p1 = change_if(a.role != b.role, DiffField::Role, FieldValueView::Text(a.role), FieldValueView::Text(b.role));
    let p2 = change_if(a.label != b.label, DiffField::Label, FieldValueView::MaybeText(a.label), FieldValueView::MaybeText(b.label));
    let p3 = change_if(a.value != b.value, DiffField::Value, FieldValueView::MaybeText(a.value), FieldValueView::MaybeText(b.value));
    let p4 = change_if(a.toggled != b.toggled, DiffField::Toggled, FieldValueView::MaybeFlag(a.toggled), FieldValueView::MaybeFlag(b.toggled));
    let p5 = change_if(a.disabled != b.disabled, DiffField::Disabled, FieldValueView::Flag(a.disabled), FieldValueView::Flag(b.disabled));
    let p6 = change_if(a.focused != b.focused, DiffField::Focused, FieldValueView::Flag(a.focused), FieldValueView::Flag(b.focused));
    lemma_change_if_swap(a.role != b.role, DiffField::Role, FieldValueView::Text(a.role), FieldValueView::Text(b.role));
    lemma_change_if_swap(a.label != b.label, DiffField::Label, FieldValueView::MaybeText(a.label), FieldValueView::MaybeText(b.label));
    lemma_change_if_swap(a.value != b.value, DiffField::Value, FieldValueView::MaybeText(a.value), FieldValueView::MaybeText(b.value));
    lemma_change_if_swap(a.toggled != b.toggled, DiffField::Toggled, FieldValueView::MaybeFlag(a.toggled), FieldValueView::MaybeFlag(b.toggled));
    lemma_change_if_swap(a.disabled != b.disabled, DiffField::Disabled, FieldValueView::Flag(a.disabled), FieldValueView::Flag(b.disabled));
    lemma_change_if_swap(a.focused != b.focused, DiffField::Focused, FieldValueView::Flag(a.focused), FieldValueView::Flag(b.focused));
    lemma_swap_concat(p1, p2);
    lemma_swap_concat(p1 + p2, p3);
    lemma_swap_concat(p1 + p2 + p3, p4);
    lemma_swap_concat(p1 + p2 + p3 + p4, p5);
    lemma_swap_concat(p1 + p2 + p3 + p4 + p5, p6);
    assert(changes_of(a, b) == p1 + p2 + p3 + p4 + p5 + p6);
    assert((b.role != a.role) == (a.role != b.role));
    assert((b.label != a.label) == (a.label != b.label));
    assert((b.value != a.value) == (a.value != b.value));
    assert((b.toggled != a.toggled) == (a.toggled != b.toggled));
}

proof fn lemma_modified_origin(xs: Seq<NodeView>, ys: Seq<NodeView>, j: int)
    requires
        0 <= j <= xs.len(),
    ensures
        forall|i: int|
            0 <= i < modified_upto(xs, ys, j).len() ==> exists|k: int|
                0 <= k < j && stands_for_id(xs, k) && id_index(ys).contains_key(xs[k].id)
                    && #[trigger] modified_upto(xs, ys, j)[i] == entry_for(xs, ys, k),
    decreases j,
{
    if j > 0 {
        lemma_modified_origin(xs, ys, j - 1);
        let prev = modified_upto(xs, ys, j - 1);
        let cur = modified_upto(xs, ys, j);
        assert forall|i: int| 0 <= i < cur.len() implies exists|k: int|
            0 <= k < j && stands_for_id(xs, k) && id_index(ys).contains_key(xs[k].id)
                && #[trigger] cur[i] == entry_for(xs, ys, k) by {
            if i < prev.len() {
                assert(cur[i] == prev[i]);
                let k = choose|k: int|
                    0 <= k < j - 1 && stands_for_id(xs, k) && id_index(ys).contains_key(xs[k].id)
                        && #[trigger] prev[i] == entry_for(xs, ys, k);
                assert(0 <= k < j && cur[i] == entry_for(xs, ys, k));
            } else {
                assert(cur[i] == entry_for(xs, ys, j - 1));
            }
        }
    }
}

proof fn lemma_modified_found(xs: Seq<NodeView>, ys: Seq<NodeView>, j: int, k: int)
    requires
        0 <= k < j <= xs.len(),
        stands_for_id(xs, k),
        id_index(ys).contains_key(xs[k].id),
        entry_for(xs, ys, k).changes.len() > 0,
    ensures
        exists|i: int|
            0 <= i < modified_upto(xs, ys, j).len() && #[trigger] modified_upto(xs, ys, j)[i]
                == entry_for(xs, ys, k),
    decreases j,
{
    let prev = modified_upto(xs, ys, j - 1);
    let cur = modified_upto(xs, ys, j);
    if k == j - 1 {
        assert(cur[prev.len() as int] == entry_for(xs, ys, k));
    } else {
        lemma_modified_found(xs, ys, j - 1, k);
        let i = choose|i: int| 0 <= i < prev.len() && #[trigger] prev[i] == entry_for(xs, ys, k);
        assert(cur[i] == prev[i]);
    }
}

/// Swapping the two trees gives, for every modified node, a modified node
/// with the same identifier whose changes have old and new values
/// exchanged.
pub proof fn lemma_diff_swap_modified(a: Seq<NodeView>, b: Seq<NodeView>)
    requires
        a.len() <= usize::MAX,
        b.len() <= usize::MAX,
    ensures
        forall|i: int|
            0 <= i < spec_tree_diff(a, b).modified.len() ==> exists|j: int|
                0 <= j < spec_tree_diff(b, a).modified.len() && (#[trigger] spec_tree_diff(
                    b,
                    a,
                ).modified[j]).id == (#[trigger] spec_tree_diff(a, b).modified[i]).id
                    && spec_tree_diff(b, a).modified[j].changes == swap_changes(
                    spec_tree_diff(a, b).modified[i].changes,
                ),
{
    let mab = spec_tree_diff(a, b).modified;
    let mba = spec_tree_diff(b, a).modified;
    lemma_modified_origin(a, b, a.len() as int);
    lemma_modified_present(a, b, a.len() as int);
    assert forall|i: int| 0 <= i < mab.len() implies exists|j: int|
        0 <= j < mba.len() && (#[trigger] mba[j]).id == (#[trigger] mab[i]).id && mba[j].changes
            == swap_changes(mab[i].changes) by {
        assert(mab[i] == modified_upto(a, b, a.len() as int)[i]);
        let k = choose|k: int|
            0 <= k < a.len() && stands_for_id(a, k) && id_index(b).contains_key(a[k].id)
                && #[trigger] modified_upto(a, b, a.len() as int)[i] == entry_for(a, b, k);
        let x = a[k];
        let kb = id_index(b)[x.id] as int;
        assert(mab[i] == entry_for(a, b, k));
        assert(id_index(b).contains_key(modified_upto(a, b, a.len() as int)[i].id));
        assert(mab[i].changes.len() > 0);
        assert(entry_for(a, b, k).changes == changes_of(x, b[kb]));
        lemma_index_in_range(b, b.len() as int, x.id);
        lemma_index_has_ids(a, a.len() as int, k);
        assert(stands_for_id(b, kb));
        assert(entry_for(b, a, kb).changes == changes_of(b[kb], x));
        lemma_changes_swap(x, b[kb]);
        assert(changes_of(b[kb], x) == swap_changes(changes_of(x, b[kb])));
        assert(swap_changes(changes_of(x, b[kb])).len() == changes_of(x, b[kb]).len());
        lemma_modified_found(b, a, b.len() as int, kb);
        let j = choose|j: int|
            0 <= j < modified_upto(b, a, b.len() as int).len() && #[trigger] modified_upto(
                b,
                a,
                b.len() as int,
            )[j] == entry_for(b, a, kb);
        assert(mba[j].id == mab[i].id);
    }
}

/// Every added node's identifier is absent from the first tree, every
/// removed node's identifier is absent from the second, and every modified
/// node's identifier is in the second tree with at least one change.
pub proof fn lemma_diff_entries(a: Seq<NodeView>, b: Seq<NodeView>)
    ensures
        forall|i: int|
            0 <= i < spec_tree_diff(a, b).added.len() ==> !id_index(a).contains_key(
                #[trigger] spec_tree_diff(a, b).added[i].id,
            ),
        forall|i: int|
            0 <= i < spec_tree_diff(a, b).removed.len() ==> !id_index(b).contains_key(
                #[trigger] spec_tree_diff(a, b).removed[i].id,
            ),
        forall|i: int|
            0 <= i < spec_tree_diff(a, b).modified.len() ==> id_index(b).contains_key(
                #[trigger] spec_tree_diff(a, b).modified[i].id,
            ) && spec_tree_diff(a, b).modified[i].changes.len() > 0,
{
    lemma_unmatched_absent(b, a, b.len() as int);
    lemma_unmatched_absent(a, b, a.len() as int);
    lemma_modified_present(a, b, a.len() as int);
}

/// Computes the difference from `tree_a` to `tree_b`.
pub fn compute_tree_diff(tree_a: &UiTree, tree_b: &UiTree) -> (d: TreeDiff)
    ensures
        d@ == spec_tree_diff(nodes_view(tree_a.nodes@), nodes_view(tree_b.nodes@)),
{
    let index_a = build_index(&tree_a.nodes);
    let index_b = build_index(&tree_b.nodes);
    let added = unmatched_nodes(&tree_b.nodes, &index_b, &index_a, Ghost(nodes_view(tree_a.nodes@)));
    let removed = unmatched_nodes(&tree_a.nodes, &index_a, &index_b, Ghost(nodes_view(tree_b.nodes@)));
    let modified = modified_nodes(&tree_a.nodes, &tree_b.nodes, &index_a, &index_b);
    TreeDiff { added, removed, modified }
}


/// Two nodes have no change between them exactly when they agree on role,
/// label, value, toggle state, disabled and focused; and each field in
/// which they differ is listed with the first node's value as old and the
/// second node's value as new.
pub proof fn lemma_changes_report_fields(a: NodeView, b: NodeView)
    ensures
        (changes_of(a, b).len() == 0) <==> (a.role == b.role && a.label == b.label && a.value
            == b.value && a.toggled == b.toggled && a.disabled == b.disabled && a.focused
            == b.focused),
        a.role != b.role ==> changes_of(a, b).contains(
            ChangeView {
                field: DiffField::Role,
                old: FieldValueView::Text(a.role),
                new: FieldValueView::Text(b.role),
            },
        ),
        a.label != b.label ==> changes_of(a, b).contains(
            ChangeView {
                field: DiffField::Label,
                old: FieldValueView::MaybeText(a.label),
                new: FieldValueView::MaybeText(b.label),
            },
        ),
        a.value != b.value ==> changes_of(a, b).contains(
            ChangeView {
                field: DiffField::Value,
                old: FieldValueView::MaybeText(a.value),
                new: FieldValueView::MaybeText(b.value),
            },
        ),
        a.toggled != b.toggled ==> changes_of(a, b).contains(
            ChangeView {
                field: DiffField::Toggled,
                old: FieldValueView::MaybeFlag(a.toggled),
                new: FieldValueView::MaybeFlag(b.toggled),
            },
        ),
        a.disabled != b.disabled ==> changes_of(a, b).contains(
            ChangeView {
                field: DiffField::Disabled,
                old: FieldValueView::Flag(a.disabled),
                new: FieldValueView::Flag(b.disabled),
            },
        ),
        a.focused != b.focused ==> changes_of(a, b).contains(
            ChangeView {
                field: DiffField::Focused,
                old: FieldValueView::Flag(a.focused),
                new: FieldValueView::Flag(b.focused),
            },
        ),
{
    let p1 = change_if(a.role != b.role, DiffField::Role, FieldValueView::Text(a.role), FieldValueView::Text(b.role));
    let p2 = change_if(a.label != b.label, DiffField::Label, FieldValueView::MaybeText(a.label), FieldValueView::MaybeText(b.label));
    let p3 = change_if(a.value != b.value, DiffField::Value, FieldValueView::MaybeText(a.value), FieldValueView::MaybeText(b.value));
    let p4 = change_if(a.toggled != b.toggled, DiffField::Toggled, FieldValueView::MaybeFlag(a.toggled), FieldValueView::MaybeFlag(b.toggled));
    let p5 = change_if(a.disabled != b.disabled, DiffField::Disabled, FieldValueView::Flag(a.disabled), FieldValueView::Flag(b.disabled));
    let p6 = change_if(a.focused != b.focused, DiffField::Focused, FieldValueView::Flag(a.focused), FieldValueView::Flag(b.focused));
    let c = changes_of(a, b);
    assert(c == p1 + p2 + p3 + p4 + p5 + p6);
    let l1: int = p1.len() as int;
    let l2: int = l1 + p2.len();
    let l3: int = l2 + p3.len();
    let l4: int = l3 + p4.len();
    let l5: int = l4 + p5.len();
    assert(c.len() == l5 + p6.len());
    if a.role != b.role {
        assert(c[0] == p1[0]);
    }
    if a.label != b.label {
        assert(c[l1] == p2[0]);
    }
    if a.value != b.value {
        assert(c[l2] == p3[0]);
    }
    if a.toggled != b.toggled {
        assert(c[l3] == p4[0]);
    }
    if a.disabled != b.disabled {
        assert(c[l4] == p5[0]);
    }
    if a.focused != b.focused {
        assert(c[l5] == p6[0]);
    }
}

proof fn lemma_index_last(nodes: Seq<NodeView>, n: int, k: int)
    requires
        0 <= k < n <= nodes.len(),
        nodes.len() <= usize::MAX,
        forall|j: int| k < j < n ==> (#[trigger] nodes[j]).id != nodes[k].id,
    ensures
        index_map(nodes, n).contains_key(nodes[k].id),
        index_map(nodes, n)[nodes[k].id] == k,
    decreases n,
{
    if n - 1 > k {
        assert(nodes[n - 1].id != nodes[k].id);
        lemma_index_last(nodes, n - 1, k);
    }
}

/// Take node `k` of the first tree and node `j` of the second with the same
/// identifier, each the last node of its tree with that identifier. The
/// difference lists that identifier as modified exactly when the two nodes
/// differ in role, label, value, toggle state, disabled or focused; and
/// when their values differ, its entry holds a value change from the first
/// node's value to the second's.
pub proof fn lemma_diff_reports_node(a: Seq<NodeView>, b: Seq<NodeView>, k: int, j: int)
    requires
        a.len() <= usize::MAX,
        b.len() <= usize::MAX,
        0 <= k < a.len(),
        0 <= j < b.len(),
        a[k].id == b[j].id,
        forall|i: int| k < i < a.len() ==> (#[trigger] a[i]).id != a[k].id,
        forall|i: int| j < i < b.len() ==> (#[trigger] b[i]).id != b[j].id,
    ensures
        (exists|i: int|
            0 <= i < spec_tree_diff(a, b).modified.len()
                && (#[trigger] spec_tree_diff(a, b).modified[i]).id == a[k].id) <==> !(a[k].role
            == b[j].role && a[k].label == b[j].label && a[k].value == b[j].value && a[k].toggled
            == b[j].toggled && a[k].disabled == b[j].disabled && a[k].focused == b[j].focused),
        a[k].value != b[j].value ==> exists|i: int|
            0 <= i < spec_tree_diff(a, b).modified.len()
                && (#[trigger] spec_tree_diff(a, b).modified[i]).id == a[k].id
                && spec_tree_diff(a, b).modified[i].changes.contains(
                ChangeView {
                    field: DiffField::Value,
                    old: FieldValueView::MaybeText(a[k].value),
                    new: FieldValueView::MaybeText(b[j].value),
                },
            ),
{
    let x = a[k];
    let y = b[j];
    let m = spec_tree_diff(a, b).modified;
    lemma_index_last(a, a.len() as int, k);
    lemma_index_last(b, b.len() as int, j);
    assert(stands_for_id(a, k));
    assert(id_index(b).contains_key(x.id));
    assert(id_index(b)[x.id] == j);
    assert(entry_for(a, b, k).changes == changes_of(x, y));
    lemma_changes_report_fields(x, y);
    let same = x.role == y.role && x.label == y.label && x.value == y.value && x.toggled
        == y.toggled && x.disabled == y.disabled && x.focused == y.focused;
    if !same {
        lemma_modified_found(a, b, a.len() as int, k);
        let i = choose|i: int|
            0 <= i < modified_upto(a, b, a.len() as int).len() && #[trigger] modified_upto(
                a,
                b,
                a.len() as int,
            )[i] == entry_for(a, b, k);
        assert(m[i] == entry_for(a, b, k));
        assert(m[i].id == x.id);
    } else {
        lemma_modified_origin(a, b, a.len() as int);
        assert forall|i: int| 0 <= i < m.len() implies (#[trigger] m[i]).id != x.id by {
            assert(m[i] == modified_upto(a, b, a.len() as int)[i]);
            let k2 = choose|k2: int|
                0 <= k2 < a.len() && stands_for_id(a, k2) && id_index(b).contains_key(a[k2].id)
                    && #[trigger] modified_upto(a, b, a.len() as int)[i] == entry_for(a, b, k2);
            lemma_modified_present(a, b, a.len() as int);
            if m[i].id == x.id {
                assert(a[k2].id == x.id);
                assert(k2 == k);
                assert(m[i].changes.len() > 0);
                assert(false);
            }
        }
    }
}


proof fn lemma_unmatched_found(xs: Seq<NodeView>, ys: Seq<NodeView>, j: int, k: int)
    requires
        0 <= k < j <= xs.len(),
        stands_for_id(xs, k),
        !id_index(ys).contains_key(xs[k].id),
    ensures
        exists|i: int|
            0 <= i < unmatched_upto(xs, ys, j).len() && #[trigger] unmatched_upto(xs, ys, j)[i]
                == summary_of(xs[k]),
    decreases j,
{
    let prev = unmatched_upto(xs, ys, j - 1);
    let cur = unmatched_upto(xs, ys, j);
    if k == j - 1 {
        assert(cur[prev.len() as int] == summary_of(xs[k]));
    } else {
        lemma_unmatched_found(xs, ys, j - 1, k);
        let i = choose|i: int| 0 <= i < prev.len() && #[trigger] prev[i] == summary_of(xs[k]);
        assert(cur[i] == prev[i]);
    }
}

proof fn lemma_unmatched_origin(xs: Seq<NodeView>, ys: Seq<NodeView>, j: int)
    requires
        0 <= j <= xs.len(),
    ensures
        forall|i: int|
            0 <= i < unmatched_upto(xs, ys, j).len() ==> exists|k: int|
                0 <= k < j && #[trigger] unmatched_upto(xs, ys, j)[i] == summary_of(xs[k]),
    decreases j,
{
    if j > 0 {
        lemma_unmatched_origin(xs, ys, j - 1);
        let prev = unmatched_upto(xs, ys, j - 1);
        let cur = unmatched_upto(xs, ys, j);
        assert forall|i: int| 0 <= i < cur.len() implies exists|k: int|
            0 <= k < j && #[trigger] cur[i] == summary_of(xs[k]) by {
            if i < prev.len() {
                assert(cur[i] == prev[i]);
                let k = choose|k: int| 0 <= k < j - 1 && #[trigger] prev[i] == summary_of(xs[k]);
                assert(cur[i] == summary_of(xs[k]));
            } else {
                assert(cur[i] == summary_of(xs[j - 1]));
            }
        }
    }
}

/// A node of the second tree whose identifier the first tree lacks (the
/// last node with that identifier) is reported as added, with its
/// identifier, role and label; one of the first tree whose identifier the
/// second lacks is reported as removed. Every added entry is a node of the
/// second tree, every removed entry a node of the first.
pub proof fn lemma_diff_added_removed(a: Seq<NodeView>, b: Seq<NodeView>, j: int, k: int)
    requires
        a.len() <= usize::MAX,
        b.len() <= usize::MAX,
    ensures
        0 <= j < b.len() && (forall|t: int| j < t < b.len() ==> (#[trigger] b[t]).id != b[j].id)
            && (forall|t: int| 0 <= t < a.len() ==> (#[trigger] a[t]).id != b[j].id) ==> exists|
            i: int,
        |
            0 <= i < spec_tree_diff(a, b).added.len() && #[trigger] spec_tree_diff(a, b).added[i]
                == (SummaryView { id: b[j].id, role: b[j].role, label: b[j].label }),
        0 <= k < a.len() && (forall|t: int| k < t < a.len() ==> (#[trigger] a[t]).id != a[k].id)
            && (forall|t: int| 0 <= t < b.len() ==> (#[trigger] b[t]).id != a[k].id) ==> exists|
            i: int,
        |
            0 <= i < spec_tree_diff(a, b).removed.len() && #[trigger] spec_tree_diff(
                a,
                b,
            ).removed[i] == (SummaryView { id: a[k].id, role: a[k].role, label: a[k].label }),
        forall|i: int|
            0 <= i < spec_tree_diff(a, b).added.len() ==> exists|t: int|
                0 <= t < b.len() && #[trigger] spec_tree_diff(a, b).added[i] == (SummaryView {
                    id: b[t].id,
                    role: b[t].role,
                    label: b[t].label,
                }),
        forall|i: int|
            0 <= i < spec_tree_diff(a, b).removed.len() ==> exists|t: int|
                0 <= t < a.len() && #[trigger] spec_tree_diff(a, b).removed[i] == (SummaryView {
                    id: a[t].id,
                    role: a[t].role,
                    label: a[t].label,
                }),
{
    lemma_unmatched_origin(b, a, b.len() as int);
    lemma_unmatched_origin(a, b, a.len() as int);
    if 0 <= j < b.len() && (forall|t: int| j < t < b.len() ==> (#[trigger] b[t]).id != b[j].id)
        && (forall|t: int| 0 <= t < a.len() ==> (#[trigger] a[t]).id != b[j].id) {
        lemma_index_last(b, b.len() as int, j);
        if id_index(a).contains_key(b[j].id) {
            lemma_index_in_range(a, a.len() as int, b[j].id);
            let t = id_index(a)[b[j].id] as int;
            assert(a[t].id == b[j].id);
            assert(false);
        }
        lemma_unmatched_found(b, a, b.len() as int, j);
        let i = choose|i: int|
            0 <= i < unmatched_upto(b, a, b.len() as int).len() && #[trigger] unmatched_upto(
                b,
                a,
                b.len() as int,
            )[i] == summary_of(b[j]);
        assert(spec_tree_diff(a, b).added[i] == summary_of(b[j]));
    }
    if 0 <= k < a.len() && (forall|t: int| k < t < a.len() ==> (#[trigger] a[t]).id != a[k].id)
        && (forall|t: int| 0 <= t < b.len() ==> (#[trigger] b[t]).id != a[k].id) {
        lemma_index_last(a, a.len() as int, k);
        if id_index(b).contains_key(a[k].id) {
            lemma_index_in_range(b, b.len() as int, a[k].id);
            let t = id_index(b)[a[k].id] as int;
            assert(b[t].id == a[k].id);
            assert(false);
        }
        lemma_unmatched_found(a, b, a.len() as int, k);
        let i = choose|i: int|
            0 <= i < unmatched_upto(a, b, a.len() as int).len() && #[trigger] unmatched_upto(
                a,
                b,
                a.len() as int,
            )[i] == summary_of(a[k]);
        assert(spec_tree_diff(a, b).removed[i] == summary_of(a[k]));
    }
}

/// Every modified entry names a node of the first tree by its identifier,
/// role and label, and lists the changes from that node to the node of the
/// second tree with the same identifier.
pub proof fn lemma_diff_modified_entries(a: Seq<NodeView>, b: Seq<NodeView>, i: int)
    requires
        a.len() <= usize::MAX,
        b.len() <= usize::MAX,
        0 <= i < spec_tree_diff(a, b).modified.len(),
    ensures
        exists|k: int, j: int|
            0 <= k < a.len() && 0 <= j < b.len() && a[k].id == b[j].id
                && #[trigger] spec_tree_diff(a, b).modified[i] == (ModifiedView {
                id: a[k].id,
                role: a[k].role,
                label: a[k].label,
                changes: changes_of(a[k], b[j]),
            }),
{
    lemma_modified_origin(a, b, a.len() as int);
    let m = spec_tree_diff(a, b).modified;
    assert(m[i] == modified_upto(a, b, a.len() as int)[i]);
    let k = choose|k: int|
        0 <= k < a.len() && stands_for_id(a, k) && id_index(b).contains_key(a[k].id)
            && #[trigger] modified_upto(a, b, a.len() as int)[i] == entry_for(a, b, k);
    lemma_index_in_range(b, b.len() as int, a[k].id);
    let j = id_index(b)[a[k].id] as int;
    assert(m[i] == (ModifiedView {
        id: a[k].id,
        role: a[k].role,
        label: a[k].label,
        changes: changes_of(a[k], b[j]),
    }));
}


/// Position of a field in the order in which changes are listed.
pub open spec fn field_rank(f: DiffField) -> int {
    match f {
        DiffField::Role => 0,
        DiffField::Label => 1,
        DiffField::Value => 2,
        DiffField::Toggled => 3,
        DiffField::Disabled => 4,
        DiffField::Focused => 5,
    }
}

/// Whether `c` records a real difference between `a` and `b` in its field,
/// with `a`'s value as old and `b`'s as new.
pub open spec fn true_change(a: NodeView, b: NodeView, c: ChangeView) -> bool {
    match c.field {
        DiffField::Role => a.role != b.role && c.old == FieldValueView::Text(a.role) && c.new
            == FieldValueView::Text(b.role),
        DiffField::Label => a.label != b.label && c.old == FieldValueView::MaybeText(a.label)
            && c.new == FieldValueView::MaybeText(b.label),
        DiffField::Value => a.value != b.value && c.old == FieldValueView::MaybeText(a.value)
            && c.new == FieldValueView::MaybeText(b.value),
        DiffField::Toggled => a.toggled != b.toggled && c.old == FieldValueView::MaybeFlag(
            a.toggled,
        ) && c.new == FieldValueView::MaybeFlag(b.toggled),
        DiffField::Disabled => a.disabled != b.disabled && c.old == FieldValueView::Flag(
            a.disabled,
        ) && c.new == FieldValueView::Flag(b.disabled),
        DiffField::Focused => a.focused != b.focused && c.old == FieldValueView::Flag(a.focused)
            && c.new == FieldValueView::Flag(b.focused),
    }
}

/// The changes in `q` are all real differences between `a` and `b`, of
/// fields ranked at most `r`, in strictly increasing rank.
spec fn sound_upto(a: NodeView, b: NodeView, q: Seq<ChangeView>, r: int) -> bool {
    &&& forall|i: int|
        0 <= i < q.len() ==> true_change(a, b, #[trigger] q[i]) && field_rank(q[i].field) <= r
    &&& forall|i: int, i2: int|
        0 <= i < i2 < q.len() ==> field_rank((#[trigger] q[i]).field) < field_rank(
            (#[trigger] q[i2]).field,
        )
}

proof fn lemma_sound_step(
    a: NodeView,
    b: NodeView,
    q: Seq<ChangeView>,
    differ: bool,
    field: DiffField,
    old: FieldValueView,
    new: FieldValueView,
)
    requires
        sound_upto(a, b, q, field_rank(field) - 1),
        differ ==> true_change(a, b, ChangeView { field, old, new }),
    ensures
        sound_upto(a, b, q + change_if(differ, field, old, new), field_rank(field)),
{
    let p = change_if(differ, field, old, new);
    let qp = q + p;
    assert forall|i: int| 0 <= i < qp.len() implies true_change(a, b, #[trigger] qp[i])
        && field_rank(qp[i].field) <= field_rank(field) by {
        if i < q.len() {
            assert(qp[i] == q[i]);
        } else {
            assert(qp[i] == p[i - q.len()]);
        }
    }
    assert forall|i: int, i2: int| 0 <= i < i2 < qp.len() implies field_rank(
        (#[trigger] qp[i]).field,
    ) < field_rank((#[trigger] qp[i2]).field) by {
        assert(qp[i] == q[i]);
        if i2 < q.len() {
            assert(qp[i2] == q[i2]);
        } else {
            assert(qp[i2] == p[i2 - q.len()]);
        }
    }
}

/// Every listed change records a real difference with the right old and
/// new values, and the changes come in the order role, label, value,
/// toggled, disabled, focused, each field at most once.
pub proof fn lemma_changes_sound_and_ordered(a: NodeView, b: NodeView)
    ensures
        forall|i: int|
            0 <= i < changes_of(a, b).len() ==> true_change(a, b, #[trigger] changes_of(a, b)[i]),
        forall|i: int, i2: int|
            0 <= i < i2 < changes_of(a, b).len() ==> field_rank(
                (#[trigger] changes_of(a, b)[i]).field,
            ) < field_rank((#[trigger] changes_of(a, b)[i2]).field),
{
    let e = Seq::<ChangeView>::empty();
    let q1 = e + change_if(a.role != b.role, DiffField::Role, FieldValueView::Text(a.role), FieldValueView::Text(b.role));
    lemma_sound_step(a, b, e, a.role != b.role, DiffField::Role, FieldValueView::Text(a.role), FieldValueView::Text(b.role));
    let q2 = q1 + change_if(a.label != b.label, DiffField::Label, FieldValueView::MaybeText(a.label), FieldValueView::MaybeText(b.label));
    lemma_sound_step(a, b, q1, a.label != b.label, DiffField::Label, FieldValueView::MaybeText(a.label), FieldValueView::MaybeText(b.label));
    let q3 = q2 + change_if(a.value != b.value, DiffField::Value, FieldValueView::MaybeText(a.value), FieldValueView::MaybeText(b.value));
    lemma_sound_step(a, b, q2, a.value != b.value, DiffField::Value, FieldValueView::MaybeText(a.value), FieldValueView::MaybeText(b.value));
    let q4 = q3 + change_if(a.toggled != b.toggled, DiffField::Toggled, FieldValueView::MaybeFlag(a.toggled), FieldValueView::MaybeFlag(b.toggled));
    lemma_sound_step(a, b, q3, a.toggled != b.toggled, DiffField::Toggled, FieldValueView::MaybeFlag(a.toggled), FieldValueView::MaybeFlag(b.toggled));
    let q5 = q4 + change_if(a.disabled != b.disabled, DiffField::Disabled, FieldValueView::Flag(a.disabled), FieldValueView::Flag(b.disabled));
    lemma_sound_step(a, b, q4, a.disabled != b.disabled, DiffField::Disabled, FieldValueView::Flag(a.disabled), FieldValueView::Flag(b.disabled));
    let q6 = q5 + change_if(a.focused != b.focused, DiffField::Focused, FieldValueView::Flag(a.focused), FieldValueView::Flag(b.focused));
    lemma_sound_step(a, b, q5, a.focused != b.focused, DiffField::Focused, FieldValueView::Flag(a.focused), FieldValueView::Flag(b.focused));
    assert(e + change_if(a.role != b.role, DiffField::Role, FieldValueView::Text(a.role), FieldValueView::Text(b.role)) =~= change_if(a.role != b.role, DiffField::Role, FieldValueView::Text(a.role), FieldValueView::Text(b.role)));
    assert(changes_of(a, b) == q6);
}


proof fn lemma_unmatched_distinct(xs: Seq<NodeView>, ys: Seq<NodeView>, j: int)
    requires
        0 <= j <= xs.len(),
    ensures
        forall|i: int|
            0 <= i < unmatched_upto(xs, ys, j).len() ==> exists|k: int|
                0 <= k < j && stands_for_id(xs, k) && #[trigger] unmatched_upto(xs, ys, j)[i]
                    == summary_of(xs[k]),
        forall|i: int, i2: int|
            0 <= i < i2 < unmatched_upto(xs, ys, j).len() ==> (#[trigger] unmatched_upto(
                xs,
                ys,
                j,
            )[i]).id != (#[trigger] unmatched_upto(xs, ys, j)[i2]).id,
    decreases j,
{
    if j > 0 {
        lemma_unmatched_distinct(xs, ys, j - 1);
        let prev = unmatched_upto(xs, ys, j - 1);
        let cur = unmatched_upto(xs, ys, j);
        assert forall|i: int| 0 <= i < cur.len() implies exists|k: int|
            0 <= k < j && stands_for_id(xs, k) && #[trigger] cur[i] == summary_of(xs[k]) by {
            if i < prev.len() {
                assert(cur[i] == prev[i]);
                let k = choose|k: int|
                    0 <= k < j - 1 && stands_for_id(xs, k) && #[trigger] prev[i] == summary_of(
                        xs[k],
                    );
                assert(cur[i] == summary_of(xs[k]));
            } else {
                assert(cur[i] == summary_of(xs[j - 1]));
            }
        }
        assert forall|i: int, i2: int| 0 <= i < i2 < cur.len() implies (#[trigger] cur[i]).id
            != (#[trigger] cur[i2]).id by {
            assert(cur[i] == prev[i]);
            if i2 < prev.len() {
                assert(cur[i2] == prev[i2]);
            } else {
                let k = choose|k: int|
                    0 <= k < j - 1 && stands_for_id(xs, k) && #[trigger] prev[i] == summary_of(
                        xs[k],
                    );
                assert(cur[i2] == summary_of(xs[j - 1]));
                assert(stands_for_id(xs, j - 1));
                if cur[i].id == cur[i2].id {
                    assert(xs[k].id == xs[j - 1].id);
                    assert(false);
                }
            }
        }
    }
}

proof fn lemma_modified_distinct(xs: Seq<NodeView>, ys: Seq<NodeView>, j: int)
    requires
        0 <= j <= xs.len(),
    ensures
        forall|i: int, i2: int|
            0 <= i < i2 < modified_upto(xs, ys, j).len() ==> (#[trigger] modified_upto(
                xs,
                ys,
                j,
            )[i]).id != (#[trigger] modified_upto(xs, ys, j)[i2]).id,
    decreases j,
{
    if j > 0 {
        lemma_modified_distinct(xs, ys, j - 1);
        lemma_modified_origin(xs, ys, j - 1);
        let prev = modified_upto(xs, ys, j - 1);
        let cur = modified_upto(xs, ys, j);
        assert forall|i: int, i2: int| 0 <= i < i2 < cur.len() implies (#[trigger] cur[i]).id
            != (#[trigger] cur[i2]).id by {
            assert(cur[i] == prev[i]);
            if i2 < prev.len() {
                assert(cur[i2] == prev[i2]);
            } else {
                let k = choose|k: int|
                    0 <= k < j - 1 && stands_for_id(xs, k) && id_index(ys).contains_key(xs[k].id)
                        && #[trigger] prev[i] == entry_for(xs, ys, k);
                assert(cur[i2].id == xs[j - 1].id);
                assert(stands_for_id(xs, j - 1));
                if cur[i].id == cur[i2].id {
                    assert(xs[k].id == xs[j - 1].id);
                    assert(false);
                }
            }
        }
    }
}

/// No identifier is listed twice among the added nodes, among the removed
/// nodes, or among the modified nodes.
pub proof fn lemma_diff_ids_listed_once(a: Seq<NodeView>, b: Seq<NodeView>)
    ensures
        forall|i: int, i2: int|
            0 <= i < i2 < spec_tree_diff(a, b).added.len() ==> (#[trigger] spec_tree_diff(
                a,
                b,
            ).added[i]).id != (#[trigger] spec_tree_diff(a, b).added[i2]).id,
        forall|i: int, i2: int|
            0 <= i < i2 < spec_tree_diff(a, b).removed.len() ==> (#[trigger] spec_tree_diff(
                a,
                b,
            ).removed[i]).id != (#[trigger] spec_tree_diff(a, b).removed[i2]).id,
        forall|i: int, i2: int|
            0 <= i < i2 < spec_tree_diff(a, b).modified.len() ==> (#[trigger] spec_tree_diff(
                a,
                b,
            ).modified[i]).id != (#[trigger] spec_tree_diff(a, b).modified[i2]).id,
{
    lemma_unmatched_distinct(b, a, b.len() as int);
    lemma_unmatched_distinct(a, b, a.len() as int);
    lemma_modified_distinct(a, b, a.len() as int);
}

} // verus!
