//! Named snapshots of UI trees, and the differences between them.

use vstd::prelude::*;
use crate::json::{error_json, error_response};
use crate::protocol::{NodeInfo, NodeView, UiTree, nodes_view};
use crate::tree_diff::{TreeDiff, compute_tree_diff, spec_tree_diff};
use crate::accessibility::clone_node;
use crate::text_search::text_equals;

verus! {

/// View of a UI tree: its roots and its nodes.
pub struct TreeView {
    pub roots: Seq<u64>,
    pub nodes: Seq<NodeView>,
}

impl View for UiTree {
    type V = TreeView;

    open spec fn view(&self) -> TreeView {
        TreeView { roots: self.roots@, nodes: nodes_view(self.nodes@) }
    }
}

/// A copy of a tree.
pub fn clone_tree(t: &UiTree) -> (c: UiTree)
    ensures
        c@ == t@,
{
    let mut roots: Vec<u64> = Vec::new();
    let mut i: usize = 0;
    while i < t.roots.len()
        invariant
            i <= t.roots@.len(),
            roots@ == t.roots@.subrange(0, i as int),
        decreases t.roots@.len() - i,
    {
        roots.push(t.roots[i]);
        i += 1;
        assert(roots@ =~= t.roots@.subrange(0, i as int));
    }
    let mut nodes: Vec<NodeInfo> = Vec::new();
    let mut j: usize = 0;
    while j < t.nodes.len()
        invariant
            j <= t.nodes@.len(),
            nodes_view(nodes@) == nodes_view(t.nodes@).subrange(0, j as int),
        decreases t.nodes@.len() - j,
    {
        let ghost before = nodes@;
        nodes.push(clone_node(&t.nodes[j]));
        assert(nodes_view(nodes@) =~= nodes_view(before).push(t.nodes@[j as int]@));
        j += 1;
        assert(nodes_view(nodes@) =~= nodes_view(t.nodes@).subrange(0, j as int));
    }
    assert(roots@ =~= t.roots@);
    assert(nodes_view(nodes@) =~= nodes_view(t.nodes@));
    UiTree { roots, nodes }
}

/// Trees saved under names; saving under a name already used replaces
/// that tree.
pub struct SnapshotStore {
    entries: Vec<(String, UiTree)>,
}

impl SnapshotStore {
    /// Each name occurs at most once.
    pub closed spec fn wf(&self) -> bool {
        forall|i: int, j: int|
            0 <= i < j < self.entries@.len() ==> (#[trigger] self.entries@[i]).0@
                != (#[trigger] self.entries@[j]).0@
    }

    /// The saved trees by name.
    pub closed spec fn view(&self) -> Map<Seq<char>, TreeView> {
        Map::new(
            |n: Seq<char>| exists|i: int| 0 <= i < self.entries@.len() && self.entries@[i].0@ == n,
            |n: Seq<char>|
                {
                    let i = choose|i: int|
                        0 <= i < self.entries@.len() && self.entries@[i].0@ == n;
                    self.entries@[i].1@
                },
        )
    }

    /// An empty store.
    pub fn new() -> (s: Self)
        ensures
            s.wf(),
            s.view() == Map::<Seq<char>, TreeView>::empty(),
    {
        let s = SnapshotStore { entries: Vec::new() };
        assert(s.view() =~= Map::<Seq<char>, TreeView>::empty());
        s
    }

    fn position(&self, name: &str) -> (r: Option<usize>)
        requires
            self.wf(),
        ensures
            match r {
                Some(i) => i < self.entries@.len() && self.entries@[i as int].0@ == name@,
                None => forall|i: int|
                    0 <= i < self.entries@.len() ==> (#[trigger] self.entries@[i]).0@ != name@,
            },
    {
        let mut i: usize = 0;
        while i < self.entries.len()
            invariant
                i <= self.entries@.len(),
                forall|k: int| 0 <= k < i ==> (#[trigger] self.entries@[k]).0@ != name@,
            decreases self.entries@.len() - i,
        {
            if text_equals(self.entries[i].0.as_str(), name) {
                return Some(i);
            }
            i += 1;
        }
        None
    }

    /// The tree saved under `name`, if any.
    pub fn get(&self, name: &str) -> (r: Option<&UiTree>)
        requires
            self.wf(),
        ensures
            match r {
                Some(t) => self.view().contains_key(name@) && t@ == self.view()[name@],
                None => !self.view().contains_key(name@),
            },
    {
        match self.position(name) {
            Some(i) => {
                proof {
                    assert(self.view().contains_key(name@));
                    let k = choose|k: int|
                        0 <= k < self.entries@.len() && self.entries@[k].0@ == name@;
                    assert(k == i);
                }
                Some(&self.entries[i].1)
            },
            None => None,
        }
    }

    /// Saves `tree` under `name`, replacing what was saved under it.
    pub fn save(&mut self, name: &str, tree: UiTree)
        requires
            old(self).wf(),
        ensures
            final(self).wf(),
            final(self).view() == old(self).view().insert(name@, tree@),
    {
        let ghost old_view = self.view();
        let ghost t = tree@;
        match self.position(name) {
            Some(i) => {
                let ghost before = self.entries@;
                self.entries.set(i, (String::from_str(name), tree));
                proof {
                    assert forall|a: int, b: int|
                        0 <= a < b < self.entries@.len() implies (#[trigger] self.entries@[a]).0@
                        != (#[trigger] self.entries@[b]).0@ by {
                        assert(before[a].0@ != before[b].0@ || a == b);
                    }
                    assert forall|n: Seq<char>| #[trigger]
                        self.view().contains_key(n) == old_view.insert(name@, t).contains_key(
                            n,
                        ) by {
                        assert(self.entries@[i as int].0@ == name@);
                        if old_view.insert(name@, t).contains_key(n) && n != name@ {
                            let k = choose|k: int| 0 <= k < before.len() && before[k].0@ == n;
                            assert(self.entries@[k].0@ == n);
                        }
                        if self.view().contains_key(n) && n != name@ {
                            let k = choose|k: int|
                                0 <= k < self.entries@.len() && self.entries@[k].0@ == n;
                            assert(before[k].0@ == n);
                        }
                    }
                    assert forall|n: Seq<char>| #[trigger]
                        self.view().contains_key(n) implies self.view()[n] == old_view.insert(
                        name@,
                        t,
                    )[n] by {
                        let k = choose|k: int|
                            0 <= k < self.entries@.len() && self.entries@[k].0@ == n;
                        if n == name@ {
                            assert(k == i);
                        } else {
                            let k0 = choose|k0: int|
                                0 <= k0 < before.len() && before[k0].0@ == n;
                            assert(k0 == k);
                        }
                    }
                    assert(self.view() =~= old_view.insert(name@, t));
                }
            },
            None => {
                let ghost before = self.entries@;
                self.entries.push((String::from_str(name), tree));
                proof {
                    let last = before.len() as int;
                    assert forall|n: Seq<char>| #[trigger]
                        self.view().contains_key(n) == old_view.insert(name@, t).contains_key(
                            n,
                        ) by {
                        if old_view.insert(name@, t).contains_key(n) {
                            if n == name@ {
                                assert(self.entries@[last].0@ == n);
                            } else {
                                let k = choose|k: int| 0 <= k < before.len() && before[k].0@ == n;
                                assert(self.entries@[k].0@ == n);
                            }
                        }
                        if self.view().contains_key(n) && n != name@ {
                            let k = choose|k: int|
                                0 <= k < self.entries@.len() && self.entries@[k].0@ == n;
                            assert(k != last);
                            assert(before[k].0@ == n);
                        }
                    }
                    assert forall|n: Seq<char>| #[trigger]
                        self.view().contains_key(n) implies self.view()[n] == old_view.insert(
                        name@,
                        t,
                    )[n] by {
                        let k = choose|k: int|
                            0 <= k < self.entries@.len() && self.entries@[k].0@ == n;
                        if n == name@ {
                            assert(k == last);
                        } else {
                            let k0 = choose|k0: int|
                                0 <= k0 < before.len() && before[k0].0@ == n;
                            assert(self.entries@[k0].0@ == n);
                            assert(k0 == k);
                        }
                    }
                    assert(self.view() =~= old_view.insert(name@, t));
                }
            },
        }
    }
}

/// Error text for a name with no snapshot.
pub open spec fn snapshot_not_found(name: Seq<char>) -> Seq<char> {
    error_json("not_found"@, "Snapshot '"@ + name + "' not found"@)
}

fn not_found_error(name: &str) -> (m: String)
    ensures
        m@ == snapshot_not_found(name@),
{
    let mut message = String::from_str("Snapshot '");
    message.append(name);
    message.append("' not found");
    error_response("not_found", message.as_str())
}

/// The tree saved under `name`, or the "not found" error.
pub fn load_snapshot(store: &SnapshotStore, name: &str) -> (r: Result<UiTree, String>)
    requires
        store.wf(),
    ensures
        match r {
            Ok(t) => store.view().contains_key(name@) && t@ == store.view()[name@],
            Err(m) => !store.view().contains_key(name@) && m@ == snapshot_not_found(name@),
        },
{
    match store.get(name) {
        Some(t) => Ok(clone_tree(t)),
        None => Err(not_found_error(name)),
    }
}

/// The difference from the snapshot `name_a` to the snapshot `name_b`; a
/// missing snapshot is reported, the first one first.
pub fn diff_snapshots(store: &SnapshotStore, name_a: &str, name_b: &str) -> (r: Result<
    TreeDiff,
    String,
>)
    requires
        store.wf(),
    ensures
        !store.view().contains_key(name_a@) ==> (r matches Err(m) && m@ == snapshot_not_found(
            name_a@,
        )),
        store.view().contains_key(name_a@) && !store.view().contains_key(name_b@) ==> (r matches Err(
            m,
        ) && m@ == snapshot_not_found(name_b@)),
        store.view().contains_key(name_a@) && store.view().contains_key(name_b@) ==> (r matches Ok(
            d,
        ) && d@ == spec_tree_diff(store.view()[name_a@].nodes, store.view()[name_b@].nodes)),
{
    let a = match store.get(name_a) {
        Some(t) => t,
        None => return Err(not_found_error(name_a)),
    };
    let b = match store.get(name_b) {
        Some(t) => t,
        None => return Err(not_found_error(name_b)),
    };
    Ok(compute_tree_diff(a, b))
}

/// The difference from the snapshot `name` to the current tree, or the
/// "not found" error.
pub fn diff_current(store: &SnapshotStore, name: &str, current: &UiTree) -> (r: Result<
    TreeDiff,
    String,
>)
    requires
        store.wf(),
    ensures
        match r {
            Ok(d) => store.view().contains_key(name@) && d@ == spec_tree_diff(
                store.view()[name@].nodes,
                current@.nodes,
            ),
            Err(m) => !store.view().contains_key(name@) && m@ == snapshot_not_found(name@),
        },
{
    match store.get(name) {
        Some(saved) => Ok(compute_tree_diff(saved, current)),
        None => Err(not_found_error(name)),
    }
}

/// After saving a tree under a name, loading that name gives the tree back,
/// and every other name gives what it gave before.
pub proof fn lemma_load_after_save(
    before: Map<Seq<char>, TreeView>,
    name: Seq<char>,
    tree: TreeView,
    other: Seq<char>,
)
    ensures
        before.insert(name, tree).contains_key(name),
        before.insert(name, tree)[name] == tree,
        other != name ==> (before.insert(name, tree).contains_key(other) == before.contains_key(
            other,
        ) && (before.contains_key(other) ==> before.insert(name, tree)[other] == before[other])),
{
}

} // verus!
