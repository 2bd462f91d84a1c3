//! Facts about subtrees, and the proofs that renaming and unlinking keep
//! the tree well formed.

use vstd::prelude::*;

use super::spec::{
    add_spec, descends, lemma_unique_name_ok, name_conflict, removed_from, rename_spec,
    unique_name_spec, NodeView, VfsView,
};
use super::NodeKind;
use super::NodeId;
use crate::text::eq_ignore_ascii_case;

verus! {

pub proof fn lemma_descends_le(v: VfsView, k: u64, a: u64)
    requires
        descends(v, k, a),
    ensures
        a <= k,
    decreases k,
{
    if k != a {
        lemma_descends_le(v, v.nodes[k].parent->Some_0.0, a);
    }
}

pub proof fn lemma_descends_trans(v: VfsView, k: u64, a: u64, b: u64)
    requires
        descends(v, k, a),
        descends(v, a, b),
    ensures
        descends(v, k, b),
    decreases k,
{
    if k != a {
        lemma_descends_trans(v, v.nodes[k].parent->Some_0.0, a, b);
    }
}

pub proof fn lemma_descends_linear(v: VfsView, k: u64, a: u64, b: u64)
    requires
        descends(v, k, a),
        descends(v, k, b),
    ensures
        descends(v, a, b) || descends(v, b, a),
    decreases k,
{
    if k != a && k != b {
        lemma_descends_linear(v, v.nodes[k].parent->Some_0.0, a, b);
    }
}

/// A parent chain inside the subtree of `a` that `w` keeps unchanged is a
/// parent chain of `w` too.
pub proof fn lemma_descends_transfer(v: VfsView, w: VfsView, k: u64, a: u64)
    requires
        descends(v, k, a),
        forall|m: u64|
            #![trigger w.nodes.contains_key(m)]
            v.nodes.contains_key(m) && descends(v, m, a) ==> w.nodes.contains_key(m)
                && w.nodes[m].parent == v.nodes[m].parent,
    ensures
        descends(w, k, a),
    decreases k,
{
    if k != a {
        let p = v.nodes[k].parent->Some_0.0;
        assert(w.nodes.contains_key(k));
        lemma_descends_transfer(v, w, p, a);
    }
}

/// A node strictly inside the subtree of `id` lies in the subtree of one
/// of its children, and the subtree of a child lies in that of `id`.
pub proof fn lemma_descends_child(v: VfsView, id: NodeId, k: u64)
    requires
        v.wf(),
        v.has(id),
    ensures
        descends(v, k, id.0) && k != id.0 <==> exists|i: int|
            0 <= i < v.nodes[id.0].children.len() && descends(
                v,
                k,
                #[trigger] v.nodes[id.0].children[i].0,
            ),
    decreases k,
{
    let cs = v.nodes[id.0].children;
    assert(v.node_ok(id.0));
    if descends(v, k, id.0) && k != id.0 {
        let p = v.nodes[k].parent->Some_0;
        assert(v.nodes.contains_key(k));
        assert(v.node_ok(k));
        if p.0 == id.0 {
            assert(k != v.root.0);
            assert(cs.contains(NodeId(k)));
            let i = choose|i: int| 0 <= i < cs.len() && cs[i] == NodeId(k);
            assert(descends(v, k, cs[i].0));
        } else {
            lemma_descends_child(v, id, p.0);
            let i = choose|i: int| 0 <= i < cs.len() && descends(v, p.0, #[trigger] cs[i].0);
            if k != cs[i].0 {
                assert(descends(v, k, cs[i].0));
            }
        }
    }
    if exists|i: int| 0 <= i < cs.len() && descends(v, k, #[trigger] cs[i].0) {
        let i = choose|i: int| 0 <= i < cs.len() && descends(v, k, #[trigger] cs[i].0);
        assert(v.child_ok(id.0, i));
        let c = cs[i].0;
        assert(v.node_ok(c));
        assert(c != v.root.0);
        assert(id.0 < c);
        assert(descends(v, id.0, id.0));
        assert(descends(v, c, id.0));
        lemma_descends_trans(v, k, c, id.0);
        lemma_descends_le(v, k, c);
    }
}

/// Distinct children of one node have disjoint subtrees.
pub proof fn lemma_siblings_apart(v: VfsView, id: NodeId, i: int, j: int, k: u64)
    requires
        v.wf(),
        v.has(id),
        0 <= i < v.nodes[id.0].children.len(),
        0 <= j < v.nodes[id.0].children.len(),
        i != j,
    ensures
        !(descends(v, k, v.nodes[id.0].children[i].0) && descends(
            v,
            k,
            v.nodes[id.0].children[j].0,
        )),
{
    let cs = v.nodes[id.0].children;
    assert(v.node_ok(id.0));
    assert(v.child_ok(id.0, i));
    assert(v.child_ok(id.0, j));
    let ci = cs[i].0;
    let cj = cs[j].0;
    assert(ci != cj);
    assert(v.node_ok(ci));
    assert(v.node_ok(cj));
    assert(ci != v.root.0 && cj != v.root.0);
    if descends(v, k, ci) && descends(v, k, cj) {
        lemma_descends_linear(v, k, ci, cj);
        if descends(v, ci, cj) {
            lemma_descends_le(v, id.0, cj);
        } else {
            lemma_descends_le(v, id.0, ci);
        }
    }
}

/// `v` with the childless node `id` deleted and unlinked from its parent,
/// where it stands at index `ix`.
pub open spec fn unlink_leaf(v: VfsView, id: NodeId, ix: int) -> VfsView {
    let p = v.nodes[id.0].parent->Some_0;
    VfsView {
        nodes: v.nodes.insert(
            p.0,
            NodeView { children: v.nodes[p.0].children.remove(ix), ..v.nodes[p.0] },
        ).remove(id.0),
        ..v
    }
}

pub proof fn lemma_remove_keeps(s: Seq<NodeId>, ix: int, x: NodeId)
    requires
        0 <= ix < s.len(),
        s.contains(x),
        x != s[ix],
    ensures
        s.remove(ix).contains(x),
{
    let j = choose|j: int| 0 <= j < s.len() && s[j] == x;
    if j < ix {
        assert(s.remove(ix)[j] == x);
    } else {
        assert(s.remove(ix)[j - 1] == x);
    }
}

/// Deleting a childless node keeps the tree well formed.
pub proof fn lemma_unlink_leaf_wf(v: VfsView, id: NodeId, ix: int)
    requires
        v.wf(),
        v.has(id),
        id != v.root,
        v.nodes[id.0].children.len() == 0,
        0 <= ix < v.nodes[v.nodes[id.0].parent->Some_0.0].children.len(),
        v.nodes[v.nodes[id.0].parent->Some_0.0].children[ix] == id,
    ensures
        unlink_leaf(v, id, ix).wf(),
{
    let w = unlink_leaf(v, id, ix);
    assert(v.node_ok(id.0));
    let p = v.nodes[id.0].parent->Some_0;
    let pk = p.0;
    let pcs = v.nodes[pk].children;
    let wcs = pcs.remove(ix);
    assert(v.node_ok(pk));
    assert(pk != id.0);
    assert(w.nodes[pk].children == wcs);
    assert(w.nodes.contains_key(v.root.0));
    assert forall|k: u64| #[trigger] w.nodes.contains_key(k) implies w.node_ok(k) by {
        assert(v.nodes.contains_key(k));
        assert(k != id.0);
        assert(v.node_ok(k));
        if k == pk {
            assert forall|a: int, b: int|
                0 <= a < wcs.len() && 0 <= b < wcs.len() && a != b implies wcs[a] != wcs[b] by {
                let a2 = if a < ix {
                    a
                } else {
                    a + 1
                };
                let b2 = if b < ix {
                    b
                } else {
                    b + 1
                };
                assert(wcs[a] == pcs[a2]);
                assert(wcs[b] == pcs[b2]);
            }
            assert forall|i: int| 0 <= i < wcs.len() implies #[trigger] w.child_ok(k, i) by {
                let i2 = if i < ix {
                    i
                } else {
                    i + 1
                };
                assert(wcs[i] == pcs[i2]);
                assert(v.child_ok(pk, i2));
                assert(pcs[i2] != id);
                if pcs[i2].0 == pk {
                    assert(v.node_ok(pk));
                }
            }
            assert(w.siblings_distinct(k)) by {
                assert forall|a: int, b: int|
                    #![trigger wcs[a], wcs[b]]
                    0 <= a < wcs.len() && 0 <= b < wcs.len() && a != b implies !eq_ignore_ascii_case(
                    w.nodes[wcs[a].0].name,
                    w.nodes[wcs[b].0].name,
                ) by {
                    let a2 = if a < ix {
                        a
                    } else {
                        a + 1
                    };
                    let b2 = if b < ix {
                        b
                    } else {
                        b + 1
                    };
                    assert(wcs[a] == pcs[a2]);
                    assert(wcs[b] == pcs[b2]);
                    assert(v.child_ok(pk, a2));
                    assert(v.child_ok(pk, b2));
                    assert(pcs[a2] != id);
                    assert(pcs[b2] != id);
                    assert(w.nodes[pcs[a2].0].name == v.nodes[pcs[a2].0].name);
                    assert(w.nodes[pcs[b2].0].name == v.nodes[pcs[b2].0].name);
                    assert(pcs[a2] != pcs[b2]);
                }
            }
            if k != v.root.0 {
                let gp = v.nodes[k].parent->Some_0;
                assert(gp.0 < pk);
                assert(gp.0 != id.0);
                assert(w.nodes[gp.0] == v.nodes[gp.0]);
            }
        } else {
            assert(w.nodes[k] == v.nodes[k]);
            let cs = v.nodes[k].children;
            assert forall|i: int| 0 <= i < cs.len() implies #[trigger] w.child_ok(k, i) by {
                assert(v.child_ok(k, i));
                if cs[i] == id {
                    assert(v.nodes[id.0].parent == Some(NodeId(k)));
                }
                assert(cs[i] != id);
            }
            assert(w.siblings_distinct(k)) by {
                assert forall|a: int, b: int|
                    #![trigger cs[a], cs[b]]
                    0 <= a < cs.len() && 0 <= b < cs.len() && a != b implies !eq_ignore_ascii_case(
                    w.nodes[cs[a].0].name,
                    w.nodes[cs[b].0].name,
                ) by {
                    assert(v.child_ok(k, a));
                    assert(v.child_ok(k, b));
                    assert(cs[a] != id);
                    assert(cs[b] != id);
                    assert(w.nodes[cs[a].0].name == v.nodes[cs[a].0].name);
                    assert(w.nodes[cs[b].0].name == v.nodes[cs[b].0].name);
                }
            }
            if k != v.root.0 {
                let gp = v.nodes[k].parent->Some_0;
                assert(v.nodes[gp.0].children.contains(NodeId(k)));
                if gp.0 == id.0 {
                    assert(false);
                }
                if gp.0 == pk {
                    assert(NodeId(k) != pcs[ix]);
                    lemma_remove_keeps(pcs, ix, NodeId(k));
                } else {
                    assert(w.nodes[gp.0] == v.nodes[gp.0]);
                }
            }
        }
    }
}

/// Renaming as `rename_spec` allows keeps the tree well formed.
pub proof fn lemma_rename_wf(v: VfsView, id: NodeId, new_name: Seq<char>)
    requires
        v.wf(),
        rename_spec(v, id, new_name) is Ok,
    ensures
        rename_spec(v, id, new_name)->Ok_0.wf(),
{
    let w = rename_spec(v, id, new_name)->Ok_0;
    let p = v.node(id).parent->Some_0;
    assert(v.node_ok(id.0));
    assert forall|k: u64| #[trigger] w.nodes.contains_key(k) implies w.node_ok(k) by {
        assert(v.node_ok(k));
        let cs = v.nodes[k].children;
        assert(w.nodes[k].children == cs);
        assert forall|i: int| 0 <= i < cs.len() implies #[trigger] w.child_ok(k, i) by {
            assert(v.child_ok(k, i));
        }
        assert(w.siblings_distinct(k)) by {
            assert forall|a: int, b: int|
                #![trigger cs[a], cs[b]]
                0 <= a < cs.len() && 0 <= b < cs.len() && a != b implies !eq_ignore_ascii_case(
                w.nodes[cs[a].0].name,
                w.nodes[cs[b].0].name,
            ) by {
                assert(v.child_ok(k, a));
                assert(v.child_ok(k, b));
                assert(cs[a] != cs[b]);
                if cs[a] == id {
                    assert(k == p.0);
                    assert(w.nodes[cs[a].0].name == new_name);
                    assert(w.nodes[cs[b].0].name == v.nodes[cs[b].0].name);
                    if eq_ignore_ascii_case(new_name, v.nodes[cs[b].0].name) {
                        assert(eq_ignore_ascii_case(v.nodes[cs[b].0].name, new_name));
                        assert(name_conflict(v, p, id, new_name));
                    }
                } else if cs[b] == id {
                    assert(k == p.0);
                    assert(w.nodes[cs[b].0].name == new_name);
                    assert(w.nodes[cs[a].0].name == v.nodes[cs[a].0].name);
                    if eq_ignore_ascii_case(v.nodes[cs[a].0].name, new_name) {
                        assert(name_conflict(v, p, id, new_name));
                    }
                } else {
                    assert(w.nodes[cs[a].0].name == v.nodes[cs[a].0].name);
                    assert(w.nodes[cs[b].0].name == v.nodes[cs[b].0].name);
                }
            }
        }
        if k != v.root.0 {
            let gp = v.nodes[k].parent->Some_0;
            assert(w.nodes[gp.0].children == v.nodes[gp.0].children);
        }
    }
}

/// Node `k` lies in the subtree of one of the first `j` entries of `cs`.
pub open spec fn gone(v: VfsView, cs: Seq<NodeId>, j: int, k: u64) -> bool {
    exists|i: int| 0 <= i < j && descends(v, k, #[trigger] cs[i].0)
}

/// Where the removal of the subtree of `id` stands once the subtrees of
/// its first `j` children are gone.
pub open spec fn removal_progress(s0: VfsView, id: NodeId, cs: Seq<NodeId>, j: int, s: VfsView) -> bool {
    &&& s.wf()
    &&& s.next_id == s0.next_id
    &&& s.root == s0.root
    &&& s.nodes.contains_key(id.0)
    &&& s.nodes[id.0] == (NodeView { children: cs.skip(j), ..s0.nodes[id.0] })
    &&& forall|k: u64|
        #![trigger s.nodes.contains_key(k)]
        s.nodes.contains_key(k) <==> (s0.nodes.contains_key(k) && !gone(s0, cs, j, k))
    &&& forall|k: u64|
        #![trigger s.nodes[k]]
        s.nodes.contains_key(k) && k != id.0 ==> s.nodes[k] == s0.nodes[k]
}

/// Before the loop over the children, nothing is gone.
pub proof fn lemma_removal_start(s0: VfsView, id: NodeId)
    requires
        s0.wf(),
        s0.has(id),
    ensures
        removal_progress(s0, id, s0.nodes[id.0].children, 0, s0),
{
    let cs = s0.nodes[id.0].children;
    assert(cs.skip(0) =~= cs);
    assert(s0.nodes[id.0] == (NodeView { children: cs.skip(0), ..s0.nodes[id.0] }));
}

/// The `j`-th child is still there, and removing its subtree advances
/// the removal by one child.
pub proof fn lemma_removal_child_present(s0: VfsView, id: NodeId, j: int, s: VfsView)
    requires
        s0.wf(),
        s0.has(id),
        id != s0.root,
        0 <= j < s0.nodes[id.0].children.len(),
        removal_progress(s0, id, s0.nodes[id.0].children, j, s),
    ensures
        s.has(s0.nodes[id.0].children[j]),
        s0.nodes[id.0].children[j] != s.root,
        s0.nodes[id.0].children[j].0 > id.0,
        s0.nodes[id.0].children[j].0 < s.next_id,
        s.nodes[s0.nodes[id.0].children[j].0].parent == Some(id),
{
    let cs = s0.nodes[id.0].children;
    let c = cs[j];
    assert(s0.node_ok(id.0));
    assert(s0.child_ok(id.0, j));
    assert(s0.node_ok(c.0));
    if gone(s0, cs, j, c.0) {
        let i = choose|i: int| 0 <= i < j && descends(s0, c.0, #[trigger] cs[i].0);
        lemma_siblings_apart(s0, id, i, j, c.0);
    }
    assert(s.nodes.contains_key(c.0));
    assert(c.0 != id.0);
    assert(s.nodes[c.0] == s0.nodes[c.0]);
}

pub proof fn lemma_removal_step(s0: VfsView, id: NodeId, j: int, s: VfsView, s1: VfsView)
    requires
        s0.wf(),
        s0.has(id),
        id != s0.root,
        0 <= j < s0.nodes[id.0].children.len(),
        removal_progress(s0, id, s0.nodes[id.0].children, j, s),
        s.nodes[s0.nodes[id.0].children[j].0].parent == Some(id),
        s1.wf(),
        removed_from(s, s1, s0.nodes[id.0].children[j]),
    ensures
        removal_progress(s0, id, s0.nodes[id.0].children, j + 1, s1),
{
    let cs = s0.nodes[id.0].children;
    let c = cs[j];
    assert(s0.node_ok(id.0));
    assert(s0.child_ok(id.0, j));
    let rest = cs.skip(j);
    let ix = choose|ix: int|
        0 <= ix < rest.len() && rest[ix] == c && s1.nodes[id.0] == (NodeView {
            children: rest.remove(ix),
            ..s.nodes[id.0]
        });
    assert(rest[0] == c);
    if ix != 0 {
        assert(rest[ix] == cs[j + ix]);
    }
    assert(ix == 0);
    assert(rest.remove(0) =~= cs.skip(j + 1));
    assert(s1.nodes.contains_key(id.0)) by {
        assert(s.nodes.contains_key(id.0));
        if descends(s, id.0, c.0) {
            lemma_descends_le(s, id.0, c.0);
            assert(s0.node_ok(c.0));
        }
    }
    // Parent chains inside the subtree of `c` are the same in `s` and `s0`.
    assert forall|m: u64|
        #![trigger s0.nodes.contains_key(m)]
        s.nodes.contains_key(m) && descends(s, m, c.0) implies s0.nodes.contains_key(m)
        && s0.nodes[m].parent == s.nodes[m].parent by {
        if m != id.0 {
            assert(s.nodes[m] == s0.nodes[m]);
        }
    }
    assert forall|m: u64|
        #![trigger s.nodes.contains_key(m)]
        s0.nodes.contains_key(m) && descends(s0, m, c.0) implies s.nodes.contains_key(m)
        && s.nodes[m].parent == s0.nodes[m].parent by {
        if gone(s0, cs, j, m) {
            let i = choose|i: int| 0 <= i < j && descends(s0, m, #[trigger] cs[i].0);
            lemma_siblings_apart(s0, id, i, j, m);
        }
        lemma_descends_le(s0, m, c.0);
        assert(s0.node_ok(c.0));
        assert(m != id.0);
        assert(s.nodes[m] == s0.nodes[m]);
    }
    assert forall|k: u64|
        #![trigger s1.nodes.contains_key(k)]
        s1.nodes.contains_key(k) <==> (s0.nodes.contains_key(k) && !gone(s0, cs, j + 1, k)) by {
        if s.nodes.contains_key(k) {
            if descends(s, k, c.0) {
                lemma_descends_transfer(s, s0, k, c.0);
            }
            if descends(s0, k, c.0) {
                lemma_descends_transfer(s0, s, k, c.0);
            }
            if gone(s0, cs, j + 1, k) && !gone(s0, cs, j, k) {
                let i = choose|i: int| 0 <= i < j + 1 && descends(s0, k, #[trigger] cs[i].0);
                assert(i == j);
            }
            if gone(s0, cs, j, k) {
                let i = choose|i: int| 0 <= i < j && descends(s0, k, #[trigger] cs[i].0);
                assert(0 <= i < j + 1 && descends(s0, k, cs[i].0));
            }
        } else {
            if s0.nodes.contains_key(k) {
                assert(gone(s0, cs, j, k));
                let i = choose|i: int| 0 <= i < j && descends(s0, k, #[trigger] cs[i].0);
                assert(0 <= i < j + 1 && descends(s0, k, cs[i].0));
            }
        }
    }
    assert forall|k: u64|
        #![trigger s1.nodes[k]]
        s1.nodes.contains_key(k) && k != id.0 implies s1.nodes[k] == s0.nodes[k] by {
        assert(s.nodes.contains_key(k));
        assert(s1.nodes[k] == s.nodes[k]);
    }
}

/// Once every child's subtree is gone, deleting `id` itself completes the
/// removal of its subtree.
pub proof fn lemma_removal_finish(s0: VfsView, id: NodeId, s: VfsView, ix: int)
    requires
        s0.wf(),
        s0.has(id),
        id != s0.root,
        removal_progress(s0, id, s0.nodes[id.0].children, s0.nodes[id.0].children.len() as int, s),
        0 <= ix < s.nodes[s.nodes[id.0].parent->Some_0.0].children.len(),
        s.nodes[s.nodes[id.0].parent->Some_0.0].children[ix] == id,
    ensures
        unlink_leaf(s, id, ix).wf(),
        removed_from(s0, unlink_leaf(s, id, ix), id),
{
    let cs = s0.nodes[id.0].children;
    let n = cs.len() as int;
    assert(cs.skip(n).len() == 0);
    assert(s.nodes[id.0].children.len() == 0);
    lemma_unlink_leaf_wf(s, id, ix);
    let w = unlink_leaf(s, id, ix);
    assert(s0.node_ok(id.0));
    let p = s0.nodes[id.0].parent->Some_0;
    assert(s.nodes[id.0].parent == Some(p));
    assert(p.0 != id.0);
    assert(s.nodes.contains_key(p.0)) by {
        assert(s.node_ok(id.0));
    }
    assert(s.nodes[p.0] == s0.nodes[p.0]);
    assert forall|k: u64|
        #![trigger w.nodes.contains_key(k)]
        #![trigger s0.nodes.contains_key(k)]
        w.nodes.contains_key(k) <==> (s0.nodes.contains_key(k) && !descends(s0, k, id.0)) by {
        lemma_descends_child(s0, id, k);
        if gone(s0, cs, n, k) {
            let i = choose|i: int| 0 <= i < n && descends(s0, k, #[trigger] cs[i].0);
            assert(exists|i: int| 0 <= i < cs.len() && descends(s0, k, #[trigger] cs[i].0));
        }
        if descends(s0, k, id.0) && k != id.0 {
            let i = choose|i: int| 0 <= i < cs.len() && descends(s0, k, #[trigger] cs[i].0);
            assert(gone(s0, cs, n, k));
        }
    }
    assert forall|k: u64|
        #![trigger w.nodes[k]]
        w.nodes.contains_key(k) && k != p.0 implies w.nodes[k] == s0.nodes[k] by {
        assert(k != id.0);
        assert(s.nodes.contains_key(k));
    }
    assert(0 <= ix < s0.nodes[p.0].children.len() && s0.nodes[p.0].children[ix] == id
        && w.nodes[p.0] == (NodeView {
        children: s0.nodes[p.0].children.remove(ix),
        ..s0.nodes[p.0]
    }));
}

/// Removing the node that an add just created gives back the tree as it
/// was before the add, except that the id it used stays spent.
pub proof fn lemma_add_then_remove(
    v: VfsView,
    parent: NodeId,
    desired: Seq<char>,
    kind: NodeKind,
    resource: Option<Seq<char>>,
    w: VfsView,
)
    requires
        v.wf(),
        v.next_id < u64::MAX,
        kind != NodeKind::Root,
        unique_name_spec(v, parent, desired) is Ok,
        removed_from(
            add_spec(v, parent, unique_name_spec(v, parent, desired)->Ok_0, kind, resource),
            w,
            NodeId(v.next_id),
        ),
    ensures
        w.nodes == v.nodes,
        w.root == v.root,
        w.next_id == v.next_id + 1,
{
    let n = unique_name_spec(v, parent, desired)->Ok_0;
    lemma_unique_name_ok(v, parent, desired);
    let a = add_spec(v, parent, n, kind, resource);
    let id = v.next_id;
    assert(a.nodes[id].parent == Some(parent));
    let pcs = v.nodes[parent.0].children;
    let acs = a.nodes[parent.0].children;
    assert(v.node_ok(parent.0));
    assert(parent.0 != id);
    assert(acs == pcs.push(NodeId(id)));
    assert forall|k: u64| #[trigger] w.nodes.contains_key(k) <==> v.nodes.contains_key(k) by {
        if v.nodes.contains_key(k) {
            assert(v.node_ok(k));
            if descends(a, k, id) {
                lemma_descends_le(a, k, id);
            }
        }
        if a.nodes.contains_key(k) && k != id {
            assert(v.nodes.contains_key(k));
        }
    }
    let ix = choose|ix: int|
        0 <= ix < acs.len() && acs[ix] == NodeId(id) && w.nodes[parent.0] == (NodeView {
            children: acs.remove(ix),
            ..a.nodes[parent.0]
        });
    if ix < pcs.len() {
        assert(v.child_ok(parent.0, ix));
        assert(v.node_ok(pcs[ix].0));
        assert(false);
    }
    assert(acs.remove(ix) =~= pcs);
    assert forall|k: u64| #[trigger] w.nodes.contains_key(k) implies w.nodes[k] == v.nodes[k] by {
        if k != parent.0 {
            assert(w.nodes[k] == a.nodes[k]);
            assert(v.node_ok(k));
        }
    }
    assert(w.nodes =~= v.nodes);
}

} // verus!
