//! The mathematical model of the tree, its invariant, and the meaning of
//! each operation on it.

use vstd::prelude::*;

use super::{NodeId, NodeKind};
use crate::text::{decimal, digit_char, eq_ignore_ascii_case, is_digit, trim};

verus! {

/// What a node holds, as plain values.
pub struct NodeView {
    pub id: NodeId,
    pub name: Seq<char>,
    pub kind: NodeKind,
    pub resource: Option<Seq<char>>,
    pub parent: Option<NodeId>,
    pub children: Seq<NodeId>,
    pub comment: Seq<char>,
    pub hidden: bool,
    pub download_forbidden: bool,
}

/// Why an operation was refused, as plain values.
pub enum VfsFault {
    NotFound(NodeId),
    NameExists(Seq<char>),
    NotAFolder,
    InvalidRootOp,
    InvalidName,
    Io(Seq<char>),
}

/// The whole tree: the next id to hand out, the root, and every node by
/// the number of its id.
pub struct VfsView {
    pub next_id: u64,
    pub root: NodeId,
    pub nodes: Map<u64, NodeView>,
}

pub open spec fn opt_view(o: Option<String>) -> Option<Seq<char>> {
    match o {
        Some(s) => Some(s@),
        None => None,
    }
}

pub open spec fn is_folder_kind(k: NodeKind) -> bool {
    k == NodeKind::Root || k == NodeKind::VirtualFolder || k == NodeKind::RealFolder
}

/// A name a node may carry: not empty, no `/` and no `\`.
pub open spec fn valid_name(s: Seq<char>) -> bool {
    s.len() > 0 && !s.contains('/') && !s.contains('\\')
}

impl VfsView {
    pub open spec fn has(self, id: NodeId) -> bool {
        self.nodes.contains_key(id.0)
    }

    pub open spec fn node(self, id: NodeId) -> NodeView {
        self.nodes[id.0]
    }

    /// The `i`-th child of node `k` exists and points back at `k`.
    pub open spec fn child_ok(self, k: u64, i: int) -> bool {
        let c = self.nodes[k].children[i];
        self.nodes.contains_key(c.0) && self.nodes[c.0].parent == Some(NodeId(k))
    }

    /// No two children of node `k` carry names equal up to ASCII case.
    pub open spec fn siblings_distinct(self, k: u64) -> bool {
        let cs = self.nodes[k].children;
        forall|i: int, j: int|
            #![trigger cs[i], cs[j]]
            0 <= i < cs.len() && 0 <= j < cs.len() && i != j ==> !eq_ignore_ascii_case(
                self.nodes[cs[i].0].name,
                self.nodes[cs[j].0].name,
            )
    }

    /// What every node of a well-formed tree satisfies.
    pub open spec fn node_ok(self, k: u64) -> bool {
        let n = self.nodes[k];
        &&& n.id == NodeId(k)
        &&& k < self.next_id
        &&& n.children.no_duplicates()
        &&& forall|i: int| 0 <= i < n.children.len() ==> #[trigger] self.child_ok(k, i)
        &&& self.siblings_distinct(k)
        &&& !is_folder_kind(n.kind) ==> n.children.len() == 0
        &&& if k == self.root.0 {
            n.kind == NodeKind::Root && n.parent is None
        } else {
            &&& n.kind != NodeKind::Root
            &&& valid_name(n.name)
            &&& n.parent matches Some(p) && p.0 < k && self.nodes.contains_key(p.0)
                && self.nodes[p.0].children.contains(NodeId(k))
        }
    }

    /// The tree's invariant: the root is there, and every node is in
    /// order.
    pub open spec fn wf(self) -> bool {
        &&& self.nodes.contains_key(self.root.0)
        &&& forall|k: u64| #[trigger] self.nodes.contains_key(k) ==> self.node_ok(k)
    }
}

/// The tree that holds only an unnamed root with id 1; the next id is 2.
pub open spec fn empty_tree() -> VfsView {
    VfsView {
        next_id: 2,
        root: NodeId(1),
        nodes: map![1u64 => NodeView {
            id: NodeId(1),
            name: seq![],
            kind: NodeKind::Root,
            resource: None,
            parent: None,
            children: seq![],
            comment: seq![],
            hidden: false,
            download_forbidden: false,
        }],
    }
}

/// A child of `parent` already carries `name`, up to ASCII case.
pub open spec fn name_taken(v: VfsView, parent: NodeId, name: Seq<char>) -> bool {
    let cs = v.nodes[parent.0].children;
    exists|j: int|
        0 <= j < cs.len() && v.nodes.contains_key(#[trigger] cs[j].0) && eq_ignore_ascii_case(
            v.nodes[cs[j].0].name,
            name,
        )
}

/// `desired (i)`.
pub open spec fn numbered(desired: Seq<char>, i: nat) -> Seq<char> {
    desired + seq![' ', '('] + decimal(i) + seq![')']
}

/// The first `desired (i)`, for `i` from `from` up to 9999, that no child
/// of `parent` carries.
pub open spec fn first_free(v: VfsView, parent: NodeId, desired: Seq<char>, from: nat) -> Option<
    Seq<char>,
>
    decreases 10000 - from,
{
    if from >= 10000 {
        None
    } else if !name_taken(v, parent, numbered(desired, from)) {
        Some(numbered(desired, from))
    } else {
        first_free(v, parent, desired, from + 1)
    }
}

/// The name a new child of `parent` asked to be called `desired` gets, or
/// why it cannot be added.
pub open spec fn unique_name_spec(v: VfsView, parent: NodeId, desired: Seq<char>) -> Result<
    Seq<char>,
    VfsFault,
> {
    if !v.has(parent) {
        Err(VfsFault::NotFound(parent))
    } else if !is_folder_kind(v.node(parent).kind) {
        Err(VfsFault::NotAFolder)
    } else if !valid_name(desired) {
        Err(VfsFault::InvalidName)
    } else if !name_taken(v, parent, desired) {
        Ok(desired)
    } else {
        match first_free(v, parent, desired, 2) {
            Some(n) => Ok(n),
            None => Err(VfsFault::NameExists(desired)),
        }
    }
}

/// The tree after a fresh node `name` of `kind` is linked as the last
/// child of `parent`; it gets the id `next_id`.
pub open spec fn add_spec(
    v: VfsView,
    parent: NodeId,
    name: Seq<char>,
    kind: NodeKind,
    resource: Option<Seq<char>>,
) -> VfsView {
    let id = NodeId(v.next_id);
    let fresh = NodeView {
        id,
        name,
        kind,
        resource,
        parent: Some(parent),
        children: seq![],
        comment: seq![],
        hidden: false,
        download_forbidden: false,
    };
    let p = v.nodes[parent.0];
    VfsView {
        next_id: (v.next_id + 1) as u64,
        root: v.root,
        nodes: v.nodes.insert(id.0, fresh).insert(
            parent.0,
            NodeView { children: p.children.push(id), ..p },
        ),
    }
}

/// Node `k` lies in the subtree of node `a`: following parents from `k`
/// reaches `a` (every node lies in its own subtree).
pub open spec fn descends(v: VfsView, k: u64, a: u64) -> bool
    decreases k,
{
    if k == a {
        true
    } else if v.nodes.contains_key(k) {
        match v.nodes[k].parent {
            Some(p) => if p.0 < k {
                descends(v, p.0, a)
            } else {
                false
            },
            None => false,
        }
    } else {
        false
    }
}

/// `w` is `v` without the subtree of `id`, which is unlinked from its
/// parent's children; nothing else changes.
pub open spec fn removed_from(v: VfsView, w: VfsView, id: NodeId) -> bool {
    let p = v.nodes[id.0].parent->Some_0;
    let pcs = v.nodes[p.0].children;
    &&& w.next_id == v.next_id
    &&& w.root == v.root
    &&& forall|k: u64|
        #![trigger w.nodes.contains_key(k)]
        #![trigger v.nodes.contains_key(k)]
        w.nodes.contains_key(k) <==> (v.nodes.contains_key(k) && !descends(v, k, id.0))
    &&& forall|k: u64|
        #![trigger w.nodes[k]]
        w.nodes.contains_key(k) && k != p.0 ==> w.nodes[k] == v.nodes[k]
    &&& exists|ix: int|
        0 <= ix < pcs.len() && pcs[ix] == id && w.nodes[p.0] == (NodeView {
            children: pcs.remove(ix),
            ..v.nodes[p.0]
        })
}

/// A child of `parent` other than `id` carries `name`, up to ASCII case.
pub open spec fn name_conflict(v: VfsView, parent: NodeId, id: NodeId, name: Seq<char>) -> bool {
    let cs = v.nodes[parent.0].children;
    exists|j: int|
        0 <= j < cs.len() && cs[j] != id && v.nodes.contains_key(#[trigger] cs[j].0)
            && eq_ignore_ascii_case(v.nodes[cs[j].0].name, name)
}

/// The tree after node `id` is renamed to `new_name`, or why that is
/// refused.
pub open spec fn rename_spec(v: VfsView, id: NodeId, new_name: Seq<char>) -> Result<
    VfsView,
    VfsFault,
> {
    if id == v.root {
        Err(VfsFault::InvalidRootOp)
    } else if !valid_name(new_name) {
        Err(VfsFault::InvalidName)
    } else if !v.has(id) {
        Err(VfsFault::NotFound(id))
    } else if v.node(id).parent is None {
        Err(VfsFault::InvalidRootOp)
    } else if !v.has(v.node(id).parent->Some_0) {
        Err(VfsFault::NotFound(v.node(id).parent->Some_0))
    } else if name_conflict(v, v.node(id).parent->Some_0, id, new_name) {
        Err(VfsFault::NameExists(new_name))
    } else {
        Ok(
            VfsView {
                nodes: v.nodes.insert(id.0, NodeView { name: new_name, ..v.node(id) }),
                ..v
            },
        )
    }
}

/// The outcome and the tree after a child asked to be called `desired`
/// is added under `parent`.
pub open spec fn add_result(
    v: VfsView,
    parent: NodeId,
    desired: Seq<char>,
    kind: NodeKind,
    resource: Option<Seq<char>>,
) -> (Result<NodeId, VfsFault>, VfsView) {
    match unique_name_spec(v, parent, desired) {
        Ok(n) => (Ok(NodeId(v.next_id)), add_spec(v, parent, n, kind, resource)),
        Err(f) => (Err(f), v),
    }
}

/// Adding a link: the name is checked first, then a blank URL is refused.
pub open spec fn add_link_result(v: VfsView, parent: NodeId, name: Seq<char>, url: Seq<char>) -> (
    Result<NodeId, VfsFault>,
    VfsView,
) {
    match unique_name_spec(v, parent, name) {
        Ok(n) => if trim(url).len() == 0 {
            (Err(VfsFault::InvalidName), v)
        } else {
            (Ok(NodeId(v.next_id)), add_spec(v, parent, n, NodeKind::Link, Some(url)))
        },
        Err(f) => (Err(f), v),
    }
}

/// Adding a file whose path ends in `file_name`: it needs a non-empty one.
pub open spec fn add_file_result(
    v: VfsView,
    parent: NodeId,
    file_name: Option<Seq<char>>,
    path: Seq<char>,
) -> (Result<NodeId, VfsFault>, VfsView) {
    match file_name {
        Some(n) => if n.len() > 0 {
            add_result(v, parent, n, NodeKind::File, Some(path))
        } else {
            (Err(VfsFault::InvalidName), v)
        },
        None => (Err(VfsFault::InvalidName), v),
    }
}

/// Adding a real folder whose path ends in `file_name`, or is named by
/// the whole path where that is missing or empty.
pub open spec fn add_folder_result(
    v: VfsView,
    parent: NodeId,
    file_name: Option<Seq<char>>,
    path: Seq<char>,
) -> (Result<NodeId, VfsFault>, VfsView) {
    let name = match file_name {
        Some(n) => if n.len() > 0 {
            n
        } else {
            path
        },
        None => path,
    };
    add_result(v, parent, name, NodeKind::RealFolder, Some(path))
}

// ---------------------------------------------------------------------
// Lemmas
// ---------------------------------------------------------------------

pub proof fn lemma_decimal_digits(n: nat)
    ensures
        decimal(n).len() > 0,
        forall|k: int| 0 <= k < decimal(n).len() ==> is_digit(#[trigger] decimal(n)[k]),
    decreases n,
{
    if n >= 10 {
        lemma_decimal_digits(n / 10);
    }
    assert(forall|d: nat| d < 10 ==> is_digit(#[trigger] digit_char(d)));
}

pub proof fn lemma_numbered_valid(desired: Seq<char>, i: nat)
    requires
        valid_name(desired),
    ensures
        valid_name(numbered(desired, i)),
{
    lemma_decimal_digits(i);
    let s = numbered(desired, i);
    let dl = desired.len() as int;
    let nl = decimal(i).len() as int;
    assert forall|k: int| 0 <= k < s.len() implies s[k] != '/' && s[k] != '\\' by {
        if k < dl {
            assert(s[k] == desired[k]);
            assert(desired.contains(desired[k]));
        } else if k < dl + 2 {
        } else if k < dl + 2 + nl {
            assert(s[k] == decimal(i)[k - dl - 2]);
            assert(is_digit(decimal(i)[k - dl - 2]));
        } else {
        }
    }
}

pub proof fn lemma_first_free(v: VfsView, parent: NodeId, desired: Seq<char>, from: nat)
    requires
        valid_name(desired),
    ensures
        first_free(v, parent, desired, from) matches Some(n) ==> valid_name(n) && !name_taken(
            v,
            parent,
            n,
        ),
    decreases 10000 - from,
{
    if from < 10000 {
        lemma_numbered_valid(desired, from);
        lemma_first_free(v, parent, desired, from + 1);
    }
}

/// A name that `unique_name_spec` hands out can be given to a new child.
pub proof fn lemma_unique_name_ok(v: VfsView, parent: NodeId, desired: Seq<char>)
    ensures
        unique_name_spec(v, parent, desired) matches Ok(n) ==> {
            &&& v.has(parent)
            &&& is_folder_kind(v.node(parent).kind)
            &&& valid_name(n)
            &&& !name_taken(v, parent, n)
        },
{
    if v.has(parent) && is_folder_kind(v.node(parent).kind) && valid_name(desired) {
        lemma_first_free(v, parent, desired, 2);
    }
}

/// Linking a fresh node keeps the tree well formed.
pub proof fn lemma_add_preserves_wf(
    v: VfsView,
    parent: NodeId,
    name: Seq<char>,
    kind: NodeKind,
    resource: Option<Seq<char>>,
)
    requires
        v.wf(),
        v.next_id < u64::MAX,
        v.has(parent),
        is_folder_kind(v.node(parent).kind),
        valid_name(name),
        !name_taken(v, parent, name),
        kind != NodeKind::Root,
    ensures
        add_spec(v, parent, name, kind, resource).wf(),
{
    let w = add_spec(v, parent, name, kind, resource);
    let id = v.next_id;
    let pk = parent.0;
    assert(!v.nodes.contains_key(id)) by {
        if v.nodes.contains_key(id) {
            assert(v.node_ok(id));
        }
    }
    assert(v.node_ok(pk));
    assert(pk < id);
    let pcs = v.nodes[pk].children;
    let wcs = w.nodes[pk].children;
    assert(wcs == pcs.push(NodeId(id)));
    assert forall|k: u64| #[trigger] w.nodes.contains_key(k) implies w.node_ok(k) by {
        if k == id {
            assert(w.nodes[k].children.len() == 0);
            assert(wcs[pcs.len() as int] == NodeId(id));
            assert(w.nodes[pk].children.contains(NodeId(id)));
            assert(w.siblings_distinct(k));
        } else if k == pk {
            assert(v.node_ok(k));
            assert(w.nodes[k].children.no_duplicates()) by {
                assert forall|i: int, j: int|
                    0 <= i < wcs.len() && 0 <= j < wcs.len() && i != j implies wcs[i]
                    != wcs[j] by {
                    if i < pcs.len() && j < pcs.len() {
                    } else if i < pcs.len() {
                        assert(v.child_ok(pk, i));
                    } else if j < pcs.len() {
                        assert(v.child_ok(pk, j));
                    }
                }
            }
            assert forall|i: int| 0 <= i < wcs.len() implies #[trigger] w.child_ok(k, i) by {
                if i < pcs.len() {
                    assert(v.child_ok(pk, i));
                }
            }
            assert(w.siblings_distinct(k)) by {
                assert forall|i: int, j: int|
                    #![trigger wcs[i], wcs[j]]
                    0 <= i < wcs.len() && 0 <= j < wcs.len() && i != j implies !eq_ignore_ascii_case(
                    w.nodes[wcs[i].0].name,
                    w.nodes[wcs[j].0].name,
                ) by {
                    if i < pcs.len() {
                        assert(v.child_ok(pk, i));
                        assert(pcs[i].0 != id);
                        assert(w.nodes[wcs[i].0] == v.nodes[pcs[i].0] || pcs[i].0 == pk);
                    }
                    if j < pcs.len() {
                        assert(v.child_ok(pk, j));
                        assert(pcs[j].0 != id);
                    }
                    if i < pcs.len() && j < pcs.len() {
                        assert(pcs[i].0 != pk);
                        assert(pcs[j].0 != pk);
                    } else if i < pcs.len() {
                        assert(pcs[i].0 != pk);
                        assert(w.nodes[wcs[j].0].name == name);
                        if eq_ignore_ascii_case(v.nodes[pcs[i].0].name, name) {
                            assert(name_taken(v, parent, name));
                        }
                    } else if j < pcs.len() {
                        assert(pcs[j].0 != pk);
                        assert(w.nodes[wcs[i].0].name == name);
                        if eq_ignore_ascii_case(name, v.nodes[pcs[j].0].name) {
                            assert(eq_ignore_ascii_case(v.nodes[pcs[j].0].name, name));
                            assert(name_taken(v, parent, name));
                        }
                    }
                }
            }
            if k != v.root.0 {
                let gp = v.nodes[k].parent->Some_0;
                assert(v.nodes[gp.0].children.contains(NodeId(k)));
                if gp.0 != pk {
                    assert(w.nodes[gp.0] == v.nodes[gp.0]);
                }
            }
        } else {
            assert(v.nodes.contains_key(k));
            assert(v.node_ok(k));
            assert(w.nodes[k] == v.nodes[k]);
            let cs = v.nodes[k].children;
            assert forall|i: int| 0 <= i < cs.len() implies #[trigger] w.child_ok(k, i) by {
                assert(v.child_ok(k, i));
                assert(cs[i].0 != id);
                if cs[i].0 == pk {
                    assert(v.nodes[pk].parent == Some(NodeId(k)));
                }
            }
            assert(w.siblings_distinct(k)) by {
                assert forall|i: int, j: int|
                    #![trigger cs[i], cs[j]]
                    0 <= i < cs.len() && 0 <= j < cs.len() && i != j implies !eq_ignore_ascii_case(
                    w.nodes[cs[i].0].name,
                    w.nodes[cs[j].0].name,
                ) by {
                    assert(v.child_ok(k, i));
                    assert(v.child_ok(k, j));
                    assert(cs[i].0 != id && cs[j].0 != id);
                    assert(w.nodes[cs[i].0].name == v.nodes[cs[i].0].name);
                    assert(w.nodes[cs[j].0].name == v.nodes[cs[j].0].name);
                }
            }
            if k != v.root.0 {
                let gp = v.nodes[k].parent->Some_0;
                assert(v.nodes[gp.0].children.contains(NodeId(k)));
                if gp.0 == pk {
                    let ix = choose|ix: int| 0 <= ix < pcs.len() && pcs[ix] == NodeId(k);
                    assert(wcs[ix] == NodeId(k));
                }
            }
        }
    }
}

} // verus!
