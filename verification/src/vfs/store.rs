//! Taking a tree apart for storage and putting it back together, with
//! the stored parts checked before they are trusted.

use std::collections::HashMap;
use vstd::prelude::*;

use super::spec::{NodeView, VfsView};
use super::{NodeId, NodeKind, Vfs, VfsNode};
use crate::text::{chars_of, contains_char, eq_ignore_ascii_case, eq_ignore_ascii_case_exec};

verus! {

broadcast use vstd::std_specs::hash::group_hash_axioms;

pub open spec fn nodes_view(v: Seq<VfsNode>) -> Seq<NodeView> {
    v.map_values(|n: VfsNode| n@)
}

/// The nodes keyed by the numbers of their ids (a later node wins over an
/// earlier one with the same id).
pub open spec fn map_of(ns: Seq<NodeView>) -> Map<u64, NodeView>
    decreases ns.len(),
{
    if ns.len() == 0 {
        Map::empty()
    } else {
        map_of(ns.drop_last()).insert(ns.last().id.0, ns.last())
    }
}

/// No two nodes share an id.
pub open spec fn ids_distinct(ns: Seq<NodeView>) -> bool {
    forall|i: int, j: int| 0 <= i < ns.len() && 0 <= j < ns.len() && i != j ==> #[trigger] ns[i].id != #[trigger] ns[j].id
}

/// Stored parts make a tree: no id twice, and the tree they make is well
/// formed.
pub open spec fn parts_valid(next_id: u64, root: NodeId, ns: Seq<NodeView>) -> bool {
    ids_distinct(ns) && (VfsView { next_id, root, nodes: map_of(ns) }).wf()
}

proof fn lemma_map_of(ns: Seq<NodeView>)
    ensures
        forall|k: u64|
            #[trigger] map_of(ns).contains_key(k) <==> exists|i: int|
                0 <= i < ns.len() && ns[i].id.0 == k,
        ids_distinct(ns) ==> forall|i: int|
            0 <= i < ns.len() ==> #[trigger] map_of(ns)[ns[i].id.0] == ns[i],
    decreases ns.len(),
{
    if ns.len() > 0 {
        let t = ns.drop_last();
        lemma_map_of(t);
        assert forall|k: u64|
            #[trigger] map_of(ns).contains_key(k) <==> exists|i: int|
                0 <= i < ns.len() && ns[i].id.0 == k by {
            if map_of(ns).contains_key(k) && k != ns.last().id.0 {
                assert(map_of(t).contains_key(k));
                let i = choose|i: int| 0 <= i < t.len() && t[i].id.0 == k;
                assert(ns[i].id.0 == k);
            }
            if exists|i: int| 0 <= i < ns.len() && ns[i].id.0 == k {
                let i = choose|i: int| 0 <= i < ns.len() && ns[i].id.0 == k;
                if i < t.len() {
                    assert(t[i].id.0 == k);
                    assert(map_of(t).contains_key(k));
                }
            }
        }
        if ids_distinct(ns) {
            assert(ids_distinct(t)) by {
                assert forall|i: int, j: int|
                    0 <= i < t.len() && 0 <= j < t.len() && i != j implies #[trigger] t[i].id
                    != #[trigger] t[j].id by {
                    assert(ns[i].id != ns[j].id);
                }
            }
            assert forall|i: int| 0 <= i < ns.len() implies #[trigger] map_of(ns)[ns[i].id.0]
                == ns[i] by {
                if i < t.len() {
                    assert(ns[i].id != ns[ns.len() - 1].id);
                    assert(t[i] == ns[i]);
                    assert(map_of(t)[t[i].id.0] == t[i]);
                }
            }
        }
    }
}

impl Vfs {
    /// Whether node `k` satisfies what every node of a well-formed tree
    /// does.
    fn node_valid(&self, k: u64) -> (r: bool)
        requires
            self@.nodes.contains_key(k),
        ensures
            r == self@.node_ok(k),
    {
        let ghost v = self@;
        let n = self.nodes.get(&k).unwrap();
        if n.id.0 != k || k >= self.next_id {
            return false;
        }
        let cs = &n.children;
        if !n.is_folder() && cs.len() > 0 {
            return false;
        }
        let mut i: usize = 0;
        while i < cs.len()
            invariant
                i <= cs.len(),
                v == self@,
                v.nodes.contains_key(k),
                cs@ == v.nodes[k].children,
                forall|t: int| 0 <= t < i ==> #[trigger] v.child_ok(k, t),
            decreases cs.len() - i,
        {
            match self.nodes.get(&cs[i].0) {
                None => {
                    assert(!v.child_ok(k, i as int));
                    return false;
                },
                Some(c) => {
                    if c.parent != Some(NodeId(k)) {
                        assert(!v.child_ok(k, i as int));
                        return false;
                    }
                },
            }
            i += 1;
        }
        let mut a: usize = 0;
        while a < cs.len()
            invariant
                a <= cs.len(),
                v == self@,
                v.nodes.contains_key(k),
                cs@ == v.nodes[k].children,
                forall|t: int| 0 <= t < cs@.len() ==> #[trigger] v.child_ok(k, t),
                forall|x: int, y: int|
                    #![trigger cs@[x], cs@[y]]
                    0 <= x < a && 0 <= y < cs@.len() && x != y ==> cs@[x] != cs@[y]
                        && !eq_ignore_ascii_case(v.nodes[cs@[x].0].name, v.nodes[cs@[y].0].name),
            decreases cs.len() - a,
        {
            assert(v.child_ok(k, a as int));
            let an = self.nodes.get(&cs[a].0).unwrap();
            let aname = chars_of(an.name.as_str());
            let mut b: usize = 0;
            while b < cs.len()
                invariant
                    a < cs.len(),
                    b <= cs.len(),
                    v == self@,
                    v.nodes.contains_key(k),
                    cs@ == v.nodes[k].children,
                    forall|t: int| 0 <= t < cs@.len() ==> #[trigger] v.child_ok(k, t),
                    aname@ == v.nodes[cs@[a as int].0].name,
                    forall|y: int|
                        #![trigger cs@[y]]
                        0 <= y < b && y != a ==> cs@[a as int] != cs@[y] && !eq_ignore_ascii_case(
                            v.nodes[cs@[a as int].0].name,
                            v.nodes[cs@[y].0].name,
                        ),
                decreases cs.len() - b,
            {
                if b != a {
                    if cs[a] == cs[b] {
                        assert(!cs@.no_duplicates());
                        return false;
                    }
                    let bn = match self.nodes.get(&cs[b].0) {
                        Some(x) => x,
                        None => {
                            assert(!v.child_ok(k, b as int));
                            return false;
                        },
                    };
                    let bname = chars_of(bn.name.as_str());
                    if eq_ignore_ascii_case_exec(&aname, &bname) {
                        assert(!v.siblings_distinct(k));
                        return false;
                    }
                }
                b += 1;
            }
            a += 1;
        }
        assert(cs@.no_duplicates());
        assert(v.siblings_distinct(k));
        if k == self.root.0 {
            return n.kind == NodeKind::Root && n.parent.is_none();
        }
        if n.kind == NodeKind::Root {
            return false;
        }
        let name = chars_of(n.name.as_str());
        if name.len() == 0 || contains_char(&name, '/') || contains_char(&name, '\\') {
            return false;
        }
        let p = match n.parent {
            None => return false,
            Some(p) => p,
        };
        if p.0 >= k {
            return false;
        }
        let pn = match self.nodes.get(&p.0) {
            None => return false,
            Some(x) => x,
        };
        let mut found = false;
        let mut t: usize = 0;
        while t < pn.children.len()
            invariant
                t <= pn.children.len(),
                pn.children@ == v.nodes[p.0].children,
                found <==> exists|u: int| 0 <= u < t && pn.children@[u] == NodeId(k),
            decreases pn.children.len() - t,
        {
            if pn.children[t] == NodeId(k) {
                found = true;
            }
            t += 1;
        }
        proof {
            if found {
                let u = choose|u: int| 0 <= u < t && pn.children@[u] == NodeId(k);
                assert(v.nodes[p.0].children.contains(NodeId(k)));
            } else {
                if v.nodes[p.0].children.contains(NodeId(k)) {
                    let u = choose|u: int|
                        0 <= u < pn.children@.len() && pn.children@[u] == NodeId(k);
                    assert(false);
                }
            }
        }
        found
    }

    /// Puts a tree back together from stored parts: the next id, the
    /// root, and the nodes. `None` unless no id occurs twice and the nodes
    /// form a well-formed tree.
    pub fn from_parts(next_id: u64, root: NodeId, nodes: Vec<VfsNode>) -> (r: Option<Vfs>)
        ensures
            match r {
                Some(v) => parts_valid(next_id, root, nodes_view(nodes@)) && v@ == (VfsView {
                    next_id,
                    root,
                    nodes: map_of(nodes_view(nodes@)),
                }),
                None => !parts_valid(next_id, root, nodes_view(nodes@)),
            },
    {
        let ghost ns = nodes_view(nodes@);
        let mut map: HashMap<u64, VfsNode> = HashMap::new();
        let mut i: usize = 0;
        assert(map@.map_values(|n: VfsNode| n@) =~= map_of(ns.take(0)));
        while i < nodes.len()
            invariant
                i <= nodes.len(),
                ns == nodes_view(nodes@),
                map@.map_values(|n: VfsNode| n@) == map_of(ns.take(i as int)),
                ids_distinct(ns.take(i as int)),
            decreases nodes.len() - i,
        {
            let n = nodes[i].copy();
            let key = n.id.0;
            let ghost before = map@;
            proof {
                lemma_map_of(ns.take(i as int));
            }
            assert(ns.take(i + 1).drop_last() =~= ns.take(i as int));
            assert(ns.take(i + 1).last() == nodes@[i as int]@);
            if map.get(&key).is_some() {
                proof {
                    assert(map@.contains_key(key));
                    assert(map_of(ns.take(i as int)).contains_key(key));
                    let j = choose|j: int| 0 <= j < ns.take(i as int).len() && ns.take(i as int)[j].id.0 == key;
                    assert(ns.take(i as int)[j] == ns[j]);
                    assert(ns[j].id == ns[i as int].id);
                    assert(!ids_distinct(ns));
                }
                return None;
            }
            assert(!map_of(ns.take(i as int)).contains_key(key));
            map.insert(key, n);
            assert(map@.map_values(|n: VfsNode| n@) =~= map_of(ns.take(i + 1)));
            assert(ids_distinct(ns.take(i + 1))) by {
                assert forall|x: int, y: int|
                    0 <= x < i + 1 && 0 <= y < i + 1 && x != y implies #[trigger] ns.take(i + 1)[x].id
                    != #[trigger] ns.take(i + 1)[y].id by {
                    if x == i {
                        assert(!map_of(ns.take(i as int)).contains_key(key));
                        assert(ns.take(i as int)[y].id.0 != key);
                    } else if y == i {
                        assert(ns.take(i as int)[x].id.0 != key);
                    } else {
                        assert(ns.take(i as int)[x] == ns.take(i + 1)[x]);
                        assert(ns.take(i as int)[y] == ns.take(i + 1)[y]);
                    }
                }
            }
            i += 1;
        }
        assert(ns.take(nodes.len() as int) =~= ns);
        proof {
            lemma_map_of(ns);
        }
        let v = Vfs { next_id, root, nodes: map };
        assert(v@.nodes == map_of(ns));
        if v.nodes.get(&root.0).is_none() {
            return None;
        }
        let mut j: usize = 0;
        while j < nodes.len()
            invariant
                j <= nodes.len(),
                ns == nodes_view(nodes@),
                v@.nodes == map_of(ns),
                v@.next_id == next_id,
                v@.root == root,
                forall|k: u64| #[trigger] map_of(ns).contains_key(k) <==> exists|t: int|
                    0 <= t < ns.len() && ns[t].id.0 == k,
                forall|t: int| 0 <= t < j ==> v@.node_ok(#[trigger] ns[t].id.0),
            decreases nodes.len() - j,
        {
            let key = nodes[j].id.0;
            assert(ns[j as int].id.0 == key);
            assert(v@.nodes.contains_key(key));
            if !v.node_valid(key) {
                return None;
            }
            j += 1;
        }
        assert forall|k: u64| #[trigger] v@.nodes.contains_key(k) implies v@.node_ok(k) by {
            let t = choose|t: int| 0 <= t < ns.len() && ns[t].id.0 == k;
            assert(v@.node_ok(ns[t].id.0));
        }
        Some(v)
    }

    /// The parts a tree is stored as: the next id, the root, and every
    /// node, each once.
    pub fn to_parts(&self) -> (r: (u64, NodeId, Vec<VfsNode>))
        requires
            self@.wf(),
        ensures
            r.0 == self@.next_id,
            r.1 == self@.root,
            r.2@.len() == self@.nodes.dom().len(),
            forall|i: int|
                0 <= i < r.2@.len() ==> self@.nodes.contains_key(#[trigger] r.2@[i].id.0)
                    && r.2@[i]@ == self@.nodes[r.2@[i].id.0],
            forall|i: int, j: int|
                0 <= i < r.2@.len() && 0 <= j < r.2@.len() && i != j ==> #[trigger] r.2@[i].id
                    != #[trigger] r.2@[j].id,
            forall|k: u64|
                #[trigger] self@.nodes.contains_key(k) ==> exists|i: int|
                    0 <= i < r.2@.len() && r.2@[i].id.0 == k,
    {
        (self.next_id, self.root, self.nodes())
    }
}

/// Parts taken from a well-formed tree (every node once, nothing else)
/// are accepted when put back, and give back the same tree.
pub proof fn lemma_store_round_trip(v: VfsView, ns: Seq<NodeView>)
    requires
        v.wf(),
        forall|i: int|
            0 <= i < ns.len() ==> v.nodes.contains_key(#[trigger] ns[i].id.0) && ns[i]
                == v.nodes[ns[i].id.0],
        ids_distinct(ns),
        forall|k: u64|
            #[trigger] v.nodes.contains_key(k) ==> exists|i: int| 0 <= i < ns.len() && ns[i].id.0 == k,
    ensures
        parts_valid(v.next_id, v.root, ns),
        map_of(ns) == v.nodes,
{
    lemma_map_of(ns);
    assert forall|k: u64| #[trigger] map_of(ns).contains_key(k) <==> v.nodes.contains_key(k) by {
        if map_of(ns).contains_key(k) {
            let i = choose|i: int| 0 <= i < ns.len() && ns[i].id.0 == k;
            assert(v.nodes.contains_key(ns[i].id.0));
        }
        if v.nodes.contains_key(k) {
            let i = choose|i: int| 0 <= i < ns.len() && ns[i].id.0 == k;
            assert(map_of(ns).contains_key(k));
        }
    }
    assert forall|k: u64| #[trigger] map_of(ns).contains_key(k) implies map_of(ns)[k] == v.nodes[k] by {
        let i = choose|i: int| 0 <= i < ns.len() && ns[i].id.0 == k;
        assert(map_of(ns)[ns[i].id.0] == ns[i]);
    }
    assert(map_of(ns) =~= v.nodes);
    assert(VfsView { next_id: v.next_id, root: v.root, nodes: map_of(ns) } == v);
}

} // verus!
