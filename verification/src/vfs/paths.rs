//! URL paths of nodes, and how a request path is looked up in the tree.

use vstd::prelude::*;

use super::spec::{add_spec, descends, is_folder_kind, name_taken, valid_name, VfsView};
use super::lemmas::{lemma_descends_child, lemma_descends_le, lemma_descends_trans, lemma_siblings_apart};
use super::{NodeId, NodeKind};
use crate::outside::{has_escape, percent_decoded, url_decoded};
use vstd::utf8::{
    encode_utf8, encode_utf8_decode_utf8, encode_utf8_valid_utf8, is_ascii_chars,
    is_ascii_chars_encode_utf8,
};
use crate::text::eq_ignore_ascii_case;

verus! {

/// A segment of a request path is kept unless it is empty or `.`.
pub open spec fn keep(seg: Seq<char>) -> Seq<Seq<char>> {
    if seg.len() > 0 && seg != seq!['.'] {
        seq![seg]
    } else {
        seq![]
    }
}

/// The kept `/`-separated segments of `s`, where `cur` holds the
/// characters of the segment read so far.
pub open spec fn segs_from(s: Seq<char>, cur: Seq<char>) -> Seq<Seq<char>>
    decreases s.len(),
{
    if s.len() == 0 {
        keep(cur)
    } else if s[0] == '/' {
        keep(cur) + segs_from(s.drop_first(), seq![])
    } else {
        segs_from(s.drop_first(), cur.push(s[0]))
    }
}

/// The segments of a decoded request path: split at `/`, without empty
/// and `.` segments.
pub open spec fn segments(s: Seq<char>) -> Seq<Seq<char>> {
    segs_from(s, seq![])
}

/// The names from the root down to node `k` (the root itself has none).
pub open spec fn path_names(v: VfsView, k: u64) -> Seq<Seq<char>>
    decreases k,
{
    if k == v.root.0 || !v.nodes.contains_key(k) {
        seq![]
    } else {
        match v.nodes[k].parent {
            Some(p) => if p.0 < k {
                path_names(v, p.0).push(v.nodes[k].name)
            } else {
                seq![v.nodes[k].name]
            },
            None => seq![v.nodes[k].name],
        }
    }
}

/// `/a/b/c` for the names `a`, `b`, `c`.
pub open spec fn slash_prefix(ns: Seq<Seq<char>>) -> Seq<char>
    decreases ns.len(),
{
    if ns.len() == 0 {
        seq![]
    } else {
        seq!['/'] + ns[0] + slash_prefix(ns.drop_first())
    }
}

/// The URL path of a node with the given names from the root: `/` for
/// the root, else `/a/b/c/`.
pub open spec fn url_of(ns: Seq<Seq<char>>) -> Seq<char> {
    if ns.len() == 0 {
        seq!['/']
    } else {
        slash_prefix(ns) + seq!['/']
    }
}

/// The names joined by `/`.
pub open spec fn join_slash(ns: Seq<Seq<char>>) -> Seq<char>
    decreases ns.len(),
{
    if ns.len() == 0 {
        seq![]
    } else if ns.len() == 1 {
        ns[0]
    } else {
        ns[0] + seq!['/'] + join_slash(ns.drop_first())
    }
}

/// `PathBuf::push` of a relative part `seg` onto `acc`, with `/` as the
/// separator: a `/` goes between unless `acc` is empty or ends in one.
pub open spec fn push_part(acc: Seq<char>, seg: Seq<char>) -> Seq<char> {
    if acc.len() > 0 && acc.last() != '/' {
        acc + seq!['/'] + seg
    } else {
        acc + seg
    }
}

/// `base` with each of `segs` pushed onto it in turn.
pub open spec fn disk_join(base: Seq<char>, segs: Seq<Seq<char>>) -> Seq<char>
    decreases segs.len(),
{
    if segs.len() == 0 {
        base
    } else {
        push_part(disk_join(base, segs.drop_last()), segs.last())
    }
}

/// What looking up a request path gives, as plain values.
pub enum Resolution {
    Node(NodeId),
    DiskFile { node_id: NodeId, path: Seq<char> },
    DiskDir { node_id: NodeId, path: Seq<char>, url_suffix: Seq<char> },
    NotFound,
    Forbidden,
    OnDisk { node_id: NodeId, base: Seq<char>, segments: Seq<Seq<char>> },
}

/// The first of `cs` that is in the tree and named exactly `name`.
pub open spec fn find_named(v: VfsView, cs: Seq<NodeId>, name: Seq<char>) -> Option<NodeId>
    decreases cs.len(),
{
    if cs.len() == 0 {
        None
    } else if v.nodes.contains_key(cs[0].0) && v.nodes[cs[0].0].name == name {
        Some(cs[0])
    } else {
        find_named(v, cs.drop_first(), name)
    }
}

/// Following `segs` down from node `cur`: by child name while one
/// matches; inside a real folder, what is left is for the disk.
pub open spec fn walk(v: VfsView, cur: NodeId, segs: Seq<Seq<char>>) -> Resolution
    decreases segs.len(),
{
    if segs.len() == 0 {
        Resolution::Node(cur)
    } else if !v.has(cur) {
        Resolution::NotFound
    } else {
        match find_named(v, v.node(cur).children, segs[0]) {
            Some(c) => walk(v, c, segs.drop_first()),
            None => if v.node(cur).kind == NodeKind::RealFolder && v.node(cur).resource is Some {
                Resolution::OnDisk {
                    node_id: cur,
                    base: v.node(cur).resource->Some_0,
                    segments: segs,
                }
            } else {
                Resolution::NotFound
            },
        }
    }
}

/// What a decoded request path resolves to: `..` anywhere is forbidden,
/// else the segments are followed down from the root.
pub open spec fn resolve_decoded(v: VfsView, decoded: Seq<char>) -> Resolution {
    let ss = segments(decoded);
    if ss.contains(seq!['.', '.']) {
        Resolution::Forbidden
    } else {
        walk(v, v.root, ss)
    }
}

/// What a raw (percent-encoded) request path resolves to.
pub open spec fn resolve_spec(v: VfsView, raw: Seq<char>) -> Resolution {
    resolve_decoded(v, url_decoded(raw))
}

/// A segment that names something below a folder: not empty, not `.`,
/// and without `/`.
pub open spec fn plain_segment(x: Seq<char>) -> bool {
    x.len() > 0 && x != seq!['.'] && !x.contains('/')
}

proof fn lemma_segs_plain(s: Seq<char>, cur: Seq<char>)
    requires
        !cur.contains('/'),
    ensures
        forall|i: int| 0 <= i < segs_from(s, cur).len() ==> plain_segment(#[trigger] segs_from(s, cur)[i]),
    decreases s.len(),
{
    assert forall|i: int| 0 <= i < keep(cur).len() implies plain_segment(#[trigger] keep(cur)[i]) by {
        assert(keep(cur)[i] == cur);
    }
    if s.len() == 0 {
        assert(segs_from(s, cur) == keep(cur));
    } else if s[0] == '/' {
        assert(!Seq::<char>::empty().contains('/'));
        lemma_segs_plain(s.drop_first(), seq![]);
        let a = keep(cur);
        let b = segs_from(s.drop_first(), seq![]);
        assert(segs_from(s, cur) == a + b);
        assert forall|i: int| 0 <= i < (a + b).len() implies plain_segment(#[trigger] (a + b)[i]) by {
            if i >= a.len() {
                assert((a + b)[i] == b[i - a.len()]);
            }
        }
    } else {
        let c2 = cur.push(s[0]);
        assert(!c2.contains('/')) by {
            if c2.contains('/') {
                let j = choose|j: int| 0 <= j < c2.len() && c2[j] == '/';
                if j < cur.len() {
                    assert(cur[j] == '/');
                }
            }
        }
        lemma_segs_plain(s.drop_first(), c2);
        assert(segs_from(s, cur) == segs_from(s.drop_first(), c2));
    }
}

proof fn lemma_walk_on_disk(v: VfsView, cur: NodeId, segs: Seq<Seq<char>>)
    ensures
        match walk(v, cur, segs) {
            Resolution::OnDisk { node_id, base, segments } => {
                &&& v.has(node_id)
                &&& v.node(node_id).kind == NodeKind::RealFolder
                &&& v.node(node_id).resource == Some(base)
                &&& forall|i: int| 0 <= i < segments.len() ==> segs.contains(#[trigger] segments[i])
            },
            _ => true,
        },
    decreases segs.len(),
{
    if segs.len() > 0 && v.has(cur) {
        match find_named(v, v.node(cur).children, segs[0]) {
            Some(c) => {
                lemma_walk_on_disk(v, c, segs.drop_first());
                match walk(v, c, segs.drop_first()) {
                    Resolution::OnDisk { segments, .. } => {
                        assert forall|i: int| 0 <= i < segments.len() implies segs.contains(
                            #[trigger] segments[i],
                        ) by {
                            let j = choose|j: int|
                                0 <= j < segs.drop_first().len() && segs.drop_first()[j] == segments[i];
                            assert(segs[j + 1] == segments[i]);
                        }
                    },
                    _ => {},
                }
            },
            None => {
                assert forall|i: int| 0 <= i < segs.len() implies segs.contains(#[trigger] segs[i]) by {
                }
            },
        }
    }
}

proof fn lemma_disk_join_prefix(base: Seq<char>, segs: Seq<Seq<char>>)
    ensures
        disk_join(base, segs).len() >= base.len(),
        disk_join(base, segs).take(base.len() as int) == base,
    decreases segs.len(),
{
    if segs.len() > 0 {
        lemma_disk_join_prefix(base, segs.drop_last());
        let a = disk_join(base, segs.drop_last());
        let r = disk_join(base, segs);
        assert(r.take(a.len() as int) =~= a);
        assert(r.take(base.len() as int) =~= a.take(base.len() as int));
    }
}

/// A lookup that ends on disk stays inside its real folder: the folder is
/// a real folder of the tree with that base, each remaining segment is a
/// name (not empty, `.` or `..`, no `/`), and the disk path begins with
/// the base.
pub proof fn lemma_disk_lookup_inside(v: VfsView, decoded: Seq<char>)
    ensures
        match resolve_decoded(v, decoded) {
            Resolution::OnDisk { node_id, base, segments } => {
                &&& v.has(node_id)
                &&& v.node(node_id).kind == NodeKind::RealFolder
                &&& v.node(node_id).resource == Some(base)
                &&& forall|i: int|
                    0 <= i < segments.len() ==> plain_segment(#[trigger] segments[i])
                        && segments[i] != seq!['.', '.']
                &&& disk_join(base, segments).len() >= base.len()
                &&& disk_join(base, segments).take(base.len() as int) == base
            },
            _ => true,
        },
{
    let ss = segments(decoded);
    if !ss.contains(seq!['.', '.']) {
        lemma_walk_on_disk(v, v.root, ss);
        lemma_segs_plain(decoded, seq![]);
        match walk(v, v.root, ss) {
            Resolution::OnDisk { node_id, base, segments } => {
                assert forall|i: int| 0 <= i < segments.len() implies plain_segment(
                    #[trigger] segments[i],
                ) && segments[i] != seq!['.', '.'] by {
                    assert(ss.contains(segments[i]));
                    let j = choose|j: int| 0 <= j < ss.len() && ss[j] == segments[i];
                    assert(plain_segment(ss[j]));
                }
                lemma_disk_join_prefix(base, segments);
            },
            _ => {},
        }
    }
}

/// A request path is refused when one of its segments, once
/// percent-decoded, is `..`, however the dots were written.
pub proof fn lemma_decoded_dot_dot_refused(v: VfsView, raw: Seq<char>)
    requires
        segments(url_decoded(raw)).contains(seq!['.', '.']),
    ensures
        resolve_spec(v, raw) == Resolution::Forbidden,
{
}

/// `%2e%2e` is `..`: the path `/%2e%2e/x` is refused in every tree.
pub proof fn lemma_escaped_dot_dot_refused(v: VfsView)
    ensures
        resolve_spec(v, seq!['/', '%', '2', 'e', '%', '2', 'e', '/', 'x']) == Resolution::Forbidden,
{
    let raw = seq!['/', '%', '2', 'e', '%', '2', 'e', '/', 'x'];
    let d = seq!['/', '.', '.', '/', 'x'];
    assert(is_ascii_chars(raw)) by {
        assert forall|i| 0 <= i < raw.len() implies '\0' <= #[trigger] raw[i] <= '\u{7f}' by {
        }
    }
    assert(is_ascii_chars(d)) by {
        assert forall|i| 0 <= i < d.len() implies '\0' <= #[trigger] d[i] <= '\u{7f}' by {
        }
    }
    is_ascii_chars_encode_utf8(raw);
    is_ascii_chars_encode_utf8(d);
    let eb = encode_utf8(raw);
    let ed = encode_utf8(d);
    assert(eb =~= seq![47u8, 37u8, 50u8, 101u8, 37u8, 50u8, 101u8, 47u8, 120u8]) by {
        assert(raw[0] as u8 == 47u8);
    }
    assert(ed =~= seq![47u8, 46u8, 46u8, 47u8, 120u8]);
    let t1 = eb.drop_first();
    let t2 = t1.skip(3);
    let t3 = t2.skip(3);
    let t4 = t3.drop_first();
    assert(t1 =~= seq![37u8, 50u8, 101u8, 37u8, 50u8, 101u8, 47u8, 120u8]);
    assert(t2 =~= seq![37u8, 50u8, 101u8, 47u8, 120u8]);
    assert(t3 =~= seq![47u8, 120u8]);
    assert(t4 =~= seq![120u8]);
    assert(t4.drop_first() =~= Seq::<u8>::empty());
    assert(percent_decoded(t4.drop_first()) =~= Seq::<u8>::empty());
    assert(percent_decoded(t4) =~= seq![120u8]);
    assert(percent_decoded(t3) =~= seq![47u8, 120u8]);
    assert(percent_decoded(t2) =~= seq![46u8, 47u8, 120u8]);
    assert(percent_decoded(t1) =~= seq![46u8, 46u8, 47u8, 120u8]);
    assert(percent_decoded(eb) =~= ed);
    encode_utf8_valid_utf8(d);
    encode_utf8_decode_utf8(d);
    assert(url_decoded(raw) == d);
    let s1 = d.drop_first();
    let s2 = s1.drop_first();
    let s3 = s2.drop_first();
    let s4 = s3.drop_first();
    assert(s4 =~= seq!['x']);
    assert(s4.drop_first() =~= Seq::<char>::empty());
    assert(seq!['x'][0] != seq!['.'][0]);
    assert(keep(seq!['x']) == seq![seq!['x']]);
    assert(segs_from(s4.drop_first(), seq!['x']) == seq![seq!['x']]);
    assert(segs_from(s4, seq![]) == seq![seq!['x']]);
    assert(s3 =~= seq!['/', 'x']);
    assert(seq!['.', '.'].len() != seq!['.'].len());
    assert(keep(seq!['.', '.']) == seq![seq!['.', '.']]);
    assert(s3[0] == '/');
    assert(segs_from(s3, seq!['.', '.']) == keep(seq!['.', '.']) + segs_from(s4, seq![]));
    assert(segs_from(s3, seq!['.', '.']) =~= seq![seq!['.', '.'], seq!['x']]);
    assert(s2 =~= seq!['.', '/', 'x']);
    assert(seq!['.'].push('.') =~= seq!['.', '.']);
    assert(segs_from(s2, seq!['.']) =~= seq![seq!['.', '.'], seq!['x']]);
    assert(s1 =~= seq!['.', '.', '/', 'x']);
    assert(Seq::<char>::empty().push('.') =~= seq!['.']);
    assert(segs_from(s1, seq![]) =~= seq![seq!['.', '.'], seq!['x']]);
    assert(keep(Seq::<char>::empty()) =~= Seq::<Seq<char>>::empty());
    assert(segments(d) =~= seq![seq!['.', '.'], seq!['x']]);
    assert(segments(d)[0] == seq!['.', '.']);
}

/// A name that a request path can reach as it is written: no escape (a
/// `%` and two hex digits), and neither `.` nor `..`.
pub open spec fn plain_name(n: Seq<char>) -> bool {
    !has_escape(n) && n != seq!['.'] && n != seq!['.', '.']
}


/// The depth-first listing of the subtree of node `k`, which sits at
/// depth `d`: `k` itself, then the listing of each child in order.
pub open spec fn flat(v: VfsView, k: u64, d: nat) -> Seq<(nat, u64)>
    decreases u64::MAX - k, 1nat, 0nat,
{
    seq![(d, k)] + flat_kids(v, k, d, 0)
}

/// The listings of the children of `k` from the `i`-th on.
pub open spec fn flat_kids(v: VfsView, k: u64, d: nat, i: nat) -> Seq<(nat, u64)>
    decreases u64::MAX - k, 0nat, v.nodes[k].children.len() - i,
{
    if !v.nodes.contains_key(k) || i >= v.nodes[k].children.len() {
        seq![]
    } else {
        let c = v.nodes[k].children[i as int];
        (if c.0 > k {
            flat(v, c.0, d + 1)
        } else {
            seq![]
        }) + flat_kids(v, k, d, i + 1)
    }
}

// ---------------------------------------------------------------------
// Lemmas
// ---------------------------------------------------------------------

pub proof fn lemma_slash_prefix_push(ns: Seq<Seq<char>>, x: Seq<char>)
    ensures
        slash_prefix(ns.push(x)) == slash_prefix(ns) + seq!['/'] + x,
    decreases ns.len(),
{
    if ns.len() == 0 {
        assert(ns.push(x).drop_first() =~= seq![]);
        assert(slash_prefix(Seq::<Seq<char>>::empty()) =~= seq![]);
        assert(slash_prefix(ns.push(x)) =~= seq!['/'] + x);
    } else {
        assert(ns.push(x).drop_first() =~= ns.drop_first().push(x));
        lemma_slash_prefix_push(ns.drop_first(), x);
        assert(slash_prefix(ns.push(x)) =~= slash_prefix(ns) + seq!['/'] + x);
    }
}

/// Reading the characters of a segment without `/` only extends the
/// current segment.
proof fn lemma_segs_name(n: Seq<char>, rest: Seq<char>, cur: Seq<char>)
    requires
        !n.contains('/'),
    ensures
        segs_from(n + rest, cur) == segs_from(rest, cur + n),
    decreases n.len(),
{
    if n.len() == 0 {
        assert(n + rest =~= rest);
        assert(cur + n =~= cur);
    } else {
        assert((n + rest)[0] == n[0]);
        assert(n.contains(n[0]));
        assert((n + rest).drop_first() =~= n.drop_first() + rest);
        assert(!n.drop_first().contains('/')) by {
            if n.drop_first().contains('/') {
                let j = choose|j: int| 0 <= j < n.drop_first().len() && n.drop_first()[j] == '/';
                assert(n[j + 1] == '/');
            }
        }
        lemma_segs_name(n.drop_first(), rest, cur.push(n[0]));
        assert(cur.push(n[0]) + n.drop_first() =~= cur + n);
    }
}

proof fn lemma_segs_slash(t: Seq<char>, cur: Seq<char>)
    requires
        t.len() > 0,
        t[0] == '/',
    ensures
        segs_from(t, cur) == keep(cur) + segs_from(t, seq![]),
{
    assert(keep(seq![]) =~= seq![]);
    assert(keep(seq![]) + segs_from(t.drop_first(), seq![]) =~= segs_from(t.drop_first(), seq![]));
}

/// Splitting a node's URL path gives back the names it was made of.
pub proof fn lemma_segments_of_url(ns: Seq<Seq<char>>)
    requires
        forall|i: int|
            0 <= i < ns.len() ==> valid_name(#[trigger] ns[i]) && ns[i] != seq!['.'],
    ensures
        segs_from(slash_prefix(ns) + seq!['/'], seq![]) == ns,
    decreases ns.len(),
{
    if ns.len() == 0 {
        assert(slash_prefix(ns) + seq!['/'] =~= seq!['/']);
        assert(seq!['/'].drop_first() =~= Seq::<char>::empty());
        assert(keep(seq![]) =~= seq![]);
        assert(segs_from(Seq::<char>::empty(), seq![]) =~= seq![]);
        assert(segs_from(seq!['/'], seq![]) =~= ns);
    } else {
        let n = ns[0];
        let tail = ns.drop_first();
        let t = slash_prefix(tail) + seq!['/'];
        assert(forall|i: int| 0 <= i < tail.len() ==> #[trigger] tail[i] == ns[i + 1]);
        lemma_segments_of_url(tail);
        let whole = slash_prefix(ns) + seq!['/'];
        assert(whole =~= seq!['/'] + (n + t));
        assert(whole[0] == '/');
        assert(whole.drop_first() =~= n + t);
        assert(keep(seq![]) =~= seq![]);
        assert(segs_from(whole, seq![]) =~= segs_from(n + t, seq![]));
        assert(valid_name(ns[0]));
        lemma_segs_name(n, t, seq![]);
        assert(seq![] + n =~= n);
        if tail.len() == 0 {
            assert(t =~= seq!['/']);
        } else {
            assert(t[0] == '/');
        }
        lemma_segs_slash(t, n);
        assert(keep(n) =~= seq![n]);
        assert(seq![n] + tail =~= ns);
    }
}

proof fn lemma_find_named_unique(v: VfsView, cs: Seq<NodeId>, i: int, name: Seq<char>)
    requires
        0 <= i < cs.len(),
        v.nodes.contains_key(cs[i].0),
        v.nodes[cs[i].0].name == name,
        forall|j: int|
            0 <= j < cs.len() && j != i && v.nodes.contains_key(#[trigger] cs[j].0)
                ==> v.nodes[cs[j].0].name != name,
    ensures
        find_named(v, cs, name) == Some(cs[i]),
    decreases cs.len(),
{
    if i > 0 {
        let t = cs.drop_first();
        assert forall|j: int|
            0 <= j < t.len() && j != i - 1 && v.nodes.contains_key(#[trigger] t[j].0) implies v.nodes[t[j].0].name
            != name by {
            assert(t[j] == cs[j + 1]);
        }
        assert(v.nodes.contains_key(cs[0].0) ==> v.nodes[cs[0].0].name != name);
        lemma_find_named_unique(v, t, i - 1, name);
    }
}

proof fn lemma_walk_push(v: VfsView, cur: NodeId, a: Seq<Seq<char>>, x: Seq<char>, m: NodeId)
    requires
        walk(v, cur, a) == Resolution::Node(m),
    ensures
        walk(v, cur, a.push(x)) == walk(v, m, seq![x]),
    decreases a.len(),
{
    if a.len() == 0 {
        assert(a.push(x) =~= seq![x]);
    } else {
        let c = find_named(v, v.node(cur).children, a[0])->Some_0;
        assert(a.push(x)[0] == a[0]);
        assert(a.push(x).drop_first() =~= a.drop_first().push(x));
        lemma_walk_push(v, c, a.drop_first(), x, m);
    }
}

/// Following the names from the root down to node `k` leads to `k`.
pub proof fn lemma_walk_path(v: VfsView, k: u64)
    requires
        v.wf(),
        v.nodes.contains_key(k),
    ensures
        walk(v, v.root, path_names(v, k)) == Resolution::Node(NodeId(k)),
    decreases k,
{
    assert(v.node_ok(k));
    if k != v.root.0 {
        let p = v.nodes[k].parent->Some_0;
        lemma_walk_path(v, p.0);
        lemma_walk_push(v, v.root, path_names(v, p.0), v.nodes[k].name, p);
        let cs = v.nodes[p.0].children;
        assert(v.node_ok(p.0));
        let i = choose|i: int| 0 <= i < cs.len() && cs[i] == NodeId(k);
        assert(v.child_ok(p.0, i));
        assert forall|j: int|
            0 <= j < cs.len() && j != i && v.nodes.contains_key(#[trigger] cs[j].0) implies v.nodes[cs[j].0].name
            != v.nodes[k].name by {
            assert(v.siblings_distinct(p.0));
            assert(!eq_ignore_ascii_case(v.nodes[cs[i].0].name, v.nodes[cs[j].0].name));
        }
        lemma_find_named_unique(v, cs, i, v.nodes[k].name);
        let one = seq![v.nodes[k].name];
        assert(one[0] == v.nodes[k].name);
        assert(one.drop_first() =~= Seq::<Seq<char>>::empty());
        assert(walk(v, NodeId(k), one.drop_first()) == Resolution::Node(NodeId(k)));
    }
}

/// Every name on the way down to a node is a valid name.
pub proof fn lemma_path_names_valid(v: VfsView, k: u64)
    requires
        v.wf(),
    ensures
        forall|i: int|
            0 <= i < path_names(v, k).len() ==> valid_name(#[trigger] path_names(v, k)[i]),
    decreases k,
{
    if k != v.root.0 && v.nodes.contains_key(k) {
        assert(v.node_ok(k));
        let p = v.nodes[k].parent->Some_0;
        lemma_path_names_valid(v, p.0);
        let ns = path_names(v, k);
        assert(ns == path_names(v, p.0).push(v.nodes[k].name));
        assert forall|i: int| 0 <= i < ns.len() implies valid_name(#[trigger] ns[i]) by {
            if i < ns.len() - 1 {
                assert(ns[i] == path_names(v, p.0)[i]);
            }
        }
    }
}

/// Joining names without escapes by `/` makes none: an escape cannot
/// run across a `/`.
proof fn lemma_no_escape_in_url(ns: Seq<Seq<char>>)
    requires
        forall|i: int| 0 <= i < ns.len() ==> !has_escape(#[trigger] ns[i]),
    ensures
        !has_escape(slash_prefix(ns) + seq!['/']),
    decreases ns.len(),
{
    let w = slash_prefix(ns) + seq!['/'];
    if ns.len() == 0 {
        assert(w =~= seq!['/']);
        if has_escape(w) {
            let i = choose|i: int|
                0 <= i && i + 2 < w.len() && #[trigger] w[i] == '%' && crate::outside::is_hex_digit(w[i + 1])
                    && crate::outside::is_hex_digit(w[i + 2]);
        }
    } else {
        let n = ns[0];
        let tail = ns.drop_first();
        assert(forall|i: int| 0 <= i < tail.len() ==> #[trigger] tail[i] == ns[i + 1]);
        lemma_no_escape_in_url(tail);
        let t = slash_prefix(tail) + seq!['/'];
        assert(w =~= seq!['/'] + n + t);
        assert(t[0] == '/') by {
            if tail.len() > 0 {
                assert(t[0] == slash_prefix(tail)[0]);
            } else {
                assert(t =~= seq!['/']);
            }
        }
        assert(!has_escape(n));
        if has_escape(w) {
            let i = choose|i: int|
                0 <= i && i + 2 < w.len() && #[trigger] w[i] == '%' && crate::outside::is_hex_digit(w[i + 1])
                    && crate::outside::is_hex_digit(w[i + 2]);
            let nl = n.len() as int;
            if i == 0 {
            } else if i <= nl {
                if i + 2 <= nl {
                    assert(n[i - 1] == '%');
                    assert(n[i - 1] == w[i]);
                    assert(n[i] == w[i + 1]);
                    assert(n[i + 1] == w[i + 2]);
                } else if i + 1 == nl + 1 {
                    assert(w[i + 1] == t[0]);
                } else {
                    assert(w[i + 2] == t[0]);
                }
            } else {
                let j = i - 1 - nl;
                assert(w[i] == t[j]);
                assert(w[i + 1] == t[j + 1]);
                assert(w[i + 2] == t[j + 2]);
                assert(t[j] == '%');
            }
        }
    }
}

/// The URL path of a node whose names are all plain resolves back to that
/// node: it holds no escape (so decoding keeps it as it is), and following
/// its segments down from the root reaches the node.
pub proof fn lemma_url_resolves(v: VfsView, id: NodeId)
    requires
        v.wf(),
        v.has(id),
        forall|i: int|
            0 <= i < path_names(v, id.0).len() ==> plain_name(#[trigger] path_names(v, id.0)[i]),
    ensures
        !has_escape(url_of(path_names(v, id.0))),
        resolve_decoded(v, url_of(path_names(v, id.0))) == Resolution::Node(id),
{
    let ns = path_names(v, id.0);
    lemma_path_names_valid(v, id.0);
    lemma_walk_path(v, id.0);
    lemma_no_escape_in_url(ns);
    let u = url_of(ns);
    if ns.len() == 0 {
        assert(u =~= seq!['/']);
        assert(seq!['/'].drop_first() =~= Seq::<char>::empty());
        assert(keep(seq![]) =~= seq![]);
        assert(segs_from(Seq::<char>::empty(), seq![]) =~= seq![]);
        assert(segments(u) =~= ns);
        if has_escape(u) {
            let i = choose|i: int|
                0 <= i && i + 2 < u.len() && #[trigger] u[i] == '%' && crate::outside::is_hex_digit(u[i + 1])
                    && crate::outside::is_hex_digit(u[i + 2]);
        }
    } else {
        lemma_segments_of_url(ns);
    }
    assert(segments(u) == ns);
    if ns.contains(seq!['.', '.']) {
        let j = choose|j: int| 0 <= j < ns.len() && ns[j] == seq!['.', '.'];
        assert(plain_name(ns[j]));
    }
}

proof fn lemma_path_names_frame(v: VfsView, w: VfsView, k: u64)
    requires
        v.wf(),
        v.nodes.contains_key(k),
        w.root == v.root,
        forall|m: u64|
            #![trigger v.nodes.contains_key(m)]
            v.nodes.contains_key(m) ==> w.nodes.contains_key(m) && w.nodes[m].name == v.nodes[m].name
                && w.nodes[m].parent == v.nodes[m].parent,
    ensures
        path_names(w, k) == path_names(v, k),
    decreases k,
{
    assert(v.node_ok(k));
    if k != v.root.0 {
        let p = v.nodes[k].parent->Some_0;
        lemma_path_names_frame(v, w, p.0);
    }
}

/// A node just added under `parent` is reached by the names that reach
/// `parent`, followed by its own name.
pub proof fn lemma_add_path(
    v: VfsView,
    parent: NodeId,
    name: Seq<char>,
    kind: NodeKind,
    resource: Option<Seq<char>>,
)
    requires
        v.wf(),
        v.next_id < u64::MAX,
        v.has(parent),
        is_folder_kind(v.node(parent).kind),
        valid_name(name),
        !name_taken(v, parent, name),
        kind != NodeKind::Root,
    ensures
        path_names(add_spec(v, parent, name, kind, resource), v.next_id) == path_names(
            v,
            parent.0,
        ).push(name),
{
    let a = add_spec(v, parent, name, kind, resource);
    let id = v.next_id;
    assert(v.node_ok(parent.0));
    assert(id != v.root.0) by {
        assert(v.node_ok(v.root.0));
    }
    assert forall|m: u64| #![trigger v.nodes.contains_key(m)] v.nodes.contains_key(m) implies a.nodes.contains_key(m)
        && a.nodes[m].name == v.nodes[m].name && a.nodes[m].parent == v.nodes[m].parent by {
        assert(v.node_ok(m));
    }
    lemma_path_names_frame(v, a, parent.0);
}

/// Node `k` has a line in the listing `s`.
pub open spec fn lists(s: Seq<(nat, u64)>, k: u64) -> bool {
    exists|i: int| 0 <= i < s.len() && (#[trigger] s[i]).1 == k
}

/// Every node of a well-formed tree lies in the subtree of the root.
pub proof fn lemma_descends_root(v: VfsView, k: u64)
    requires
        v.wf(),
        v.nodes.contains_key(k),
    ensures
        descends(v, k, v.root.0),
    decreases k,
{
    assert(v.node_ok(k));
    if k != v.root.0 {
        let p = v.nodes[k].parent->Some_0;
        lemma_descends_root(v, p.0);
    }
}

proof fn lemma_kids_contain(v: VfsView, a: u64, d: nat, i: nat, j: int, k: u64)
    requires
        v.nodes.contains_key(a),
        i <= j < v.nodes[a].children.len(),
        v.nodes[a].children[j].0 > a,
        lists(flat(v, v.nodes[a].children[j].0, d + 1), k),
    ensures
        lists(flat_kids(v, a, d, i), k),
    decreases j - i,
{
    let cs = v.nodes[a].children;
    let head = if cs[i as int].0 > a {
        flat(v, cs[i as int].0, d + 1)
    } else {
        seq![]
    };
    let rest = flat_kids(v, a, d, i + 1);
    assert(flat_kids(v, a, d, i) == head + rest);
    if i == j {
        let t = choose|t: int| 0 <= t < head.len() && (#[trigger] head[t]).1 == k;
        assert((head + rest)[t] == head[t]);
    } else {
        lemma_kids_contain(v, a, d, i + 1, j, k);
        let t = choose|t: int| 0 <= t < rest.len() && (#[trigger] rest[t]).1 == k;
        assert((head + rest)[head.len() + t] == rest[t]);
    }
}

/// The listing of the subtree of `a` has a line for every node in that
/// subtree.
pub proof fn lemma_flat_covers(v: VfsView, a: u64, d: nat, k: u64)
    requires
        v.wf(),
        v.nodes.contains_key(a),
        v.nodes.contains_key(k),
        descends(v, k, a),
    ensures
        lists(flat(v, a, d), k),
    decreases k - a,
{
    lemma_descends_le(v, k, a);
    let f = flat(v, a, d);
    if k == a {
        assert(f[0] == (d, a));
    } else {
        lemma_descends_child(v, NodeId(a), k);
        let cs = v.nodes[a].children;
        let j = choose|j: int| 0 <= j < cs.len() && descends(v, k, #[trigger] cs[j].0);
        assert(v.node_ok(a));
        assert(v.child_ok(a, j));
        let c = cs[j].0;
        assert(v.node_ok(c));
        assert(c != v.root.0);
        lemma_descends_le(v, k, c);
        lemma_flat_covers(v, c, d + 1, k);
        lemma_kids_contain(v, a, d, 0, j, k);
        let rest = flat_kids(v, a, d, 0);
        let t = choose|t: int| 0 <= t < rest.len() && (#[trigger] rest[t]).1 == k;
        assert(f == seq![(d, a)] + rest);
        assert(f[t + 1] == rest[t]);
    }
}

/// Every line of the listing of the subtree of `a` is a node of that
/// subtree.
pub proof fn lemma_flat_sound(v: VfsView, a: u64, d: nat)
    requires
        v.wf(),
        v.nodes.contains_key(a),
    ensures
        forall|t: int|
            0 <= t < flat(v, a, d).len() ==> v.nodes.contains_key(#[trigger] flat(v, a, d)[t].1)
                && descends(v, flat(v, a, d)[t].1, a),
    decreases u64::MAX - a, 1nat, 0nat,
{
    lemma_kids_sound(v, a, d, 0);
    let f = flat(v, a, d);
    let rest = flat_kids(v, a, d, 0);
    assert(f == seq![(d, a)] + rest);
    assert forall|t: int| 0 <= t < f.len() implies v.nodes.contains_key(#[trigger] f[t].1) && descends(
        v,
        f[t].1,
        a,
    ) by {
        if t > 0 {
            assert(f[t] == rest[t - 1]);
        }
    }
}

/// Every line of the listings of the children of `a` from the `i`-th on
/// is a node in the subtree of one of those children.
pub proof fn lemma_kids_sound(v: VfsView, a: u64, d: nat, i: nat)
    requires
        v.wf(),
        v.nodes.contains_key(a),
    ensures
        forall|t: int|
            0 <= t < flat_kids(v, a, d, i).len() ==> v.nodes.contains_key(
                #[trigger] flat_kids(v, a, d, i)[t].1,
            ) && descends(v, flat_kids(v, a, d, i)[t].1, a) && flat_kids(v, a, d, i)[t].1 != a
                && exists|j: int|
                i <= j < v.nodes[a].children.len() && descends(
                    v,
                    flat_kids(v, a, d, i)[t].1,
                    #[trigger] v.nodes[a].children[j].0,
                ),
    decreases u64::MAX - a, 0nat, v.nodes[a].children.len() - i,
{
    let cs = v.nodes[a].children;
    if i < cs.len() {
        let c = cs[i as int].0;
        let kids = flat_kids(v, a, d, i);
        let rest = flat_kids(v, a, d, i + 1);
        lemma_kids_sound(v, a, d, i + 1);
        assert(v.node_ok(a));
        assert(v.child_ok(a, i as int));
        assert(v.node_ok(c));
        assert(c != v.root.0);
        assert(c > a);
        lemma_flat_sound(v, c, d + 1);
        let head = flat(v, c, d + 1);
        assert(kids == head + rest);
        assert(descends(v, a, a));
        assert(descends(v, c, a));
        assert forall|t: int| 0 <= t < kids.len() implies v.nodes.contains_key(#[trigger] kids[t].1)
            && descends(v, kids[t].1, a) && kids[t].1 != a && exists|j: int|
            i <= j < cs.len() && descends(v, kids[t].1, #[trigger] cs[j].0) by {
            if t < head.len() {
                assert(kids[t] == head[t]);
                lemma_descends_trans(v, kids[t].1, c, a);
                lemma_descends_le(v, kids[t].1, c);
                assert(descends(v, kids[t].1, cs[i as int].0));
            } else {
                assert(kids[t] == rest[t - head.len()]);
                let j = choose|j: int|
                    i + 1 <= j < cs.len() && descends(v, rest[t - head.len()].1, #[trigger] cs[j].0);
                assert(i <= j < cs.len() && descends(v, kids[t].1, cs[j].0));
            }
        }
    }
}

/// No node has two lines in the listing of the subtree of `a`.
pub proof fn lemma_flat_distinct(v: VfsView, a: u64, d: nat)
    requires
        v.wf(),
        v.nodes.contains_key(a),
    ensures
        forall|x: int, y: int|
            0 <= x < y < flat(v, a, d).len() ==> (#[trigger] flat(v, a, d)[x]).1 != (
            #[trigger] flat(v, a, d)[y]).1,
    decreases u64::MAX - a, 1nat, 0nat,
{
    lemma_kids_distinct(v, a, d, 0);
    lemma_kids_sound(v, a, d, 0);
    let f = flat(v, a, d);
    let rest = flat_kids(v, a, d, 0);
    assert(f == seq![(d, a)] + rest);
    assert forall|x: int, y: int| 0 <= x < y < f.len() implies (#[trigger] f[x]).1 != (
    #[trigger] f[y]).1 by {
        assert(f[y] == rest[y - 1]);
        if x > 0 {
            assert(f[x] == rest[x - 1]);
        }
    }
}

/// No node has two lines in the listings of the children of `a` from the
/// `i`-th on.
pub proof fn lemma_kids_distinct(v: VfsView, a: u64, d: nat, i: nat)
    requires
        v.wf(),
        v.nodes.contains_key(a),
    ensures
        forall|x: int, y: int|
            0 <= x < y < flat_kids(v, a, d, i).len() ==> (#[trigger] flat_kids(v, a, d, i)[x]).1
                != (#[trigger] flat_kids(v, a, d, i)[y]).1,
    decreases u64::MAX - a, 0nat, v.nodes[a].children.len() - i,
{
    let cs = v.nodes[a].children;
    if i < cs.len() {
        let c = cs[i as int].0;
        let kids = flat_kids(v, a, d, i);
        let rest = flat_kids(v, a, d, i + 1);
        assert(v.node_ok(a));
        assert(v.child_ok(a, i as int));
        assert(v.node_ok(c));
        assert(c != v.root.0);
        lemma_kids_distinct(v, a, d, i + 1);
        lemma_kids_sound(v, a, d, i + 1);
        lemma_flat_distinct(v, c, d + 1);
        lemma_flat_sound(v, c, d + 1);
        let head = flat(v, c, d + 1);
        assert(kids == head + rest);
        assert forall|x: int, y: int| 0 <= x < y < kids.len() implies (#[trigger] kids[x]).1 != (
        #[trigger] kids[y]).1 by {
            if y < head.len() {
                assert(kids[x] == head[x] && kids[y] == head[y]);
            } else if x >= head.len() {
                assert(kids[x] == rest[x - head.len()] && kids[y] == rest[y - head.len()]);
            } else {
                assert(kids[x] == head[x] && kids[y] == rest[y - head.len()]);
                let id = kids[x].1;
                if id == kids[y].1 {
                    let j = choose|j: int|
                        i + 1 <= j < cs.len() && descends(v, rest[y - head.len()].1, #[trigger] cs[j].0);
                    lemma_siblings_apart(v, NodeId(a), i as int, j, id);
                }
            }
        }
    }
}

/// The depth-first listing of a well-formed tree has one line for each of
/// its nodes and no other lines.
pub proof fn lemma_flat_tree_lists_each_node_once(v: VfsView)
    requires
        v.wf(),
    ensures
        forall|k: u64| v.nodes.contains_key(k) <==> #[trigger] lists(flat(v, v.root.0, 0), k),
        forall|x: int, y: int|
            0 <= x < y < flat(v, v.root.0, 0).len() ==> (#[trigger] flat(v, v.root.0, 0)[x]).1 != (
            #[trigger] flat(v, v.root.0, 0)[y]).1,
{
    let r = v.root.0;
    lemma_flat_sound(v, r, 0);
    lemma_flat_distinct(v, r, 0);
    assert forall|k: u64| v.nodes.contains_key(k) <==> #[trigger] lists(flat(v, r, 0), k) by {
        if v.nodes.contains_key(k) {
            lemma_descends_root(v, k);
            lemma_flat_covers(v, r, 0, k);
        }
        if lists(flat(v, r, 0), k) {
            let t = choose|t: int| 0 <= t < flat(v, r, 0).len() && (#[trigger] flat(v, r, 0)[t]).1 == k;
            assert(v.nodes.contains_key(flat(v, r, 0)[t].1));
        }
    }
}

} // verus!
