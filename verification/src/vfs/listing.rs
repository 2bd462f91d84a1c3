//! Directory listings: which entries a folder shows, and in which order.

use vstd::prelude::*;

use super::paths::Resolution;
use super::spec::{is_folder_kind, VfsView};
use super::{copy_opt_string, entries_view, DirEntry, DirEntryView, NodeKind, ResolveResult, Vfs};
use crate::outside::{lowercased, to_lowercase};
use crate::text::{chars_eq, chars_of};

verus! {

/// `a` comes before `b` in code-point order.
pub open spec fn chars_lt(a: Seq<char>, b: Seq<char>) -> bool
    decreases a.len(),
{
    if a.len() == 0 {
        b.len() > 0
    } else if b.len() == 0 {
        false
    } else if a[0] != b[0] {
        a[0] < b[0]
    } else {
        chars_lt(a.drop_first(), b.drop_first())
    }
}

/// `a` is listed before `b`: directories first, then by lower-cased name.
pub open spec fn listed_before(a: DirEntryView, b: DirEntryView) -> bool {
    (a.is_dir && !b.is_dir) || (a.is_dir == b.is_dir && chars_lt(
        lowercased(a.name),
        lowercased(b.name),
    ))
}

/// `s` with `e` put after every entry not listed after it.
pub open spec fn insert_listed(s: Seq<DirEntryView>, e: DirEntryView) -> Seq<DirEntryView>
    decreases s.len(),
{
    if s.len() == 0 {
        seq![e]
    } else if listed_before(e, s.last()) {
        insert_listed(s.drop_last(), e).push(s.last())
    } else {
        s.push(e)
    }
}

/// `es` in listing order; entries that tie keep their order (a stable
/// sort).
pub open spec fn sort_listing(es: Seq<DirEntryView>) -> Seq<DirEntryView>
    decreases es.len(),
{
    if es.len() == 0 {
        seq![]
    } else {
        insert_listed(sort_listing(es.drop_last()), es.last())
    }
}

/// The size and modification time the file system reports for the
/// resource of the `i`-th child, if any.
pub open spec fn meta_at(metas: Seq<(Option<u64>, Option<Seq<char>>)>, i: int) -> (
    Option<u64>,
    Option<Seq<char>>,
) {
    if 0 <= i < metas.len() {
        metas[i]
    } else {
        (None, None)
    }
}

/// The entries for the visible children among the first `n` children
/// `cs`, with their sizes, and their times where `with_mtime`.
pub open spec fn explicit_entries(
    v: VfsView,
    cs: Seq<super::NodeId>,
    metas: Seq<(Option<u64>, Option<Seq<char>>)>,
    with_mtime: bool,
    n: int,
) -> Seq<DirEntryView>
    decreases n,
{
    if n <= 0 {
        seq![]
    } else {
        let before = explicit_entries(v, cs, metas, with_mtime, n - 1);
        let c = cs[n - 1];
        if v.nodes.contains_key(c.0) && !v.nodes[c.0].hidden {
            let m = meta_at(metas, n - 1);
            before.push(
                DirEntryView {
                    name: v.nodes[c.0].name,
                    is_dir: is_folder_kind(v.nodes[c.0].kind),
                    size: m.0,
                    mtime: if with_mtime {
                        m.1
                    } else {
                        None
                    },
                },
            )
        } else {
            before
        }
    }
}

/// Some entry of `es` is named `name`.
pub open spec fn has_name(es: Seq<DirEntryView>, name: Seq<char>) -> bool {
    exists|k: int| 0 <= k < es.len() && (#[trigger] es[k]).name == name
}

/// A disk entry is listed unless its name starts with `.`.
pub open spec fn visible_on_disk(e: DirEntryView) -> bool {
    !(e.name.len() > 0 && e.name[0] == '.')
}

/// `listed` followed by the visible disk entries whose names are not
/// listed yet.
pub open spec fn merge_disk(listed: Seq<DirEntryView>, disk: Seq<DirEntryView>) -> Seq<
    DirEntryView,
>
    decreases disk.len(),
{
    if disk.len() == 0 {
        listed
    } else {
        let m = merge_disk(listed, disk.drop_last());
        let d = disk.last();
        if !visible_on_disk(d) || has_name(m, d.name) {
            m
        } else {
            m.push(d)
        }
    }
}

/// The visible disk entries.
pub open spec fn visible_disk(disk: Seq<DirEntryView>) -> Seq<DirEntryView>
    decreases disk.len(),
{
    if disk.len() == 0 {
        seq![]
    } else if visible_on_disk(disk.last()) {
        visible_disk(disk.drop_last()).push(disk.last())
    } else {
        visible_disk(disk.drop_last())
    }
}

/// The listing of a resolved path. A root or virtual folder shows its
/// visible children as they are ordered; a real folder shows its visible
/// children, then the disk entries not hidden by a leading `.` nor named
/// like an entry before them, all sorted; a directory on disk shows its
/// visible entries, sorted. Anything else shows nothing. `metas` holds
/// what the file system reports for each child's resource, `disk` the
/// entries of the directory on disk.
pub open spec fn listing_spec(
    v: VfsView,
    res: Resolution,
    metas: Seq<(Option<u64>, Option<Seq<char>>)>,
    disk: Seq<DirEntryView>,
) -> Seq<DirEntryView> {
    match res {
        Resolution::Node(id) => if !v.has(id) {
            seq![]
        } else {
            let n = v.node(id);
            if n.kind == NodeKind::Root || n.kind == NodeKind::VirtualFolder {
                explicit_entries(v, n.children, metas, true, n.children.len() as int)
            } else if n.kind == NodeKind::RealFolder {
                sort_listing(
                    merge_disk(
                        explicit_entries(v, n.children, metas, false, n.children.len() as int),
                        disk,
                    ),
                )
            } else {
                seq![]
            }
        },
        Resolution::DiskDir { .. } => sort_listing(visible_disk(disk)),
        _ => seq![],
    }
}

pub open spec fn metas_view(m: Seq<(Option<u64>, Option<String>)>) -> Seq<
    (Option<u64>, Option<Seq<char>>),
> {
    m.map_values(|x: (Option<u64>, Option<String>)| (x.0, super::spec::opt_view(x.1)))
}

// ---------------------------------------------------------------------
// Exec
// ---------------------------------------------------------------------

fn copy_entry(e: &DirEntry) -> (r: DirEntry)
    ensures
        r@ == e@,
{
    DirEntry {
        name: e.name.clone(),
        is_dir: e.is_dir,
        size: e.size,
        mtime: copy_opt_string(&e.mtime),
    }
}

fn chars_lt_exec(a: &Vec<char>, b: &Vec<char>) -> (r: bool)
    ensures
        r == chars_lt(a@, b@),
{
    let mut i: usize = 0;
    assert(a@.skip(0) =~= a@);
    assert(b@.skip(0) =~= b@);
    while i < a.len() && i < b.len() && a[i] == b[i]
        invariant
            i <= a.len(),
            i <= b.len(),
            chars_lt(a@, b@) == chars_lt(a@.skip(i as int), b@.skip(i as int)),
        decreases a.len() - i,
    {
        assert(a@.skip(i as int).drop_first() =~= a@.skip(i + 1));
        assert(b@.skip(i as int).drop_first() =~= b@.skip(i + 1));
        i += 1;
    }
    if i == a.len() {
        i < b.len()
    } else if i == b.len() {
        false
    } else {
        assert(a@.skip(i as int)[0] == a@[i as int]);
        assert(b@.skip(i as int)[0] == b@[i as int]);
        a[i] < b[i]
    }
}

/// An entry with its lower-cased name, the key it is sorted by.
struct Keyed {
    entry: DirEntry,
    key: Vec<char>,
}

spec fn keyed_ok(k: Keyed) -> bool {
    k.key@ == lowercased(k.entry.name@)
}

spec fn keyed_view(v: Seq<Keyed>) -> Seq<DirEntryView> {
    v.map_values(|k: Keyed| k.entry@)
}

fn keyed(e: DirEntry) -> (r: Keyed)
    ensures
        keyed_ok(r),
        r.entry@ == e@,
{
    let low = to_lowercase(e.name.as_str());
    let key = chars_of(low.as_str());
    Keyed { entry: e, key }
}

fn before_exec(a: &Keyed, b: &Keyed) -> (r: bool)
    requires
        keyed_ok(*a),
        keyed_ok(*b),
    ensures
        r == listed_before(a.entry@, b.entry@),
{
    (a.entry.is_dir && !b.entry.is_dir) || (a.entry.is_dir == b.entry.is_dir && chars_lt_exec(
        &a.key,
        &b.key,
    ))
}

proof fn lemma_insert_at(s: Seq<DirEntryView>, e: DirEntryView, j: int)
    requires
        0 <= j <= s.len(),
        forall|k: int| j <= k < s.len() ==> listed_before(e, #[trigger] s[k]),
        j > 0 ==> !listed_before(e, s[j - 1]),
    ensures
        insert_listed(s, e) == s.insert(j, e),
    decreases s.len(),
{
    if s.len() == 0 {
        assert(s.insert(j, e) =~= seq![e]);
    } else if j == s.len() {
        assert(s.insert(j, e) =~= s.push(e));
    } else {
        assert(listed_before(e, s[s.len() - 1]));
        let t = s.drop_last();
        assert forall|k: int| j <= k < t.len() implies listed_before(e, #[trigger] t[k]) by {
            assert(t[k] == s[k]);
        }
        if j > 0 {
            assert(t[j - 1] == s[j - 1]);
        }
        lemma_insert_at(t, e, j);
        assert(t.insert(j, e).push(s.last()) =~= s.insert(j, e));
    }
}

/// Puts `e` into the listing-ordered `v`, after every entry not listed
/// after it.
fn insert_keyed(v: &mut Vec<Keyed>, e: Keyed)
    requires
        keyed_ok(e),
        forall|i: int| 0 <= i < old(v)@.len() ==> keyed_ok(#[trigger] old(v)@[i]),
    ensures
        forall|i: int| 0 <= i < final(v)@.len() ==> keyed_ok(#[trigger] final(v)@[i]),
        keyed_view(final(v)@) == insert_listed(keyed_view(old(v)@), e.entry@),
{
    let ghost s = keyed_view(v@);
    let mut j = v.len();
    while j > 0 && before_exec(&e, &v[j - 1])
        invariant
            j <= v.len(),
            keyed_ok(e),
            forall|i: int| 0 <= i < v@.len() ==> keyed_ok(#[trigger] v@[i]),
            s == keyed_view(v@),
            forall|k: int| j <= k < s.len() ==> listed_before(e.entry@, #[trigger] s[k]),
        decreases j,
    {
        assert(s[j - 1] == v@[j - 1].entry@);
        j -= 1;
    }
    proof {
        if j > 0 {
            assert(s[j - 1] == v@[j - 1].entry@);
        }
        lemma_insert_at(s, e.entry@, j as int);
    }
    let ghost ee = e.entry@;
    v.insert(j, e);
    assert(keyed_view(v@) =~= s.insert(j as int, ee));
}

/// `es` in listing order.
fn sort_entries(es: Vec<DirEntry>) -> (r: Vec<DirEntry>)
    ensures
        entries_view(r@) == sort_listing(entries_view(es@)),
{
    let mut sorted: Vec<Keyed> = Vec::new();
    let mut i: usize = 0;
    let ghost ev = entries_view(es@);
    while i < es.len()
        invariant
            i <= es.len(),
            ev == entries_view(es@),
            forall|t: int| 0 <= t < sorted@.len() ==> keyed_ok(#[trigger] sorted@[t]),
            keyed_view(sorted@) == sort_listing(ev.take(i as int)),
        decreases es.len() - i,
    {
        let k = keyed(copy_entry(&es[i]));
        insert_keyed(&mut sorted, k);
        assert(ev.take(i + 1).drop_last() =~= ev.take(i as int));
        assert(ev.take(i + 1).last() == es@[i as int]@);
        i += 1;
    }
    assert(ev.take(es.len() as int) =~= ev);
    let mut out: Vec<DirEntry> = Vec::new();
    let mut t: usize = 0;
    while t < sorted.len()
        invariant
            t <= sorted.len(),
            entries_view(out@) == keyed_view(sorted@).take(t as int),
        decreases sorted.len() - t,
    {
        assert(keyed_view(sorted@)[t as int] == sorted@[t as int].entry@);
        let ghost before = entries_view(out@);
        let c = copy_entry(&sorted[t].entry);
        out.push(c);
        assert(entries_view(out@) =~= before.push(c@));
        assert(keyed_view(sorted@).take(t + 1) =~= keyed_view(sorted@).take(t as int).push(c@));
        t += 1;
    }
    assert(keyed_view(sorted@).take(t as int) =~= keyed_view(sorted@));
    out
}

fn has_name_exec(es: &Vec<DirEntry>, name: &Vec<char>) -> (r: bool)
    ensures
        r == has_name(entries_view(es@), name@),
{
    let mut k: usize = 0;
    while k < es.len()
        invariant
            k <= es.len(),
            forall|t: int| 0 <= t < k ==> (#[trigger] entries_view(es@)[t]).name != name@,
        decreases es.len() - k,
    {
        let n = chars_of(es[k].name.as_str());
        if chars_eq(&n, name) {
            assert(entries_view(es@)[k as int].name == name@);
            return true;
        }
        k += 1;
    }
    false
}

fn visible_exec(e: &DirEntry) -> (r: bool)
    ensures
        r == visible_on_disk(e@),
{
    let n = chars_of(e.name.as_str());
    !(n.len() > 0 && n[0] == '.')
}

impl Vfs {
    fn explicit_list(
        &self,
        children: &Vec<super::NodeId>,
        metas: &Vec<(Option<u64>, Option<String>)>,
        with_mtime: bool,
    ) -> (r: Vec<DirEntry>)
        ensures
            entries_view(r@) == explicit_entries(
                self@,
                children@,
                metas_view(metas@),
                with_mtime,
                children@.len() as int,
            ),
    {
        let mut out: Vec<DirEntry> = Vec::new();
        let mut i: usize = 0;
        while i < children.len()
            invariant
                i <= children.len(),
                entries_view(out@) == explicit_entries(
                    self@,
                    children@,
                    metas_view(metas@),
                    with_mtime,
                    i as int,
                ),
            decreases children.len() - i,
        {
            let c = children[i];
            let ghost before = entries_view(out@);
            match self.get(c) {
                Some(n) => {
                    if !n.hidden {
                        let (size, mtime) = if i < metas.len() {
                            let m = &metas[i];
                            (m.0, copy_opt_string(&m.1))
                        } else {
                            (None, None)
                        };
                        assert(i < metas.len() ==> metas_view(metas@)[i as int] == (
                            metas@[i as int].0,
                            super::spec::opt_view(metas@[i as int].1),
                        ));
                        let e = DirEntry {
                            name: n.name.clone(),
                            is_dir: n.is_folder(),
                            size,
                            mtime: if with_mtime {
                                mtime
                            } else {
                                None
                            },
                        };
                        out.push(e);
                        assert(entries_view(out@) =~= before.push(e@));
                    }
                },
                None => {},
            }
            i += 1;
        }
        out
    }

    /// The entries shown for a resolved path (see `listing_spec`): `metas`
    /// holds the size and time of each child's resource, in the order of
    /// the children, and `disk` the entries of the directory on disk, as
    /// the file system reports them.
    pub fn list_dir(
        &self,
        resolved: &ResolveResult,
        metas: &Vec<(Option<u64>, Option<String>)>,
        disk: &Vec<DirEntry>,
    ) -> (r: Vec<DirEntry>)
        ensures
            entries_view(r@) == listing_spec(
                self@,
                resolved@,
                metas_view(metas@),
                entries_view(disk@),
            ),
    {
        match resolved {
            ResolveResult::Node(id) => {
                let node = match self.get(*id) {
                    Some(n) => n,
                    None => return Vec::new(),
                };
                if node.kind == NodeKind::Root || node.kind == NodeKind::VirtualFolder {
                    self.explicit_list(&node.children, metas, true)
                } else if node.kind == NodeKind::RealFolder {
                    let mut entries = self.explicit_list(&node.children, metas, false);
                    let ghost listed = entries_view(entries@);
                    let ghost dv = entries_view(disk@);
                    let mut i: usize = 0;
                    while i < disk.len()
                        invariant
                            i <= disk.len(),
                            dv == entries_view(disk@),
                            entries_view(entries@) == merge_disk(listed, dv.take(i as int)),
                        decreases disk.len() - i,
                    {
                        assert(dv.take(i + 1).drop_last() =~= dv.take(i as int));
                        assert(dv.take(i + 1).last() == disk@[i as int]@);
                        let d = &disk[i];
                        let dn = chars_of(d.name.as_str());
                        if visible_exec(d) && !has_name_exec(&entries, &dn) {
                            let ghost before = entries_view(entries@);
                            let c = copy_entry(d);
                            entries.push(c);
                            assert(entries_view(entries@) =~= before.push(c@));
                        }
                        i += 1;
                    }
                    assert(dv.take(disk.len() as int) =~= dv);
                    sort_entries(entries)
                } else {
                    Vec::new()
                }
            },
            ResolveResult::DiskDir { .. } => {
                let mut entries: Vec<DirEntry> = Vec::new();
                let ghost dv = entries_view(disk@);
                let mut i: usize = 0;
                while i < disk.len()
                    invariant
                        i <= disk.len(),
                        dv == entries_view(disk@),
                        entries_view(entries@) == visible_disk(dv.take(i as int)),
                    decreases disk.len() - i,
                {
                    assert(dv.take(i + 1).drop_last() =~= dv.take(i as int));
                    assert(dv.take(i + 1).last() == disk@[i as int]@);
                    if visible_exec(&disk[i]) {
                        let ghost before = entries_view(entries@);
                        let c = copy_entry(&disk[i]);
                        entries.push(c);
                        assert(entries_view(entries@) =~= before.push(c@));
                    }
                    i += 1;
                }
                assert(dv.take(disk.len() as int) =~= dv);
                sort_entries(entries)
            },
            _ => Vec::new(),
        }
    }
}

// ---------------------------------------------------------------------
// The listing order
// ---------------------------------------------------------------------

proof fn lemma_chars_lt_irreflexive(a: Seq<char>)
    ensures
        !chars_lt(a, a),
    decreases a.len(),
{
    if a.len() > 0 {
        lemma_chars_lt_irreflexive(a.drop_first());
    }
}

proof fn lemma_chars_lt_trans(a: Seq<char>, b: Seq<char>, c: Seq<char>)
    requires
        chars_lt(a, b),
        chars_lt(b, c),
    ensures
        chars_lt(a, c),
    decreases a.len(),
{
    if a.len() > 0 && b.len() > 0 && c.len() > 0 && a[0] == b[0] && b[0] == c[0] {
        lemma_chars_lt_trans(a.drop_first(), b.drop_first(), c.drop_first());
    }
}

proof fn lemma_chars_lt_total(a: Seq<char>, b: Seq<char>)
    requires
        a != b,
    ensures
        chars_lt(a, b) || chars_lt(b, a),
    decreases a.len(),
{
    if a.len() > 0 && b.len() > 0 && a[0] == b[0] {
        if a.drop_first() == b.drop_first() {
            assert(a =~= seq![a[0]] + a.drop_first());
            assert(b =~= seq![b[0]] + b.drop_first());
        }
        lemma_chars_lt_total(a.drop_first(), b.drop_first());
    } else if a.len() == 0 && b.len() == 0 {
        assert(a =~= b);
    }
}

/// `a` may stand before `b`: `b` is not listed before `a`.
pub open spec fn listed_le(a: DirEntryView, b: DirEntryView) -> bool {
    !listed_before(b, a)
}

/// No entry is followed by one listed before it.
pub open spec fn in_listing_order(s: Seq<DirEntryView>) -> bool {
    forall|i: int, j: int| 0 <= i < j < s.len() ==> listed_le(#[trigger] s[i], #[trigger] s[j])
}

proof fn lemma_before_asym(a: DirEntryView, b: DirEntryView)
    ensures
        listed_before(a, b) ==> !listed_before(b, a),
{
    if listed_before(a, b) && listed_before(b, a) {
        lemma_chars_lt_trans(lowercased(a.name), lowercased(b.name), lowercased(a.name));
        lemma_chars_lt_irreflexive(lowercased(a.name));
    }
}

proof fn lemma_le_trans(a: DirEntryView, b: DirEntryView, c: DirEntryView)
    requires
        listed_le(a, b),
        listed_le(b, c),
    ensures
        listed_le(a, c),
{
    if listed_before(c, a) {
        let la = lowercased(a.name);
        let lb = lowercased(b.name);
        let lc = lowercased(c.name);
        if c.is_dir == a.is_dir && a.is_dir == b.is_dir {
            assert(chars_lt(lc, la));
            if lb == la {
            } else {
                lemma_chars_lt_total(la, lb);
                if chars_lt(la, lb) {
                    lemma_chars_lt_trans(lc, la, lb);
                }
            }
        }
    }
}

proof fn lemma_insert_listed(s: Seq<DirEntryView>, e: DirEntryView)
    requires
        in_listing_order(s),
    ensures
        in_listing_order(insert_listed(s, e)),
        insert_listed(s, e).to_multiset() == s.to_multiset().insert(e),
    decreases s.len(),
{
    broadcast use vstd::seq_lib::group_to_multiset_ensures;

    if s.len() == 0 {
        assert(seq![e] =~= Seq::<DirEntryView>::empty().push(e));
    } else if listed_before(e, s.last()) {
        let t = s.drop_last();
        let last = s.last();
        assert(in_listing_order(t)) by {
            assert forall|i: int, j: int| 0 <= i < j < t.len() implies listed_le(
                #[trigger] t[i],
                #[trigger] t[j],
            ) by {
                assert(s[i] == t[i] && s[j] == t[j]);
            }
        }
        lemma_insert_listed(t, e);
        let m = insert_listed(t, e);
        assert(s =~= t.push(last));
        assert forall|k: int| 0 <= k < m.len() implies listed_le(#[trigger] m[k], last) by {
            assert(m.to_multiset().count(m[k]) > 0);
            if m[k] == e {
                lemma_before_asym(e, last);
            } else {
                assert(t.to_multiset().count(m[k]) > 0);
                assert(t.contains(m[k]));
                let x = choose|x: int| 0 <= x < t.len() && t[x] == m[k];
                assert(s[x] == t[x]);
                assert(listed_le(s[x], s[s.len() - 1]));
            }
        }
        let r = m.push(last);
        assert forall|i: int, j: int| 0 <= i < j < r.len() implies listed_le(
            #[trigger] r[i],
            #[trigger] r[j],
        ) by {
            if j < m.len() {
                assert(r[i] == m[i] && r[j] == m[j]);
            } else {
                assert(r[i] == m[i]);
            }
        }
    } else {
        let r = s.push(e);
        assert forall|i: int, j: int| 0 <= i < j < r.len() implies listed_le(
            #[trigger] r[i],
            #[trigger] r[j],
        ) by {
            if j < s.len() {
                assert(r[i] == s[i] && r[j] == s[j]);
            } else {
                assert(r[i] == s[i]);
                if i < s.len() - 1 {
                    assert(listed_le(s[i], s[s.len() - 1]));
                    lemma_le_trans(s[i], s[s.len() - 1], e);
                }
            }
        }
    }
}

/// A listing is sorted: it holds the same entries, and no entry is
/// followed by one listed before it (directories first, then names in
/// lower-cased code-point order).
pub proof fn lemma_sort_listing(es: Seq<DirEntryView>)
    ensures
        in_listing_order(sort_listing(es)),
        sort_listing(es).to_multiset() == es.to_multiset(),
    decreases es.len(),
{
    broadcast use vstd::seq_lib::group_to_multiset_ensures;

    if es.len() > 0 {
        lemma_sort_listing(es.drop_last());
        lemma_insert_listed(sort_listing(es.drop_last()), es.last());
        assert(es =~= es.drop_last().push(es.last()));
    }
}

} // verus!
