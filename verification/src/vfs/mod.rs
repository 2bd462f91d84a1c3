//! Virtual File System: a tree of shared items (files, real folders,
//! virtual folders and links) under one root.

pub mod spec;
pub mod lemmas;
pub mod paths;
pub mod listing;
pub mod store;

use std::collections::HashMap;
use vstd::std_specs::iter::IteratorSpec;
use vstd::prelude::*;

use crate::outside::{
    ends_in_parent, file_name_fits, path_file_name, percent_decode_lossy, plain_file_name,
};
use crate::text::{
    chars_eq, chars_of, chars_view, contains_char, decimal, decimal_chars, eq_ignore_ascii_case,
    eq_ignore_ascii_case_exec, extend_chars, extend_str, string_of, trim_chars,
};
use self::spec::{
    first_free, is_folder_kind, name_taken, numbered, unique_name_spec, valid_name, NodeView,
    VfsFault, VfsView, opt_view, add_spec, removed_from, rename_spec, name_conflict, add_result,
    add_link_result, add_file_result, add_folder_result,
};
use self::lemmas::{removal_progress, unlink_leaf};
use self::paths::{
    disk_join, find_named, join_slash, keep, path_names, push_part, resolve_decoded, resolve_spec,
    segments, segs_from,
    slash_prefix, url_of, walk, Resolution, flat, flat_kids,
};

verus! {

broadcast use vstd::std_specs::hash::group_hash_axioms;

#[derive(Debug, Clone, Copy, PartialEq, Eq, Hash, Structural)]
pub struct NodeId(pub u64);

#[derive(Debug, Clone, Copy, PartialEq, Eq, Structural)]
pub enum NodeKind {
    Root,
    VirtualFolder,
    RealFolder,
    File,
    Link,
}

/// One item of the tree.
#[derive(Debug, Clone)]
pub struct VfsNode {
    pub id: NodeId,
    pub name: String,
    pub kind: NodeKind,
    /// Real filesystem path for File/RealFolder, or URL for Link.
    pub resource: Option<String>,
    pub parent: Option<NodeId>,
    pub children: Vec<NodeId>,
    pub comment: String,
    pub hidden: bool,
    pub download_forbidden: bool,
}

impl View for VfsNode {
    type V = NodeView;

    open spec fn view(&self) -> NodeView {
        NodeView {
            id: self.id,
            name: self.name@,
            kind: self.kind,
            resource: opt_view(self.resource),
            parent: self.parent,
            children: self.children@,
            comment: self.comment@,
            hidden: self.hidden,
            download_forbidden: self.download_forbidden,
        }
    }
}

pub fn copy_ids(v: &Vec<NodeId>) -> (r: Vec<NodeId>)
    ensures
        r@ == v@,
{
    let mut r: Vec<NodeId> = Vec::new();
    let mut i: usize = 0;
    while i < v.len()
        invariant
            i <= v.len(),
            r@ == v@.subrange(0, i as int),
        decreases v.len() - i,
    {
        r.push(v[i]);
        i += 1;
        assert(r@ =~= v@.subrange(0, i as int));
    }
    assert(r@ =~= v@);
    r
}

pub fn copy_opt_string(o: &Option<String>) -> (r: Option<String>)
    ensures
        opt_view(r) == opt_view(*o),
{
    match o {
        Some(s) => Some(s.clone()),
        None => None,
    }
}

impl VfsNode {
    /// A field-by-field copy of this node.
    pub fn copy(&self) -> (r: VfsNode)
        ensures
            r@ == self@,
    {
        VfsNode {
            id: self.id,
            name: self.name.clone(),
            kind: self.kind,
            resource: copy_opt_string(&self.resource),
            parent: self.parent,
            children: copy_ids(&self.children),
            comment: self.comment.clone(),
            hidden: self.hidden,
            download_forbidden: self.download_forbidden,
        }
    }

    pub fn is_folder(&self) -> (r: bool)
        ensures
            r == is_folder_kind(self.kind),
    {
        match self.kind {
            NodeKind::Root | NodeKind::VirtualFolder | NodeKind::RealFolder => true,
            _ => false,
        }
    }

    /// The name shown to users: `Home` for an unnamed root.
    pub fn display_name(&self) -> (r: &str)
        ensures
            r@ == (if self.name@.len() == 0 && self.kind == NodeKind::Root {
                "Home"@
            } else {
                self.name@
            }),
    {
        if self.name.as_str().is_empty() && self.kind == NodeKind::Root {
            "Home"
        } else {
            self.name.as_str()
        }
    }
}

/// Why a VFS operation was refused.
#[derive(Debug)]
pub enum VfsError {
    NotFound(NodeId),
    NameExists(String),
    NotAFolder,
    InvalidRootOp,
    InvalidName,
    Io(String),
}

impl View for VfsError {
    type V = VfsFault;

    open spec fn view(&self) -> VfsFault {
        match self {
            VfsError::NotFound(id) => VfsFault::NotFound(*id),
            VfsError::NameExists(s) => VfsFault::NameExists(s@),
            VfsError::NotAFolder => VfsFault::NotAFolder,
            VfsError::InvalidRootOp => VfsFault::InvalidRootOp,
            VfsError::InvalidName => VfsFault::InvalidName,
            VfsError::Io(e) => VfsFault::Io(e@),
        }
    }
}

/// The text an error is shown with.
pub open spec fn fault_message(f: VfsFault) -> Seq<char> {
    match f {
        VfsFault::NotFound(id) => "node not found: NodeId("@ + decimal(id.0 as nat) + ")"@,
        VfsFault::NameExists(n) => "name already exists: "@ + n,
        VfsFault::NotAFolder => "not a folder"@,
        VfsFault::InvalidRootOp => "cannot modify root that way"@,
        VfsFault::InvalidName => "invalid name"@,
        VfsFault::Io(e) => "io error: "@ + e,
    }
}

impl VfsError {
    /// The text the error is shown with.
    pub fn message(&self) -> (r: String)
        ensures
            r@ == fault_message(self@),
    {
        let mut v: Vec<char>;
        match self {
            VfsError::NotFound(id) => {
                v = chars_of("node not found: NodeId(");
                let digits = decimal_chars(id.0);
                extend_chars(&mut v, &digits);
                extend_str(&mut v, ")");
            },
            VfsError::NameExists(n) => {
                v = chars_of("name already exists: ");
                extend_str(&mut v, n.as_str());
            },
            VfsError::NotAFolder => {
                v = chars_of("not a folder");
            },
            VfsError::InvalidRootOp => {
                v = chars_of("cannot modify root that way");
            },
            VfsError::InvalidName => {
                v = chars_of("invalid name");
            },
            VfsError::Io(e) => {
                v = chars_of("io error: ");
                extend_str(&mut v, e.as_str());
            },
        }
        string_of(&v)
    }
}

/// What a request path leads to.
#[derive(Debug, Clone)]
pub enum ResolveResult {
    /// A node of the tree.
    Node(NodeId),
    /// A file on disk inside the real folder `node_id`.
    DiskFile { node_id: NodeId, path: String },
    /// A directory on disk inside the real folder `node_id`; `url_suffix`
    /// is the part of the request path below that folder.
    DiskDir { node_id: NodeId, path: String, url_suffix: String },
    NotFound,
    Forbidden,
    /// Below the real folder `node_id` (on disk at `base`), where the tree
    /// has no node for `segments`: what is there is for the file system to
    /// say (see `settle`).
    OnDisk { node_id: NodeId, base: String, segments: Vec<String> },
}

/// The outcome of an operation that adds a node, as plain values.
pub open spec fn add_view(r: Result<NodeId, VfsError>) -> Result<NodeId, VfsFault> {
    match r {
        Ok(id) => Ok(id),
        Err(e) => Err(e@),
    }
}

pub open spec fn strings_view(v: Seq<String>) -> Seq<Seq<char>> {
    v.map_values(|s: String| s@)
}

/// A depth-first listing as plain values.
pub open spec fn listing_view(v: Seq<(usize, NodeId)>) -> Seq<(nat, u64)> {
    v.map_values(|e: (usize, NodeId)| (e.0 as nat, e.1.0))
}


impl View for ResolveResult {
    type V = Resolution;

    open spec fn view(&self) -> Resolution {
        match self {
            ResolveResult::Node(id) => Resolution::Node(*id),
            ResolveResult::DiskFile { node_id, path } => Resolution::DiskFile {
                node_id: *node_id,
                path: path@,
            },
            ResolveResult::DiskDir { node_id, path, url_suffix } => Resolution::DiskDir {
                node_id: *node_id,
                path: path@,
                url_suffix: url_suffix@,
            },
            ResolveResult::NotFound => Resolution::NotFound,
            ResolveResult::Forbidden => Resolution::Forbidden,
            ResolveResult::OnDisk { node_id, base, segments } => Resolution::OnDisk {
                node_id: *node_id,
                base: base@,
                segments: strings_view(segments@),
            },
        }
    }
}

/// What a lookup that ended on disk becomes once the file system has said
/// what is at its disk path (the real folder's base with the segments
/// pushed on): nothing (`None`), a directory (`Some(true)`) or a file
/// (`Some(false)`). Other results stay as they are.
pub open spec fn settle_spec(r: Resolution, probe: Option<bool>) -> Resolution {
    match r {
        Resolution::OnDisk { node_id, base, segments } => match probe {
            None => Resolution::NotFound,
            Some(true) => Resolution::DiskDir {
                node_id,
                path: disk_join(base, segments),
                url_suffix: join_slash(segments),
            },
            Some(false) => Resolution::DiskFile { node_id, path: disk_join(base, segments) },
        },
        other => other,
    }
}

/// The kept segments of `s` (see `paths::segments`).
pub fn split_segments(s: &Vec<char>) -> (r: Vec<Vec<char>>)
    ensures
        chars_view(r@) == segments(s@),
{
    let mut out: Vec<Vec<char>> = Vec::new();
    let mut cur: Vec<char> = Vec::new();
    let mut i: usize = 0;
    assert(s@.skip(0) =~= s@);
    assert(chars_view(out@) =~= seq![]);
    while i < s.len()
        invariant
            i <= s.len(),
            chars_view(out@) + segs_from(s@.skip(i as int), cur@) == segs_from(s@, seq![]),
        decreases s.len() - i,
    {
        let ghost rest = s@.skip(i as int);
        assert(rest[0] == s@[i as int]);
        assert(rest.drop_first() =~= s@.skip(i + 1));
        if s[i] == '/' {
            let ghost before = chars_view(out@);
            let ghost c = cur@;
            if cur.len() > 0 && !(cur.len() == 1 && cur[0] == '.') {
                out.push(cur);
                proof {
                    if c =~= seq!['.'] {
                        assert(c[0] == '.');
                    }
                }
                assert(chars_view(out@) =~= before + keep(c));
            } else {
                proof {
                    if c.len() > 0 {
                        assert(c =~= seq!['.']);
                    }
                }
                assert(chars_view(out@) =~= before + keep(c));
            }
            cur = Vec::new();
        } else {
            cur.push(s[i]);
        }
        i += 1;
    }
    proof {
        assert(s@.skip(i as int) =~= Seq::<char>::empty());
    }
    let ghost before = chars_view(out@);
    let ghost c = cur@;
    if cur.len() > 0 && !(cur.len() == 1 && cur[0] == '.') {
        out.push(cur);
        proof {
            if c =~= seq!['.'] {
                assert(c[0] == '.');
            }
        }
        assert(chars_view(out@) =~= before + keep(c));
    } else {
        proof {
            if c.len() > 0 {
                assert(c =~= seq!['.']);
            }
        }
        assert(chars_view(out@) =~= before + keep(c));
    }
    out
}

/// `segs` joined by `/`.
pub fn join_with_slash(segs: &Vec<String>) -> (r: String)
    ensures
        r@ == join_slash(strings_view(segs@)),
    decreases segs.len(),
{
    let mut buf: Vec<char> = Vec::new();
    let n = segs.len();
    if n == 0 {
        return string_of(&buf);
    }
    let mut i: usize = n;
    extend_str(&mut buf, segs[n - 1].as_str());
    i = n - 1;
    assert(strings_view(segs@).skip(n - 1) =~= seq![segs@[n - 1]@]);
    while i > 0
        invariant
            i < n,
            n == segs.len(),
            buf@ == join_slash(strings_view(segs@).skip(i as int)),
        decreases i,
    {
        let ghost tail = strings_view(segs@).skip(i as int);
        let mut nb: Vec<char> = Vec::new();
        extend_str(&mut nb, segs[i - 1].as_str());
        nb.push('/');
        extend_chars(&mut nb, &buf);
        buf = nb;
        let ghost t2 = strings_view(segs@).skip(i - 1);
        assert(t2.drop_first() =~= tail);
        assert(t2[0] == segs@[i - 1]@);
        assert(t2.len() >= 2);
        i -= 1;
    }
    assert(strings_view(segs@).skip(0) =~= strings_view(segs@));
    string_of(&buf)
}

/// One line of a directory listing.
#[derive(Debug, Clone)]
pub struct DirEntry {
    pub name: String,
    pub is_dir: bool,
    pub size: Option<u64>,
    pub mtime: Option<String>,
}

pub struct DirEntryView {
    pub name: Seq<char>,
    pub is_dir: bool,
    pub size: Option<u64>,
    pub mtime: Option<Seq<char>>,
}

impl View for DirEntry {
    type V = DirEntryView;

    open spec fn view(&self) -> DirEntryView {
        DirEntryView {
            name: self.name@,
            is_dir: self.is_dir,
            size: self.size,
            mtime: opt_view(self.mtime),
        }
    }
}

pub open spec fn entries_view(v: Seq<DirEntry>) -> Seq<DirEntryView> {
    v.map_values(|e: DirEntry| e@)
}

/// The tree: nodes keyed by their id, the root's id, and the next id to
/// hand out.
pub struct Vfs {
    next_id: u64,
    root: NodeId,
    nodes: HashMap<u64, VfsNode>,
}

impl View for Vfs {
    type V = VfsView;

    closed spec fn view(&self) -> VfsView {
        VfsView {
            next_id: self.next_id,
            root: self.root,
            nodes: self.nodes@.map_values(|n: VfsNode| n@),
        }
    }
}

impl Default for Vfs {
    fn default() -> (v: Vfs)
        ensures
            v@.wf(),
            v@ == spec::empty_tree(),
    {
        Vfs::new()
    }
}

impl Vfs {
    /// A tree holding only an unnamed root with id 1.
    pub fn new() -> (v: Vfs)
        ensures
            v@.wf(),
            v@ == spec::empty_tree(),
    {
        let root_id = NodeId(1);
        let mut nodes: HashMap<u64, VfsNode> = HashMap::new();
        nodes.insert(
            1,
            VfsNode {
                id: root_id,
                name: String::new(),
                kind: NodeKind::Root,
                resource: None,
                parent: None,
                children: Vec::new(),
                comment: String::new(),
                hidden: false,
                download_forbidden: false,
            },
        );
        let v = Vfs { next_id: 2, root: root_id, nodes };
        assert(v@.nodes =~= spec::empty_tree().nodes);
        v
    }

    /// The id the next added node will get.
    pub fn next_id(&self) -> (r: u64)
        ensures
            r == self@.next_id,
    {
        self.next_id
    }

    pub fn root_id(&self) -> (r: NodeId)
        ensures
            r == self@.root,
    {
        self.root
    }

    pub fn get(&self, id: NodeId) -> (r: Option<&VfsNode>)
        ensures
            match r {
                Some(n) => self@.has(id) && n@ == self@.node(id),
                None => !self@.has(id),
            },
    {
        self.nodes.get(&id.0)
    }

    /// Whether a sibling under `parent` carries `name`, ignoring ASCII case.
    fn name_taken_exec(&self, parent: NodeId, name: &Vec<char>) -> (r: bool)
        requires
            self@.wf(),
            self@.has(parent),
        ensures
            r == name_taken(self@, parent, name@),
    {
        let p = self.nodes.get(&parent.0).unwrap();
        let n = p.children.len();
        let mut i: usize = 0;
        while i < n
            invariant
                self@.wf(),
                self@.has(parent),
                p@ == self@.node(parent),
                n == p.children@.len(),
                i <= n,
                forall|j: int|
                    0 <= j < i ==> !(self@.nodes.contains_key(#[trigger] p.children@[j].0)
                        && eq_ignore_ascii_case(self@.nodes[p.children@[j].0].name, name@)),
            decreases n - i,
        {
            let cid = p.children[i];
            match self.nodes.get(&cid.0) {
                Some(c) => {
                    let cname = chars_of(c.name.as_str());
                    if eq_ignore_ascii_case_exec(&cname, name) {
                        return true;
                    }
                },
                None => {},
            }
            i += 1;
        }
        false
    }

    /// A name for a new child of `parent`: `desired` itself when no sibling
    /// has it, else the first free `desired (i)` for `i` in 2..10000.
    fn unique_child_name(&self, parent: NodeId, desired: &str) -> (r: Result<String, VfsError>)
        requires
            self@.wf(),
        ensures
            match r {
                Ok(s) => unique_name_spec(self@, parent, desired@) == Ok::<Seq<char>, VfsFault>(
                    s@,
                ),
                Err(e) => unique_name_spec(self@, parent, desired@) == Err::<Seq<char>, VfsFault>(
                    e@,
                ),
            },
    {
        let parent_node = match self.nodes.get(&parent.0) {
            Some(p) => p,
            None => return Err(VfsError::NotFound(parent)),
        };
        if !parent_node.is_folder() {
            return Err(VfsError::NotAFolder);
        }
        let d = chars_of(desired);
        if d.len() == 0 || contains_char(&d, '/') || contains_char(&d, '\\') {
            return Err(VfsError::InvalidName);
        }
        if !self.name_taken_exec(parent, &d) {
            return Ok(desired.to_string());
        }
        let mut i: u64 = 2;
        while i < 10000
            invariant
                self@.wf(),
                self@.has(parent),
                2 <= i <= 10000,
                d@ == desired@,
                is_folder_kind(self@.node(parent).kind),
                valid_name(d@),
                name_taken(self@, parent, d@),
                first_free(self@, parent, d@, 2) == first_free(self@, parent, d@, i as nat),
            decreases 10000 - i,
        {
            let mut cand = d.clone();
            assert(cand@ == d@);
            let mut tail: Vec<char> = Vec::new();
            tail.push(' ');
            tail.push('(');
            extend_chars(&mut cand, &tail);
            let digits = decimal_chars(i);
            extend_chars(&mut cand, &digits);
            cand.push(')');
            assert(cand@ =~= numbered(d@, i as nat));
            if !self.name_taken_exec(parent, &cand) {
                return Ok(string_of(&cand));
            }
            i += 1;
        }
        Err(VfsError::NameExists(desired.to_string()))
    }

    /// Hands out the next id.
    fn alloc_id(&mut self) -> (id: NodeId)
        requires
            old(self)@.next_id < u64::MAX,
        ensures
            id == NodeId(old(self)@.next_id),
            final(self)@.next_id == old(self)@.next_id + 1,
            final(self)@.root == old(self)@.root,
            final(self)@.nodes == old(self)@.nodes,
    {
        let id = NodeId(self.next_id);
        self.next_id = self.next_id + 1;
        id
    }

    /// Links a fresh node under `parent`.
    fn insert_child(
        &mut self,
        parent: NodeId,
        name: String,
        kind: NodeKind,
        resource: Option<String>,
    ) -> (id: NodeId)
        requires
            old(self)@.wf(),
            old(self)@.next_id < u64::MAX,
            old(self)@.has(parent),
            is_folder_kind(old(self)@.node(parent).kind),
            valid_name(name@),
            !name_taken(old(self)@, parent, name@),
            kind != NodeKind::Root,
        ensures
            id == NodeId(old(self)@.next_id),
            final(self)@ == add_spec(old(self)@, parent, name@, kind, opt_view(resource)),
            final(self)@.wf(),
    {
        let ghost v0 = self@;
        let id = self.alloc_id();
        let node = VfsNode {
            id,
            name,
            kind,
            resource,
            parent: Some(parent),
            children: Vec::new(),
            comment: String::new(),
            hidden: false,
            download_forbidden: false,
        };
        self.nodes.insert(id.0, node);
        let mut p = self.nodes.get(&parent.0).unwrap().copy();
        p.children.push(id);
        self.nodes.insert(parent.0, p);
        proof {
            assert(self@.nodes =~= add_spec(v0, parent, name@, kind, opt_view(resource)).nodes);
            spec::lemma_add_preserves_wf(v0, parent, name@, kind, opt_view(resource));
        }
        id
    }

    fn add_named(
        &mut self,
        parent: NodeId,
        desired: &str,
        kind: NodeKind,
        resource: Option<String>,
    ) -> (r: Result<NodeId, VfsError>)
        requires
            old(self)@.wf(),
            old(self)@.next_id < u64::MAX,
            kind != NodeKind::Root,
        ensures
            final(self)@.wf(),
            (add_view(r), final(self)@) == add_result(
                old(self)@,
                parent,
                desired@,
                kind,
                opt_view(resource),
            ),
    {
        match self.unique_child_name(parent, desired) {
            Err(e) => Err(e),
            Ok(name) => {
                proof {
                    spec::lemma_unique_name_ok(self@, parent, desired@);
                }
                let id = self.insert_child(parent, name, kind, resource);
                Ok(id)
            },
        }
    }

    /// Adds a new, empty virtual folder named `name` (made unique among
    /// its siblings) under `parent`.
    pub fn add_virtual_folder(&mut self, parent: NodeId, name: &str) -> (r: Result<
        NodeId,
        VfsError,
    >)
        requires
            old(self)@.wf(),
            old(self)@.next_id < u64::MAX,
        ensures
            final(self)@.wf(),
            (add_view(r), final(self)@) == add_result(
                old(self)@,
                parent,
                name@,
                NodeKind::VirtualFolder,
                None,
            ),
    {
        self.add_named(parent, name, NodeKind::VirtualFolder, None)
    }

    /// Adds a link named `name` (made unique among its siblings) that
    /// points at `url`; a blank `url` is refused with `InvalidName`, once
    /// the name has been checked.
    pub fn add_link(&mut self, parent: NodeId, name: &str, url: &str) -> (r: Result<
        NodeId,
        VfsError,
    >)
        requires
            old(self)@.wf(),
            old(self)@.next_id < u64::MAX,
        ensures
            final(self)@.wf(),
            (add_view(r), final(self)@) == add_link_result(old(self)@, parent, name@, url@),
    {
        let uname = match self.unique_child_name(parent, name) {
            Err(e) => return Err(e),
            Ok(n) => n,
        };
        let u = chars_of(url);
        let t = trim_chars(&u);
        if t.len() == 0 {
            return Err(VfsError::InvalidName);
        }
        proof {
            spec::lemma_unique_name_ok(self@, parent, name@);
        }
        let id = self.insert_child(parent, uname, NodeKind::Link, Some(url.to_string()));
        Ok(id)
    }

    /// Adds the file at `path` under `parent`, named `file_name` (the last
    /// component of `path`), made unique among its siblings. A missing or
    /// empty file name is refused with `InvalidName`.
    pub fn add_file_with_name(
        &mut self,
        parent: NodeId,
        file_name: Option<String>,
        path: &str,
    ) -> (r: Result<NodeId, VfsError>)
        requires
            old(self)@.wf(),
            old(self)@.next_id < u64::MAX,
        ensures
            final(self)@.wf(),
            (add_view(r), final(self)@) == add_file_result(
                old(self)@,
                parent,
                opt_view(file_name),
                path@,
            ),
    {
        let name = match file_name {
            Some(n) => n,
            None => return Err(VfsError::InvalidName),
        };
        if name.as_str().is_empty() {
            return Err(VfsError::InvalidName);
        }
        self.add_named(parent, name.as_str(), NodeKind::File, Some(path.to_string()))
    }

    /// Adds the file at `path` under `parent`, named after the last
    /// component of `path` (made unique among its siblings); a path without
    /// one, such as `/` or one ending in `..`, is refused with
    /// `InvalidName`. Which component is last is for the platform's path
    /// rules to say; the name holds no `/`.
    pub fn add_file(&mut self, parent: NodeId, path: &str) -> (r: Result<NodeId, VfsError>)
        requires
            old(self)@.wf(),
            old(self)@.next_id < u64::MAX,
        ensures
            final(self)@.wf(),
            exists|file_name: Option<Seq<char>>|
                file_name_fits(path@, file_name) && (add_view(r), final(self)@)
                    == #[trigger] add_file_result(old(self)@, parent, file_name, path@),
            (path@ == seq!['/'] || ends_in_parent(path@)) ==> add_view(r) == Err::<
                NodeId,
                VfsFault,
            >(VfsFault::InvalidName) && final(self)@ == old(self)@,
            plain_file_name(path@) matches Some(n) ==> (add_view(r), final(self)@)
                == add_file_result(old(self)@, parent, Some(n), path@),
    {
        let file_name = path_file_name(path);
        let r = self.add_file_with_name(parent, file_name, path);
        assert((add_view(r), self@) == add_file_result(old(self)@, parent, opt_view(file_name), path@));
        r
    }

    /// Adds the real folder at `path` under `parent`, named `file_name`
    /// (the last component of `path`), or the whole path where that is
    /// missing or empty, made unique among its siblings.
    pub fn add_real_folder_with_name(
        &mut self,
        parent: NodeId,
        file_name: Option<String>,
        path: &str,
    ) -> (r: Result<NodeId, VfsError>)
        requires
            old(self)@.wf(),
            old(self)@.next_id < u64::MAX,
        ensures
            final(self)@.wf(),
            (add_view(r), final(self)@) == add_folder_result(
                old(self)@,
                parent,
                opt_view(file_name),
                path@,
            ),
    {
        let name = match file_name {
            Some(n) => if n.as_str().is_empty() {
                path.to_string()
            } else {
                n
            },
            None => path.to_string(),
        };
        self.add_named(parent, name.as_str(), NodeKind::RealFolder, Some(path.to_string()))
    }

    /// Adds the real folder at `path` under `parent`, named after the last
    /// component of `path`, or the whole path where it has none (such as
    /// `/` or a path ending in `..`), made unique among its siblings.
    pub fn add_real_folder(&mut self, parent: NodeId, path: &str) -> (r: Result<
        NodeId,
        VfsError,
    >)
        requires
            old(self)@.wf(),
            old(self)@.next_id < u64::MAX,
        ensures
            final(self)@.wf(),
            exists|file_name: Option<Seq<char>>|
                file_name_fits(path@, file_name) && (add_view(r), final(self)@)
                    == #[trigger] add_folder_result(old(self)@, parent, file_name, path@),
            (path@ == seq!['/'] || ends_in_parent(path@)) ==> (add_view(r), final(self)@)
                == add_folder_result(old(self)@, parent, None, path@),
            plain_file_name(path@) matches Some(n) ==> (add_view(r), final(self)@)
                == add_folder_result(old(self)@, parent, Some(n), path@),
    {
        let file_name = path_file_name(path);
        let r = self.add_real_folder_with_name(parent, file_name, path);
        assert((add_view(r), self@) == add_folder_result(old(self)@, parent, opt_view(file_name), path@));
        r
    }

    /// Deletes node `id` together with its whole subtree and unlinks it
    /// from its parent. The root cannot be removed.
    pub fn remove(&mut self, id: NodeId) -> (r: Result<(), VfsError>)
        requires
            old(self)@.wf(),
        ensures
            final(self)@.wf(),
            id == old(self)@.root ==> (r matches Err(e) && e@ == VfsFault::InvalidRootOp
                && final(self)@ == old(self)@),
            id != old(self)@.root && !old(self)@.has(id) ==> (r matches Err(e) && e@
                == VfsFault::NotFound(id) && final(self)@ == old(self)@),
            id != old(self)@.root && old(self)@.has(id) ==> r is Ok && removed_from(
                old(self)@,
                final(self)@,
                id,
            ),
    {
        if id == self.root {
            return Err(VfsError::InvalidRootOp);
        }
        if self.nodes.get(&id.0).is_none() {
            return Err(VfsError::NotFound(id));
        }
        self.remove_subtree(id);
        Ok(())
    }

    #[verifier::spinoff_prover]
    #[verifier::rlimit(40)]
    fn remove_subtree(&mut self, id: NodeId)
        requires
            old(self)@.wf(),
            old(self)@.has(id),
            id != old(self)@.root,
        ensures
            final(self)@.wf(),
            removed_from(old(self)@, final(self)@, id),
        decreases old(self)@.next_id - id.0,
    {
        let ghost s0 = self@;
        proof {
            lemmas::lemma_removal_start(s0, id);
        }
        let cs = copy_ids(&self.nodes.get(&id.0).unwrap().children);
        let mut j: usize = 0;
        while j < cs.len()
            invariant
                s0 == old(self)@,
                s0.wf(),
                s0.has(id),
                id != s0.root,
                cs@ == s0.nodes[id.0].children,
                j <= cs.len(),
                removal_progress(s0, id, cs@, j as int, self@),
            decreases cs.len() - j,
        {
            let c = cs[j];
            let ghost s = self@;
            proof {
                lemmas::lemma_removal_child_present(s0, id, j as int, s);
            }
            self.remove_subtree(c);
            proof {
                lemmas::lemma_removal_step(s0, id, j as int, s, self@);
            }
            j += 1;
        }
        let ghost s = self@;
        let p = self.nodes.get(&id.0).unwrap().parent.unwrap();
        let mut pn = self.nodes.get(&p.0).unwrap().copy();
        proof {
            assert(s0.node_ok(id.0));
            assert(s.node_ok(id.0));
        }
        let mut ix: usize = 0;
        while ix < pn.children.len() && pn.children[ix] != id
            invariant
                pn.children@ == s.nodes[p.0].children,
                s.nodes[p.0].children.contains(id),
                ix <= pn.children.len(),
                forall|t: int| 0 <= t < ix ==> pn.children@[t] != id,
            decreases pn.children.len() - ix,
        {
            ix += 1;
        }
        proof {
            if ix == pn.children.len() {
                let t = choose|t: int| 0 <= t < pn.children@.len() && pn.children@[t] == id;
                assert(pn.children@[t] != id);
            }
        }
        pn.children.remove(ix);
        self.nodes.insert(p.0, pn);
        self.nodes.remove(&id.0);
        proof {
            lemmas::lemma_removal_finish(s0, id, s, ix as int);
            assert(self@.nodes =~= unlink_leaf(s, id, ix as int).nodes);
        }
    }

    /// Renames node `id`. The name must be valid and must differ, up to
    /// ASCII case, from those of all its siblings; the root has no name
    /// to change.
    pub fn rename(&mut self, id: NodeId, new_name: &str) -> (r: Result<(), VfsError>)
        requires
            old(self)@.wf(),
        ensures
            final(self)@.wf(),
            match rename_spec(old(self)@, id, new_name@) {
                Ok(w) => r is Ok && final(self)@ == w,
                Err(f) => r matches Err(e) && e@ == f && final(self)@ == old(self)@,
            },
    {
        if id == self.root {
            return Err(VfsError::InvalidRootOp);
        }
        let nm = chars_of(new_name);
        if nm.len() == 0 || contains_char(&nm, '/') || contains_char(&nm, '\\') {
            return Err(VfsError::InvalidName);
        }
        let node = match self.nodes.get(&id.0) {
            Some(n) => n,
            None => return Err(VfsError::NotFound(id)),
        };
        let parent = match node.parent {
            Some(p) => p,
            None => return Err(VfsError::InvalidRootOp),
        };
        let pn = match self.nodes.get(&parent.0) {
            Some(p) => p,
            None => return Err(VfsError::NotFound(parent)),
        };
        let n = pn.children.len();
        let mut i: usize = 0;
        while i < n
            invariant
                pn@ == self@.node(parent),
                n == pn.children@.len(),
                i <= n,
                nm@ == new_name@,
                old(self)@ == self@,
                self@.wf(),
                id != self@.root,
                valid_name(nm@),
                self@.has(id),
                self@.node(id).parent == Some(parent),
                self@.has(parent),
                forall|t: int|
                    0 <= t < i ==> !(pn.children@[t] != id && self@.nodes.contains_key(
                        #[trigger] pn.children@[t].0,
                    ) && eq_ignore_ascii_case(self@.nodes[pn.children@[t].0].name, nm@)),
            decreases n - i,
        {
            let cid = pn.children[i];
            if cid != id {
                match self.nodes.get(&cid.0) {
                    Some(c) => {
                        let cname = chars_of(c.name.as_str());
                        if eq_ignore_ascii_case_exec(&cname, &nm) {
                            proof {
                                assert(pn.children@[i as int] == cid);
                                assert(name_conflict(self@, parent, id, new_name@));
                            }
                            return Err(VfsError::NameExists(new_name.to_string()));
                        }
                    },
                    None => {},
                }
            }
            i += 1;
        }
        let mut renamed = node.copy();
        renamed.name = new_name.to_string();
        let ghost v0 = self@;
        self.nodes.insert(id.0, renamed);
        proof {
            assert(self@.nodes =~= rename_spec(v0, id, new_name@)->Ok_0.nodes);
            lemmas::lemma_rename_wf(v0, id, new_name@);
        }
        Ok(())
    }

    fn append_url_prefix(&self, k: u64, buf: &mut Vec<char>)
        requires
            self@.wf(),
        ensures
            final(buf)@ == old(buf)@ + slash_prefix(path_names(self@, k)),
        decreases k,
    {
        if k == self.root.0 {
            assert(old(buf)@ + slash_prefix(Seq::<Seq<char>>::empty()) =~= old(buf)@);
            return;
        }
        match self.nodes.get(&k) {
            None => {
                assert(old(buf)@ + slash_prefix(Seq::<Seq<char>>::empty()) =~= old(buf)@);
            },
            Some(n) => {
                let ghost ns = path_names(self@, k);
                match n.parent {
                    Some(p) => {
                        if p.0 < k {
                            self.append_url_prefix(p.0, buf);
                            proof {
                                paths::lemma_slash_prefix_push(path_names(self@, p.0), n.name@);
                            }
                        } else {
                            proof {
                                paths::lemma_slash_prefix_push(seq![], n.name@);
                                assert(seq![].push(n.name@) =~= ns);
                                assert(slash_prefix(Seq::<Seq<char>>::empty()) =~= seq![]);
                            }
                        }
                    },
                    None => {
                        proof {
                            paths::lemma_slash_prefix_push(seq![], n.name@);
                            assert(seq![].push(n.name@) =~= ns);
                            assert(slash_prefix(Seq::<Seq<char>>::empty()) =~= seq![]);
                        }
                    },
                }
                buf.push('/');
                extend_str(buf, n.name.as_str());
                assert(final(buf)@ =~= old(buf)@ + slash_prefix(ns));
            },
        }
    }

    /// The URL path of node `id`: `/` for the root (and for an id the tree
    /// does not hold), else `/` followed by each name from the root down,
    /// each followed by `/`.
    pub fn url_path(&self, id: NodeId) -> (r: String)
        requires
            self@.wf(),
        ensures
            r@ == url_of(path_names(self@, id.0)),
    {
        let mut buf: Vec<char> = Vec::new();
        self.append_url_prefix(id.0, &mut buf);
        let ghost ns = path_names(self@, id.0);
        assert(buf@ =~= slash_prefix(ns));
        if buf.len() == 0 {
            proof {
                if ns.len() > 0 {
                    assert(slash_prefix(ns)[0] == '/');
                }
            }
            let mut one: Vec<char> = Vec::new();
            one.push('/');
            assert(one@ =~= url_of(ns));
            string_of(&one)
        } else {
            proof {
                if ns.len() == 0 {
                    assert(slash_prefix(ns) =~= seq![]);
                }
            }
            buf.push('/');
            string_of(&buf)
        }
    }

    /// The first of `children` that is in the tree and named exactly
    /// `name`.
    fn find_child_named(&self, children: &Vec<NodeId>, name: &Vec<char>) -> (r: Option<NodeId>)
        ensures
            r == find_named(self@, children@, name@),
    {
        let mut i: usize = 0;
        assert(children@.skip(0) =~= children@);
        while i < children.len()
            invariant
                i <= children.len(),
                find_named(self@, children@, name@) == find_named(
                    self@,
                    children@.skip(i as int),
                    name@,
                ),
            decreases children.len() - i,
        {
            let c = children[i];
            let ghost rest = children@.skip(i as int);
            assert(rest[0] == c);
            assert(rest.drop_first() =~= children@.skip(i + 1));
            match self.nodes.get(&c.0) {
                Some(n) => {
                    let cn = chars_of(n.name.as_str());
                    if chars_eq(&cn, name) {
                        return Some(c);
                    }
                },
                None => {},
            }
            i += 1;
        }
        None
    }

    /// Looks a request path up: it is percent-decoded and the rest is
    /// done as `resolve_decoded_path` does.
    pub fn resolve(&self, raw_path: &str) -> (r: ResolveResult)
        requires
            self@.wf(),
        ensures
            r@ == resolve_spec(self@, raw_path@),
            !crate::outside::has_escape(raw_path@) ==> r@ == resolve_decoded(self@, raw_path@),
    {
        let decoded = percent_decode_lossy(raw_path);
        self.resolve_decoded_path(decoded.as_str())
    }

    /// Looks a decoded request path up: it is split at `/` (empty and `.`
    /// segments dropped); a `..` segment is forbidden; the rest is followed
    /// down from the root by exact child name. Below a real folder,
    /// segments the tree has no node for are left to the disk (`OnDisk`).
    pub fn resolve_decoded_path(&self, decoded: &str) -> (r: ResolveResult)
        requires
            self@.wf(),
        ensures
            r@ == resolve_decoded(self@, decoded@),
    {
        let dc = chars_of(decoded);
        let segs = split_segments(&dc);
        let ghost ss = segments(decoded@);
        let mut k: usize = 0;
        while k < segs.len()
            invariant
                k <= segs.len(),
                chars_view(segs@) == ss,
                ss == segments(decoded@),
                forall|t: int| 0 <= t < k ==> ss[t] != seq!['.', '.'],
            decreases segs.len() - k,
        {
            let sg = &segs[k];
            if sg.len() == 2 && sg[0] == '.' && sg[1] == '.' {
                assert(ss[k as int] =~= seq!['.', '.']);
                assert(ss.contains(seq!['.', '.']));
                return ResolveResult::Forbidden;
            }
            proof {
                if ss[k as int] == seq!['.', '.'] {
                    assert(sg@ =~= seq!['.', '.']);
                }
            }
            k += 1;
        }
        assert(!ss.contains(seq!['.', '.']));
        let mut cur = self.root;
        let mut i: usize = 0;
        assert(ss.skip(0) =~= ss);
        while i < segs.len()
            invariant
                i <= segs.len(),
                chars_view(segs@) == ss,
                ss == segments(decoded@),
                !ss.contains(seq!['.', '.']),
                walk(self@, self@.root, ss) == walk(self@, cur, ss.skip(i as int)),
            decreases segs.len() - i,
        {
            let ghost rest = ss.skip(i as int);
            assert(rest[0] == segs@[i as int]@);
            assert(rest.drop_first() =~= ss.skip(i + 1));
            let node = match self.nodes.get(&cur.0) {
                Some(n) => n,
                None => return ResolveResult::NotFound,
            };
            match self.find_child_named(&node.children, &segs[i]) {
                Some(c) => {
                    cur = c;
                },
                None => {
                    if node.kind == NodeKind::RealFolder {
                        match &node.resource {
                            Some(base) => {
                                let mut left: Vec<String> = Vec::new();
                                let mut t: usize = i;
                                while t < segs.len()
                                    invariant
                                        i <= t <= segs.len(),
                                        chars_view(segs@) == ss,
                                        strings_view(left@) == ss.subrange(i as int, t as int),
                                    decreases segs.len() - t,
                                {
                                    assert(ss[t as int] == segs@[t as int]@);
                                    let st = string_of(&segs[t]);
                                    let ghost prev = left@;
                                    left.push(st);
                                    assert(strings_view(left@) =~= strings_view(prev).push(st@));
                                    assert(strings_view(left@) =~= ss.subrange(
                                        i as int,
                                        t + 1,
                                    ));
                                    t += 1;
                                }
                                assert(ss.subrange(i as int, segs.len() as int) =~= rest);
                                return ResolveResult::OnDisk {
                                    node_id: cur,
                                    base: base.clone(),
                                    segments: left,
                                };
                            },
                            None => {
                                return ResolveResult::NotFound;
                            },
                        }
                    }
                    return ResolveResult::NotFound;
                },
            }
            i += 1;
        }
        assert(ss.skip(i as int) =~= Seq::<Seq<char>>::empty());
        ResolveResult::Node(cur)
    }

    /// The directory on disk that takes uploads for a resolved path: that
    /// of a real folder node, or a directory found on disk below one.
    pub fn upload_dir_for(&self, resolved: &ResolveResult) -> (r: Option<String>)
        ensures
            opt_view(r) == match resolved@ {
                Resolution::Node(id) => if self@.has(id) && self@.node(id).kind
                    == NodeKind::RealFolder {
                    self@.node(id).resource
                } else {
                    None
                },
                Resolution::DiskDir { path, .. } => Some(path),
                _ => None,
            },
    {
        match resolved {
            ResolveResult::Node(id) => match self.nodes.get(&id.0) {
                Some(n) => if n.kind == NodeKind::RealFolder {
                    copy_opt_string(&n.resource)
                } else {
                    None
                },
                None => None,
            },
            ResolveResult::DiskDir { path, .. } => Some(path.clone()),
            _ => None,
        }
    }

    /// The file on disk that a resolved path names: that of a file node, or
    /// a file found on disk below a real folder.
    pub fn file_path_for(&self, resolved: &ResolveResult) -> (r: Option<String>)
        ensures
            opt_view(r) == match resolved@ {
                Resolution::Node(id) => if self@.has(id) && self@.node(id).kind == NodeKind::File {
                    self@.node(id).resource
                } else {
                    None
                },
                Resolution::DiskFile { path, .. } => Some(path),
                _ => None,
            },
    {
        match resolved {
            ResolveResult::Node(id) => match self.nodes.get(&id.0) {
                Some(n) => if n.kind == NodeKind::File {
                    copy_opt_string(&n.resource)
                } else {
                    None
                },
                None => None,
            },
            ResolveResult::DiskFile { path, .. } => Some(path.clone()),
            _ => None,
        }
    }

    /// The tree listed depth first from the root, each node with its
    /// depth (the root at 0).
    pub fn flat_tree(&self) -> (r: Vec<(usize, NodeId)>)
        requires
            self@.wf(),
            self@.next_id <= usize::MAX,
        ensures
            listing_view(r@) == flat(self@, self@.root.0, 0),
    {
        let mut out: Vec<(usize, NodeId)> = Vec::new();
        assert(self@.node_ok(self@.root.0));
        self.walk(self.root, 0, &mut out);
        assert(listing_view(out@) =~= flat(self@, self@.root.0, 0));
        out
    }

    fn walk(&self, id: NodeId, depth: usize, out: &mut Vec<(usize, NodeId)>)
        requires
            self@.wf(),
            self@.next_id <= usize::MAX,
            depth <= id.0,
            id.0 < self@.next_id,
        ensures
            listing_view(final(out)@) == listing_view(old(out)@) + flat(self@, id.0, depth as nat),
        decreases u64::MAX - id.0, 1nat, 0nat,
    {
        out.push((depth, id));
        assert(listing_view(out@) =~= listing_view(old(out)@) + seq![(depth as nat, id.0)]);
        match self.nodes.get(&id.0) {
            Some(node) => {
                self.walk_kids(id, node, depth, 0, out);
            },
            None => {},
        }
        assert(listing_view(final(out)@) =~= listing_view(old(out)@) + flat(self@, id.0, depth as nat));
    }

    fn walk_kids(&self, id: NodeId, node: &VfsNode, depth: usize, i: usize, out: &mut Vec<(usize, NodeId)>)
        requires
            self@.wf(),
            self@.next_id <= usize::MAX,
            depth <= id.0,
            self@.has(id),
            node@ == self@.node(id),
            i <= node.children.len(),
        ensures
            listing_view(final(out)@) == listing_view(old(out)@) + flat_kids(self@, id.0, depth as nat, i as nat),
        decreases u64::MAX - id.0, 0nat, node.children@.len() - i,
    {
        if i >= node.children.len() {
            assert(listing_view(old(out)@) + flat_kids(self@, id.0, depth as nat, i as nat) =~= listing_view(old(out)@));
            return;
        }
        let c = node.children[i];
        proof {
            assert(self@.node_ok(id.0));
            assert(self@.child_ok(id.0, i as int));
            assert(self@.node_ok(c.0));
        }
        let ghost mid0 = listing_view(out@);
        self.walk(c, depth + 1, out);
        let ghost mid = listing_view(out@);
        self.walk_kids(id, node, depth, i + 1, out);
        assert(listing_view(final(out)@) =~= listing_view(old(out)@) + flat_kids(self@, id.0, depth as nat, i as nat));
    }

    /// Sets the comment and the two flags of node `id`; `false` when the
    /// tree holds no such node.
    pub fn set_properties(
        &mut self,
        id: NodeId,
        comment: String,
        hidden: bool,
        download_forbidden: bool,
    ) -> (r: bool)
        requires
            old(self)@.wf(),
        ensures
            final(self)@.wf(),
            r == old(self)@.has(id),
            r ==> final(self)@ == (VfsView {
                nodes: old(self)@.nodes.insert(
                    id.0,
                    NodeView { comment: comment@, hidden, download_forbidden, ..old(self)@.node(id) },
                ),
                ..old(self)@
            }),
            !r ==> final(self)@ == old(self)@,
    {
        let mut n = match self.nodes.get(&id.0) {
            Some(n) => n.copy(),
            None => return false,
        };
        let ghost v0 = self@;
        n.comment = comment;
        n.hidden = hidden;
        n.download_forbidden = download_forbidden;
        self.nodes.insert(id.0, n);
        proof {
            let w = self@;
            assert(w.nodes =~= v0.nodes.insert(
                id.0,
                NodeView { comment: comment@, hidden, download_forbidden, ..v0.node(id) },
            ));
            assert forall|k: u64| #[trigger] w.nodes.contains_key(k) implies w.node_ok(k) by {
                assert(v0.node_ok(k));
                let cs = v0.nodes[k].children;
                assert forall|i: int| 0 <= i < cs.len() implies #[trigger] w.child_ok(k, i) by {
                    assert(v0.child_ok(k, i));
                }
                assert(w.siblings_distinct(k)) by {
                    assert forall|a: int, b: int|
                        #![trigger cs[a], cs[b]]
                        0 <= a < cs.len() && 0 <= b < cs.len() && a != b implies !crate::text::eq_ignore_ascii_case(
                        w.nodes[cs[a].0].name,
                        w.nodes[cs[b].0].name,
                    ) by {
                        assert(v0.child_ok(k, a));
                        assert(v0.child_ok(k, b));
                        assert(w.nodes[cs[a].0].name == v0.nodes[cs[a].0].name);
                        assert(w.nodes[cs[b].0].name == v0.nodes[cs[b].0].name);
                    }
                }
                if k != v0.root.0 {
                    let gp = v0.nodes[k].parent->Some_0;
                    assert(w.nodes[gp.0].children == v0.nodes[gp.0].children);
                }
            }
        }
        true
    }

    /// Every node of the tree, each once, in no particular order.
    pub fn nodes(&self) -> (r: Vec<VfsNode>)
        requires
            self@.wf(),
        ensures
            r@.len() == self@.nodes.dom().len(),
            forall|i: int|
                0 <= i < r@.len() ==> self@.nodes.contains_key(#[trigger] r@[i].id.0)
                    && r@[i]@ == self@.nodes[r@[i].id.0],
            forall|i: int, j: int|
                0 <= i < r@.len() && 0 <= j < r@.len() && i != j ==> #[trigger] r@[i].id
                    != #[trigger] r@[j].id,
            forall|k: u64|
                #[trigger] self@.nodes.contains_key(k) ==> exists|i: int|
                    0 <= i < r@.len() && r@[i].id.0 == k,
    {
        let mut out: Vec<VfsNode> = Vec::new();
        broadcast use vstd::std_specs::hash::axiom_spec_keys_iter;
        let ghost ks = vstd::std_specs::hash::spec_keys_iter(&self.nodes).remaining();
        assert(self@.nodes.dom() =~= self.nodes@.dom());
        for k in it: self.nodes.keys()
            invariant
                self@.wf(),
                it.seq() == ks,
                ks.no_duplicates(),
                ks.len() == self@.nodes.dom().len(),
                ks.unref().to_set() == self@.nodes.dom(),
                out@.len() == it.index(),
                forall|i: int|
                    0 <= i < out@.len() ==> self@.nodes.contains_key(#[trigger] out@[i].id.0)
                        && out@[i]@ == self@.nodes[out@[i].id.0] && out@[i].id.0 == *ks[i],
        {
            proof {
                assert(ks.unref().contains(*ks[it.index() as int]));
            }
            let n = self.nodes.get(k).unwrap();
            proof {
                assert(self@.node_ok(*k));
            }
            out.push(n.copy());
        }
        proof {
            assert forall|i: int, j: int|
                0 <= i < out@.len() && 0 <= j < out@.len() && i != j implies #[trigger] out@[i].id
                != #[trigger] out@[j].id by {
                assert(out@[i].id.0 == *ks[i] && out@[j].id.0 == *ks[j]);
                assert(ks[i] != ks[j]);
            }
            assert forall|k: u64| #[trigger] self@.nodes.contains_key(k) implies exists|i: int|
                0 <= i < out@.len() && out@[i].id.0 == k by {
                assert(ks.unref().to_set().contains(k));
                let i = choose|i: int| 0 <= i < ks.unref().len() && ks.unref()[i] == k;
                assert(out@[i].id.0 == *ks[i]);
            }
        }
        out
    }
}

impl ResolveResult {
    /// Where on disk a lookup that ended there (`OnDisk`) points: the real
    /// folder's base with each remaining segment pushed on, as
    /// `PathBuf::push` does with `/`. Other results point nowhere on disk.
    pub fn disk_path(&self) -> (r: Option<String>)
        ensures
            match self@ {
                Resolution::OnDisk { base, segments, .. } => r matches Some(p) && p@ == disk_join(
                    base,
                    segments,
                ),
                _ => r is None,
            },
    {
        match self {
            ResolveResult::OnDisk { base, segments, .. } => {
                let ghost ss = strings_view(segments@);
                let mut acc = chars_of(base.as_str());
                let mut i: usize = 0;
                assert(ss.take(0) =~= Seq::<Seq<char>>::empty());
                while i < segments.len()
                    invariant
                        i <= segments.len(),
                        ss == strings_view(segments@),
                        acc@ == disk_join(base@, ss.take(i as int)),
                    decreases segments.len() - i,
                {
                    let ghost before = acc@;
                    if acc.len() > 0 && acc[acc.len() - 1] != '/' {
                        acc.push('/');
                    }
                    extend_str(&mut acc, segments[i].as_str());
                    proof {
                        assert(ss.take(i + 1).drop_last() =~= ss.take(i as int));
                        assert(ss.take(i + 1).last() == segments@[i as int]@);
                        assert(acc@ =~= push_part(before, segments@[i as int]@));
                    }
                    i += 1;
                }
                assert(ss.take(segments.len() as int) =~= ss);
                Some(string_of(&acc))
            },
            _ => None,
        }
    }

    /// Settles a lookup that ended on disk (`OnDisk`) once the file system
    /// has said what is at its disk path (see `disk_path`): nothing
    /// (`None`), a directory (`Some(true)`) or a file (`Some(false)`).
    /// Other results are handed back as they are.
    pub fn settle(self, probe: Option<bool>) -> (r: ResolveResult)
        ensures
            r@ == settle_spec(self@, probe),
    {
        let path = self.disk_path();
        match self {
            ResolveResult::OnDisk { node_id, segments, .. } => {
                let path = match path {
                    Some(p) => p,
                    None => String::new(),
                };
                match probe {
                    None => ResolveResult::NotFound,
                    Some(true) => {
                        let url_suffix = join_with_slash(&segments);
                        ResolveResult::DiskDir { node_id, path, url_suffix }
                    },
                    Some(false) => ResolveResult::DiskFile { node_id, path },
                }
            },
            other => other,
        }
    }

    /// Whether a resolved path is a directory: a folder node, or a
    /// directory found on disk.
    pub fn is_dir(&self, vfs: &Vfs) -> (r: bool)
        ensures
            r == match self@ {
                Resolution::Node(id) => vfs@.has(id) && is_folder_kind(vfs@.node(id).kind),
                Resolution::DiskDir { .. } => true,
                _ => false,
            },
    {
        match self {
            ResolveResult::Node(id) => match vfs.get(*id) {
                Some(n) => n.is_folder(),
                None => false,
            },
            ResolveResult::DiskDir { .. } => true,
            _ => false,
        }
    }
}

} // verus!
