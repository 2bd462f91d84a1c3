use hfs_rs::vfs::{DirEntry, NodeId, NodeKind, ResolveResult, Vfs, VfsError};

fn entry(name: &str, is_dir: bool, size: Option<u64>) -> DirEntry {
    DirEntry { name: name.to_string(), is_dir, size, mtime: None }
}

#[test]
fn add_and_resolve_file() {
    let file = std::path::Path::new("/srv/share").join("hello.txt");
    let file_s = file.to_string_lossy().to_string();
    let mut vfs = Vfs::new();
    let id = vfs.add_file(vfs.root_id(), &file_s).unwrap();
    let r = vfs.resolve("/hello.txt");
    match r {
        ResolveResult::Node(nid) => assert_eq!(nid, id),
        ref other => panic!("unexpected {other:?}"),
    }
    assert_eq!(vfs.file_path_for(&r).unwrap(), file_s);
}

#[test]
fn real_folder_dynamic() {
    let dir = std::path::Path::new("/srv/data");
    let nested = dir.join("sub");
    let file = nested.join("a.bin");
    let mut vfs = Vfs::new();
    let folder_name = dir.file_name().unwrap().to_string_lossy().to_string();
    vfs.add_real_folder(vfs.root_id(), &dir.to_string_lossy()).unwrap();
    let path = format!("/{folder_name}/sub/a.bin");
    let r = vfs.resolve(&path);
    assert_eq!(r.disk_path().map(std::path::PathBuf::from), Some(file.clone()));
    let settled = r.settle(Some(false));
    match settled {
        ResolveResult::DiskFile { path, .. } => assert_eq!(std::path::PathBuf::from(path), file),
        other => panic!("unexpected {other:?}"),
    }
}

#[test]
fn new_tree_has_only_the_root() {
    let vfs = Vfs::new();
    let root = vfs.root_id();
    assert_eq!(root, NodeId(1));
    let n = vfs.get(root).unwrap();
    assert_eq!(n.kind, NodeKind::Root);
    assert_eq!(n.display_name(), "Home");
    assert!(n.is_folder());
    assert!(vfs.get(NodeId(2)).is_none());
    assert_eq!(vfs.flat_tree(), vec![(0, root)]);
    assert_eq!(vfs.url_path(root), "/");
    match vfs.resolve("/") {
        ResolveResult::Node(id) => assert_eq!(id, root),
        other => panic!("unexpected {other:?}"),
    }
}

#[test]
fn names_are_made_unique_ignoring_ascii_case() {
    let mut vfs = Vfs::new();
    let root = vfs.root_id();
    let a = vfs.add_virtual_folder(root, "Docs").unwrap();
    let b = vfs.add_virtual_folder(root, "docs").unwrap();
    let c = vfs.add_virtual_folder(root, "DOCS").unwrap();
    assert_eq!(vfs.get(a).unwrap().name, "Docs");
    assert_eq!(vfs.get(b).unwrap().name, "docs (2)");
    assert_eq!(vfs.get(c).unwrap().name, "DOCS (3)");
    assert_eq!((a, b, c), (NodeId(2), NodeId(3), NodeId(4)));
    assert_eq!(vfs.get(root).unwrap().children, vec![a, b, c]);
}

#[test]
fn add_refusals() {
    let mut vfs = Vfs::new();
    let root = vfs.root_id();
    assert!(matches!(vfs.add_virtual_folder(root, ""), Err(VfsError::InvalidName)));
    assert!(matches!(vfs.add_virtual_folder(root, "a/b"), Err(VfsError::InvalidName)));
    assert!(matches!(vfs.add_virtual_folder(root, "a\\b"), Err(VfsError::InvalidName)));
    assert!(matches!(vfs.add_virtual_folder(NodeId(99), "x"), Err(VfsError::NotFound(NodeId(99)))));
    let f = vfs.add_file(root, "/tmp/f.txt").unwrap();
    assert!(matches!(vfs.add_virtual_folder(f, "x"), Err(VfsError::NotAFolder)));
    assert!(matches!(vfs.add_link(root, "site", "   "), Err(VfsError::InvalidName)));
    assert!(matches!(vfs.add_file_with_name(root, None, "/tmp/"), Err(VfsError::InvalidName)));
    assert!(matches!(
        vfs.add_file_with_name(root, Some(String::new()), "/tmp/"),
        Err(VfsError::InvalidName)
    ));
    // Nothing was added by the refusals.
    assert_eq!(vfs.flat_tree(), vec![(0, root), (1, f)]);
}

#[test]
fn link_and_named_additions() {
    let mut vfs = Vfs::new();
    let root = vfs.root_id();
    let l = vfs.add_link(root, "site", "https://example.com").unwrap();
    let n = vfs.get(l).unwrap();
    assert_eq!(n.kind, NodeKind::Link);
    assert_eq!(n.resource.as_deref(), Some("https://example.com"));
    let rf = vfs.add_real_folder_with_name(root, None, "C:").unwrap();
    assert_eq!(vfs.get(rf).unwrap().name, "C:");
    let rf2 = vfs.add_real_folder_with_name(root, Some("music".into()), "/home/u/music").unwrap();
    assert_eq!(vfs.get(rf2).unwrap().name, "music");
    assert_eq!(vfs.get(rf2).unwrap().kind, NodeKind::RealFolder);
}

#[test]
fn rename_rules() {
    let mut vfs = Vfs::new();
    let root = vfs.root_id();
    let a = vfs.add_virtual_folder(root, "a").unwrap();
    let b = vfs.add_virtual_folder(root, "b").unwrap();
    assert!(matches!(vfs.rename(root, "x"), Err(VfsError::InvalidRootOp)));
    assert!(matches!(vfs.rename(a, "x/y"), Err(VfsError::InvalidName)));
    assert!(matches!(vfs.rename(NodeId(42), "x"), Err(VfsError::NotFound(NodeId(42)))));
    match vfs.rename(a, "B") {
        Err(VfsError::NameExists(n)) => assert_eq!(n, "B"),
        other => panic!("unexpected {other:?}"),
    }
    // Renaming to a case variant of its own name is fine.
    vfs.rename(b, "B").unwrap();
    assert_eq!(vfs.get(b).unwrap().name, "B");
    vfs.rename(a, "alpha").unwrap();
    assert_eq!(vfs.url_path(a), "/alpha/");
}

#[test]
fn remove_takes_the_whole_subtree() {
    let mut vfs = Vfs::new();
    let root = vfs.root_id();
    let a = vfs.add_virtual_folder(root, "a").unwrap();
    let b = vfs.add_virtual_folder(a, "b").unwrap();
    let c = vfs.add_file(b, "/tmp/c.txt").unwrap();
    let d = vfs.add_virtual_folder(root, "d").unwrap();
    assert!(matches!(vfs.remove(root), Err(VfsError::InvalidRootOp)));
    assert!(matches!(vfs.remove(NodeId(77)), Err(VfsError::NotFound(NodeId(77)))));
    vfs.remove(a).unwrap();
    assert!(vfs.get(a).is_none());
    assert!(vfs.get(b).is_none());
    assert!(vfs.get(c).is_none());
    assert_eq!(vfs.get(root).unwrap().children, vec![d]);
    assert!(matches!(vfs.resolve("/a/b/c.txt"), ResolveResult::NotFound));
    assert_eq!(vfs.flat_tree(), vec![(0, root), (1, d)]);
}

#[test]
fn add_then_remove_gives_back_the_tree() {
    let mut vfs = Vfs::new();
    let root = vfs.root_id();
    vfs.add_virtual_folder(root, "keep").unwrap();
    let before = vfs.flat_tree();
    let before_children = vfs.get(root).unwrap().children.clone();
    let x = vfs.add_virtual_folder(root, "temp").unwrap();
    vfs.remove(x).unwrap();
    assert_eq!(vfs.flat_tree(), before);
    assert_eq!(vfs.get(root).unwrap().children, before_children);
    // The id stays spent.
    let y = vfs.add_virtual_folder(root, "next").unwrap();
    assert_eq!(y, NodeId(x.0 + 1));
}

#[test]
fn url_path_resolves_back() {
    let mut vfs = Vfs::new();
    let root = vfs.root_id();
    let a = vfs.add_virtual_folder(root, "my files").unwrap();
    let b = vfs.add_virtual_folder(a, "2024").unwrap();
    let f = vfs.add_file(b, "/data/report.pdf").unwrap();
    let url = vfs.url_path(f);
    assert_eq!(url, "/my files/2024/report.pdf/");
    match vfs.resolve(&url) {
        ResolveResult::Node(id) => assert_eq!(id, f),
        other => panic!("unexpected {other:?}"),
    }
    for id in [root, a, b] {
        match vfs.resolve(&vfs.url_path(id)) {
            ResolveResult::Node(got) => assert_eq!(got, id),
            other => panic!("unexpected {other:?}"),
        }
    }
}

#[test]
fn resolve_decodes_and_normalises() {
    let mut vfs = Vfs::new();
    let root = vfs.root_id();
    let a = vfs.add_virtual_folder(root, "a b").unwrap();
    let f = vfs.add_file(a, "/x/ü.txt").unwrap();
    match vfs.resolve("/a%20b//./%C3%BC.txt") {
        ResolveResult::Node(id) => assert_eq!(id, f),
        other => panic!("unexpected {other:?}"),
    }
    assert!(matches!(vfs.resolve("/a%20b/../x"), ResolveResult::Forbidden));
    assert!(matches!(vfs.resolve("/nothing"), ResolveResult::NotFound));
    // Exact names only.
    assert!(matches!(vfs.resolve("/A%20B/"), ResolveResult::NotFound));
}

#[test]
fn disk_directories_settle() {
    let mut vfs = Vfs::new();
    let root = vfs.root_id();
    let rf = vfs.add_real_folder_with_name(root, Some("pub".into()), "/srv/pub").unwrap();
    let r = vfs.resolve("/pub/x/y/");
    match &r {
        ResolveResult::OnDisk { node_id, base, segments } => {
            assert_eq!(*node_id, rf);
            assert_eq!(base, "/srv/pub");
            assert_eq!(segments, &vec!["x".to_string(), "y".to_string()]);
        }
        other => panic!("unexpected {other:?}"),
    }
    let dir = r.clone().settle(Some(true));
    match &dir {
        ResolveResult::DiskDir { node_id, path, url_suffix } => {
            assert_eq!(*node_id, rf);
            assert_eq!(path, "/srv/pub/x/y");
            assert_eq!(url_suffix, "x/y");
        }
        other => panic!("unexpected {other:?}"),
    }
    assert!(dir.is_dir(&vfs));
    assert_eq!(vfs.upload_dir_for(&dir), Some("/srv/pub/x/y".to_string()));
    assert!(matches!(r.settle(None), ResolveResult::NotFound));
    let node = vfs.resolve("/pub/");
    assert!(node.is_dir(&vfs));
    assert_eq!(vfs.upload_dir_for(&node), Some("/srv/pub".to_string()));
    assert_eq!(vfs.file_path_for(&node), None);
    // A virtual folder takes no uploads.
    let v = vfs.add_virtual_folder(root, "v").unwrap();
    assert_eq!(vfs.upload_dir_for(&ResolveResult::Node(v)), None);
}

#[test]
fn listing_of_virtual_folder_keeps_order_and_hides() {
    let mut vfs = Vfs::new();
    let root = vfs.root_id();
    let z = vfs.add_file(root, "/d/z.txt").unwrap();
    let a = vfs.add_virtual_folder(root, "a").unwrap();
    let h = vfs.add_file(root, "/d/h.txt").unwrap();
    assert!(vfs.set_properties(h, "secret".into(), true, false));
    assert!(!vfs.set_properties(NodeId(500), String::new(), true, false));
    assert_eq!(vfs.get(h).unwrap().comment, "secret");
    let metas = vec![(Some(5), Some("2024-01-01 10:00".to_string())), (None, None), (Some(9), None)];
    let list = vfs.list_dir(&ResolveResult::Node(root), &metas, &Vec::new());
    assert_eq!(list.len(), 2);
    assert_eq!(list[0].name, "z.txt");
    assert_eq!(list[0].size, Some(5));
    assert_eq!(list[0].mtime.as_deref(), Some("2024-01-01 10:00"));
    assert!(!list[0].is_dir);
    assert_eq!(list[1].name, "a");
    assert!(list[1].is_dir);
    let _ = (z, a);
}

#[test]
fn listing_of_real_folder_merges_and_sorts() {
    let mut vfs = Vfs::new();
    let root = vfs.root_id();
    let rf = vfs.add_real_folder_with_name(root, Some("pub".into()), "/srv/pub").unwrap();
    vfs.add_file(rf, "/elsewhere/Notes.txt").unwrap();
    let disk = vec![
        entry("beta.txt", false, Some(3)),
        entry(".hidden", false, Some(1)),
        entry("Notes.txt", false, Some(7)),
        entry("zeta", true, None),
        entry("Alpha.txt", false, Some(2)),
        entry("docs", true, None),
    ];
    let metas = vec![(Some(100), Some("t".to_string()))];
    let list = vfs.list_dir(&ResolveResult::Node(rf), &metas, &disk);
    let names: Vec<&str> = list.iter().map(|e| e.name.as_str()).collect();
    assert_eq!(names, vec!["docs", "zeta", "Alpha.txt", "beta.txt", "Notes.txt"]);
    // The explicit child wins over the disk entry of the same name, without a time.
    let notes = list.iter().find(|e| e.name == "Notes.txt").unwrap();
    assert_eq!(notes.size, Some(100));
    assert_eq!(notes.mtime, None);
}

#[test]
fn listing_of_disk_directory_sorts_and_hides_dot_names() {
    let vfs = Vfs::new();
    let dir = ResolveResult::DiskDir {
        node_id: vfs.root_id(),
        path: "/srv/x".into(),
        url_suffix: "x".into(),
    };
    let disk = vec![
        entry("b", false, Some(1)),
        entry(".git", true, None),
        entry("a", true, None),
        entry("A", false, Some(2)),
    ];
    let list = vfs.list_dir(&dir, &Vec::new(), &disk);
    let names: Vec<&str> = list.iter().map(|e| e.name.as_str()).collect();
    assert_eq!(names, vec!["a", "A", "b"]);
    assert!(vfs.list_dir(&ResolveResult::NotFound, &Vec::new(), &disk).is_empty());
}

#[test]
fn flat_tree_is_depth_first() {
    let mut vfs = Vfs::new();
    let root = vfs.root_id();
    let a = vfs.add_virtual_folder(root, "a").unwrap();
    let b = vfs.add_virtual_folder(root, "b").unwrap();
    let a1 = vfs.add_virtual_folder(a, "a1").unwrap();
    let a1x = vfs.add_file(a1, "/f/x").unwrap();
    assert_eq!(vfs.flat_tree(), vec![(0, root), (1, a), (2, a1), (3, a1x), (1, b)]);
}

#[test]
fn parts_round_trip_and_checks() {
    let mut vfs = Vfs::new();
    let root = vfs.root_id();
    let a = vfs.add_virtual_folder(root, "a").unwrap();
    vfs.add_file(a, "/f/b.txt").unwrap();
    let (next, r, nodes) = vfs.to_parts();
    assert_eq!(nodes.len(), 3);
    assert_eq!(vfs.nodes().len(), 3);
    let back = Vfs::from_parts(next, r, nodes.clone()).unwrap();
    assert_eq!(back.flat_tree(), vfs.flat_tree());
    assert_eq!(back.url_path(a), "/a/");
    // A duplicated node is refused.
    let mut dup = nodes.clone();
    dup.push(nodes[0].clone());
    assert!(Vfs::from_parts(next, r, dup).is_none());
    // A next id that is not above every id is refused.
    assert!(Vfs::from_parts(2, r, nodes.clone()).is_none());
    // A missing root is refused.
    assert!(Vfs::from_parts(next, NodeId(50), nodes).is_none());
}

#[test]
fn decoded_paths_are_taken_as_they_are() {
    let mut vfs = Vfs::default();
    let root = vfs.root_id();
    let a = vfs.add_virtual_folder(root, "100%").unwrap();
    match vfs.resolve_decoded_path("/100%/") {
        ResolveResult::Node(id) => assert_eq!(id, a),
        other => panic!("unexpected {other:?}"),
    }
    match vfs.resolve("/100%25/") {
        ResolveResult::Node(id) => assert_eq!(id, a),
        other => panic!("unexpected {other:?}"),
    }
    assert!(matches!(vfs.resolve_decoded_path("/100%/.."), ResolveResult::Forbidden));
    assert_eq!(vfs.next_id(), 3);
}

#[test]
fn escaped_dots_are_refused() {
    let vfs = Vfs::new();
    assert!(matches!(vfs.resolve("/%2e%2e/x"), ResolveResult::Forbidden));
    assert!(matches!(vfs.resolve("/%2E./x"), ResolveResult::Forbidden));
    assert!(matches!(vfs.resolve("/a/.%2e"), ResolveResult::Forbidden));
}

#[test]
fn files_without_a_name_are_refused() {
    let mut vfs = Vfs::new();
    let root = vfs.root_id();
    assert!(matches!(vfs.add_file(root, "/"), Err(VfsError::InvalidName)));
    assert!(matches!(vfs.add_file(root, "/srv/a/.."), Err(VfsError::InvalidName)));
    assert_eq!(vfs.flat_tree().len(), 1);
}

#[test]
fn error_messages() {
    assert_eq!(VfsError::NotFound(NodeId(7)).message(), "node not found: NodeId(7)");
    assert_eq!(VfsError::NameExists("a.txt".to_string()).message(), "name already exists: a.txt");
    assert_eq!(VfsError::NotAFolder.message(), "not a folder");
    assert_eq!(VfsError::InvalidRootOp.message(), "cannot modify root that way");
    assert_eq!(VfsError::InvalidName.message(), "invalid name");
    assert_eq!(VfsError::Io("denied".to_string()).message(), "io error: denied");
}

#[test]
fn files_and_folders_are_named_after_their_paths() {
    let mut vfs = Vfs::new();
    let root = vfs.root_id();
    let f = vfs.add_file(root, "/tmp/t/hello.txt").unwrap();
    assert_eq!(vfs.get(f).unwrap().name, "hello.txt");
    assert!(matches!(vfs.resolve("/hello.txt"), ResolveResult::Node(n) if n == f));
    assert_eq!(vfs.file_path_for(&vfs.resolve("/hello.txt")), Some("/tmp/t/hello.txt".to_string()));
    let d = vfs.add_real_folder(root, "/srv/share").unwrap();
    assert_eq!(d, NodeId(3));
    assert_eq!(vfs.get(d).unwrap().name, "share");
    assert_eq!(vfs.get(d).unwrap().kind, NodeKind::RealFolder);
    assert!(matches!(vfs.add_real_folder(root, "/"), Err(VfsError::InvalidName)));
}

#[test]
fn disk_paths_join_the_base_and_the_segments() {
    let mut vfs = Vfs::new();
    let root = vfs.root_id();
    vfs.add_real_folder_with_name(root, Some("a".into()), "/srv/a/").unwrap();
    vfs.add_real_folder_with_name(root, Some("b".into()), "/srv/b").unwrap();
    assert_eq!(vfs.resolve("/a/x/y.txt").disk_path(), Some("/srv/a/x/y.txt".to_string()));
    assert_eq!(vfs.resolve("/b/x/y.txt").disk_path(), Some("/srv/b/x/y.txt".to_string()));
    assert_eq!(vfs.resolve("/b").disk_path(), None);
    assert_eq!(vfs.resolve("/nothing").disk_path(), None);
}
