use hfs_rs::config::{Account, AppConfig};
use hfs_rs::http::page::{format_bytes, html_status_body, render_directory};
use hfs_rs::http::request::{
    check_basic_auth, content_disposition, credentials_match, content_range, mime_type_for, multipart_boundary,
    parse_multipart, parse_upload, route, serve_plan, special_route, unsatisfied_range, Method,
    Route, ServePlan,
};
use hfs_rs::http::{html_escape, join_child_url, parent_path, parse_range, RangeParse};
use hfs_rs::vfs::{DirEntry, ResolveResult, Vfs};

#[test]
fn range_full() {
    assert!(matches!(parse_range(None, 100), RangeParse::Full));
}

#[test]
fn range_partial() {
    match parse_range(Some("bytes=0-9"), 100) {
        RangeParse::Partial { start: 0, end: 9 } => {}
        _ => panic!("expected partial"),
    }
    match parse_range(Some("bytes=50-"), 100) {
        RangeParse::Partial { start: 50, end: 99 } => {}
        _ => panic!("expected open end"),
    }
    match parse_range(Some("bytes=-10"), 100) {
        RangeParse::Partial { start: 90, end: 99 } => {}
        _ => panic!("expected suffix"),
    }
}

#[test]
fn range_edge_cases() {
    assert_eq!(parse_range(Some("items=0-9"), 100), RangeParse::Full);
    assert_eq!(parse_range(Some("bytes="), 100), RangeParse::Full);
    assert_eq!(parse_range(Some("bytes=5"), 100), RangeParse::Full);
    assert_eq!(parse_range(Some("  bytes= 10-20 , 30-40 "), 100), RangeParse::Partial { start: 10, end: 20 });
    assert_eq!(parse_range(Some("bytes=0-9"), 0), RangeParse::Unsatisfiable);
    assert_eq!(parse_range(Some("bytes=-0"), 100), RangeParse::Unsatisfiable);
    assert_eq!(parse_range(Some("bytes=-x"), 100), RangeParse::Unsatisfiable);
    assert_eq!(parse_range(Some("bytes=-500"), 100), RangeParse::Partial { start: 0, end: 99 });
    assert_eq!(parse_range(Some("bytes=100-"), 100), RangeParse::Unsatisfiable);
    assert_eq!(parse_range(Some("bytes=x-5"), 100), RangeParse::Unsatisfiable);
    assert_eq!(parse_range(Some("bytes=5-x"), 100), RangeParse::Unsatisfiable);
    assert_eq!(parse_range(Some("bytes=50-20"), 100), RangeParse::Unsatisfiable);
    assert_eq!(parse_range(Some("bytes=90-1000"), 100), RangeParse::Partial { start: 90, end: 99 });
    assert_eq!(parse_range(Some("bytes=+3-+4"), 100), RangeParse::Partial { start: 3, end: 4 });
}

#[test]
fn escaping() {
    assert_eq!(html_escape("a<b>&\"c\"'"), "a&lt;b&gt;&amp;&quot;c&quot;'");
    assert_eq!(html_escape(""), "");
}

#[test]
fn parents() {
    assert_eq!(parent_path("/"), "/");
    assert_eq!(parent_path("/a/"), "/");
    assert_eq!(parent_path("/a/b/"), "/a/");
    assert_eq!(parent_path("/a/b//"), "/a/");
    assert_eq!(parent_path("/a/b/c"), "/a/b/");
    assert_eq!(parent_path("a"), "/");
    assert_eq!(parent_path(""), "/");
}

#[test]
fn child_urls_are_encoded() {
    assert_eq!(join_child_url("/", "a b.txt", false), "/a%20b%2Etxt");
    assert_eq!(join_child_url("/x", "dir", true), "/x/dir/");
    assert_eq!(join_child_url("/x/", "ü", false), "/x/%C3%BC");
}

#[test]
fn byte_labels() {
    assert_eq!(format_bytes(0), "0 B");
    assert_eq!(format_bytes(1023), "1023 B");
    assert_eq!(format_bytes(1024), "1.0 KB");
    assert_eq!(format_bytes(1536), "1.5 KB");
    assert_eq!(format_bytes(10 * 1024 * 1024 + 1), "10.0 MB");
    assert_eq!(format_bytes(3 * 1024 * 1024 * 1024 / 2), "1.5 GB");
    assert_eq!(format_bytes(u64::MAX), "16777215.9 TB");
}

#[test]
fn directory_page() {
    let entries = vec![
        DirEntry { name: "sub dir".into(), is_dir: true, size: None, mtime: None },
        DirEntry { name: "<a>.txt".into(), is_dir: false, size: Some(2048), mtime: Some("2024-05-01 12:00".into()) },
        DirEntry { name: "empty".into(), is_dir: false, size: None, mtime: None },
    ];
    let html = render_directory("/x/", "/x/", &entries, true);
    assert!(html.starts_with("<!DOCTYPE html><html><head><meta charset=\"utf-8\">"));
    assert!(html.contains("<title>HFS-RS /x/</title>"));
    assert!(html.contains("<a href=\"/\"><span class=\"icon\">^</span>"));
    assert!(html.contains("<div class=\"item dir\"><a href=\"/x/sub%20dir/\"><span class=\"icon\">[D]</span><span class=\"name\">sub dir</span></a><span class=\"mtime\"></span><span class=\"size\">?</span></div>"));
    assert!(html.contains("<span class=\"name\">&lt;a&gt;.txt</span></a><span class=\"mtime\">2024-05-01 12:00</span><span class=\"size\">2.0 KB</span>"));
    assert!(html.contains("<span class=\"name\">empty</span></a><span class=\"mtime\"></span><span class=\"size\">0 B</span>"));
    assert!(html.contains("id=\"upload-form\""));
    let top = render_directory("/", "/", &Vec::new(), false);
    assert!(!top.contains("upload-form"));
    assert!(!top.contains("<span class=\"name\">..</span>"));
    assert!(top.ends_with("<div id=\"files\"></div><div id=\"serverinfo\">Inspired by HFS2 ? Rust + GPUI</div></div></body></html>"));
}

#[test]
fn status_page() {
    let html = html_status_body("404 Not Found", "Resource not found.");
    assert_eq!(
        html,
        "<!DOCTYPE html><html><head><meta charset=\"utf-8\"><title>404 Not Found</title><link rel=\"stylesheet\" href=\"/~style.css\"></head><body><div id=\"wrapper\"><h1>404 Not Found</h1><p>Resource not found.</p><p><a href=\"/\">Home</a></p></div></body></html>"
    );
}

fn config_with_accounts() -> AppConfig {
    let mut cfg = AppConfig::default();
    cfg.accounts.push(Account { name: "admin".into(), password: "secret".into(), enabled: true });
    cfg.accounts.push(Account { name: "off".into(), password: "pw".into(), enabled: false });
    cfg
}

#[test]
fn basic_auth() {
    let cfg = config_with_accounts();
    // admin:secret
    assert!(check_basic_auth(&cfg, Some("Basic YWRtaW46c2VjcmV0")));
    // admin:wrong
    assert!(!check_basic_auth(&cfg, Some("Basic YWRtaW46d3Jvbmc=")));
    // off:pw (disabled)
    assert!(!check_basic_auth(&cfg, Some("Basic b2ZmOnB3")));
    // no colon: "admin"
    assert!(!check_basic_auth(&cfg, Some("Basic YWRtaW4=")));
    assert!(!check_basic_auth(&cfg, Some("Basic !!!")));
    assert!(!check_basic_auth(&cfg, Some("Bearer YWRtaW46c2VjcmV0")));
    assert!(!check_basic_auth(&cfg, None));
    // A password may hold a colon: "admin:se:cret" splits at the first one.
    let mut cfg2 = AppConfig::default();
    cfg2.accounts.push(Account { name: "admin".into(), password: "se:cret".into(), enabled: true });
    assert!(check_basic_auth(&cfg2, Some("Basic YWRtaW46c2U6Y3JldA==")));
}

#[test]
fn boundaries() {
    assert_eq!(multipart_boundary(Some("multipart/form-data; boundary=XyZ ")), Some("XyZ".to_string()));
    assert_eq!(multipart_boundary(Some("multipart/form-data")), None);
    assert_eq!(multipart_boundary(Some("multipart/form-data; charset")), None);
    assert_eq!(multipart_boundary(Some("text/plain; boundary=x")), None);
    assert_eq!(multipart_boundary(None), None);
}

#[test]
fn multipart_files() {
    let body = "--B\r\nContent-Disposition: form-data; name=\"file\"; filename=\"a.txt\"\r\n\r\nhello\r\n--B\r\nContent-Disposition: form-data; name=\"note\"\r\n\r\nignored\r\n--B\r\nContent-Disposition: form-data; name=\"file\"; filename=\"\"\r\n\r\nx\r\n--B\r\nContent-Disposition: form-data; filename=\"e.txt\"\r\n\r\n   \r\n--B--\r\n";
    let files = parse_multipart(body, "B");
    assert_eq!(files, vec![("a.txt".to_string(), b"hello".to_vec())]);
    let bytes = body.as_bytes().to_vec();
    assert_eq!(parse_upload(&bytes, "B"), files);
    assert!(parse_multipart("no parts here", "B").is_empty());
}

#[test]
fn special_paths() {
    assert_eq!(special_route("/favicon.ico"), Some(Route::NoFavicon));
    assert_eq!(special_route("/~style.css"), Some(Route::StyleSheet));
    assert_eq!(special_route("/index.html"), None);
}

#[test]
fn routing() {
    let mut vfs = Vfs::new();
    let root = vfs.root_id();
    let f = vfs.add_file(root, "/d/f.bin").unwrap();
    let l = vfs.add_link(root, "l", "http://x").unwrap();
    let mut cfg = config_with_accounts();
    assert_eq!(route(Method::Get, &vfs, &ResolveResult::Node(root), &cfg, None), Route::Listing);
    assert_eq!(route(Method::Head, &vfs, &ResolveResult::Node(f), &cfg, None), Route::File("/d/f.bin".into()));
    assert_eq!(route(Method::Get, &vfs, &ResolveResult::Node(l), &cfg, None), Route::NotAFile);
    assert_eq!(route(Method::Get, &vfs, &ResolveResult::NotFound, &cfg, None), Route::NotFound);
    assert_eq!(route(Method::Get, &vfs, &ResolveResult::Forbidden, &cfg, None), Route::Forbidden);
    assert_eq!(route(Method::Other, &vfs, &ResolveResult::Node(root), &cfg, None), Route::MethodNotAllowed);
    assert_eq!(route(Method::Post, &vfs, &ResolveResult::Node(root), &cfg, None), Route::Upload);
    cfg.protect_uploads = true;
    assert_eq!(route(Method::Post, &vfs, &ResolveResult::Node(root), &cfg, None), Route::Unauthorized);
    assert_eq!(
        route(Method::Post, &vfs, &ResolveResult::Node(root), &cfg, Some("Basic YWRtaW46c2VjcmV0")),
        Route::Upload
    );
    cfg.allow_upload = false;
    assert_eq!(route(Method::Post, &vfs, &ResolveResult::Node(root), &cfg, None), Route::UploadsNotAllowed);
}

#[test]
fn serving_plans() {
    assert_eq!(serve_plan(100, None), ServePlan::Send { partial: false, start: 0, end: 99, content_len: 100 });
    assert_eq!(serve_plan(100, Some("bytes=0-4")), ServePlan::Send { partial: true, start: 0, end: 4, content_len: 5 });
    assert_eq!(serve_plan(100, Some("bytes=200-")), ServePlan::Unsatisfiable);
    assert_eq!(serve_plan(0, None), ServePlan::Send { partial: false, start: 0, end: 0, content_len: 1 });
    assert_eq!(content_range(0, 4, 25), "bytes 0-4/25");
    assert_eq!(unsatisfied_range(25), "bytes */25");
    assert_eq!(content_disposition("a.txt"), "inline; filename=\"a.txt\"");
}

#[test]
fn mime_types() {
    assert_eq!(mime_type_for("index.html"), "text/html");
    assert_eq!(mime_type_for("photo.PNG"), "image/png");
    assert_eq!(mime_type_for("README"), "application/octet-stream");
    assert_eq!(mime_type_for(".bashrc"), "application/octet-stream");
    assert_eq!(mime_type_for("archive.unknownext"), "application/octet-stream");
}

#[test]
fn decoded_credentials() {
    let cfg = config_with_accounts();
    assert!(credentials_match(&cfg, Some(b"admin:secret".to_vec())));
    assert!(!credentials_match(&cfg, Some(b"admin:secret ".to_vec())));
    assert!(!credentials_match(&cfg, Some(vec![0xff, b':', b'x'])));
    assert!(!credentials_match(&cfg, None));
}
