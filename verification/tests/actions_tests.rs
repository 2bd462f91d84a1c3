use hfs_rs::actions::{
    add_account, apply_network_settings, apply_server_options, set_upload_policy, toggle_account,
    upload_policy, UploadPolicy, filter_logs, link_name, log_text, parse_bounded, push_log,
    remove_account, selected_url, status_msg, toggle_server_action, LogEntry, ServerAction,
    LOG_CAPACITY,
};
use hfs_rs::config::AppConfig;
use hfs_rs::i18n::Msg;
use hfs_rs::server::{LogLevel, ServerStatus};
use hfs_rs::theme::ThemeMode;
use hfs_rs::vfs::{NodeId, Vfs};
use std::collections::HashSet;

fn line(text: &str) -> LogEntry {
    LogEntry { level: LogLevel::Info, time: "12:00:00".into(), text: text.into() }
}

#[test]
fn server_button() {
    assert_eq!(toggle_server_action(ServerStatus::Stopped), ServerAction::Start);
    assert_eq!(toggle_server_action(ServerStatus::Starting), ServerAction::Stop);
    assert_eq!(toggle_server_action(ServerStatus::Running), ServerAction::Stop);
    assert_eq!(toggle_server_action(ServerStatus::Stopping), ServerAction::Nothing);
    assert_eq!(status_msg(ServerStatus::Running), Msg::ServerOn);
    assert_eq!(status_msg(ServerStatus::Stopped), Msg::ServerOff);
}

#[test]
fn theme_button() {
    assert_eq!(ThemeMode::Dark.toggled(true), ThemeMode::Light);
    assert_eq!(ThemeMode::Light.toggled(true), ThemeMode::Dark);
    assert_eq!(ThemeMode::System.toggled(true), ThemeMode::Light);
    assert_eq!(ThemeMode::System.toggled(false), ThemeMode::Dark);
}

#[test]
fn where_new_items_go() {
    let mut vfs = Vfs::new();
    let root = vfs.root_id();
    let dir = vfs.add_virtual_folder(root, "d").unwrap();
    let f = vfs.add_file(dir, "/x/f").unwrap();
    assert_eq!(vfs.target_parent(None), root);
    assert_eq!(vfs.target_parent(Some(dir)), dir);
    assert_eq!(vfs.target_parent(Some(f)), dir);
    assert_eq!(vfs.target_parent(Some(NodeId(99))), root);
}

#[test]
fn addresses_of_nodes() {
    assert_eq!(selected_url("http://127.0.0.1:8080/", "/a/b/"), "http://127.0.0.1:8080/a/b/");
    assert_eq!(selected_url("http://h//", "/a/"), "http://h/a/");
    assert_eq!(selected_url("http://h", "/a/"), "http://h/a/");
    assert_eq!(selected_url("http://h/", "a"), "http://h/a");
}

#[test]
fn link_names() {
    assert_eq!(link_name("site", "https://example.com/x"), "site");
    assert_eq!(link_name("  ", "https://example.com/docs/"), "docs");
    assert_eq!(link_name("", "example"), "example");
    assert_eq!(link_name("", ""), "");
}

#[test]
fn option_parsing() {
    assert_eq!(parse_bounded(" 8081 ", 65535), Some(8081));
    assert_eq!(parse_bounded("70000", 65535), None);
    assert_eq!(parse_bounded("", 65535), None);
    assert_eq!(parse_bounded("+5", 10), Some(5));
    let mut cfg = AppConfig::default();
    apply_server_options(&mut cfg, "9000", "10", "64", false, false, false, false, true);
    assert_eq!(cfg.port, 9000);
    assert_eq!(cfg.max_connections, Some(10));
    assert_eq!(cfg.upload_max_mb, 64);
    assert!(!cfg.auto_copy_url_on_add && !cfg.send_server_header && !cfg.allow_upload);
    assert!(cfg.protect_uploads);
    apply_server_options(&mut cfg, "99999", "none", "x", true, true, true, true, false);
    assert_eq!(cfg.port, 9000);
    assert_eq!(cfg.max_connections, None);
    assert_eq!(cfg.upload_max_mb, 64);
}

#[test]
fn accounts() {
    let mut cfg = AppConfig::default();
    assert!(!add_account(&mut cfg, "   ", "pw"));
    assert!(cfg.accounts.is_empty());
    assert!(add_account(&mut cfg, " ann ", " pw "));
    assert_eq!(cfg.accounts[0].name, "ann");
    assert_eq!(cfg.accounts[0].password, "pw");
    assert!(cfg.accounts[0].enabled);
    assert!(cfg.find_account("ann", "pw"));
    assert!(remove_account(&mut cfg, 5).is_none());
    let removed = remove_account(&mut cfg, 0).unwrap();
    assert_eq!(removed.name, "ann");
    assert!(cfg.accounts.is_empty());
}

#[test]
fn log_pane() {
    let mut logs = Vec::new();
    for i in 0..(LOG_CAPACITY + 5) {
        push_log(&mut logs, line(&format!("line {i}")));
    }
    assert_eq!(logs.len(), LOG_CAPACITY);
    assert_eq!(logs[0].text, "line 5");
    assert_eq!(logs[LOG_CAPACITY - 1].text, format!("line {}", LOG_CAPACITY + 4));

    let small = vec![line("Server STARTED"), line("GET /a"), line("server stopped")];
    assert_eq!(filter_logs(&small, " Server "), vec![0, 2]);
    assert_eq!(filter_logs(&small, ""), vec![0, 1, 2]);
    assert_eq!(filter_logs(&small, "nothing"), Vec::<usize>::new());
    assert_eq!(log_text(&small[..2].to_vec()), "[12:00:00] Server STARTED\n[12:00:00] GET /a");
    assert_eq!(log_text(&Vec::new()), "");
}

#[test]
fn tree_pane_rows() {
    let mut vfs = Vfs::new();
    let root = vfs.root_id();
    let a = vfs.add_virtual_folder(root, "a").unwrap();
    let a1 = vfs.add_file(a, "/x/a1").unwrap();
    let b = vfs.add_virtual_folder(root, "b").unwrap();
    let mut expanded = HashSet::new();
    let rows = vfs.visible_rows(&expanded);
    assert_eq!(rows.len(), 1);
    assert_eq!((rows[0].depth, rows[0].id, rows[0].has_children), (0, root, true));
    expanded.insert(root.0);
    let rows: Vec<(usize, NodeId, bool)> =
        vfs.visible_rows(&expanded).iter().map(|r| (r.depth, r.id, r.has_children)).collect();
    assert_eq!(rows, vec![(0, root, true), (1, a, true), (1, b, false)]);
    expanded.insert(a.0);
    let rows: Vec<(usize, NodeId, bool)> =
        vfs.visible_rows(&expanded).iter().map(|r| (r.depth, r.id, r.has_children)).collect();
    assert_eq!(rows, vec![(0, root, true), (1, a, true), (2, a1, false), (1, b, false)]);
}

#[test]
fn network_settings_fall_back_to_defaults() {
    let mut cfg = AppConfig::default();
    cfg.port = 9000;
    cfg.upload_max_mb = 7;
    apply_network_settings(&mut cfg, " 8181 ", "12", "64");
    assert_eq!(cfg.port, 8181);
    assert_eq!(cfg.max_connections, Some(12));
    assert_eq!(cfg.upload_max_mb, 64);
    apply_network_settings(&mut cfg, "99999", "many", "lots");
    assert_eq!(cfg.port, 8080);
    assert_eq!(cfg.max_connections, None);
    assert_eq!(cfg.upload_max_mb, 512);
    apply_network_settings(&mut cfg, "+80", "", "0");
    assert_eq!(cfg.port, 80);
    assert_eq!(cfg.upload_max_mb, 0);
}

#[test]
fn upload_policy_choices() {
    let mut cfg = AppConfig::default();
    set_upload_policy(&mut cfg, UploadPolicy::from_key("protect"));
    assert!(cfg.allow_upload && cfg.protect_uploads);
    assert_eq!(upload_policy(&cfg), UploadPolicy::Protected);
    assert_eq!(upload_policy(&cfg).label(), Msg::UploadProtected);
    set_upload_policy(&mut cfg, UploadPolicy::from_key("public"));
    assert!(cfg.allow_upload && !cfg.protect_uploads);
    assert_eq!(upload_policy(&cfg), UploadPolicy::Public);
    set_upload_policy(&mut cfg, UploadPolicy::from_key("disable"));
    assert!(!cfg.allow_upload && !cfg.protect_uploads);
    assert_eq!(upload_policy(&cfg).label(), Msg::UploadDisabled);
    assert_eq!(UploadPolicy::from_key("whatever"), UploadPolicy::Disabled);
}

#[test]
fn accounts_switch_on_and_off() {
    let mut cfg = AppConfig::default();
    assert!(add_account(&mut cfg, "ann", "pw"));
    toggle_account(&mut cfg, 0);
    assert!(!cfg.accounts[0].enabled);
    assert_eq!(cfg.accounts[0].name, "ann");
    toggle_account(&mut cfg, 0);
    assert!(cfg.accounts[0].enabled);
    toggle_account(&mut cfg, 5);
    assert_eq!(cfg.accounts.len(), 1);
}
