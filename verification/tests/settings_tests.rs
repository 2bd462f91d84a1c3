use hfs_rs::config::{default_true, default_upload_max, Account, AppConfig, DEFAULT_BIND, DEFAULT_PORT};
use hfs_rs::i18n::{
    lang_is_zh, lcid_is_zh,
    current_from, format_added, format_copied_url, format_err, format_listening, format_n, Locale, Msg,
};
use hfs_rs::server::{accepts_connection, ui_emit, Lifecycle, ServerStatus};
use hfs_rs::theme::{detect_system_is_dark, light_theme_value_is_dark, ThemeMode};

#[test]
fn locale_resolution() {
    assert_eq!(Locale::System.resolve(true), Locale::Zh);
    assert_eq!(Locale::System.resolve(false), Locale::En);
    assert_eq!(Locale::Zh.resolve(false), Locale::Zh);
    assert_eq!(Locale::En.resolve(true), Locale::En);
    assert_eq!(Locale::default(), Locale::System);
    assert_eq!(Locale::System.native_name(), "跟随系统");
    assert_eq!(Locale::Zh.native_name(), "简体中文");
    assert_eq!(Locale::En.native_name(), "English");
}

#[test]
fn locale_toggle() {
    assert_eq!(Locale::Zh.toggle(false), Locale::En);
    assert_eq!(Locale::En.toggle(true), Locale::Zh);
    assert_eq!(Locale::System.toggle(true), Locale::En);
    assert_eq!(Locale::System.toggle(false), Locale::Zh);
    for l in [Locale::System, Locale::Zh, Locale::En] {
        for sys in [false, true] {
            assert_eq!(l.toggle(sys).toggle(sys), l.resolve(sys));
            assert_ne!(l.toggle(sys), l.resolve(sys));
        }
    }
    assert_eq!(Locale::Zh.switch_label(false), "English");
    assert_eq!(Locale::En.switch_label(true), "中文");
    assert_eq!(Locale::System.switch_label(true), "English");
}

#[test]
fn locale_codes() {
    for l in [Locale::System, Locale::Zh, Locale::En] {
        for sys in [false, true] {
            assert_eq!(current_from(l.code(), sys), l.resolve(sys));
        }
    }
    assert_eq!(current_from(7, true), Locale::Zh);
    assert_eq!(current_from(0, false), Locale::En);
}

#[test]
fn message_table() {
    assert_eq!(Msg::AppTitle.get(Locale::Zh, false), "HFS-RS ~ HTTP 文件服务器");
    assert_eq!(Msg::AppTitle.get(Locale::En, true), "HFS-RS ~ HTTP File Server");
    assert_eq!(Msg::AppTitle.get(Locale::System, true), "HFS-RS ~ HTTP 文件服务器");
    assert_eq!(Msg::Eta.get(Locale::System, false), "ETA");
    assert_eq!(Msg::Online.get(Locale::Zh, false), "运行中");
    for sys in [false, true] {
        assert_eq!(Msg::Menu.get(Locale::System, sys), Msg::Menu.get(Locale::System.resolve(sys), sys));
    }
}

#[test]
fn message_formatting() {
    assert_eq!(format_n(Msg::AddedItems, Locale::En, false, 3), "Added 3 item(s)");
    assert_eq!(format_added(Locale::Zh, false, 12), "已添加 12 项");
    assert_eq!(format_err(Msg::AddFailed, Locale::En, false, "disk full"), "Failed to add: disk full");
    assert_eq!(format_err(Msg::Menu, Locale::En, false, "x"), "Menu");
    let listening = format_listening(Locale::En, false, "0.0.0.0:8080");
    assert!(listening.ends_with(" http://0.0.0.0:8080/"));
    assert!(listening.starts_with(Msg::ListeningOn.get(Locale::En, false)));
    let copied = format_copied_url(Locale::En, false, "http://127.0.0.1:8080/");
    assert_eq!(copied, format!("{}: http://127.0.0.1:8080/", Msg::CopiedUrl.get(Locale::En, false)));
}

#[test]
fn config_defaults() {
    let c = AppConfig::default();
    assert_eq!(c.port, DEFAULT_PORT);
    assert_eq!(c.bind, DEFAULT_BIND);
    assert!(!c.expert_mode);
    assert!(c.auto_copy_url_on_add && c.send_server_header && c.open_in_browser_use_localhost);
    assert!(c.show_bandwidth_graph && c.allow_upload && !c.protect_uploads);
    assert_eq!(c.locale, Locale::System);
    assert_eq!(c.theme_mode, ThemeMode::System);
    assert_eq!(c.max_connections, None);
    assert_eq!(c.upload_max_mb, 512);
    assert!(c.accounts.is_empty());
    assert!(default_true());
    assert_eq!(default_upload_max(), 512);
}

#[test]
fn addresses() {
    let mut c = AppConfig::default();
    assert_eq!(c.listen_addr(), "0.0.0.0:8080");
    assert_eq!(c.public_base_url(), "http://127.0.0.1:8080/");
    c.open_in_browser_use_localhost = false;
    assert_eq!(c.public_base_url(), "http://127.0.0.1:8080/");
    c.bind = "192.168.1.5".into();
    c.port = 80;
    assert_eq!(c.public_base_url(), "http://192.168.1.5/");
    assert_eq!(c.listen_addr(), "192.168.1.5:80");
    c.open_in_browser_use_localhost = true;
    assert_eq!(c.public_base_url(), "http://127.0.0.1/");
}

#[test]
fn upload_limits_and_accounts() {
    let mut c = AppConfig::default();
    assert_eq!(c.upload_max_bytes(), Some(512 * 1024 * 1024));
    c.upload_max_mb = 0;
    assert_eq!(c.upload_max_bytes(), None);
    c.upload_max_mb = u64::MAX / 1000;
    assert_eq!(c.upload_max_bytes(), Some(u64::MAX));
    c.accounts.push(Account { name: "bob".into(), password: "pw".into(), enabled: true });
    c.accounts.push(Account { name: "eve".into(), password: "pw".into(), enabled: false });
    assert!(c.find_account("bob", "pw"));
    assert!(!c.find_account("bob", "PW"));
    assert!(!c.find_account("eve", "pw"));
    assert!(!c.find_account("nobody", "pw"));
}

#[test]
fn themes() {
    assert!(ThemeMode::Dark.is_dark(false));
    assert!(!ThemeMode::Light.is_dark(true));
    assert!(ThemeMode::System.is_dark(true));
    assert!(!ThemeMode::System.is_dark(false));
    assert_eq!(ThemeMode::default(), ThemeMode::System);
}

#[test]
fn lifecycle() {
    let mut s = Lifecycle::new();
    assert_eq!(s.status(), ServerStatus::Stopped);
    assert!(!s.is_running() && s.can_start());
    s.set_status(ServerStatus::Starting);
    assert!(!s.is_running() && !s.can_start());
    s.set_status(ServerStatus::Running);
    assert!(s.is_running() && !s.can_start());
    s.set_status(ServerStatus::Stopping);
    assert!(s.is_running() && !s.can_start());
    s.set_status(ServerStatus::Stopped);
    assert!(!s.is_running() && s.can_start());
}

#[test]
fn connection_bookkeeping() {
    assert!(accepts_connection(None, 1000));
    assert!(accepts_connection(Some(2), 1));
    assert!(!accepts_connection(Some(2), 2));
    assert_eq!(ui_emit(None, 1000, false, 0, 10, "Downloading"), (true, 1000));
    assert_eq!(ui_emit(Some((900, "Downloading")), 1000, false, 5, 10, "Downloading"), (false, 900));
    assert_eq!(ui_emit(Some((800, "Downloading")), 1000, false, 5, 10, "Downloading"), (true, 1000));
    assert_eq!(ui_emit(Some((900, "Downloading")), 1000, true, 5, 10, "Downloading"), (true, 1000));
    assert_eq!(ui_emit(Some((900, "Downloading")), 1000, false, 10, 10, "Downloading"), (true, 1000));
    assert_eq!(ui_emit(Some((900, "Downloading")), 1000, false, 5, 10, "Partial"), (true, 1000));
    assert_eq!(ui_emit(Some((2000, "Partial")), 1000, false, 5, 10, "Partial"), (false, 2000));
}

#[test]
fn system_language_names() {
    assert!(lang_is_zh("zh_CN.UTF-8"));
    assert!(lang_is_zh("ZH_tw"));
    assert!(!lang_is_zh("en_US.UTF-8"));
    assert!(!lang_is_zh("z"));
    assert!(!lang_is_zh(""));
    assert!(lcid_is_zh(0x0804));
    assert!(lcid_is_zh(0x0404));
    assert!(!lcid_is_zh(0x0409));
}

#[test]
fn system_dark_mode() {
    assert!(detect_system_is_dark());
    assert!(light_theme_value_is_dark(Some(0)));
    assert!(!light_theme_value_is_dark(Some(1)));
    assert!(light_theme_value_is_dark(None));
}
