//! Interface language and the table of user-visible strings.

use vstd::prelude::*;

use crate::pattern::{replace_exec, replace_pat};
use crate::text::{
    ascii_lower, ascii_lower_exec, chars_of, decimal, decimal_chars, extend_str, string_of,
};

verus! {

/// The interface language: follow the system, Chinese or English.
#[derive(Debug, Clone, Copy, PartialEq, Eq, Structural)]
pub enum Locale {
    System,
    Zh,
    En,
}

impl Default for Locale {
    fn default() -> (r: Locale)
        ensures
            r == Locale::System,
    {
        Locale::System
    }
}

/// Whether a locale name such as the value of `LANG` names Chinese: it
/// starts with `zh`, in either case.
pub fn lang_is_zh(lang: &str) -> (r: bool)
    ensures
        r == (lang@.len() >= 2 && ascii_lower(lang@[0]) == 'z' as u32 && ascii_lower(lang@[1])
            == 'h' as u32),
{
    let v = chars_of(lang);
    if v.len() < 2 {
        return false;
    }
    ascii_lower_exec(v[0]) == 'z' as u32 && ascii_lower_exec(v[1]) == 'h' as u32
}

/// Whether a Windows language identifier names Chinese: its primary
/// language, the low byte, is 0x04.
pub fn lcid_is_zh(lcid: u16) -> (r: bool)
    ensures
        r == (lcid % 256 == 4),
{
    let low = lcid & 0xFF;
    assert(low == lcid % 256) by (bit_vector)
        requires
            low == lcid & 0xFF,
    ;
    low == 4
}

/// The language that `l` stands for, where the system language is Chinese
/// exactly when `system_is_zh`.
pub open spec fn resolved(l: Locale, system_is_zh: bool) -> Locale {
    match l {
        Locale::System => if system_is_zh {
            Locale::Zh
        } else {
            Locale::En
        },
        other => other,
    }
}

/// The language a toggle switches to from `l`.
pub open spec fn toggled(l: Locale, system_is_zh: bool) -> Locale {
    if resolved(l, system_is_zh) == Locale::Zh {
        Locale::En
    } else {
        Locale::Zh
    }
}

impl Locale {
    /// The language this setting stands for: `System` becomes Chinese or
    /// English after the system language.
    pub fn resolve(self, system_is_zh: bool) -> (r: Locale)
        ensures
            r == resolved(self, system_is_zh),
            r != Locale::System,
    {
        match self {
            Locale::System => if system_is_zh {
                Locale::Zh
            } else {
                Locale::En
            },
            other => other,
        }
    }

    /// The name of the setting in its own language.
    pub fn native_name(self) -> (r: &'static str)
        ensures
            r@ == match self {
                Locale::System => "跟随系统"@,
                Locale::Zh => "简体中文"@,
                Locale::En => "English"@,
            },
    {
        match self {
            Locale::System => "跟随系统",
            Locale::Zh => "简体中文",
            Locale::En => "English",
        }
    }

    /// The other language: English from Chinese, Chinese from anything
    /// else (after resolving `System`).
    pub fn toggle(self, system_is_zh: bool) -> (r: Locale)
        ensures
            r == toggled(self, system_is_zh),
    {
        match self.resolve(system_is_zh) {
            Locale::Zh => Locale::En,
            _ => Locale::Zh,
        }
    }

    /// The label of the button that switches to the other language.
    pub fn switch_label(self, system_is_zh: bool) -> (r: &'static str)
        ensures
            r@ == (if resolved(self, system_is_zh) == Locale::Zh {
                "English"@
            } else {
                "中文"@
            }),
    {
        match self.resolve(system_is_zh) {
            Locale::Zh => "English",
            _ => "中文",
        }
    }

    /// The number under which the setting is stored: 0 for `System`, 1
    /// for Chinese, 2 for English.
    pub fn code(self) -> (r: u8)
        ensures
            r == locale_code(self),
    {
        match self {
            Locale::System => 0,
            Locale::Zh => 1,
            Locale::En => 2,
        }
    }
}

pub open spec fn locale_code(l: Locale) -> u8 {
    match l {
        Locale::System => 0,
        Locale::Zh => 1,
        Locale::En => 2,
    }
}

/// The language in effect for a stored number: 1 is Chinese, 2 English,
/// anything else follows the system.
pub fn current_from(code: u8, system_is_zh: bool) -> (r: Locale)
    ensures
        r == (if code == 1 {
            Locale::Zh
        } else if code == 2 {
            Locale::En
        } else {
            resolved(Locale::System, system_is_zh)
        }),
{
    if code == 1 {
        Locale::Zh
    } else if code == 2 {
        Locale::En
    } else {
        Locale::System.resolve(system_is_zh)
    }
}

/// The user-visible strings.
#[derive(Debug, Clone, Copy, PartialEq, Eq, Structural)]
pub enum Msg {
    AppTitle,
    Menu,
    Port,
    EasyMode,
    ExpertMode,
    ServerOff,
    ServerOn,
    ServerStarting,
    ServerStopping,
    OpenInBrowser,
    CopyToClipboard,
    UrlPlaceholder,
    VirtualFileSystem,
    Log,
    Search,
    ClearLog,
    Connections,
    IpAddress,
    File,
    Status,
    Speed,
    TimeLeft,
    Progress,
    AddFiles,
    AddFolder,
    NewEmptyFolder,
    NewLink,
    Remove,
    Rename,
    CopyUrl,
    Properties,
    OpenItem,
    BrowseIt,
    Paste,
    Language,
    ShowBandwidthGraph,
    HideBandwidthGraph,
    BandwidthGraph,
    Options,
    OtherOptions,
    UserAccounts,
    SelfTest,
    AutoCopyUrl,
    AlwaysOnTop,
    SendHfsId,
    BrowseLocalhost,
    ComingSoon,
    ReadyHint,
    AddedItems,
    RemovedItem,
    RenamedItem,
    CreatedFolder,
    CopiedUrl,
    ClipboardError,
    OpenBrowserFailed,
    AddFailed,
    RemoveFailed,
    RenameFailed,
    CreateFolderFailed,
    NoSelection,
    RootCannotRemove,
    ListeningOn,
    OutBytes,
    InBytes,
    Mode,
    StatusBarBrand,
    ConnEmpty,
    VfsEmpty,
    KindRoot,
    KindVirtual,
    KindRealFolder,
    KindFile,
    KindLink,
    Downloading,
    Partial,
    Done,
    Aborted,
    GraphHint,
    PortLockedWhileRunning,
    RenamePrompt,
    LinkPrompt,
    PropertiesTitle,
    Resource,
    Comment,
    Close,
    Save,
    Cancel,
    ConfirmRename,
    ConfirmLink,
    MenuSelfTestOk,
    MenuAccountsSoon,
    MenuOptionsSoon,
    ToggleGraph,
    Expanded,
    Collapsed,
    Upload,
    ProtectUploads,
    NoAccounts,
    HtmlTemplate,
    ChangePort,
    DefaultSorting,
    TabGeneral,
    TabServer,
    TabSecurity,
    TabAbout,
    SelectLanguageDesc,
    ThemeAppearance,
    ThemeAppearanceDesc,
    ThemeSystem,
    ThemeDark,
    ThemeLight,
    LangSystem,
    LangZh,
    LangEn,
    ModeDesc,
    AutoCopyUrlDesc,
    SendHfsIdDesc,
    BrowseLocalhostDesc,
    PortDesc,
    MaxConnections,
    MaxConnectionsDesc,
    MaxUploadSize,
    MaxUploadSizeDesc,
    BandwidthGraphDesc,
    ApplyServerSettings,
    UploadPolicy,
    UploadPolicyDesc,
    UploadDisabled,
    UploadPublic,
    UploadProtected,
    AccountsList,
    AddNewAccount,
    Username,
    Password,
    Add,
    AboutDesc,
    VersionInfo,
    CoreEngine,
    CoreEngineDesc,
    UiFramework,
    UiFrameworkDesc,
    Compatibility,
    CompatibilityDesc,
    License,
    LicenseDesc,
    FilterLogs,
    Clear,
    CopyAll,
    NoLogs,
    NoConnections,
    VfsToolbarAddFile,
    VfsToolbarAddFolder,
    VfsToolbarAddVirtual,
    VfsToolbarAddLink,
    VfsToolbarRename,
    VfsToolbarDelete,
    VfsToolbarProps,
    Online,
    Offline,
    Eta,
}

/// The Chinese text of each string.
pub open spec fn msg_zh(m: Msg) -> Seq<char> {
    match m {
        Msg::AppTitle => "HFS-RS ~ HTTP 文件服务器"@,
        Msg::Menu => "菜单"@,
        Msg::Port => "端口"@,
        Msg::EasyMode => "简易模式"@,
        Msg::ExpertMode => "专家模式"@,
        Msg::ServerOff => "服务器已停止"@,
        Msg::ServerOn => "服务器运行中"@,
        Msg::ServerStarting => "正在启动…"@,
        Msg::ServerStopping => "正在停止…"@,
        Msg::OpenInBrowser => "浏览器打开"@,
        Msg::CopyToClipboard => "复制链接"@,
        Msg::UrlPlaceholder => "http://localhost:8080/"@,
        Msg::VirtualFileSystem => "虚拟文件系统"@,
        Msg::Log => "日志记录"@,
        Msg::Search => "搜索…"@,
        Msg::ClearLog => "清空日志"@,
        Msg::Connections => "连接"@,
        Msg::IpAddress => "IP 地址"@,
        Msg::File => "文件"@,
        Msg::Status => "状态"@,
        Msg::Speed => "速度"@,
        Msg::TimeLeft => "剩余时间"@,
        Msg::Progress => "进度"@,
        Msg::AddFiles => "添加文件…"@,
        Msg::AddFolder => "添加文件夹…"@,
        Msg::NewEmptyFolder => "新建虚拟文件夹"@,
        Msg::NewLink => "新建链接"@,
        Msg::Remove => "移除"@,
        Msg::Rename => "重命名"@,
        Msg::CopyUrl => "复制 URL 地址"@,
        Msg::Properties => "属性…"@,
        Msg::OpenItem => "在资源管理器中打开"@,
        Msg::BrowseIt => "浏览器浏览"@,
        Msg::Paste => "粘贴"@,
        Msg::Language => "语言"@,
        Msg::ShowBandwidthGraph => "显示带宽图"@,
        Msg::HideBandwidthGraph => "隐藏带宽图"@,
        Msg::BandwidthGraph => "带宽图"@,
        Msg::Options => "选项"@,
        Msg::OtherOptions => "选项"@,
        Msg::UserAccounts => "用户账号…"@,
        Msg::SelfTest => "自检"@,
        Msg::AutoCopyUrl => "添加时自动复制 URL"@,
        Msg::AlwaysOnTop => "窗口置顶"@,
        Msg::SendHfsId => "发送 HFS 标识"@,
        Msg::BrowseLocalhost => "使用 localhost 浏览"@,
        Msg::ComingSoon => "该功能即将到来"@,
        Msg::ReadyHint => "欢迎使用 HFS-RS — 添加文件后启动服务器。"@,
        Msg::AddedItems => "已添加 {n} 项"@,
        Msg::RemovedItem => "已移除项"@,
        Msg::RenamedItem => "已重命名"@,
        Msg::CreatedFolder => "已创建文件夹"@,
        Msg::CopiedUrl => "已复制 URL 到剪贴板"@,
        Msg::ClipboardError => "无法访问剪贴板"@,
        Msg::OpenBrowserFailed => "打开浏览器失败"@,
        Msg::AddFailed => "添加失败：{err}"@,
        Msg::RemoveFailed => "移除失败：{err}"@,
        Msg::RenameFailed => "重命名失败：{err}"@,
        Msg::CreateFolderFailed => "创建文件夹失败：{err}"@,
        Msg::NoSelection => "请先选择一个节点"@,
        Msg::RootCannotRemove => "根节点不可移除或重命名"@,
        Msg::ListeningOn => "正在监听"@,
        Msg::OutBytes => "出站"@,
        Msg::InBytes => "入站"@,
        Msg::Mode => "模式"@,
        Msg::StatusBarBrand => "HFS-RS v0.1.0 (Rust & GPUI)"@,
        Msg::ConnEmpty => "无活动连接"@,
        Msg::VfsEmpty => "从磁盘拖放文件到此处，或右键添加。"@,
        Msg::KindRoot => "根目录"@,
        Msg::KindVirtual => "虚拟文件夹"@,
        Msg::KindRealFolder => "真实文件夹"@,
        Msg::KindFile => "文件"@,
        Msg::KindLink => "链接"@,
        Msg::Downloading => "下载中"@,
        Msg::Partial => "断点续传"@,
        Msg::Done => "已完成"@,
        Msg::Aborted => "已中断"@,
        Msg::GraphHint => "红色：出站（下载）  黄色：入站（上传）"@,
        Msg::PortLockedWhileRunning => "服务器运行期间端口已锁定，请先停止服务器。"@,
        Msg::RenamePrompt => "请输入新名称："@,
        Msg::LinkPrompt => "请输入目标 URL："@,
        Msg::PropertiesTitle => "文件属性"@,
        Msg::Resource => "真实路径："@,
        Msg::Comment => "备注："@,
        Msg::Close => "关闭"@,
        Msg::Save => "保存"@,
        Msg::Cancel => "取消"@,
        Msg::ConfirmRename => "确定"@,
        Msg::ConfirmLink => "添加链接"@,
        Msg::MenuSelfTestOk => "自检通过：服务器就绪。"@,
        Msg::MenuAccountsSoon => "账号管理界面"@,
        Msg::MenuOptionsSoon => "选项配置界面"@,
        Msg::ToggleGraph => "切换流量图"@,
        Msg::Expanded => "已展开"@,
        Msg::Collapsed => "已折叠"@,
        Msg::Upload => "文件上传"@,
        Msg::ProtectUploads => "上传需账号密码保护"@,
        Msg::NoAccounts => "当前无配置用户账号（点击下方添加）"@,
        Msg::HtmlTemplate => "HTML 模板"@,
        Msg::ChangePort => "修改端口"@,
        Msg::DefaultSorting => "默认排序"@,
        Msg::TabGeneral => "常规设置"@,
        Msg::TabServer => "服务与网络"@,
        Msg::TabSecurity => "上传与安全"@,
        Msg::TabAbout => "关于"@,
        Msg::SelectLanguageDesc => "选择界面显示语言"@,
        Msg::ThemeAppearance => "主题外观"@,
        Msg::ThemeAppearanceDesc => "在深色、浅色或跟随系统主题间切换"@,
        Msg::ThemeSystem => "🖥️ 跟随系统"@,
        Msg::ThemeDark => "🌙 深色模式"@,
        Msg::ThemeLight => "☀️ 浅色模式"@,
        Msg::LangSystem => "🖥️ 跟随系统"@,
        Msg::LangZh => "🇨🇳 简体中文"@,
        Msg::LangEn => "🇺🇸 English"@,
        Msg::ModeDesc => "简易模式隐藏技术选项，专家模式展示全部功能"@,
        Msg::AutoCopyUrlDesc => "添加新文件或文件夹时自动将 URL 复制到剪贴板"@,
        Msg::SendHfsIdDesc => "在 HTTP 响应头中包含 HFS 服务标识信息"@,
        Msg::BrowseLocalhostDesc => "在浏览器中打开时优先使用 127.0.0.1 本地回环地址"@,
        Msg::PortDesc => "HTTP 服务监听端口（如 80、8080）"@,
        Msg::MaxConnections => "最大同时连接数"@,
        Msg::MaxConnectionsDesc => "限制总活跃并发连接数（留空表示无限制）"@,
        Msg::MaxUploadSize => "单文件最大上传限制 (MB)"@,
        Msg::MaxUploadSizeDesc => "单次文件上传允许的最大体积（兆字节）"@,
        Msg::BandwidthGraphDesc => "在主界面实时显示出站/入站带宽波形图"@,
        Msg::ApplyServerSettings => "应用服务设置"@,
        Msg::UploadPolicy => "上传策略"@,
        Msg::UploadPolicyDesc => "配置文件上传访问权限与认证保护"@,
        Msg::UploadDisabled => "⛔ 禁止上传"@,
        Msg::UploadPublic => "🔓 允许公开上传"@,
        Msg::UploadProtected => "🔐 需账号认证"@,
        Msg::AccountsList => "已配置账号列表"@,
        Msg::AddNewAccount => "添加新账号"@,
        Msg::Username => "用户名"@,
        Msg::Password => "密码"@,
        Msg::Add => "添加"@,
        Msg::AboutDesc => "基于 Rust 与 GPUI 重构的高性能 HTTP 文件服务器（兼容经典 HFS 2）"@,
        Msg::VersionInfo => "版本 0.1.0 (2026 版)"@,
        Msg::CoreEngine => "核心引擎"@,
        Msg::CoreEngineDesc => "Tokio 多线程异步 HTTP/1.1，支持 Range 断点续传与流式分块上传"@,
        Msg::UiFramework => "界面引擎"@,
        Msg::UiFrameworkDesc => "Zed GPUI（纯原生 GPU 硬件加速桌面渲染框架）"@,
        Msg::Compatibility => "兼容特性"@,
        Msg::CompatibilityDesc => "HFS 2 虚拟文件系统 (VFS)、用户权限认证体系与模板机制"@,
        Msg::License => "开源协议"@,
        Msg::LicenseDesc => "MIT 开源协议"@,
        Msg::FilterLogs => "过滤日志…"@,
        Msg::Clear => "清空"@,
        Msg::CopyAll => "复制全部"@,
        Msg::NoLogs => "暂无日志记录"@,
        Msg::NoConnections => "当前无活跃连接"@,
        Msg::VfsToolbarAddFile => "+ 文件"@,
        Msg::VfsToolbarAddFolder => "+ 文件夹"@,
        Msg::VfsToolbarAddVirtual => "+ 虚拟"@,
        Msg::VfsToolbarAddLink => "+ 链接"@,
        Msg::VfsToolbarRename => "重命名"@,
        Msg::VfsToolbarDelete => "删除"@,
        Msg::VfsToolbarProps => "属性"@,
        Msg::Online => "运行中"@,
        Msg::Offline => "已停止"@,
        Msg::Eta => "剩余"@,
    }
}

/// The English text of each string.
pub open spec fn msg_en(m: Msg) -> Seq<char> {
    match m {
        Msg::AppTitle => "HFS-RS ~ HTTP File Server"@,
        Msg::Menu => "Menu"@,
        Msg::Port => "Port"@,
        Msg::EasyMode => "Easy mode"@,
        Msg::ExpertMode => "Expert mode"@,
        Msg::ServerOff => "Server is Stopped"@,
        Msg::ServerOn => "Server is Running"@,
        Msg::ServerStarting => "Starting…"@,
        Msg::ServerStopping => "Stopping…"@,
        Msg::OpenInBrowser => "Open in browser"@,
        Msg::CopyToClipboard => "Copy link"@,
        Msg::UrlPlaceholder => "http://localhost:8080/"@,
        Msg::VirtualFileSystem => "Virtual File System"@,
        Msg::Log => "Log"@,
        Msg::Search => "Search…"@,
        Msg::ClearLog => "Clear log"@,
        Msg::Connections => "Connections"@,
        Msg::IpAddress => "IP address"@,
        Msg::File => "File"@,
        Msg::Status => "Status"@,
        Msg::Speed => "Speed"@,
        Msg::TimeLeft => "Time left"@,
        Msg::Progress => "Progress"@,
        Msg::AddFiles => "Add files..."@,
        Msg::AddFolder => "Add folder..."@,
        Msg::NewEmptyFolder => "New virtual folder"@,
        Msg::NewLink => "New link"@,
        Msg::Remove => "Remove"@,
        Msg::Rename => "Rename"@,
        Msg::CopyUrl => "Copy URL address"@,
        Msg::Properties => "Properties..."@,
        Msg::OpenItem => "Open in Explorer"@,
        Msg::BrowseIt => "Browse it"@,
        Msg::Paste => "Paste"@,
        Msg::Language => "Language"@,
        Msg::ShowBandwidthGraph => "Show bandwidth graph"@,
        Msg::HideBandwidthGraph => "Hide bandwidth graph"@,
        Msg::BandwidthGraph => "Bandwidth graph"@,
        Msg::Options => "Options"@,
        Msg::OtherOptions => "Options"@,
        Msg::UserAccounts => "User accounts..."@,
        Msg::SelfTest => "Self Test"@,
        Msg::AutoCopyUrl => "Auto-copy URL on addition"@,
        Msg::AlwaysOnTop => "Always on top"@,
        Msg::SendHfsId => "Send HFS identifier"@,
        Msg::BrowseLocalhost => "Browse using localhost"@,
        Msg::ComingSoon => "Coming in a later milestone"@,
        Msg::ReadyHint => "Welcome to HFS-RS — add files, then start the server."@,
        Msg::AddedItems => "Added {n} item(s)"@,
        Msg::RemovedItem => "Removed item"@,
        Msg::RenamedItem => "Renamed"@,
        Msg::CreatedFolder => "Created folder"@,
        Msg::CopiedUrl => "Copied URL to clipboard"@,
        Msg::ClipboardError => "Clipboard access error"@,
        Msg::OpenBrowserFailed => "Failed to open browser"@,
        Msg::AddFailed => "Failed to add: {err}"@,
        Msg::RemoveFailed => "Failed to remove: {err}"@,
        Msg::RenameFailed => "Failed to rename: {err}"@,
        Msg::CreateFolderFailed => "Failed to create folder: {err}"@,
        Msg::NoSelection => "No item selected"@,
        Msg::RootCannotRemove => "Root folder cannot be removed or renamed"@,
        Msg::ListeningOn => "Listening on"@,
        Msg::OutBytes => "Out"@,
        Msg::InBytes => "In"@,
        Msg::Mode => "Mode"@,
        Msg::StatusBarBrand => "HFS-RS v0.1.0 (Rust & GPUI)"@,
        Msg::ConnEmpty => "No active connections"@,
        Msg::VfsEmpty => "Drop files here from disk, or right-click to add."@,
        Msg::KindRoot => "Root"@,
        Msg::KindVirtual => "Virtual folder"@,
        Msg::KindRealFolder => "Real folder"@,
        Msg::KindFile => "File"@,
        Msg::KindLink => "Link"@,
        Msg::Downloading => "Downloading"@,
        Msg::Partial => "Partial"@,
        Msg::Done => "Done"@,
        Msg::Aborted => "Aborted"@,
        Msg::GraphHint => "Red: Out (downloads)  Yellow: In (uploads)"@,
        Msg::PortLockedWhileRunning => "Port cannot be changed while the server is running. Stop it first."@,
        Msg::RenamePrompt => "Enter new name:"@,
        Msg::LinkPrompt => "Enter target URL:"@,
        Msg::PropertiesTitle => "Properties"@,
        Msg::Resource => "Resource path:"@,
        Msg::Comment => "Comment:"@,
        Msg::Close => "Close"@,
        Msg::Save => "Save"@,
        Msg::Cancel => "Cancel"@,
        Msg::ConfirmRename => "OK"@,
        Msg::ConfirmLink => "Add Link"@,
        Msg::MenuSelfTestOk => "Self test passed: server is ready."@,
        Msg::MenuAccountsSoon => "User accounts dialog"@,
        Msg::MenuOptionsSoon => "Options dialog"@,
        Msg::ToggleGraph => "Toggle graph"@,
        Msg::Expanded => "Expanded"@,
        Msg::Collapsed => "Collapsed"@,
        Msg::Upload => "File Upload"@,
        Msg::ProtectUploads => "Protect uploads with password"@,
        Msg::NoAccounts => "No accounts configured yet (add one below)"@,
        Msg::HtmlTemplate => "HTML Template"@,
        Msg::ChangePort => "Change Port"@,
        Msg::DefaultSorting => "Default Sorting"@,
        Msg::TabGeneral => "General"@,
        Msg::TabServer => "Server & Network"@,
        Msg::TabSecurity => "Uploads & Security"@,
        Msg::TabAbout => "About"@,
        Msg::SelectLanguageDesc => "Select UI display language"@,
        Msg::ThemeAppearance => "Theme Appearance"@,
        Msg::ThemeAppearanceDesc => "Switch between Dark, Light, and System theme"@,
        Msg::ThemeSystem => "🖥️ System Default"@,
        Msg::ThemeDark => "🌙 Dark Mode"@,
        Msg::ThemeLight => "☀️ Light Mode"@,
        Msg::LangSystem => "🖥️ System Default"@,
        Msg::LangZh => "🇨🇳 Chinese (Simplified)"@,
        Msg::LangEn => "🇺🇸 English"@,
        Msg::ModeDesc => "Easy mode hides technical options, Expert mode shows all"@,
        Msg::AutoCopyUrlDesc => "Automatically copy file URL when adding new files/folders"@,
        Msg::SendHfsIdDesc => "Send HFS server identifier in HTTP response headers"@,
        Msg::BrowseLocalhostDesc => "Use 127.0.0.1 instead of public IP when opening browser"@,
        Msg::PortDesc => "HTTP port to listen on (e.g. 80, 8080)"@,
        Msg::MaxConnections => "Max Simultaneous Connections"@,
        Msg::MaxConnectionsDesc => "Limit total active HTTP connections (empty for unlimited)"@,
        Msg::MaxUploadSize => "Max Upload Size (MB)"@,
        Msg::MaxUploadSizeDesc => "Maximum single upload size limit in Megabytes"@,
        Msg::BandwidthGraphDesc => "Display real-time Out/In bandwidth waveform on main interface"@,
        Msg::ApplyServerSettings => "Apply Server Settings"@,
        Msg::UploadPolicy => "Upload Policy"@,
        Msg::UploadPolicyDesc => "Select HTTP upload access and authentication policy"@,
        Msg::UploadDisabled => "⛔ Disabled"@,
        Msg::UploadPublic => "🔓 Public (Allow All)"@,
        Msg::UploadProtected => "🔐 Protected (Require Auth)"@,
        Msg::AccountsList => "Configured Accounts"@,
        Msg::AddNewAccount => "Add New Account"@,
        Msg::Username => "Username"@,
        Msg::Password => "Password"@,
        Msg::Add => "Add"@,
        Msg::AboutDesc => "High-Performance HTTP File Server in Rust with GPUI (HFS 2 Compatible)"@,
        Msg::VersionInfo => "Version 0.1.0 (2026 Edition)"@,
        Msg::CoreEngine => "Core Engine"@,
        Msg::CoreEngineDesc => "Tokio multi-threaded HTTP/1.1 with Range & Multipart"@,
        Msg::UiFramework => "UI Framework"@,
        Msg::UiFrameworkDesc => "Zed GPUI (Pure High-Performance Desktop GPU Engine)"@,
        Msg::Compatibility => "Compatibility"@,
        Msg::CompatibilityDesc => "HFS 2 Virtual File System, Accounts & Templates"@,
        Msg::License => "License"@,
        Msg::LicenseDesc => "MIT Open Source License"@,
        Msg::FilterLogs => "Filter logs…"@,
        Msg::Clear => "Clear"@,
        Msg::CopyAll => "Copy All"@,
        Msg::NoLogs => "No logs recorded"@,
        Msg::NoConnections => "No active connections"@,
        Msg::VfsToolbarAddFile => "+ File"@,
        Msg::VfsToolbarAddFolder => "+ Folder"@,
        Msg::VfsToolbarAddVirtual => "+ Virtual"@,
        Msg::VfsToolbarAddLink => "+ Link"@,
        Msg::VfsToolbarRename => "Rename"@,
        Msg::VfsToolbarDelete => "Delete"@,
        Msg::VfsToolbarProps => "Properties"@,
        Msg::Online => "ONLINE"@,
        Msg::Offline => "OFFLINE"@,
        Msg::Eta => "ETA"@,
    }
}

/// The text of `m` in the resolved language `lang`: Chinese for `Zh`,
/// English otherwise.
pub open spec fn msg_text(m: Msg, lang: Locale) -> Seq<char> {
    if lang == Locale::Zh {
        msg_zh(m)
    } else {
        msg_en(m)
    }
}

impl Msg {
    /// The Chinese text.
    pub fn zh(self) -> (r: &'static str)
        ensures
            r@ == msg_zh(self),
    {
        match self {
            Msg::AppTitle => "HFS-RS ~ HTTP 文件服务器",
            Msg::Menu => "菜单",
            Msg::Port => "端口",
            Msg::EasyMode => "简易模式",
            Msg::ExpertMode => "专家模式",
            Msg::ServerOff => "服务器已停止",
            Msg::ServerOn => "服务器运行中",
            Msg::ServerStarting => "正在启动…",
            Msg::ServerStopping => "正在停止…",
            Msg::OpenInBrowser => "浏览器打开",
            Msg::CopyToClipboard => "复制链接",
            Msg::UrlPlaceholder => "http://localhost:8080/",
            Msg::VirtualFileSystem => "虚拟文件系统",
            Msg::Log => "日志记录",
            Msg::Search => "搜索…",
            Msg::ClearLog => "清空日志",
            Msg::Connections => "连接",
            Msg::IpAddress => "IP 地址",
            Msg::File => "文件",
            Msg::Status => "状态",
            Msg::Speed => "速度",
            Msg::TimeLeft => "剩余时间",
            Msg::Progress => "进度",
            Msg::AddFiles => "添加文件…",
            Msg::AddFolder => "添加文件夹…",
            Msg::NewEmptyFolder => "新建虚拟文件夹",
            Msg::NewLink => "新建链接",
            Msg::Remove => "移除",
            Msg::Rename => "重命名",
            Msg::CopyUrl => "复制 URL 地址",
            Msg::Properties => "属性…",
            Msg::OpenItem => "在资源管理器中打开",
            Msg::BrowseIt => "浏览器浏览",
            Msg::Paste => "粘贴",
            Msg::Language => "语言",
            Msg::ShowBandwidthGraph => "显示带宽图",
            Msg::HideBandwidthGraph => "隐藏带宽图",
            Msg::BandwidthGraph => "带宽图",
            Msg::Options => "选项",
            Msg::OtherOptions => "选项",
            Msg::UserAccounts => "用户账号…",
            Msg::SelfTest => "自检",
            Msg::AutoCopyUrl => "添加时自动复制 URL",
            Msg::AlwaysOnTop => "窗口置顶",
            Msg::SendHfsId => "发送 HFS 标识",
            Msg::BrowseLocalhost => "使用 localhost 浏览",
            Msg::ComingSoon => "该功能即将到来",
            Msg::ReadyHint => "欢迎使用 HFS-RS — 添加文件后启动服务器。",
            Msg::AddedItems => "已添加 {n} 项",
            Msg::RemovedItem => "已移除项",
            Msg::RenamedItem => "已重命名",
            Msg::CreatedFolder => "已创建文件夹",
            Msg::CopiedUrl => "已复制 URL 到剪贴板",
            Msg::ClipboardError => "无法访问剪贴板",
            Msg::OpenBrowserFailed => "打开浏览器失败",
            Msg::AddFailed => "添加失败：{err}",
            Msg::RemoveFailed => "移除失败：{err}",
            Msg::RenameFailed => "重命名失败：{err}",
            Msg::CreateFolderFailed => "创建文件夹失败：{err}",
            Msg::NoSelection => "请先选择一个节点",
            Msg::RootCannotRemove => "根节点不可移除或重命名",
            Msg::ListeningOn => "正在监听",
            Msg::OutBytes => "出站",
            Msg::InBytes => "入站",
            Msg::Mode => "模式",
            Msg::StatusBarBrand => "HFS-RS v0.1.0 (Rust & GPUI)",
            Msg::ConnEmpty => "无活动连接",
            Msg::VfsEmpty => "从磁盘拖放文件到此处，或右键添加。",
            Msg::KindRoot => "根目录",
            Msg::KindVirtual => "虚拟文件夹",
            Msg::KindRealFolder => "真实文件夹",
            Msg::KindFile => "文件",
            Msg::KindLink => "链接",
            Msg::Downloading => "下载中",
            Msg::Partial => "断点续传",
            Msg::Done => "已完成",
            Msg::Aborted => "已中断",
            Msg::GraphHint => "红色：出站（下载）  黄色：入站（上传）",
            Msg::PortLockedWhileRunning => "服务器运行期间端口已锁定，请先停止服务器。",
            Msg::RenamePrompt => "请输入新名称：",
            Msg::LinkPrompt => "请输入目标 URL：",
            Msg::PropertiesTitle => "文件属性",
            Msg::Resource => "真实路径：",
            Msg::Comment => "备注：",
            Msg::Close => "关闭",
            Msg::Save => "保存",
            Msg::Cancel => "取消",
            Msg::ConfirmRename => "确定",
            Msg::ConfirmLink => "添加链接",
            Msg::MenuSelfTestOk => "自检通过：服务器就绪。",
            Msg::MenuAccountsSoon => "账号管理界面",
            Msg::MenuOptionsSoon => "选项配置界面",
            Msg::ToggleGraph => "切换流量图",
            Msg::Expanded => "已展开",
            Msg::Collapsed => "已折叠",
            Msg::Upload => "文件上传",
            Msg::ProtectUploads => "上传需账号密码保护",
            Msg::NoAccounts => "当前无配置用户账号（点击下方添加）",
            Msg::HtmlTemplate => "HTML 模板",
            Msg::ChangePort => "修改端口",
            Msg::DefaultSorting => "默认排序",
            Msg::TabGeneral => "常规设置",
            Msg::TabServer => "服务与网络",
            Msg::TabSecurity => "上传与安全",
            Msg::TabAbout => "关于",
            Msg::SelectLanguageDesc => "选择界面显示语言",
            Msg::ThemeAppearance => "主题外观",
            Msg::ThemeAppearanceDesc => "在深色、浅色或跟随系统主题间切换",
            Msg::ThemeSystem => "🖥️ 跟随系统",
            Msg::ThemeDark => "🌙 深色模式",
            Msg::ThemeLight => "☀️ 浅色模式",
            Msg::LangSystem => "🖥️ 跟随系统",
            Msg::LangZh => "🇨🇳 简体中文",
            Msg::LangEn => "🇺🇸 English",
            Msg::ModeDesc => "简易模式隐藏技术选项，专家模式展示全部功能",
            Msg::AutoCopyUrlDesc => "添加新文件或文件夹时自动将 URL 复制到剪贴板",
            Msg::SendHfsIdDesc => "在 HTTP 响应头中包含 HFS 服务标识信息",
            Msg::BrowseLocalhostDesc => "在浏览器中打开时优先使用 127.0.0.1 本地回环地址",
            Msg::PortDesc => "HTTP 服务监听端口（如 80、8080）",
            Msg::MaxConnections => "最大同时连接数",
            Msg::MaxConnectionsDesc => "限制总活跃并发连接数（留空表示无限制）",
            Msg::MaxUploadSize => "单文件最大上传限制 (MB)",
            Msg::MaxUploadSizeDesc => "单次文件上传允许的最大体积（兆字节）",
            Msg::BandwidthGraphDesc => "在主界面实时显示出站/入站带宽波形图",
            Msg::ApplyServerSettings => "应用服务设置",
            Msg::UploadPolicy => "上传策略",
            Msg::UploadPolicyDesc => "配置文件上传访问权限与认证保护",
            Msg::UploadDisabled => "⛔ 禁止上传",
            Msg::UploadPublic => "🔓 允许公开上传",
            Msg::UploadProtected => "🔐 需账号认证",
            Msg::AccountsList => "已配置账号列表",
            Msg::AddNewAccount => "添加新账号",
            Msg::Username => "用户名",
            Msg::Password => "密码",
            Msg::Add => "添加",
            Msg::AboutDesc => "基于 Rust 与 GPUI 重构的高性能 HTTP 文件服务器（兼容经典 HFS 2）",
            Msg::VersionInfo => "版本 0.1.0 (2026 版)",
            Msg::CoreEngine => "核心引擎",
            Msg::CoreEngineDesc => "Tokio 多线程异步 HTTP/1.1，支持 Range 断点续传与流式分块上传",
            Msg::UiFramework => "界面引擎",
            Msg::UiFrameworkDesc => "Zed GPUI（纯原生 GPU 硬件加速桌面渲染框架）",
            Msg::Compatibility => "兼容特性",
            Msg::CompatibilityDesc => "HFS 2 虚拟文件系统 (VFS)、用户权限认证体系与模板机制",
            Msg::License => "开源协议",
            Msg::LicenseDesc => "MIT 开源协议",
            Msg::FilterLogs => "过滤日志…",
            Msg::Clear => "清空",
            Msg::CopyAll => "复制全部",
            Msg::NoLogs => "暂无日志记录",
            Msg::NoConnections => "当前无活跃连接",
            Msg::VfsToolbarAddFile => "+ 文件",
            Msg::VfsToolbarAddFolder => "+ 文件夹",
            Msg::VfsToolbarAddVirtual => "+ 虚拟",
            Msg::VfsToolbarAddLink => "+ 链接",
            Msg::VfsToolbarRename => "重命名",
            Msg::VfsToolbarDelete => "删除",
            Msg::VfsToolbarProps => "属性",
            Msg::Online => "运行中",
            Msg::Offline => "已停止",
            Msg::Eta => "剩余",
        }
    }

    /// The English text.
    pub fn en(self) -> (r: &'static str)
        ensures
            r@ == msg_en(self),
    {
        match self {
            Msg::AppTitle => "HFS-RS ~ HTTP File Server",
            Msg::Menu => "Menu",
            Msg::Port => "Port",
            Msg::EasyMode => "Easy mode",
            Msg::ExpertMode => "Expert mode",
            Msg::ServerOff => "Server is Stopped",
            Msg::ServerOn => "Server is Running",
            Msg::ServerStarting => "Starting…",
            Msg::ServerStopping => "Stopping…",
            Msg::OpenInBrowser => "Open in browser",
            Msg::CopyToClipboard => "Copy link",
            Msg::UrlPlaceholder => "http://localhost:8080/",
            Msg::VirtualFileSystem => "Virtual File System",
            Msg::Log => "Log",
            Msg::Search => "Search…",
            Msg::ClearLog => "Clear log",
            Msg::Connections => "Connections",
            Msg::IpAddress => "IP address",
            Msg::File => "File",
            Msg::Status => "Status",
            Msg::Speed => "Speed",
            Msg::TimeLeft => "Time left",
            Msg::Progress => "Progress",
            Msg::AddFiles => "Add files...",
            Msg::AddFolder => "Add folder...",
            Msg::NewEmptyFolder => "New virtual folder",
            Msg::NewLink => "New link",
            Msg::Remove => "Remove",
            Msg::Rename => "Rename",
            Msg::CopyUrl => "Copy URL address",
            Msg::Properties => "Properties...",
            Msg::OpenItem => "Open in Explorer",
            Msg::BrowseIt => "Browse it",
            Msg::Paste => "Paste",
            Msg::Language => "Language",
            Msg::ShowBandwidthGraph => "Show bandwidth graph",
            Msg::HideBandwidthGraph => "Hide bandwidth graph",
            Msg::BandwidthGraph => "Bandwidth graph",
            Msg::Options => "Options",
            Msg::OtherOptions => "Options",
            Msg::UserAccounts => "User accounts...",
            Msg::SelfTest => "Self Test",
            Msg::AutoCopyUrl => "Auto-copy URL on addition",
            Msg::AlwaysOnTop => "Always on top",
            Msg::SendHfsId => "Send HFS identifier",
            Msg::BrowseLocalhost => "Browse using localhost",
            Msg::ComingSoon => "Coming in a later milestone",
            Msg::ReadyHint => "Welcome to HFS-RS — add files, then start the server.",
            Msg::AddedItems => "Added {n} item(s)",
            Msg::RemovedItem => "Removed item",
            Msg::RenamedItem => "Renamed",
            Msg::CreatedFolder => "Created folder",
            Msg::CopiedUrl => "Copied URL to clipboard",
            Msg::ClipboardError => "Clipboard access error",
            Msg::OpenBrowserFailed => "Failed to open browser",
            Msg::AddFailed => "Failed to add: {err}",
            Msg::RemoveFailed => "Failed to remove: {err}",
            Msg::RenameFailed => "Failed to rename: {err}",
            Msg::CreateFolderFailed => "Failed to create folder: {err}",
            Msg::NoSelection => "No item selected",
            Msg::RootCannotRemove => "Root folder cannot be removed or renamed",
            Msg::ListeningOn => "Listening on",
            Msg::OutBytes => "Out",
            Msg::InBytes => "In",
            Msg::Mode => "Mode",
            Msg::StatusBarBrand => "HFS-RS v0.1.0 (Rust & GPUI)",
            Msg::ConnEmpty => "No active connections",
            Msg::VfsEmpty => "Drop files here from disk, or right-click to add.",
            Msg::KindRoot => "Root",
            Msg::KindVirtual => "Virtual folder",
            Msg::KindRealFolder => "Real folder",
            Msg::KindFile => "File",
            Msg::KindLink => "Link",
            Msg::Downloading => "Downloading",
            Msg::Partial => "Partial",
            Msg::Done => "Done",
            Msg::Aborted => "Aborted",
            Msg::GraphHint => "Red: Out (downloads)  Yellow: In (uploads)",
            Msg::PortLockedWhileRunning => "Port cannot be changed while the server is running. Stop it first.",
            Msg::RenamePrompt => "Enter new name:",
            Msg::LinkPrompt => "Enter target URL:",
            Msg::PropertiesTitle => "Properties",
            Msg::Resource => "Resource path:",
            Msg::Comment => "Comment:",
            Msg::Close => "Close",
            Msg::Save => "Save",
            Msg::Cancel => "Cancel",
            Msg::ConfirmRename => "OK",
            Msg::ConfirmLink => "Add Link",
            Msg::MenuSelfTestOk => "Self test passed: server is ready.",
            Msg::MenuAccountsSoon => "User accounts dialog",
            Msg::MenuOptionsSoon => "Options dialog",
            Msg::ToggleGraph => "Toggle graph",
            Msg::Expanded => "Expanded",
            Msg::Collapsed => "Collapsed",
            Msg::Upload => "File Upload",
            Msg::ProtectUploads => "Protect uploads with password",
            Msg::NoAccounts => "No accounts configured yet (add one below)",
            Msg::HtmlTemplate => "HTML Template",
            Msg::ChangePort => "Change Port",
            Msg::DefaultSorting => "Default Sorting",
            Msg::TabGeneral => "General",
            Msg::TabServer => "Server & Network",
            Msg::TabSecurity => "Uploads & Security",
            Msg::TabAbout => "About",
            Msg::SelectLanguageDesc => "Select UI display language",
            Msg::ThemeAppearance => "Theme Appearance",
            Msg::ThemeAppearanceDesc => "Switch between Dark, Light, and System theme",
            Msg::ThemeSystem => "🖥️ System Default",
            Msg::ThemeDark => "🌙 Dark Mode",
            Msg::ThemeLight => "☀️ Light Mode",
            Msg::LangSystem => "🖥️ System Default",
            Msg::LangZh => "🇨🇳 Chinese (Simplified)",
            Msg::LangEn => "🇺🇸 English",
            Msg::ModeDesc => "Easy mode hides technical options, Expert mode shows all",
            Msg::AutoCopyUrlDesc => "Automatically copy file URL when adding new files/folders",
            Msg::SendHfsIdDesc => "Send HFS server identifier in HTTP response headers",
            Msg::BrowseLocalhostDesc => "Use 127.0.0.1 instead of public IP when opening browser",
            Msg::PortDesc => "HTTP port to listen on (e.g. 80, 8080)",
            Msg::MaxConnections => "Max Simultaneous Connections",
            Msg::MaxConnectionsDesc => "Limit total active HTTP connections (empty for unlimited)",
            Msg::MaxUploadSize => "Max Upload Size (MB)",
            Msg::MaxUploadSizeDesc => "Maximum single upload size limit in Megabytes",
            Msg::BandwidthGraphDesc => "Display real-time Out/In bandwidth waveform on main interface",
            Msg::ApplyServerSettings => "Apply Server Settings",
            Msg::UploadPolicy => "Upload Policy",
            Msg::UploadPolicyDesc => "Select HTTP upload access and authentication policy",
            Msg::UploadDisabled => "⛔ Disabled",
            Msg::UploadPublic => "🔓 Public (Allow All)",
            Msg::UploadProtected => "🔐 Protected (Require Auth)",
            Msg::AccountsList => "Configured Accounts",
            Msg::AddNewAccount => "Add New Account",
            Msg::Username => "Username",
            Msg::Password => "Password",
            Msg::Add => "Add",
            Msg::AboutDesc => "High-Performance HTTP File Server in Rust with GPUI (HFS 2 Compatible)",
            Msg::VersionInfo => "Version 0.1.0 (2026 Edition)",
            Msg::CoreEngine => "Core Engine",
            Msg::CoreEngineDesc => "Tokio multi-threaded HTTP/1.1 with Range & Multipart",
            Msg::UiFramework => "UI Framework",
            Msg::UiFrameworkDesc => "Zed GPUI (Pure High-Performance Desktop GPU Engine)",
            Msg::Compatibility => "Compatibility",
            Msg::CompatibilityDesc => "HFS 2 Virtual File System, Accounts & Templates",
            Msg::License => "License",
            Msg::LicenseDesc => "MIT Open Source License",
            Msg::FilterLogs => "Filter logs…",
            Msg::Clear => "Clear",
            Msg::CopyAll => "Copy All",
            Msg::NoLogs => "No logs recorded",
            Msg::NoConnections => "No active connections",
            Msg::VfsToolbarAddFile => "+ File",
            Msg::VfsToolbarAddFolder => "+ Folder",
            Msg::VfsToolbarAddVirtual => "+ Virtual",
            Msg::VfsToolbarAddLink => "+ Link",
            Msg::VfsToolbarRename => "Rename",
            Msg::VfsToolbarDelete => "Delete",
            Msg::VfsToolbarProps => "Properties",
            Msg::Online => "ONLINE",
            Msg::Offline => "OFFLINE",
            Msg::Eta => "ETA",
        }
    }

    /// The text in the language `locale` stands for, where the system
    /// language is Chinese exactly when `system_is_zh`.
    pub fn get(self, locale: Locale, system_is_zh: bool) -> (r: &'static str)
        ensures
            r@ == msg_text(self, resolved(locale, system_is_zh)),
    {
        match locale.resolve(system_is_zh) {
            Locale::Zh => self.zh(),
            _ => self.en(),
        }
    }
}

/// `msg` in the language `locale` stands for, with `{err}` replaced by
/// the text of an error.
pub fn format_err(msg: Msg, locale: Locale, system_is_zh: bool, err: &str) -> (r: String)
    ensures
        r@ == replace_pat(msg_text(msg, resolved(locale, system_is_zh)), "{err}"@, err@),
{
    let raw = chars_of(msg.get(locale, system_is_zh));
    let pat = chars_of("{err}");
    proof {
        reveal_strlit("{err}");
    }
    let with = chars_of(err);
    string_of(&replace_exec(&raw, &pat, &with))
}

/// `msg` in the language `locale` stands for, with `{n}` replaced by the
/// decimal digits of `n`.
pub fn format_n(msg: Msg, locale: Locale, system_is_zh: bool, n: usize) -> (r: String)
    ensures
        r@ == replace_pat(msg_text(msg, resolved(locale, system_is_zh)), "{n}"@, decimal(n as nat)),
{
    let raw = chars_of(msg.get(locale, system_is_zh));
    let pat = chars_of("{n}");
    proof {
        reveal_strlit("{n}");
    }
    let digits = decimal_chars(n as u64);
    string_of(&replace_exec(&raw, &pat, &digits))
}

/// The "listening on" line for the address `addr`.
pub fn format_listening(locale: Locale, system_is_zh: bool, addr: &str) -> (r: String)
    ensures
        r@ == msg_text(Msg::ListeningOn, resolved(locale, system_is_zh)) + " http://"@ + addr@
            + "/"@,
{
    let mut buf = chars_of(Msg::ListeningOn.get(locale, system_is_zh));
    extend_str(&mut buf, " http://");
    extend_str(&mut buf, addr);
    extend_str(&mut buf, "/");
    string_of(&buf)
}

/// The "copied URL" line for `url`.
pub fn format_copied_url(locale: Locale, system_is_zh: bool, url: &str) -> (r: String)
    ensures
        r@ == msg_text(Msg::CopiedUrl, resolved(locale, system_is_zh)) + ": "@ + url@,
{
    let mut buf = chars_of(Msg::CopiedUrl.get(locale, system_is_zh));
    extend_str(&mut buf, ": ");
    extend_str(&mut buf, url);
    string_of(&buf)
}

/// The "added n items" line.
pub fn format_added(locale: Locale, system_is_zh: bool, n: usize) -> (r: String)
    ensures
        r@ == replace_pat(
            msg_text(Msg::AddedItems, resolved(locale, system_is_zh)),
            "{n}"@,
            decimal(n as nat),
        ),
{
    format_n(Msg::AddedItems, locale, system_is_zh, n)
}

/// Resolving a language setting twice is resolving it once, so a string
/// reads the same under a setting and under the language it stands for.
pub proof fn lemma_resolve_idempotent(l: Locale, system_is_zh: bool, m: Msg)
    ensures
        resolved(resolved(l, system_is_zh), system_is_zh) == resolved(l, system_is_zh),
        msg_text(m, resolved(resolved(l, system_is_zh), system_is_zh)) == msg_text(
            m,
            resolved(l, system_is_zh),
        ),
{
}

/// A toggle always changes the language in effect, and toggling twice
/// comes back to it.
pub proof fn lemma_toggle_twice(l: Locale, system_is_zh: bool)
    ensures
        toggled(l, system_is_zh) != resolved(l, system_is_zh),
        toggled(toggled(l, system_is_zh), system_is_zh) == resolved(l, system_is_zh),
{
}

/// Storing a setting by its number and reading it back gives the
/// language the setting stands for.
pub proof fn lemma_code_round_trip(l: Locale, system_is_zh: bool)
    ensures
        (if locale_code(l) == 1 {
            Locale::Zh
        } else if locale_code(l) == 2 {
            Locale::En
        } else {
            resolved(Locale::System, system_is_zh)
        }) == resolved(l, system_is_zh),
{
}

} // verus!
