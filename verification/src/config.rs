//! Application settings and the rules read from them.

use vstd::prelude::*;

use crate::i18n::Locale;
use crate::text::{chars_eq, chars_of, decimal, decimal_chars, extend_chars, extend_str, string_of};
use crate::theme::ThemeMode;

verus! {

pub const DEFAULT_PORT: u16 = 8080;

pub const DEFAULT_BIND: &'static str = "0.0.0.0";

/// A user who may upload when uploads are protected.
#[derive(Debug, Clone)]
pub struct Account {
    pub name: String,
    pub password: String,
    pub enabled: bool,
}

pub struct AccountView {
    pub name: Seq<char>,
    pub password: Seq<char>,
    pub enabled: bool,
}

impl View for Account {
    type V = AccountView;

    open spec fn view(&self) -> AccountView {
        AccountView { name: self.name@, password: self.password@, enabled: self.enabled }
    }
}

/// What an account holds when the stored settings leave `enabled` out.
pub fn default_true() -> (r: bool)
    ensures
        r,
{
    true
}

/// The upload limit in MiB when the stored settings leave it out.
pub fn default_upload_max() -> (r: u64)
    ensures
        r == 512,
{
    512
}

/// All settings.
#[derive(Debug, Clone)]
pub struct AppConfig {
    pub port: u16,
    pub bind: String,
    pub expert_mode: bool,
    pub auto_copy_url_on_add: bool,
    pub send_server_header: bool,
    pub open_in_browser_use_localhost: bool,
    pub show_bandwidth_graph: bool,
    pub locale: Locale,
    pub theme_mode: ThemeMode,
    /// Soft cap; `None` means unlimited.
    pub max_connections: Option<usize>,
    /// Allow browser/multipart uploads into real folders.
    pub allow_upload: bool,
    /// Max single upload size in MiB (0 = unlimited).
    pub upload_max_mb: u64,
    /// Require HTTP basic auth for uploads when accounts exist.
    pub protect_uploads: bool,
    pub accounts: Vec<Account>,
}

pub open spec fn accounts_view(a: Seq<Account>) -> Seq<AccountView> {
    a.map_values(|x: Account| x@)
}

/// Some enabled account has exactly this name and password.
pub open spec fn has_account(accounts: Seq<AccountView>, user: Seq<char>, pass: Seq<char>) -> bool {
    exists|i: int|
        0 <= i < accounts.len() && (#[trigger] accounts[i]).enabled && accounts[i].name == user
            && accounts[i].password == pass
}

/// The host a browser is pointed at: the loopback address when asked for
/// or when the server binds all interfaces, else the bind address.
pub open spec fn browse_host(c: AppConfig) -> Seq<char> {
    if c.open_in_browser_use_localhost || c.bind@ == "0.0.0.0"@ {
        "127.0.0.1"@
    } else {
        c.bind@
    }
}

impl Default for AppConfig {
    fn default() -> (r: AppConfig)
        ensures
            r.port == 8080,
            r.bind@ == "0.0.0.0"@,
            !r.expert_mode,
            r.auto_copy_url_on_add,
            r.send_server_header,
            r.open_in_browser_use_localhost,
            r.show_bandwidth_graph,
            r.locale == Locale::System,
            r.theme_mode == ThemeMode::System,
            r.max_connections is None,
            r.allow_upload,
            r.upload_max_mb == 512,
            !r.protect_uploads,
            r.accounts@.len() == 0,
    {
        AppConfig {
            port: DEFAULT_PORT,
            bind: DEFAULT_BIND.to_string(),
            expert_mode: false,
            auto_copy_url_on_add: true,
            send_server_header: true,
            open_in_browser_use_localhost: true,
            show_bandwidth_graph: true,
            locale: Locale::System,
            theme_mode: ThemeMode::System,
            max_connections: None,
            allow_upload: true,
            upload_max_mb: default_upload_max(),
            protect_uploads: false,
            accounts: Vec::new(),
        }
    }
}

impl AppConfig {
    /// `bind:port`, the address the server listens on.
    pub fn listen_addr(&self) -> (r: String)
        ensures
            r@ == self.bind@ + ":"@ + decimal(self.port as nat),
    {
        let mut buf = chars_of(self.bind.as_str());
        extend_str(&mut buf, ":");
        let digits = decimal_chars(self.port as u64);
        extend_chars(&mut buf, &digits);
        string_of(&buf)
    }

    /// The URL a browser opens: `http://host/` on port 80, else
    /// `http://host:port/`.
    pub fn public_base_url(&self) -> (r: String)
        ensures
            r@ == (if self.port == 80 {
                "http://"@ + browse_host(*self) + "/"@
            } else {
                "http://"@ + browse_host(*self) + ":"@ + decimal(self.port as nat) + "/"@
            }),
    {
        let bind = chars_of(self.bind.as_str());
        let all = chars_of("0.0.0.0");
        let host = if self.open_in_browser_use_localhost || chars_eq(&bind, &all) {
            chars_of("127.0.0.1")
        } else {
            bind
        };
        let mut buf = chars_of("http://");
        extend_chars(&mut buf, &host);
        if self.port != 80 {
            extend_str(&mut buf, ":");
            let digits = decimal_chars(self.port as u64);
            extend_chars(&mut buf, &digits);
        }
        extend_str(&mut buf, "/");
        string_of(&buf)
    }

    /// The largest upload in bytes: `None` for a limit of 0 (unlimited),
    /// else the limit in MiB times 1024 * 1024, saturating at `u64::MAX`.
    pub fn upload_max_bytes(&self) -> (r: Option<u64>)
        ensures
            r == (if self.upload_max_mb == 0 {
                None
            } else if self.upload_max_mb * 1048576 > u64::MAX {
                Some(u64::MAX)
            } else {
                Some((self.upload_max_mb * 1048576) as u64)
            }),
    {
        if self.upload_max_mb == 0 {
            None
        } else {
            match self.upload_max_mb.checked_mul(1024 * 1024) {
                Some(v) => Some(v),
                None => Some(u64::MAX),
            }
        }
    }

    /// Whether an enabled account has exactly this name and password.
    pub fn find_account(&self, user: &str, pass: &str) -> (r: bool)
        ensures
            r == has_account(accounts_view(self.accounts@), user@, pass@),
    {
        let u = chars_of(user);
        let p = chars_of(pass);
        let mut i: usize = 0;
        while i < self.accounts.len()
            invariant
                i <= self.accounts.len(),
                u@ == user@,
                p@ == pass@,
                forall|j: int|
                    0 <= j < i ==> !((#[trigger] accounts_view(self.accounts@)[j]).enabled
                        && accounts_view(self.accounts@)[j].name == user@
                        && accounts_view(self.accounts@)[j].password == pass@),
            decreases self.accounts.len() - i,
        {
            let a = &self.accounts[i];
            let ghost av = accounts_view(self.accounts@)[i as int];
            assert(av == a@);
            if a.enabled {
                let n = chars_of(a.name.as_str());
                let pw = chars_of(a.password.as_str());
                if chars_eq(&n, &u) && chars_eq(&pw, &p) {
                    return true;
                }
            }
            i += 1;
        }
        false
    }
}

} // verus!
