//! What the user's actions in the window do: to the server, the tree, the
//! settings, and the log it shows.

use vstd::prelude::*;

use crate::config::{accounts_view, Account, AccountView, AppConfig};
use crate::http::spec::{last_index_of, strip_trailing};
use crate::i18n::Msg;
use crate::outside::{lowercased, to_lowercase};
use crate::pattern::{find_exec, find_pat, slice_chars};
use crate::server::{LogLevel, ServerStatus};
use crate::text::{
    chars_of, extend_chars, extend_str, parse_u64, parse_u64_spec, string_of, trim, trim_chars,
};
use crate::vfs::spec::is_folder_kind;
use crate::vfs::{NodeId, Vfs, VfsNode};
use std::collections::HashSet;

verus! {

// ---------------------------------------------------------------------
// The server button and the status line
// ---------------------------------------------------------------------

/// What the start/stop button does.
#[derive(Debug, Clone, Copy, PartialEq, Eq, Structural)]
pub enum ServerAction {
    Start,
    Stop,
    Nothing,
}

/// The start/stop button starts a stopped server, stops a starting or
/// running one, and does nothing while it stops.
pub fn toggle_server_action(status: ServerStatus) -> (r: ServerAction)
    ensures
        r == match status {
            ServerStatus::Stopped => ServerAction::Start,
            ServerStatus::Starting | ServerStatus::Running => ServerAction::Stop,
            ServerStatus::Stopping => ServerAction::Nothing,
        },
{
    match status {
        ServerStatus::Stopped => ServerAction::Start,
        ServerStatus::Starting | ServerStatus::Running => ServerAction::Stop,
        ServerStatus::Stopping => ServerAction::Nothing,
    }
}

/// The string the status line shows for a server status.
pub fn status_msg(status: ServerStatus) -> (r: Msg)
    ensures
        r == match status {
            ServerStatus::Stopped => Msg::ServerOff,
            ServerStatus::Starting => Msg::ServerStarting,
            ServerStatus::Running => Msg::ServerOn,
            ServerStatus::Stopping => Msg::ServerStopping,
        },
{
    match status {
        ServerStatus::Stopped => Msg::ServerOff,
        ServerStatus::Starting => Msg::ServerStarting,
        ServerStatus::Running => Msg::ServerOn,
        ServerStatus::Stopping => Msg::ServerStopping,
    }
}

// ---------------------------------------------------------------------
// The tree
// ---------------------------------------------------------------------

impl Vfs {
    /// Where new items go: into the selected node when it is a folder,
    /// else next to it (into its parent), else into the root.
    pub fn target_parent(&self, selected: Option<NodeId>) -> (r: NodeId)
        ensures
            r == match selected {
                Some(id) => if self@.has(id) && is_folder_kind(self@.node(id).kind) {
                    id
                } else if self@.has(id) && self@.node(id).parent is Some {
                    self@.node(id).parent->Some_0
                } else {
                    self@.root
                },
                None => self@.root,
            },
    {
        match selected {
            Some(id) => match self.get(id) {
                Some(node) => {
                    if node.is_folder() {
                        id
                    } else {
                        match node.parent {
                            Some(p) => p,
                            None => self.root_id(),
                        }
                    }
                },
                None => self.root_id(),
            },
            None => self.root_id(),
        }
    }
}

/// The address of a node: the base URL and the node's URL path, with one
/// `/` where both bring one.
pub open spec fn full_url(base: Seq<char>, path: Seq<char>) -> Seq<char> {
    if base.len() > 0 && base.last() == '/' && path.len() > 0 && path[0] == '/' {
        strip_trailing(base, '/') + path
    } else {
        base + path
    }
}

/// The address of a node from the base URL and its URL path.
pub fn selected_url(base: &str, path: &str) -> (r: String)
    ensures
        r@ == full_url(base@, path@),
{
    let b = chars_of(base);
    let p = chars_of(path);
    let mut out: Vec<char> = Vec::new();
    if b.len() > 0 && b[b.len() - 1] == '/' && p.len() > 0 && p[0] == '/' {
        let mut n = b.len();
        assert(b@.take(n as int) =~= b@);
        while n > 0 && b[n - 1] == '/'
            invariant
                n <= b.len(),
                strip_trailing(b@, '/') == strip_trailing(b@.take(n as int), '/'),
            decreases n,
        {
            assert(b@.take(n as int).drop_last() =~= b@.take(n - 1));
            n -= 1;
        }
        out = slice_chars(&b, 0, n);
        assert(out@ =~= b@.take(n as int));
        assert(strip_trailing(out@, '/') == out@);
    } else {
        extend_chars(&mut out, &b);
        assert(out@ =~= b@);
    }
    extend_chars(&mut out, &p);
    string_of(&out)
}

/// The name of a new link: the given name, or, where it is blank, the
/// last part of the URL (trailing slashes aside).
pub open spec fn link_name_spec(name: Seq<char>, url: Seq<char>) -> Seq<char> {
    if trim(name).len() == 0 {
        let t = strip_trailing(url, '/');
        match last_index_of(t, '/') {
            Some(j) => t.skip(j + 1),
            None => t,
        }
    } else {
        name
    }
}

/// The name a new link gets.
pub fn link_name(name: &str, url: &str) -> (r: String)
    ensures
        r@ == link_name_spec(name@, url@),
{
    let nv = chars_of(name);
    if trim_chars(&nv).len() > 0 {
        return string_of(&nv);
    }
    let u = chars_of(url);
    let mut n = u.len();
    assert(u@.take(n as int) =~= u@);
    while n > 0 && u[n - 1] == '/'
        invariant
            n <= u.len(),
            strip_trailing(u@, '/') == strip_trailing(u@.take(n as int), '/'),
        decreases n,
    {
        assert(u@.take(n as int).drop_last() =~= u@.take(n - 1));
        n -= 1;
    }
    let t = slice_chars(&u, 0, n);
    assert(t@ =~= u@.take(n as int));
    assert(strip_trailing(t@, '/') == t@);
    let mut j = t.len();
    assert(t@.take(j as int) =~= t@);
    while j > 0 && t[j - 1] != '/'
        invariant
            j <= t.len(),
            last_index_of(t@, '/') == last_index_of(t@.take(j as int), '/'),
        decreases j,
    {
        assert(t@.take(j as int).drop_last() =~= t@.take(j - 1));
        j -= 1;
    }
    if j == 0 {
        return string_of(&t);
    }
    assert(t@.take(j as int).last() == '/');
    string_of(&slice_chars(&t, j, t.len()))
}

// ---------------------------------------------------------------------
// Settings
// ---------------------------------------------------------------------

/// What parsing `s`, trimmed, as an unsigned integer no larger than `max`
/// gives (as `u16::from_str`, `usize::from_str` and `u64::from_str` do
/// for their maxima).
pub open spec fn parse_bounded_spec(s: Seq<char>, max: u64) -> Option<u64> {
    match parse_u64_spec(trim(s)) {
        Some(v) => if v <= max {
            Some(v)
        } else {
            None
        },
        None => None,
    }
}

/// Parses `s`, trimmed, as an unsigned integer no larger than `max`.
pub fn parse_bounded(s: &str, max: u64) -> (r: Option<u64>)
    ensures
        r == parse_bounded_spec(s@, max),
{
    let t = trim_chars(&chars_of(s));
    match parse_u64(&t) {
        Some(v) => if v <= max {
            Some(v)
        } else {
            None
        },
        None => None,
    }
}

/// Stores the server options typed into the settings: a port that does
/// not read as a number up to 65535 keeps the old port, a connection cap
/// that does not read as a number means no cap, an upload limit that does
/// not read as a number keeps the old limit.
pub fn apply_server_options(
    cfg: &mut AppConfig,
    port_text: &str,
    max_conn_text: &str,
    upload_max_text: &str,
    auto_copy_url_on_add: bool,
    send_server_header: bool,
    open_in_browser_use_localhost: bool,
    allow_upload: bool,
    protect_uploads: bool,
)
    ensures
        final(cfg).port == match parse_bounded_spec(port_text@, 65535) {
            Some(v) => v as u16,
            None => old(cfg).port,
        },
        final(cfg).max_connections == match parse_bounded_spec(max_conn_text@, usize::MAX as u64) {
            Some(v) => Some(v as usize),
            None => None,
        },
        final(cfg).upload_max_mb == match parse_bounded_spec(upload_max_text@, u64::MAX) {
            Some(v) => v,
            None => old(cfg).upload_max_mb,
        },
        final(cfg).auto_copy_url_on_add == auto_copy_url_on_add,
        final(cfg).send_server_header == send_server_header,
        final(cfg).open_in_browser_use_localhost == open_in_browser_use_localhost,
        final(cfg).allow_upload == allow_upload,
        final(cfg).protect_uploads == protect_uploads,
        final(cfg).bind == old(cfg).bind,
        final(cfg).expert_mode == old(cfg).expert_mode,
        final(cfg).show_bandwidth_graph == old(cfg).show_bandwidth_graph,
        final(cfg).locale == old(cfg).locale,
        final(cfg).theme_mode == old(cfg).theme_mode,
        final(cfg).accounts == old(cfg).accounts,
{
    match parse_bounded(port_text, 65535) {
        Some(v) => {
            cfg.port = v as u16;
        },
        None => {},
    }
    cfg.max_connections = match parse_bounded(max_conn_text, usize::MAX as u64) {
        Some(v) => Some(v as usize),
        None => None,
    };
    match parse_bounded(upload_max_text, u64::MAX) {
        Some(v) => {
            cfg.upload_max_mb = v;
        },
        None => {},
    }
    cfg.auto_copy_url_on_add = auto_copy_url_on_add;
    cfg.send_server_header = send_server_header;
    cfg.open_in_browser_use_localhost = open_in_browser_use_localhost;
    cfg.allow_upload = allow_upload;
    cfg.protect_uploads = protect_uploads;
}

/// Adds an enabled account with the typed name and password, both
/// trimmed; a blank name adds nothing. Whether one was added.
pub fn add_account(cfg: &mut AppConfig, user_text: &str, pass_text: &str) -> (r: bool)
    ensures
        r == (trim(user_text@).len() > 0),
        r ==> accounts_view(final(cfg).accounts@) == accounts_view(old(cfg).accounts@).push(
            AccountView { name: trim(user_text@), password: trim(pass_text@), enabled: true },
        ),
        !r ==> final(cfg).accounts@ == old(cfg).accounts@,
{
    let user = trim_chars(&chars_of(user_text));
    if user.len() == 0 {
        return false;
    }
    let pass = trim_chars(&chars_of(pass_text));
    let a = Account { name: string_of(&user), password: string_of(&pass), enabled: true };
    let ghost before = accounts_view(cfg.accounts@);
    cfg.accounts.push(a);
    assert(accounts_view(cfg.accounts@) =~= before.push(a@));
    true
}

/// Removes the account at `idx`, if there is one, and hands it back.
pub fn remove_account(cfg: &mut AppConfig, idx: usize) -> (r: Option<Account>)
    ensures
        idx < old(cfg).accounts@.len() ==> (r matches Some(a) && a@ == old(cfg).accounts@[idx as int]@
            && final(cfg).accounts@ == old(cfg).accounts@.remove(idx as int)),
        idx >= old(cfg).accounts@.len() ==> r is None && final(cfg).accounts@
            == old(cfg).accounts@,
{
    if idx < cfg.accounts.len() {
        Some(cfg.accounts.remove(idx))
    } else {
        None
    }
}

/// `b` holds the settings of `a`, the accounts and the upload and
/// network options aside.
pub open spec fn same_general_settings(a: AppConfig, b: AppConfig) -> bool {
    &&& b.bind@ == a.bind@
    &&& b.expert_mode == a.expert_mode
    &&& b.auto_copy_url_on_add == a.auto_copy_url_on_add
    &&& b.send_server_header == a.send_server_header
    &&& b.open_in_browser_use_localhost == a.open_in_browser_use_localhost
    &&& b.show_bandwidth_graph == a.show_bandwidth_graph
    &&& b.locale == a.locale
    &&& b.theme_mode == a.theme_mode
}

/// Stores the network options typed into the settings tab: a port that
/// does not read as a number up to 65535 becomes 8080, a connection cap
/// that does not read as a number means no cap, an upload limit that
/// does not read as a number becomes 512 MiB.
pub fn apply_network_settings(
    cfg: &mut AppConfig,
    port_text: &str,
    max_conn_text: &str,
    upload_max_text: &str,
)
    ensures
        final(cfg).port == match parse_bounded_spec(port_text@, 65535) {
            Some(v) => v as u16,
            None => 8080,
        },
        final(cfg).max_connections == match parse_bounded_spec(max_conn_text@, usize::MAX as u64) {
            Some(v) => Some(v as usize),
            None => None,
        },
        final(cfg).upload_max_mb == match parse_bounded_spec(upload_max_text@, u64::MAX) {
            Some(v) => v,
            None => 512,
        },
        same_general_settings(*old(cfg), *final(cfg)),
        final(cfg).allow_upload == old(cfg).allow_upload,
        final(cfg).protect_uploads == old(cfg).protect_uploads,
        final(cfg).accounts@ == old(cfg).accounts@,
{
    cfg.port = match parse_bounded(port_text, 65535) {
        Some(v) => v as u16,
        None => 8080,
    };
    cfg.max_connections = match parse_bounded(max_conn_text, usize::MAX as u64) {
        Some(v) => Some(v as usize),
        None => None,
    };
    cfg.upload_max_mb = match parse_bounded(upload_max_text, u64::MAX) {
        Some(v) => v,
        None => 512,
    };
}

/// Who may upload: nobody, anybody, or account holders.
#[derive(Debug, Clone, Copy, PartialEq, Eq, Structural)]
pub enum UploadPolicy {
    Disabled,
    Public,
    Protected,
}

/// The policy the settings hold: uploads off, else protected where
/// protection is on, else public.
pub fn upload_policy(cfg: &AppConfig) -> (r: UploadPolicy)
    ensures
        r == if !cfg.allow_upload {
            UploadPolicy::Disabled
        } else if cfg.protect_uploads {
            UploadPolicy::Protected
        } else {
            UploadPolicy::Public
        },
{
    if !cfg.allow_upload {
        UploadPolicy::Disabled
    } else if cfg.protect_uploads {
        UploadPolicy::Protected
    } else {
        UploadPolicy::Public
    }
}

impl UploadPolicy {
    /// The policy a choice of the policy menu names: `public`, `protect`,
    /// and anything else turns uploads off.
    pub fn from_key(key: &str) -> (r: UploadPolicy)
        ensures
            r == if key@ == "public"@ {
                UploadPolicy::Public
            } else if key@ == "protect"@ {
                UploadPolicy::Protected
            } else {
                UploadPolicy::Disabled
            },
    {
        let k = chars_of(key);
        if crate::text::chars_eq(&k, &chars_of("public")) {
            UploadPolicy::Public
        } else if crate::text::chars_eq(&k, &chars_of("protect")) {
            UploadPolicy::Protected
        } else {
            UploadPolicy::Disabled
        }
    }

    /// The line the policy is shown with.
    pub fn label(self) -> (r: Msg)
        ensures
            r == match self {
                UploadPolicy::Disabled => Msg::UploadDisabled,
                UploadPolicy::Public => Msg::UploadPublic,
                UploadPolicy::Protected => Msg::UploadProtected,
            },
    {
        match self {
            UploadPolicy::Disabled => Msg::UploadDisabled,
            UploadPolicy::Public => Msg::UploadPublic,
            UploadPolicy::Protected => Msg::UploadProtected,
        }
    }
}

/// Stores a policy: uploads on unless it is `Disabled`, protected
/// exactly for `Protected`.
pub fn set_upload_policy(cfg: &mut AppConfig, policy: UploadPolicy)
    ensures
        final(cfg).allow_upload == (policy != UploadPolicy::Disabled),
        final(cfg).protect_uploads == (policy == UploadPolicy::Protected),
        same_general_settings(*old(cfg), *final(cfg)),
        final(cfg).port == old(cfg).port,
        final(cfg).max_connections == old(cfg).max_connections,
        final(cfg).upload_max_mb == old(cfg).upload_max_mb,
        final(cfg).accounts@ == old(cfg).accounts@,
{
    match policy {
        UploadPolicy::Disabled => {
            cfg.allow_upload = false;
            cfg.protect_uploads = false;
        },
        UploadPolicy::Public => {
            cfg.allow_upload = true;
            cfg.protect_uploads = false;
        },
        UploadPolicy::Protected => {
            cfg.allow_upload = true;
            cfg.protect_uploads = true;
        },
    }
}

/// Switches the account at `idx` on or off; where there is none, nothing
/// changes.
pub fn toggle_account(cfg: &mut AppConfig, idx: usize)
    ensures
        idx < old(cfg).accounts@.len() ==> accounts_view(final(cfg).accounts@) == accounts_view(
            old(cfg).accounts@,
        ).update(
            idx as int,
            AccountView {
                name: old(cfg).accounts@[idx as int].name@,
                password: old(cfg).accounts@[idx as int].password@,
                enabled: !old(cfg).accounts@[idx as int].enabled,
            },
        ),
        idx >= old(cfg).accounts@.len() ==> final(cfg).accounts@ == old(cfg).accounts@,
        same_general_settings(*old(cfg), *final(cfg)),
        final(cfg).port == old(cfg).port,
        final(cfg).max_connections == old(cfg).max_connections,
        final(cfg).upload_max_mb == old(cfg).upload_max_mb,
        final(cfg).allow_upload == old(cfg).allow_upload,
        final(cfg).protect_uploads == old(cfg).protect_uploads,
{
    if idx < cfg.accounts.len() {
        let a = Account {
            name: cfg.accounts[idx].name.clone(),
            password: cfg.accounts[idx].password.clone(),
            enabled: !cfg.accounts[idx].enabled,
        };
        let ghost before = accounts_view(cfg.accounts@);
        cfg.accounts.set(idx, a);
        assert(accounts_view(cfg.accounts@) =~= before.update(idx as int, a@));
    }
}

// ---------------------------------------------------------------------
// The log pane
// ---------------------------------------------------------------------

/// How many lines the log keeps.
pub const LOG_CAPACITY: usize = 1000;

/// One line of the log pane.
#[derive(Debug, Clone)]
pub struct LogEntry {
    pub level: LogLevel,
    pub time: String,
    pub text: String,
}

pub open spec fn log_view(v: Seq<LogEntry>) -> Seq<(LogLevel, Seq<char>, Seq<char>)> {
    v.map_values(|e: LogEntry| (e.level, e.time@, e.text@))
}

/// The log after `e` is added: the newest `LOG_CAPACITY` lines.
pub open spec fn pushed_log(old_log: Seq<(LogLevel, Seq<char>, Seq<char>)>, e: (LogLevel, Seq<char>, Seq<char>)) -> Seq<
    (LogLevel, Seq<char>, Seq<char>),
> {
    let n = old_log.push(e);
    if n.len() > LOG_CAPACITY {
        n.skip(n.len() - LOG_CAPACITY)
    } else {
        n
    }
}

/// Adds a line to the log, dropping the oldest beyond `LOG_CAPACITY`.
pub fn push_log(logs: &mut Vec<LogEntry>, e: LogEntry)
    ensures
        log_view(final(logs)@) == pushed_log(log_view(old(logs)@), (e.level, e.time@, e.text@)),
{
    let ghost ev = (e.level, e.time@, e.text@);
    let ghost before = log_view(logs@);
    logs.push(e);
    assert(log_view(logs@) =~= before.push(ev));
    if logs.len() > LOG_CAPACITY {
        let overflow = logs.len() - LOG_CAPACITY;
        let mut kept: Vec<LogEntry> = Vec::new();
        let mut i = overflow;
        let ghost all = log_view(logs@);
        while i < logs.len()
            invariant
                overflow <= i <= logs.len(),
                all == log_view(logs@),
                log_view(kept@) == all.subrange(overflow as int, i as int),
            decreases logs.len() - i,
        {
            let x = LogEntry {
                level: logs[i].level,
                time: logs[i].time.clone(),
                text: logs[i].text.clone(),
            };
            let ghost k0 = log_view(kept@);
            assert(all[i as int] == (x.level, x.time@, x.text@));
            kept.push(x);
            assert(log_view(kept@) =~= k0.push((x.level, x.time@, x.text@)));
            assert(all.subrange(overflow as int, i + 1) =~= all.subrange(overflow as int, i as int).push(all[i as int]));
            i += 1;
        }
        assert(all.subrange(overflow as int, all.len() as int) =~= all.skip(overflow as int));
        *logs = kept;
    }
}

/// The log line matches a search: its lower-cased text holds the
/// lower-cased, trimmed query (every line matches a blank query).
pub open spec fn log_matches(text: Seq<char>, query: Seq<char>) -> bool {
    lowercased(trim(query)).len() == 0 || find_pat(lowercased(text), lowercased(trim(query))) is Some
}

/// The indexes of the lines of `texts` that match, in order.
pub open spec fn matching(texts: Seq<Seq<char>>, query: Seq<char>) -> Seq<usize>
    decreases texts.len(),
{
    if texts.len() == 0 {
        seq![]
    } else if log_matches(texts.last(), query) {
        matching(texts.drop_last(), query).push((texts.len() - 1) as usize)
    } else {
        matching(texts.drop_last(), query)
    }
}

pub open spec fn log_texts(v: Seq<LogEntry>) -> Seq<Seq<char>> {
    v.map_values(|e: LogEntry| e.text@)
}

/// The indexes of the log lines that the search box lets through.
pub fn filter_logs(logs: &Vec<LogEntry>, search: &str) -> (r: Vec<usize>)
    ensures
        r@ == matching(log_texts(logs@), search@),
{
    let q = string_of(&trim_chars(&chars_of(search)));
    let ql = to_lowercase(q.as_str());
    let query = chars_of(ql.as_str());
    let ghost texts = log_texts(logs@);
    let mut out: Vec<usize> = Vec::new();
    let mut i: usize = 0;
    while i < logs.len()
        invariant
            i <= logs.len(),
            texts == log_texts(logs@),
            query@ == lowercased(trim(search@)),
            out@ == matching(texts.take(i as int), search@),
        decreases logs.len() - i,
    {
        assert(texts.take(i + 1).drop_last() =~= texts.take(i as int));
        assert(texts.take(i + 1).last() == logs@[i as int].text@);
        let low = to_lowercase(logs[i].text.as_str());
        let lv = chars_of(low.as_str());
        let hit = if query.len() == 0 {
            true
        } else {
            assert(lv@.skip(0) =~= lv@);
            find_exec(&lv, &query, 0).is_some()
        };
        if hit {
            out.push(i);
        }
        i += 1;
    }
    assert(texts.take(logs.len() as int) =~= texts);
    out
}

/// One log line as copied: `[time] text`.
pub open spec fn log_line(e: (LogLevel, Seq<char>, Seq<char>)) -> Seq<char> {
    "["@ + e.1 + "] "@ + e.2
}

/// The lines joined by newlines.
pub open spec fn log_lines(v: Seq<(LogLevel, Seq<char>, Seq<char>)>) -> Seq<char>
    decreases v.len(),
{
    if v.len() == 0 {
        seq![]
    } else if v.len() == 1 {
        log_line(v[0])
    } else {
        log_lines(v.drop_last()) + "\n"@ + log_line(v.last())
    }
}

/// The whole log as text, as it is copied to the clipboard.
pub fn log_text(logs: &Vec<LogEntry>) -> (r: String)
    ensures
        r@ == log_lines(log_view(logs@)),
{
    let ghost v = log_view(logs@);
    let mut out: Vec<char> = Vec::new();
    let mut i: usize = 0;
    while i < logs.len()
        invariant
            i <= logs.len(),
            v == log_view(logs@),
            out@ == log_lines(v.take(i as int)),
        decreases logs.len() - i,
    {
        assert(v.take(i + 1).drop_last() =~= v.take(i as int));
        assert(v.take(i + 1).last() == v[i as int]);
        if i > 0 {
            extend_str(&mut out, "\n");
        }
        extend_str(&mut out, "[");
        extend_str(&mut out, logs[i].time.as_str());
        extend_str(&mut out, "] ");
        extend_str(&mut out, logs[i].text.as_str());
        i += 1;
    }
    assert(v.take(logs.len() as int) =~= v);
    string_of(&out)
}

// ---------------------------------------------------------------------
// The tree pane
// ---------------------------------------------------------------------

/// One row of the tree pane: its depth, its node, and whether the node is
/// a folder with children (one that can be expanded).
#[derive(Debug, Clone, Copy, PartialEq, Eq)]
pub struct TreeRow {
    pub depth: usize,
    pub id: NodeId,
    pub has_children: bool,
}

pub open spec fn row_view(r: TreeRow) -> (nat, u64, bool) {
    (r.depth as nat, r.id.0, r.has_children)
}

pub open spec fn rows_view(v: Seq<TreeRow>) -> Seq<(nat, u64, bool)> {
    v.map_values(|r: TreeRow| row_view(r))
}

/// The node `k` can be expanded: a folder with children.
pub open spec fn expandable(v: crate::vfs::spec::VfsView, k: u64) -> bool {
    is_folder_kind(v.nodes[k].kind) && v.nodes[k].children.len() > 0
}

/// The rows the tree pane shows for the subtree of `k` at depth `d`:
/// `k` itself, and below it, where it is expanded, the rows of its
/// children in order.
pub open spec fn visible(v: crate::vfs::spec::VfsView, k: u64, d: nat, ex: Set<u64>) -> Seq<
    (nat, u64, bool),
>
    decreases u64::MAX - k, 1nat, 0nat,
{
    if !v.nodes.contains_key(k) {
        seq![]
    } else {
        seq![(d, k, expandable(v, k))] + if expandable(v, k) && ex.contains(k) {
            visible_kids(v, k, d, ex, 0)
        } else {
            seq![]
        }
    }
}

/// The rows of the children of `k` from the `i`-th on.
pub open spec fn visible_kids(
    v: crate::vfs::spec::VfsView,
    k: u64,
    d: nat,
    ex: Set<u64>,
    i: nat,
) -> Seq<(nat, u64, bool)>
    decreases u64::MAX - k, 0nat, v.nodes[k].children.len() - i,
{
    if !v.nodes.contains_key(k) || i >= v.nodes[k].children.len() {
        seq![]
    } else {
        let c = v.nodes[k].children[i as int];
        (if c.0 > k {
            visible(v, c.0, d + 1, ex)
        } else {
            seq![]
        }) + visible_kids(v, k, d, ex, i + 1)
    }
}

impl Vfs {
    /// The rows of the tree pane: the tree depth first from the root,
    /// going into a folder only where its id is in `expanded`.
    pub fn visible_rows(&self, expanded: &HashSet<u64>) -> (r: Vec<TreeRow>)
        requires
            self@.wf(),
            self@.next_id <= usize::MAX,
        ensures
            rows_view(r@) == visible(self@, self@.root.0, 0, expanded@),
    {
        let mut out: Vec<TreeRow> = Vec::new();
        let root = self.root_id();
        assert(self@.node_ok(root.0));
        self.visible_walk(root, 0, expanded, &mut out);
        assert(rows_view(out@) =~= visible(self@, self@.root.0, 0, expanded@));
        out
    }

    fn visible_walk(&self, id: NodeId, depth: usize, expanded: &HashSet<u64>, out: &mut Vec<TreeRow>)
        requires
            self@.wf(),
            self@.next_id <= usize::MAX,
            depth <= id.0,
            id.0 < self@.next_id,
        ensures
            rows_view(final(out)@) == rows_view(old(out)@) + visible(self@, id.0, depth as nat, expanded@),
        decreases u64::MAX - id.0, 1nat, 0nat,
    {
        match self.get(id) {
            Some(node) => {
                let has_children = node.is_folder() && node.children.len() > 0;
                let row = TreeRow { depth, id, has_children };
                out.push(row);
                assert(rows_view(out@) =~= rows_view(old(out)@) + seq![row_view(row)]);
                if has_children && expanded.contains(&id.0) {
                    self.visible_kids_walk(id, node, depth, 0, expanded, out);
                }
                assert(rows_view(final(out)@) =~= rows_view(old(out)@) + visible(
                    self@,
                    id.0,
                    depth as nat,
                    expanded@,
                ));
            },
            None => {
                assert(rows_view(old(out)@) + visible(self@, id.0, depth as nat, expanded@) =~= rows_view(
                    old(out)@,
                ));
            },
        }
    }

    fn visible_kids_walk(
        &self,
        id: NodeId,
        node: &VfsNode,
        depth: usize,
        i: usize,
        expanded: &HashSet<u64>,
        out: &mut Vec<TreeRow>,
    )
        requires
            self@.wf(),
            self@.next_id <= usize::MAX,
            depth <= id.0,
            self@.has(id),
            node@ == self@.node(id),
            i <= node.children.len(),
        ensures
            rows_view(final(out)@) == rows_view(old(out)@) + visible_kids(
                self@,
                id.0,
                depth as nat,
                expanded@,
                i as nat,
            ),
        decreases u64::MAX - id.0, 0nat, node.children@.len() - i,
    {
        if i >= node.children.len() {
            assert(rows_view(old(out)@) + visible_kids(self@, id.0, depth as nat, expanded@, i as nat)
                =~= rows_view(old(out)@));
            return;
        }
        let c = node.children[i];
        proof {
            assert(self@.node_ok(id.0));
            assert(self@.child_ok(id.0, i as int));
            assert(self@.node_ok(c.0));
        }
        self.visible_walk(c, depth + 1, expanded, out);
        self.visible_kids_walk(id, node, depth, i + 1, expanded, out);
        assert(rows_view(final(out)@) =~= rows_view(old(out)@) + visible_kids(
            self@,
            id.0,
            depth as nat,
            expanded@,
            i as nat,
        ));
    }
}

} // verus!
