//! Deciding what to do with a request: basic authentication, multipart
//! uploads, routing, and the plan for sending a file.

use vstd::prelude::*;
use vstd::utf8::{decode_utf8, encode_utf8, valid_utf8};

use super::spec::last_index_of;
use super::{opt_str, parse_range, RangeParse};
use crate::config::{accounts_view, has_account, AccountView, AppConfig};
use crate::outside::{
    base64_decode_standard, base64_decoded, decode_utf8_lossy, mime_for_extension, mime_of_ext,
    utf8_decode, utf8_lossy,
};
use crate::pattern::{
    find_exec, find_pat, slice_chars, split_exec, split_pat, starts_with, starts_with_exec,
};
use crate::text::{
    chars_of, chars_view, decimal, decimal_chars, extend_chars, extend_str, string_of, trim,
    trim_chars,
};
use crate::vfs::paths::Resolution;
use crate::vfs::spec::{is_folder_kind, VfsView};
use crate::vfs::{NodeKind, ResolveResult, Vfs};

verus! {

// ---------------------------------------------------------------------
// Basic authentication
// ---------------------------------------------------------------------

/// An `Authorization` header value names an enabled account: `Basic `,
/// then base64 of UTF-8 text `user:password` (split at the first `:`).
pub open spec fn auth_ok(accounts: Seq<AccountView>, auth: Option<Seq<char>>) -> bool {
    match auth {
        None => false,
        Some(a) => starts_with(a, "Basic "@) && match base64_decoded(a.skip(6)) {
            None => false,
            Some(bytes) => valid_utf8(bytes) && {
                let d = decode_utf8(bytes);
                match find_pat(d, seq![':']) {
                    None => false,
                    Some(i) => has_account(accounts, d.take(i as int), d.skip((i + 1) as int)),
                }
            },
        },
    }
}

/// Whether decoded credentials (base64-decoded bytes, `None` where the
/// decoding failed) are UTF-8 text `user:password` naming an enabled
/// account of `config`.
pub fn credentials_match(config: &AppConfig, decoded: Option<Vec<u8>>) -> (r: bool)
    ensures
        r == match decoded {
            None => false,
            Some(bytes) => valid_utf8(bytes@) && {
                let d = decode_utf8(bytes@);
                match find_pat(d, seq![':']) {
                    None => false,
                    Some(i) => has_account(
                        accounts_view(config.accounts@),
                        d.take(i as int),
                        d.skip((i + 1) as int),
                    ),
                }
            },
        },
{
    let decoded = match decoded {
        None => return false,
        Some(d) => d,
    };
    let text = match utf8_decode(&decoded) {
        None => return false,
        Some(t) => t,
    };
    let dv = chars_of(text.as_str());
    let mut colon: Vec<char> = Vec::new();
    colon.push(':');
    assert(colon@ =~= seq![':']);
    assert(dv@.skip(0) =~= dv@);
    proof {
        crate::pattern::lemma_find_from_bounds(dv@, seq![':'], 0);
    }
    let i = match find_exec(&dv, &colon, 0) {
        None => return false,
        Some(i) => i,
    };
    let user = string_of(&slice_chars(&dv, 0, i));
    let pass = string_of(&slice_chars(&dv, i + 1, dv.len()));
    assert(user@ =~= dv@.take(i as int));
    assert(pass@ =~= dv@.skip(i + 1));
    config.find_account(user.as_str(), pass.as_str())
}

/// Whether the `Authorization` header value `auth` names an enabled
/// account of `config`.
pub fn check_basic_auth(config: &AppConfig, auth: Option<&str>) -> (r: bool)
    ensures
        r == auth_ok(accounts_view(config.accounts@), opt_str(auth)),
{
    let a = match auth {
        None => return false,
        Some(a) => a,
    };
    let av = chars_of(a);
    let pre = chars_of("Basic ");
    proof {
        reveal_strlit("Basic ");
    }
    if !starts_with_exec(&av, &pre) {
        return false;
    }
    let creds = string_of(&slice_chars(&av, 6, av.len()));
    assert(creds@ =~= a@.skip(6));
    credentials_match(config, base64_decode_standard(creds.as_str()))
}

// ---------------------------------------------------------------------
// Multipart uploads
// ---------------------------------------------------------------------

/// The boundary of a `multipart/form-data` content type: the text after
/// the first `=` of the second `;`-separated part, trimmed.
pub open spec fn boundary_spec(ct: Option<Seq<char>>) -> Option<Seq<char>> {
    match ct {
        None => None,
        Some(c) => if !starts_with(c, "multipart/form-data"@) {
            None
        } else {
            let parts = split_pat(c, seq![';']);
            if parts.len() < 2 {
                None
            } else {
                let q = split_pat(parts[1], seq!['=']);
                if q.len() < 2 {
                    None
                } else {
                    Some(trim(q[1]))
                }
            }
        },
    }
}

/// The multipart boundary named by a `Content-Type` header value.
pub fn multipart_boundary(content_type: Option<&str>) -> (r: Option<String>)
    ensures
        match r {
            Some(b) => boundary_spec(opt_str(content_type)) == Some(b@),
            None => boundary_spec(opt_str(content_type)) is None,
        },
{
    let ct = match content_type {
        None => return None,
        Some(c) => c,
    };
    let cv = chars_of(ct);
    let pre = chars_of("multipart/form-data");
    if !starts_with_exec(&cv, &pre) {
        return None;
    }
    let mut semi: Vec<char> = Vec::new();
    semi.push(';');
    assert(semi@ =~= seq![';']);
    let parts = split_exec(&cv, &semi);
    if parts.len() < 2 {
        return None;
    }
    let mut eq: Vec<char> = Vec::new();
    eq.push('=');
    assert(eq@ =~= seq!['=']);
    let q = split_exec(&parts[1], &eq);
    assert(chars_view(parts@)[1] == parts@[1]@);
    if q.len() < 2 {
        return None;
    }
    assert(chars_view(q@)[1] == q@[1]@);
    Some(string_of(&trim_chars(&q[1])))
}

/// The file one multipart part carries: its `filename="..."` and its
/// content (the text after the first blank line, trimmed); none where
/// either is missing or empty.
pub open spec fn part_file(part: Seq<char>) -> Option<(Seq<char>, Seq<char>)> {
    if find_pat(part, "filename="@) is None {
        None
    } else {
        let fs = split_pat(part, "filename=\""@);
        if fs.len() < 2 {
            None
        } else {
            let name = split_pat(fs[1], seq!['"'])[0];
            let cs = split_pat(part, "\r\n\r\n"@);
            let content = trim(
                if cs.len() >= 2 {
                    cs[1]
                } else {
                    seq![]
                },
            );
            if name.len() == 0 || content.len() == 0 {
                None
            } else {
                Some((name, content))
            }
        }
    }
}

/// The files carried by the multipart parts `parts`, in order, each with
/// the UTF-8 bytes of its content.
pub open spec fn part_files(parts: Seq<Seq<char>>) -> Seq<(Seq<char>, Seq<u8>)>
    decreases parts.len(),
{
    if parts.len() == 0 {
        seq![]
    } else {
        part_files(parts.drop_last()) + match part_file(parts.last()) {
            Some((n, c)) => seq![(n, encode_utf8(c))],
            None => seq![],
        }
    }
}

/// The files of a multipart body whose text is `body`, split at
/// `--boundary`.
pub open spec fn multipart_spec(body: Seq<char>, boundary: Seq<char>) -> Seq<(Seq<char>, Seq<u8>)> {
    part_files(split_pat(body, "--"@ + boundary))
}

pub open spec fn files_view(v: Seq<(String, Vec<u8>)>) -> Seq<(Seq<char>, Seq<u8>)> {
    v.map_values(|p: (String, Vec<u8>)| (p.0@, p.1@))
}

fn file_of_part(part: &Vec<char>) -> (r: Option<(String, Vec<u8>)>)
    ensures
        match r {
            Some(p) => part_file(part@) matches Some((n, c)) && p.0@ == n && p.1@ == encode_utf8(c),
            None => part_file(part@) is None,
        },
{
    proof {
        reveal_strlit("filename=");
        reveal_strlit("filename=\"");
        reveal_strlit("\r\n\r\n");
    }
    let key = chars_of("filename=");
    assert(part@.skip(0) =~= part@);
    if find_exec(part, &key, 0).is_none() {
        return None;
    }
    let quoted = chars_of("filename=\"");
    let fs = split_exec(part, &quoted);
    if fs.len() < 2 {
        return None;
    }
    assert(chars_view(fs@)[1] == fs@[1]@);
    let mut dq: Vec<char> = Vec::new();
    dq.push('"');
    assert(dq@ =~= seq!['"']);
    let ns = split_exec(&fs[1], &dq);
    proof {
        lemma_split_nonempty(fs@[1]@, seq!['"']);
    }
    assert(chars_view(ns@)[0] == ns@[0]@);
    let name = &ns[0];
    let blank = chars_of("\r\n\r\n");
    let cs = split_exec(part, &blank);
    let raw: Vec<char> = if cs.len() >= 2 {
        assert(chars_view(cs@)[1] == cs@[1]@);
        slice_chars(&cs[1], 0, cs[1].len())
    } else {
        Vec::new()
    };
    assert(raw@ =~= (if chars_view(cs@).len() >= 2 {
        chars_view(cs@)[1]
    } else {
        seq![]
    }));
    let content = trim_chars(&raw);
    if name.len() == 0 || content.len() == 0 {
        return None;
    }
    let cstr = string_of(&content);
    let bytes = vstd::slice::slice_to_vec(cstr.as_str().as_bytes());
    Some((string_of(name), bytes))
}

proof fn lemma_split_nonempty(s: Seq<char>, pat: Seq<char>)
    ensures
        split_pat(s, pat).len() >= 1,
    decreases s.len(),
{
    if pat.len() > 0 {
        if let Some(i) = find_pat(s, pat) {
            crate::pattern::lemma_find_from_bounds(s, pat, 0);
            lemma_split_nonempty(s.skip((i + pat.len()) as int), pat);
        }
    }
}

/// The files of a multipart body given as text, split at `--boundary`.
pub fn parse_multipart(body: &str, boundary: &str) -> (r: Vec<(String, Vec<u8>)>)
    ensures
        files_view(r@) == multipart_spec(body@, boundary@),
{
    let mut pat = chars_of("--");
    proof {
        reveal_strlit("--");
    }
    extend_str(&mut pat, boundary);
    let bv = chars_of(body);
    let parts = split_exec(&bv, &pat);
    let ghost ps = chars_view(parts@);
    let mut out: Vec<(String, Vec<u8>)> = Vec::new();
    let mut i: usize = 0;
    while i < parts.len()
        invariant
            i <= parts.len(),
            ps == chars_view(parts@),
            files_view(out@) == part_files(ps.take(i as int)),
        decreases parts.len() - i,
    {
        assert(ps.take(i + 1).drop_last() =~= ps.take(i as int));
        assert(ps.take(i + 1).last() == parts@[i as int]@);
        let ghost before = files_view(out@);
        match file_of_part(&parts[i]) {
            Some(f) => {
                out.push(f);
                assert(files_view(out@) =~= before.push((f.0@, f.1@)));
            },
            None => {},
        }
        assert(files_view(out@) =~= part_files(ps.take(i + 1)));
        i += 1;
    }
    assert(ps.take(parts.len() as int) =~= ps);
    out
}

/// The files of a multipart request body: the bytes are read as UTF-8
/// (invalid sequences replaced), then split at `--boundary`.
pub fn parse_upload(body: &Vec<u8>, boundary: &str) -> (r: Vec<(String, Vec<u8>)>)
    ensures
        files_view(r@) == multipart_spec(utf8_lossy(body@), boundary@),
        valid_utf8(body@) ==> files_view(r@) == multipart_spec(decode_utf8(body@), boundary@),
{
    let text = decode_utf8_lossy(body);
    parse_multipart(text.as_str(), boundary)
}

// ---------------------------------------------------------------------
// Routing
// ---------------------------------------------------------------------

/// The request methods the server tells apart.
#[derive(Debug, Clone, Copy, PartialEq, Eq, Structural)]
pub enum Method {
    Get,
    Head,
    Post,
    Other,
}

/// What to answer a request with.
#[derive(Debug, Clone, PartialEq, Eq)]
pub enum Route {
    /// 404: there is no favicon.
    NoFavicon,
    /// The style sheet.
    StyleSheet,
    NotFound,
    Forbidden,
    /// A directory listing.
    Listing,
    /// The file on disk at this path.
    File(String),
    /// A node that is neither a folder nor a file.
    NotAFile,
    UploadsNotAllowed,
    /// Uploads need an account and none was given.
    Unauthorized,
    Upload,
    MethodNotAllowed,
}

pub enum RouteView {
    NoFavicon,
    StyleSheet,
    NotFound,
    Forbidden,
    Listing,
    File(Seq<char>),
    NotAFile,
    UploadsNotAllowed,
    Unauthorized,
    Upload,
    MethodNotAllowed,
}

impl View for Route {
    type V = RouteView;

    open spec fn view(&self) -> RouteView {
        match self {
            Route::NoFavicon => RouteView::NoFavicon,
            Route::StyleSheet => RouteView::StyleSheet,
            Route::NotFound => RouteView::NotFound,
            Route::Forbidden => RouteView::Forbidden,
            Route::Listing => RouteView::Listing,
            Route::File(p) => RouteView::File(p@),
            Route::NotAFile => RouteView::NotAFile,
            Route::UploadsNotAllowed => RouteView::UploadsNotAllowed,
            Route::Unauthorized => RouteView::Unauthorized,
            Route::Upload => RouteView::Upload,
            Route::MethodNotAllowed => RouteView::MethodNotAllowed,
        }
    }
}

/// The paths the server answers before looking in the tree.
pub open spec fn special_spec(path: Seq<char>) -> Option<RouteView> {
    if path == "/favicon.ico"@ {
        Some(RouteView::NoFavicon)
    } else if path == "/~style.css"@ {
        Some(RouteView::StyleSheet)
    } else {
        None
    }
}

/// The answer to a request for `/favicon.ico` or `/~style.css`, which
/// the tree is not asked about.
pub fn special_route(path: &str) -> (r: Option<Route>)
    ensures
        match r {
            Some(x) => special_spec(path@) == Some(x@),
            None => special_spec(path@) is None,
        },
{
    let p = chars_of(path);
    let fav = chars_of("/favicon.ico");
    let css = chars_of("/~style.css");
    if crate::text::chars_eq(&p, &fav) {
        Some(Route::NoFavicon)
    } else if crate::text::chars_eq(&p, &css) {
        Some(Route::StyleSheet)
    } else {
        None
    }
}

/// The answer to a request that the tree resolved to `res`: reads show a
/// listing or send a file, posts upload (when allowed and, with protected
/// uploads and accounts, authorized), anything else is refused.
pub open spec fn route_spec(
    method: Method,
    v: VfsView,
    res: Resolution,
    allow_upload: bool,
    protect_uploads: bool,
    accounts: Seq<AccountView>,
    auth: Option<Seq<char>>,
) -> RouteView {
    match method {
        Method::Get | Method::Head => match res {
            Resolution::NotFound => RouteView::NotFound,
            Resolution::Forbidden => RouteView::Forbidden,
            Resolution::DiskDir { .. } => RouteView::Listing,
            Resolution::Node(id) => if v.has(id) && is_folder_kind(v.node(id).kind) {
                RouteView::Listing
            } else if v.has(id) && v.node(id).kind == NodeKind::File && v.node(id).resource is Some {
                RouteView::File(v.node(id).resource->Some_0)
            } else {
                RouteView::NotAFile
            },
            Resolution::DiskFile { path, .. } => RouteView::File(path),
            Resolution::OnDisk { .. } => RouteView::NotAFile,
        },
        Method::Post => if !allow_upload {
            RouteView::UploadsNotAllowed
        } else if protect_uploads && accounts.len() > 0 && !auth_ok(accounts, auth) {
            RouteView::Unauthorized
        } else {
            RouteView::Upload
        },
        Method::Other => RouteView::MethodNotAllowed,
    }
}

/// What to answer a request with, once its path resolved to `resolved`.
pub fn route(
    method: Method,
    vfs: &Vfs,
    resolved: &ResolveResult,
    config: &AppConfig,
    auth: Option<&str>,
) -> (r: Route)
    ensures
        r@ == route_spec(
            method,
            vfs@,
            resolved@,
            config.allow_upload,
            config.protect_uploads,
            accounts_view(config.accounts@),
            opt_str(auth),
        ),
{
    match method {
        Method::Get | Method::Head => match resolved {
            ResolveResult::NotFound => Route::NotFound,
            ResolveResult::Forbidden => Route::Forbidden,
            other => {
                if other.is_dir(vfs) {
                    Route::Listing
                } else {
                    match vfs.file_path_for(other) {
                        Some(p) => Route::File(p),
                        None => Route::NotAFile,
                    }
                }
            },
        },
        Method::Post => {
            if !config.allow_upload {
                return Route::UploadsNotAllowed;
            }
            if config.protect_uploads && config.accounts.len() > 0 {
                if !check_basic_auth(config, auth) {
                    return Route::Unauthorized;
                }
            }
            Route::Upload
        },
        Method::Other => Route::MethodNotAllowed,
    }
}

// ---------------------------------------------------------------------
// Sending a file
// ---------------------------------------------------------------------

/// How a file is sent.
#[derive(Debug, Clone, Copy, PartialEq, Eq, Structural)]
pub enum ServePlan {
    /// 416, with `Content-Range: bytes */len`.
    Unsatisfiable,
    /// 200 (or 206 when `partial`): the bytes `start..=end`, announced as
    /// `content_len` bytes long.
    Send { partial: bool, start: u64, end: u64, content_len: u64 },
}

pub open spec fn sat_sub(a: u64, b: u64) -> u64 {
    if a >= b {
        (a - b) as u64
    } else {
        0
    }
}

pub open spec fn sat_add(a: u64, b: u64) -> u64 {
    if a + b > u64::MAX {
        u64::MAX
    } else {
        (a + b) as u64
    }
}

/// The plan for a file of `file_len` bytes and a `Range` header value.
pub open spec fn serve_spec(file_len: u64, range: Option<Seq<char>>) -> ServePlan {
    match super::spec::range_spec(range, file_len) {
        RangeParse::Full => {
            let end = sat_sub(file_len, 1);
            ServePlan::Send { partial: false, start: 0, end, content_len: sat_add(end, 1) }
        },
        RangeParse::Partial { start, end } => ServePlan::Send {
            partial: true,
            start,
            end,
            content_len: sat_add(sat_sub(end, start), 1),
        },
        RangeParse::Unsatisfiable => ServePlan::Unsatisfiable,
    }
}

/// How to send a file of `file_len` bytes for a `Range` header value.
pub fn serve_plan(file_len: u64, range: Option<&str>) -> (r: ServePlan)
    ensures
        r == serve_spec(file_len, opt_str(range)),
{
    match parse_range(range, file_len) {
        RangeParse::Full => {
            let end = file_len.saturating_sub(1);
            ServePlan::Send {
                partial: false,
                start: 0,
                end,
                content_len: end.saturating_sub(0).saturating_add(1),
            }
        },
        RangeParse::Partial { start, end } => ServePlan::Send {
            partial: true,
            start,
            end,
            content_len: end.saturating_sub(start).saturating_add(1),
        },
        RangeParse::Unsatisfiable => ServePlan::Unsatisfiable,
    }
}

/// `bytes start-end/len`.
pub fn content_range(start: u64, end: u64, file_len: u64) -> (r: String)
    ensures
        r@ == "bytes "@ + decimal(start as nat) + "-"@ + decimal(end as nat) + "/"@ + decimal(
            file_len as nat,
        ),
{
    let mut buf = chars_of("bytes ");
    extend_chars(&mut buf, &decimal_chars(start));
    extend_str(&mut buf, "-");
    extend_chars(&mut buf, &decimal_chars(end));
    extend_str(&mut buf, "/");
    extend_chars(&mut buf, &decimal_chars(file_len));
    string_of(&buf)
}

/// `bytes */len`, sent with an unsatisfiable range.
pub fn unsatisfied_range(file_len: u64) -> (r: String)
    ensures
        r@ == "bytes */"@ + decimal(file_len as nat),
{
    let mut buf = chars_of("bytes */");
    extend_chars(&mut buf, &decimal_chars(file_len));
    string_of(&buf)
}

/// `inline; filename="name"`.
pub fn content_disposition(file_name: &str) -> (r: String)
    ensures
        r@ == "inline; filename=\""@ + file_name@ + "\""@,
{
    let mut buf = chars_of("inline; filename=\"");
    extend_str(&mut buf, file_name);
    extend_str(&mut buf, "\"");
    string_of(&buf)
}

/// The extension of a file name, as `Path::extension` reads it: the text
/// after the last `.`, where that `.` is not the first character.
pub open spec fn extension_of(name: Seq<char>) -> Option<Seq<char>> {
    match last_index_of(name, '.') {
        None => None,
        Some(i) => if i == 0 {
            None
        } else {
            Some(name.skip(i + 1))
        },
    }
}

/// The MIME type sent for a file named `file_name`: the one its extension
/// maps to, `application/octet-stream` where it has none.
pub fn mime_type_for(file_name: &str) -> (r: String)
    ensures
        r@ == match extension_of(file_name@) {
            Some(e) => mime_of_ext(e),
            None => "application/octet-stream"@,
        },
{
    let v = chars_of(file_name);
    let mut j = v.len();
    assert(v@.take(j as int) =~= v@);
    while j > 0 && v[j - 1] != '.'
        invariant
            j <= v.len(),
            last_index_of(v@, '.') == last_index_of(v@.take(j as int), '.'),
        decreases j,
    {
        assert(v@.take(j as int).drop_last() =~= v@.take(j - 1));
        j -= 1;
    }
    if j <= 1 {
        proof {
            if j == 1 {
                assert(v@.take(1).last() == '.');
            }
            reveal_strlit("");
        }
        return mime_for_extension("");
    }
    assert(v@.take(j as int).last() == '.');
    let ext = string_of(&slice_chars(&v, j, v.len()));
    assert(ext@ =~= v@.skip(j as int));
    mime_for_extension(ext.as_str())
}

} // verus!
