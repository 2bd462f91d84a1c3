//! What the server's answers must satisfy, over all inputs: routing of
//! files, uploads of several files, byte ranges, HTML escaping and the
//! extension a MIME type is looked up by.

use vstd::prelude::*;
use vstd::utf8::encode_utf8;

use super::request::{extension_of, multipart_spec, part_file, part_files, route_spec, RouteView};
use super::request::Method;
use super::spec::{before_first, escape_char, escaped, last_index_of, range_spec};
use super::RangeParse;
use crate::pattern::{find_from, find_pat, matches_at};
use crate::text::{
    all_digits, decimal, digit_char, digit_value, digits_value, is_digit, is_ws, parse_u64_spec,
    trim, trim_end, trim_start,
};
use crate::config::AccountView;
use crate::pattern::split_pat;
use crate::vfs::paths::Resolution;
use crate::vfs::spec::VfsView;
use crate::vfs::NodeId;

verus! {

// ---------------------------------------------------------------------
// Routing
// ---------------------------------------------------------------------

/// A read (GET or HEAD) of a path that resolved to a file on disk below a
/// real folder is answered with that very file, whatever the tree, the
/// upload settings and the credentials.
pub proof fn lemma_route_serves_disk_files(
    method: Method,
    v: VfsView,
    node_id: NodeId,
    path: Seq<char>,
    allow_upload: bool,
    protect_uploads: bool,
    accounts: Seq<AccountView>,
    auth: Option<Seq<char>>,
)
    requires
        method == Method::Get || method == Method::Head,
    ensures
        route_spec(
            method,
            v,
            Resolution::DiskFile { node_id, path },
            allow_upload,
            protect_uploads,
            accounts,
            auth,
        ) == RouteView::File(path),
{
}

/// A read of a folder of the tree, or of a directory on disk below a
/// real folder, is answered with a listing.
pub proof fn lemma_route_lists_folders(
    method: Method,
    v: VfsView,
    res: Resolution,
    allow_upload: bool,
    protect_uploads: bool,
    accounts: Seq<AccountView>,
    auth: Option<Seq<char>>,
)
    requires
        method == Method::Get || method == Method::Head,
        res is DiskDir || (res matches Resolution::Node(id) && v.has(id)
            && crate::vfs::spec::is_folder_kind(v.node(id).kind)),
    ensures
        route_spec(method, v, res, allow_upload, protect_uploads, accounts, auth)
            == RouteView::Listing,
{
}

/// Uploads are refused while they are off, whatever was sent; methods
/// other than GET, HEAD and POST are never allowed.
pub proof fn lemma_route_refusals(
    v: VfsView,
    res: Resolution,
    protect_uploads: bool,
    accounts: Seq<AccountView>,
    auth: Option<Seq<char>>,
    allow_upload: bool,
)
    ensures
        route_spec(Method::Post, v, res, false, protect_uploads, accounts, auth)
            == RouteView::UploadsNotAllowed,
        route_spec(Method::Other, v, res, allow_upload, protect_uploads, accounts, auth)
            == RouteView::MethodNotAllowed,
        route_spec(Method::Post, v, res, true, false, accounts, auth) == RouteView::Upload,
{
}

/// A read of a file node of the tree that names a file on disk is
/// answered with that file.
pub proof fn lemma_route_serves_file_nodes(
    method: Method,
    v: VfsView,
    id: NodeId,
    allow_upload: bool,
    protect_uploads: bool,
    accounts: Seq<AccountView>,
    auth: Option<Seq<char>>,
)
    requires
        method == Method::Get || method == Method::Head,
        v.has(id),
        v.node(id).kind == crate::vfs::NodeKind::File,
        v.node(id).resource is Some,
    ensures
        route_spec(method, v, Resolution::Node(id), allow_upload, protect_uploads, accounts, auth)
            == RouteView::File(v.node(id).resource->Some_0),
{
}

// ---------------------------------------------------------------------
// Multipart uploads
// ---------------------------------------------------------------------

/// The files of parts `a` followed by parts `b` are those of `a` followed
/// by those of `b`: no part's file depends on the parts before it.
pub proof fn lemma_part_files_concat(a: Seq<Seq<char>>, b: Seq<Seq<char>>)
    ensures
        part_files(a + b) == part_files(a) + part_files(b),
    decreases b.len(),
{
    if b.len() == 0 {
        assert(a + b =~= a);
        assert(part_files(a) + part_files(b) =~= part_files(a));
    } else {
        lemma_part_files_concat(a, b.drop_last());
        assert((a + b).drop_last() =~= a + b.drop_last());
        assert((a + b).last() == b.last());
        assert(part_files(a + b) =~= part_files(a) + part_files(b));
    }
}

/// One part gives its file where it carries one, and nothing else.
pub proof fn lemma_part_files_one(p: Seq<char>)
    ensures
        part_files(seq![p]) == match part_file(p) {
            Some((n, c)) => seq![(n, encode_utf8(c))],
            None => Seq::<(Seq<char>, Seq<u8>)>::empty(),
        },
{
    assert(seq![p].drop_last() =~= Seq::<Seq<char>>::empty());
    assert(part_files(seq![p]) =~= part_files(Seq::<Seq<char>>::empty()) + match part_file(p) {
        Some((n, c)) => seq![(n, encode_utf8(c))],
        None => Seq::<(Seq<char>, Seq<u8>)>::empty(),
    });
}

/// Every part of an upload body that carries a file, wherever it stands
/// among the parts, gives that file in the result.
pub proof fn lemma_every_uploaded_file_kept(body: Seq<char>, boundary: Seq<char>, i: int)
    requires
        0 <= i < split_pat(body, "--"@ + boundary).len(),
        part_file(split_pat(body, "--"@ + boundary)[i]) is Some,
    ensures
        ({
            let (n, c) = part_file(split_pat(body, "--"@ + boundary)[i])->Some_0;
            multipart_spec(body, boundary).contains((n, encode_utf8(c)))
        }),
{
    let ps = split_pat(body, "--"@ + boundary);
    let p = ps[i];
    let (n, c) = part_file(p)->Some_0;
    assert(ps =~= ps.take(i) + seq![p] + ps.skip(i + 1));
    lemma_part_files_concat(ps.take(i) + seq![p], ps.skip(i + 1));
    lemma_part_files_concat(ps.take(i), seq![p]);
    lemma_part_files_one(p);
    let pre = part_files(ps.take(i));
    assert(part_files(ps) == pre + seq![(n, encode_utf8(c))] + part_files(ps.skip(i + 1)));
    assert(part_files(ps)[pre.len() as int] == (n, encode_utf8(c)));
}

/// The number of files is the number of parts that carry one.
pub proof fn lemma_upload_count(parts: Seq<Seq<char>>)
    ensures
        part_files(parts).len() == parts.filter(|p: Seq<char>| part_file(p) is Some).len(),
    decreases parts.len(),
{
    reveal(Seq::filter);
    if parts.len() > 0 {
        lemma_upload_count(parts.drop_last());
    }
}

// ---------------------------------------------------------------------
// Byte ranges
// ---------------------------------------------------------------------

proof fn lemma_decimal_value(n: nat)
    ensures
        decimal(n).len() > 0,
        all_digits(decimal(n)),
        digits_value(decimal(n)) == n,
    decreases n,
{
    if n < 10 {
        assert(digit_value(digit_char(n)) == n);
        assert(seq![digit_char(n)].drop_last() =~= Seq::<char>::empty());
        assert(decimal(n) == seq![digit_char(n)]);
        assert(digits_value(Seq::<char>::empty()) == 0);
        assert(digits_value(decimal(n)) == digits_value(decimal(n).drop_last()) * 10 + digit_value(
            decimal(n).last(),
        ));
    } else {
        lemma_decimal_value(n / 10);
        let d = n % 10;
        assert(digit_value(digit_char(d)) == d);
        assert(decimal(n).drop_last() =~= decimal(n / 10));
        assert(decimal(n).last() == digit_char(d));
        assert(n == (n / 10) * 10 + d) by (nonlinear_arith)
            requires
                d == n % 10,
        ;
        assert(digits_value(decimal(n)) == digits_value(decimal(n / 10)) * 10 + digit_value(
            digit_char(d),
        ));
        assert(all_digits(decimal(n))) by {
            assert forall|k: int| 0 <= k < decimal(n).len() implies is_digit(
                #[trigger] decimal(n)[k],
            ) by {
                if k < decimal(n / 10).len() {
                    assert(decimal(n)[k] == decimal(n / 10)[k]);
                }
            }
        }
    }
}

/// The decimal digits of a number read back as that number.
proof fn lemma_parse_decimal(n: u64)
    ensures
        parse_u64_spec(decimal(n as nat)) == Some(n),
        decimal(n as nat).len() > 0,
        all_digits(decimal(n as nat)),
{
    lemma_decimal_value(n as nat);
    assert(is_digit(decimal(n as nat)[0]));
}

proof fn lemma_trim_unchanged(s: Seq<char>)
    requires
        s.len() > 0,
        !is_ws(s[0]),
        !is_ws(s.last()),
    ensures
        trim(s) == s,
{
    assert(trim_start(s) == s);
    assert(trim_end(s) == s);
}

proof fn lemma_find_char_after(x: Seq<char>, y: Seq<char>, c: char, i: nat)
    requires
        !x.contains(c),
        i <= x.len(),
    ensures
        find_from(x + seq![c] + y, seq![c], i) == Some(x.len()),
    decreases x.len() - i,
{
    let s = x + seq![c] + y;
    if i < x.len() {
        assert(s[i as int] == x[i as int]);
        assert(!matches_at(s, seq![c], i as int)) by {
            if matches_at(s, seq![c], i as int) {
                assert(s.subrange(i as int, i + 1int)[0] == s[i as int]);
                assert(x.contains(x[i as int]));
            }
        }
        lemma_find_char_after(x, y, c, i + 1);
    } else {
        assert(s.subrange(i as int, i + 1int) =~= seq![c]);
    }
}

proof fn lemma_find_char_none(s: Seq<char>, c: char, i: nat)
    requires
        !s.contains(c),
    ensures
        find_from(s, seq![c], i) is None,
    decreases s.len() + 1 - i,
{
    if i + 1 <= s.len() {
        assert(!matches_at(s, seq![c], i as int)) by {
            if matches_at(s, seq![c], i as int) {
                assert(s.subrange(i as int, i + 1int)[0] == s[i as int]);
                assert(s.contains(s[i as int]));
            }
        }
        lemma_find_char_none(s, c, i + 1);
    }
}

proof fn lemma_digits_free_of(s: Seq<char>, c: char)
    requires
        all_digits(s),
        !is_digit(c),
    ensures
        !s.contains(c),
{
    if s.contains(c) {
        let k = choose|k: int| 0 <= k < s.len() && s[k] == c;
        assert(is_digit(s[k]));
    }
}

/// A range `bytes=a-b` with `a <= b` inside the file is sent as asked:
/// the bytes `a` through `b`, both kept, a single byte where `a == b`.
pub proof fn lemma_closed_range_is_partial(a: u64, b: u64, file_len: u64)
    requires
        a <= b,
        b < file_len,
    ensures
        range_spec(
            Some(
                seq!['b', 'y', 't', 'e', 's', '='] + decimal(a as nat) + seq!['-'] + decimal(
                    b as nat,
                ),
            ),
            file_len,
        ) == (RangeParse::Partial { start: a, end: b }),
{
    reveal_strlit("bytes=");
    let da = decimal(a as nat);
    let db = decimal(b as nat);
    lemma_parse_decimal(a);
    lemma_parse_decimal(b);
    let pre = seq!['b', 'y', 't', 'e', 's', '='];
    let z = da + seq!['-'] + db;
    let h0 = pre + z;
    assert(pre + da + seq!['-'] + db =~= h0);
    assert(is_digit(db[db.len() - 1]));
    assert(h0.last() == db.last());
    lemma_trim_unchanged(h0);
    assert(h0.take(6) =~= "bytes="@);
    assert(h0.skip(6) =~= z);
    assert(!z.contains(',')) by {
        if z.contains(',') {
            let k = choose|k: int| 0 <= k < z.len() && z[k] == ',';
            if k < da.len() {
                assert(is_digit(da[k]));
            } else if k > da.len() {
                assert(z[k] == db[k - da.len() - 1]);
                assert(is_digit(db[k - da.len() - 1]));
            }
        }
    }
    lemma_find_char_none(z, ',', 0);
    assert(before_first(z, ',') == z);
    assert(is_digit(da[0]));
    assert(z[0] == da[0]);
    assert(z.last() == db.last());
    lemma_trim_unchanged(z);
    lemma_digits_free_of(da, '-');
    lemma_find_char_after(da, db, '-', 0);
    assert(find_pat(z, seq!['-']) == Some(da.len()));
    assert(z.take(da.len() as int) =~= da);
    assert(z.skip(da.len() + 1int) =~= db);
}

/// A range `bytes=a-` starting inside the file runs to its last byte.
pub proof fn lemma_open_range_runs_to_end(a: u64, file_len: u64)
    requires
        a < file_len,
    ensures
        range_spec(
            Some(seq!['b', 'y', 't', 'e', 's', '='] + decimal(a as nat) + seq!['-']),
            file_len,
        ) == (RangeParse::Partial { start: a, end: (file_len - 1) as u64 }),
{
    reveal_strlit("bytes=");
    let da = decimal(a as nat);
    lemma_parse_decimal(a);
    let pre = seq!['b', 'y', 't', 'e', 's', '='];
    let z = da + seq!['-'];
    let h0 = pre + z;
    assert(pre + da + seq!['-'] =~= h0);
    lemma_trim_unchanged(h0);
    assert(h0.take(6) =~= "bytes="@);
    assert(h0.skip(6) =~= z);
    assert(!z.contains(',')) by {
        if z.contains(',') {
            let k = choose|k: int| 0 <= k < z.len() && z[k] == ',';
            if k < da.len() {
                assert(is_digit(da[k]));
            }
        }
    }
    lemma_find_char_none(z, ',', 0);
    assert(is_digit(da[0]));
    lemma_trim_unchanged(z);
    lemma_digits_free_of(da, '-');
    lemma_find_char_after(da, Seq::<char>::empty(), '-', 0);
    assert(z =~= da + seq!['-'] + Seq::<char>::empty());
    assert(z.take(da.len() as int) =~= da);
    assert(z.skip(da.len() + 1int) =~= Seq::<char>::empty());
}

/// A range `bytes=-n` with `n > 0` asks for the last `n` bytes, or the
/// whole file where it is shorter.
pub proof fn lemma_suffix_range_is_the_tail(n: u64, file_len: u64)
    requires
        n > 0,
        file_len > 0,
    ensures
        range_spec(
            Some(seq!['b', 'y', 't', 'e', 's', '=', '-'] + decimal(n as nat)),
            file_len,
        ) == (RangeParse::Partial {
            start: if n >= file_len {
                0
            } else {
                (file_len - n) as u64
            },
            end: (file_len - 1) as u64,
        }),
{
    reveal_strlit("bytes=");
    let dn = decimal(n as nat);
    lemma_parse_decimal(n);
    let pre = seq!['b', 'y', 't', 'e', 's', '='];
    let z = seq!['-'] + dn;
    let h0 = pre + z;
    assert(seq!['b', 'y', 't', 'e', 's', '=', '-'] + dn =~= h0);
    assert(is_digit(dn[dn.len() - 1]));
    assert(h0.last() == dn.last());
    lemma_trim_unchanged(h0);
    assert(h0.take(6) =~= "bytes="@);
    assert(h0.skip(6) =~= z);
    assert(!z.contains(',')) by {
        if z.contains(',') {
            let k = choose|k: int| 0 <= k < z.len() && z[k] == ',';
            if k > 0 {
                assert(is_digit(dn[k - 1]));
            }
        }
    }
    lemma_find_char_none(z, ',', 0);
    assert(z.last() == dn.last());
    lemma_trim_unchanged(z);
    lemma_find_char_after(Seq::<char>::empty(), dn, '-', 0);
    assert(z =~= Seq::<char>::empty() + seq!['-'] + dn);
    assert(z.take(0) =~= Seq::<char>::empty());
    assert(z.skip(1) =~= dn);
}

// ---------------------------------------------------------------------
// HTML escaping
// ---------------------------------------------------------------------

/// A character that HTML treats specially.
pub open spec fn is_html_special(c: char) -> bool {
    c == '&' || c == '<' || c == '>' || c == '"'
}

/// Text without `&`, `<`, `>` or `"` is written as it is: every other
/// character, whatever its script, is kept.
pub proof fn lemma_escape_keeps_plain_text(s: Seq<char>)
    requires
        forall|i: int| 0 <= i < s.len() ==> !is_html_special(#[trigger] s[i]),
    ensures
        escaped(s) == s,
    decreases s.len(),
{
    if s.len() > 0 {
        lemma_escape_keeps_plain_text(s.drop_last());
        assert(!is_html_special(s[s.len() - 1]));
        assert(escape_char(s.last()) == seq![s.last()]);
        assert(escaped(s) =~= s);
    }
}

/// Escaping text joined from two pieces is escaping each piece.
pub proof fn lemma_escape_concat(a: Seq<char>, b: Seq<char>)
    ensures
        escaped(a + b) == escaped(a) + escaped(b),
    decreases b.len(),
{
    if b.len() == 0 {
        assert(a + b =~= a);
        assert(escaped(a) + escaped(b) =~= escaped(a));
    } else {
        lemma_escape_concat(a, b.drop_last());
        assert((a + b).drop_last() =~= a + b.drop_last());
        assert((a + b).last() == b.last());
        assert(escaped(a + b) =~= escaped(a) + escaped(b));
    }
}

// ---------------------------------------------------------------------
// Extensions
// ---------------------------------------------------------------------

proof fn lemma_last_dot(n: Seq<char>, e: Seq<char>)
    requires
        !e.contains('.'),
    ensures
        last_index_of(n + seq!['.'] + e, '.') == Some(n.len() as int),
    decreases e.len(),
{
    if e.len() == 0 {
        assert((n + seq!['.'] + e).last() == '.');
    } else {
        let s = n + seq!['.'] + e;
        assert(s.last() == e.last());
        assert(e.last() != '.') by {
            assert(e[e.len() - 1] == e.last());
        }
        assert(s.drop_last() =~= n + seq!['.'] + e.drop_last());
        assert(!e.drop_last().contains('.')) by {
            if e.drop_last().contains('.') {
                let k = choose|k: int| 0 <= k < e.drop_last().len() && e.drop_last()[k] == '.';
                assert(e[k] == '.');
            }
        }
        lemma_last_dot(n, e.drop_last());
    }
}

/// The extension of a name is the text after its last `.`: for a name
/// `n.e` with `n` not empty and `e` without a `.`, it is `e`, however many
/// dots `n` holds.
pub proof fn lemma_extension_after_last_dot(n: Seq<char>, e: Seq<char>)
    requires
        n.len() > 0,
        !e.contains('.'),
    ensures
        extension_of(n + seq!['.'] + e) == Some(e),
{
    lemma_last_dot(n, e);
    assert((n + seq!['.'] + e).skip(n.len() + 1int) =~= e);
}

} // verus!
