//! The logic of the HTTP server: byte ranges, HTML pages, URLs, basic
//! authentication, multipart uploads and the routing of requests.

pub mod spec;
pub mod page;
pub mod request;
pub mod laws;

use vstd::prelude::*;

use crate::outside::percent_encode_segment;
use crate::pattern::{find_exec, slice_chars, starts_with_exec};
use crate::text::{
    chars_of, extend_str, parse_u64, parse_u64_spec, string_of, trim, trim_chars,
};
use self::spec::{
    before_first, escape_char, escaped, last_index_of, parent_spec, range_spec, strip_trailing,
};

verus! {

/// What a `Range` request header asks for, against a file of a given
/// length.
#[derive(Debug, Clone, Copy, PartialEq, Eq, Structural)]
pub enum RangeParse {
    /// The whole file.
    Full,
    /// The bytes `start..=end`.
    Partial { start: u64, end: u64 },
    /// A range the file cannot satisfy.
    Unsatisfiable,
}

pub open spec fn opt_str(o: Option<&str>) -> Option<Seq<char>> {
    match o {
        Some(s) => Some(s@),
        None => None,
    }
}

/// The value `u64::from_str` gives, or 0 where it fails.
fn parse_or_zero(s: &Vec<char>) -> (r: u64)
    ensures
        r == match parse_u64_spec(s@) {
            Some(v) => v,
            None => 0,
        },
{
    match parse_u64(s) {
        Some(v) => v,
        None => 0,
    }
}

/// Reads a `Range` header (only its first range counts) against a file of
/// `file_len` bytes. No header, one not starting with `bytes=`, an empty
/// first range or one without `-` mean the whole file. On an empty file
/// any range is unsatisfiable. `-n` asks for the last `n` bytes (`n` = 0
/// or unreadable is unsatisfiable); `a-` for the bytes from `a` on; `a-b`
/// for the bytes `a` to `b`, with `b` cut to the last byte.
pub fn parse_range(header: Option<&str>, file_len: u64) -> (r: RangeParse)
    ensures
        r == range_spec(opt_str(header), file_len),
        r matches RangeParse::Partial { start, end } ==> start <= end < file_len,
{
    let h = match header {
        None => return RangeParse::Full,
        Some(h) => h,
    };
    let hv = trim_chars(&chars_of(h));
    let prefix = chars_of("bytes=");
    proof {
        reveal_strlit("bytes=");
    }
    if !starts_with_exec(&hv, &prefix) {
        return RangeParse::Full;
    }
    let rest = slice_chars(&hv, prefix.len(), hv.len());
    assert(rest@ =~= trim(h@).skip(6));
    let mut comma: Vec<char> = Vec::new();
    comma.push(',');
    assert(comma@ =~= seq![',']);
    assert(rest@.skip(0) =~= rest@);
    proof {
        crate::pattern::lemma_find_from_bounds(rest@, seq![','], 0);
    }
    let first = match find_exec(&rest, &comma, 0) {
        Some(i) => slice_chars(&rest, 0, i),
        None => slice_chars(&rest, 0, rest.len()),
    };
    assert(first@ =~= before_first(rest@, ','));
    let sp = trim_chars(&first);
    if sp.len() == 0 {
        return RangeParse::Full;
    }
    let mut dash: Vec<char> = Vec::new();
    dash.push('-');
    assert(dash@ =~= seq!['-']);
    assert(sp@.skip(0) =~= sp@);
    let d = match find_exec(&sp, &dash, 0) {
        None => return RangeParse::Full,
        Some(d) => d,
    };
    proof {
        crate::pattern::lemma_find_from_bounds(sp@, seq!['-'], 0);
    }
    let s = slice_chars(&sp, 0, d);
    let e = slice_chars(&sp, d + 1, sp.len());
    assert(s@ =~= sp@.take(d as int));
    assert(e@ =~= sp@.skip(d + 1));
    if file_len == 0 {
        return RangeParse::Unsatisfiable;
    }
    if s.len() == 0 {
        let n = parse_or_zero(&e);
        if n == 0 {
            return RangeParse::Unsatisfiable;
        }
        let start = file_len.saturating_sub(n);
        return RangeParse::Partial { start, end: file_len - 1 };
    }
    let start = match parse_u64(&s) {
        Some(v) => v,
        None => return RangeParse::Unsatisfiable,
    };
    if start >= file_len {
        return RangeParse::Unsatisfiable;
    }
    let end = if e.len() == 0 {
        file_len - 1
    } else {
        match parse_u64(&e) {
            Some(v) => if v < file_len - 1 {
                v
            } else {
                file_len - 1
            },
            None => return RangeParse::Unsatisfiable,
        }
    };
    if end < start {
        return RangeParse::Unsatisfiable;
    }
    RangeParse::Partial { start, end }
}

/// `s` with `&`, `<`, `>` and `"` written as HTML entities.
pub fn html_escape(s: &str) -> (r: String)
    ensures
        r@ == escaped(s@),
        !r@.contains('<'),
        !r@.contains('>'),
        !r@.contains('"'),
{
    let v = chars_of(s);
    let mut out: Vec<char> = Vec::new();
    let mut i: usize = 0;
    proof {
        reveal_strlit("&amp;");
        reveal_strlit("&lt;");
        reveal_strlit("&gt;");
        reveal_strlit("&quot;");
    }
    while i < v.len()
        invariant
            i <= v.len(),
            v@ == s@,
            out@ == escaped(v@.take(i as int)),
            !out@.contains('<'),
            !out@.contains('>'),
            !out@.contains('"'),
        decreases v.len() - i,
    {
        let c = v[i];
        let ghost before = out@;
        if c == '&' {
            extend_str(&mut out, "&amp;");
        } else if c == '<' {
            extend_str(&mut out, "&lt;");
        } else if c == '>' {
            extend_str(&mut out, "&gt;");
        } else if c == '"' {
            extend_str(&mut out, "&quot;");
        } else {
            out.push(c);
        }
        assert(out@ =~= before + escape_char(c));
        assert(v@.take(i + 1).drop_last() =~= v@.take(i as int));
        assert(v@.take(i + 1).last() == c);
        proof {
            reveal_strlit("&amp;");
            reveal_strlit("&lt;");
            reveal_strlit("&gt;");
            reveal_strlit("&quot;");
            let ec = escape_char(c);
            assert(!ec.contains('<') && !ec.contains('>') && !ec.contains('"')) by {
                if c == '&' {
                    assert(ec =~= seq!['&', 'a', 'm', 'p', ';']);
                } else if c == '<' {
                    assert(ec =~= seq!['&', 'l', 't', ';']);
                } else if c == '>' {
                    assert(ec =~= seq!['&', 'g', 't', ';']);
                } else if c == '"' {
                    assert(ec =~= seq!['&', 'q', 'u', 'o', 't', ';']);
                } else {
                    assert(ec =~= seq![c]);
                }
            }
            assert forall|x: char| x == '<' || x == '>' || x == '"' implies !out@.contains(x) by {
                if out@.contains(x) {
                    let j = choose|j: int| 0 <= j < out@.len() && out@[j] == x;
                    if j < before.len() {
                        assert(before[j] == x);
                    } else {
                        assert(ec[j - before.len()] == x);
                    }
                }
            }
        }
        i += 1;
    }
    assert(v@.take(v@.len() as int) =~= v@);
    string_of(&out)
}

/// The URL path one level up: `/` for the top level, else everything up
/// to and including the last `/` before the last name (trailing slashes
/// aside).
pub fn parent_path(url_path: &str) -> (r: String)
    ensures
        r@ == parent_spec(url_path@),
{
    let v = chars_of(url_path);
    let mut n = v.len();
    assert(v@.take(n as int) =~= v@);
    while n > 0 && v[n - 1] == '/'
        invariant
            n <= v.len(),
            strip_trailing(v@, '/') == strip_trailing(v@.take(n as int), '/'),
        decreases n,
    {
        assert(v@.take(n as int).drop_last() =~= v@.take(n - 1));
        n -= 1;
    }
    let t = slice_chars(&v, 0, n);
    assert(t@ =~= v@.take(n as int));
    assert(strip_trailing(t@, '/') == t@);
    let mut slash: Vec<char> = Vec::new();
    slash.push('/');
    if t.len() == 0 || (t.len() == 1 && t[0] == '/') {
        proof {
            if t@.len() == 1 {
                assert(t@ =~= seq!['/']);
            }
        }
        return string_of(&slash);
    }
    let mut j = t.len();
    assert(t@.take(j as int) =~= t@);
    while j > 0 && t[j - 1] != '/'
        invariant
            j <= t.len(),
            last_index_of(t@, '/') == last_index_of(t@.take(j as int), '/'),
        decreases j,
    {
        assert(t@.take(j as int).drop_last() =~= t@.take(j - 1));
        j -= 1;
    }
    if j == 0 {
        return string_of(&slash);
    }
    assert(t@.take(j as int).last() == '/');
    if j - 1 == 0 {
        return string_of(&slash);
    }
    let mut out = slice_chars(&t, 0, j - 1);
    out.push('/');
    string_of(&out)
}

/// The link to an entry `name` listed under `base`: `base` with a `/`
/// added if it lacks one, the percent-encoded name, and a closing `/` for
/// a directory.
pub fn join_child_url(base: &str, name: &str, is_dir: bool) -> (r: String)
    ensures
        r@ == spec::child_url(base@, crate::outside::percent_encoded_bytes(
            vstd::utf8::encode_utf8(name@),
        ), is_dir),
{
    let enc = percent_encode_segment(name);
    let mut out = chars_of(base);
    if !(out.len() > 0 && out[out.len() - 1] == '/') {
        out.push('/');
    }
    extend_str(&mut out, enc.as_str());
    if is_dir {
        out.push('/');
    }
    string_of(&out)
}

} // verus!
