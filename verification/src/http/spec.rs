//! What the HTTP logic computes, stated over plain values.

use vstd::prelude::*;

use super::RangeParse;
use crate::pattern::{find_pat, starts_with};
use crate::text::{parse_u64_spec, trim};

verus! {

/// The part of `s` before the first `c`, or all of `s`.
pub open spec fn before_first(s: Seq<char>, c: char) -> Seq<char> {
    match find_pat(s, seq![c]) {
        Some(i) => s.take(i as int),
        None => s,
    }
}

/// The byte range that a `Range` header value asks for in a file of
/// `file_len` bytes.
pub open spec fn range_spec(header: Option<Seq<char>>, file_len: u64) -> RangeParse {
    match header {
        None => RangeParse::Full,
        Some(h0) => {
            let h = trim(h0);
            if !starts_with(h, "bytes="@) {
                RangeParse::Full
            } else {
                let sp = trim(before_first(h.skip(6), ','));
                if sp.len() == 0 {
                    RangeParse::Full
                } else {
                    match find_pat(sp, seq!['-']) {
                        None => RangeParse::Full,
                        Some(d) => {
                            let s = sp.take(d as int);
                            let e = sp.skip((d + 1) as int);
                            if file_len == 0 {
                                RangeParse::Unsatisfiable
                            } else if s.len() == 0 {
                                let n = match parse_u64_spec(e) {
                                    Some(v) => v,
                                    None => 0,
                                };
                                if n == 0 {
                                    RangeParse::Unsatisfiable
                                } else {
                                    RangeParse::Partial {
                                        start: if n >= file_len {
                                            0
                                        } else {
                                            (file_len - n) as u64
                                        },
                                        end: (file_len - 1) as u64,
                                    }
                                }
                            } else {
                                match parse_u64_spec(s) {
                                    None => RangeParse::Unsatisfiable,
                                    Some(start) => if start >= file_len {
                                        RangeParse::Unsatisfiable
                                    } else {
                                        let end = if e.len() == 0 {
                                            Some((file_len - 1) as u64)
                                        } else {
                                            match parse_u64_spec(e) {
                                                Some(v) => Some(
                                                    if v < file_len - 1 {
                                                        v
                                                    } else {
                                                        (file_len - 1) as u64
                                                    },
                                                ),
                                                None => None,
                                            }
                                        };
                                        match end {
                                            None => RangeParse::Unsatisfiable,
                                            Some(end) => if end < start {
                                                RangeParse::Unsatisfiable
                                            } else {
                                                RangeParse::Partial { start, end }
                                            },
                                        }
                                    },
                                }
                            }
                        },
                    }
                }
            }
        },
    }
}

/// One character as HTML text.
pub open spec fn escape_char(c: char) -> Seq<char> {
    if c == '&' {
        "&amp;"@
    } else if c == '<' {
        "&lt;"@
    } else if c == '>' {
        "&gt;"@
    } else if c == '"' {
        "&quot;"@
    } else {
        seq![c]
    }
}

/// `s` as HTML text.
pub open spec fn escaped(s: Seq<char>) -> Seq<char>
    decreases s.len(),
{
    if s.len() == 0 {
        seq![]
    } else {
        escaped(s.drop_last()) + escape_char(s.last())
    }
}

/// `s` without the run of `c` at its end.
pub open spec fn strip_trailing(s: Seq<char>, c: char) -> Seq<char>
    decreases s.len(),
{
    if s.len() > 0 && s.last() == c {
        strip_trailing(s.drop_last(), c)
    } else {
        s
    }
}

/// The index of the last `c` in `s`.
pub open spec fn last_index_of(s: Seq<char>, c: char) -> Option<int>
    decreases s.len(),
{
    if s.len() == 0 {
        None
    } else if s.last() == c {
        Some(s.len() - 1)
    } else {
        last_index_of(s.drop_last(), c)
    }
}

/// The URL path one level above `p`.
pub open spec fn parent_spec(p: Seq<char>) -> Seq<char> {
    let t = strip_trailing(p, '/');
    if t.len() == 0 || t == seq!['/'] {
        seq!['/']
    } else {
        match last_index_of(t, '/') {
            None => seq!['/'],
            Some(j) => if j == 0 {
                seq!['/']
            } else {
                t.take(j) + seq!['/']
            },
        }
    }
}

/// The link to an entry whose encoded name is `enc`, listed under `base`.
pub open spec fn child_url(base: Seq<char>, enc: Seq<char>, is_dir: bool) -> Seq<char> {
    let b = if base.len() > 0 && base.last() == '/' {
        base
    } else {
        base.push('/')
    };
    if is_dir {
        b + enc + seq!['/']
    } else {
        b + enc
    }
}

} // verus!
