//! Searching, splitting and replacing by a pattern of characters, with the
//! meaning that `str::find`, `str::split` and `str::replace` give them.

use vstd::prelude::*;

use crate::text::{extend_chars, chars_view};

verus! {

/// `pat` occurs in `s` at index `i`.
pub open spec fn matches_at(s: Seq<char>, pat: Seq<char>, i: int) -> bool {
    0 <= i && i + pat.len() <= s.len() && s.subrange(i, i + pat.len()) == pat
}

/// The first index from `i` on where `pat` occurs in `s`.
pub open spec fn find_from(s: Seq<char>, pat: Seq<char>, i: nat) -> Option<nat>
    decreases s.len() + 1 - i,
{
    if i + pat.len() > s.len() {
        None
    } else if matches_at(s, pat, i as int) {
        Some(i)
    } else {
        find_from(s, pat, i + 1)
    }
}

/// The first index where `pat` occurs in `s`.
pub open spec fn find_pat(s: Seq<char>, pat: Seq<char>) -> Option<nat> {
    find_from(s, pat, 0)
}

pub proof fn lemma_find_from_bounds(s: Seq<char>, pat: Seq<char>, i: nat)
    ensures
        find_from(s, pat, i) matches Some(j) ==> i <= j && j + pat.len() <= s.len()
            && matches_at(s, pat, j as int),
        find_from(s, pat, i) matches Some(j) ==> forall|k: int|
            i <= k < j ==> !matches_at(s, pat, k),
        find_from(s, pat, i) is None ==> forall|k: int|
            i <= k ==> !matches_at(s, pat, k),
    decreases s.len() + 1 - i,
{
    if i + pat.len() <= s.len() && !matches_at(s, pat, i as int) {
        lemma_find_from_bounds(s, pat, i + 1);
    }
}

/// The pieces of `s` between the occurrences of `pat` (a non-empty
/// pattern), as `str::split` yields them.
pub open spec fn split_pat(s: Seq<char>, pat: Seq<char>) -> Seq<Seq<char>>
    decreases s.len(),
{
    if pat.len() == 0 {
        seq![s]
    } else {
        match find_pat(s, pat) {
            None => seq![s],
            Some(i) => {
                proof {
                    lemma_find_from_bounds(s, pat, 0);
                }
                seq![s.take(i as int)] + split_pat(s.skip((i + pat.len()) as int), pat)
            },
        }
    }
}

/// `s` with every occurrence of `pat` (a non-empty pattern), from left to
/// right without overlaps, replaced by `with`, as `str::replace` does.
pub open spec fn replace_pat(s: Seq<char>, pat: Seq<char>, with: Seq<char>) -> Seq<char>
    decreases s.len(),
{
    if pat.len() == 0 {
        s
    } else {
        match find_pat(s, pat) {
            None => s,
            Some(i) => {
                proof {
                    lemma_find_from_bounds(s, pat, 0);
                }
                s.take(i as int) + with + replace_pat(s.skip((i + pat.len()) as int), pat, with)
            },
        }
    }
}

/// `s` begins with `p`.
pub open spec fn starts_with(s: Seq<char>, p: Seq<char>) -> bool {
    p.len() <= s.len() && s.take(p.len() as int) == p
}

proof fn lemma_matches_shift(s: Seq<char>, pat: Seq<char>, start: int, k: int)
    requires
        0 <= start <= s.len(),
        0 <= k,
    ensures
        matches_at(s.skip(start), pat, k) <==> matches_at(s, pat, k + start),
{
    if k + pat.len() <= s.len() - start {
        assert(s.skip(start).subrange(k, k + pat.len()) =~= s.subrange(
            k + start,
            k + start + pat.len(),
        ));
    }
}

/// Whether `pat` occurs in `s` at index `i`.
pub fn matches_at_exec(s: &Vec<char>, pat: &Vec<char>, i: usize) -> (r: bool)
    ensures
        r == matches_at(s@, pat@, i as int),
{
    if i > s.len() || pat.len() > s.len() - i {
        return false;
    }
    let mut k: usize = 0;
    while k < pat.len()
        invariant
            k <= pat.len(),
            i + pat.len() <= s.len(),
            forall|t: int| 0 <= t < k ==> s@[i + t] == pat@[t],
        decreases pat.len() - k,
    {
        if s[i + k] != pat[k] {
            assert(s@.subrange(i as int, i + pat@.len())[k as int] != pat@[k as int]);
            return false;
        }
        k += 1;
    }
    assert(s@.subrange(i as int, i + pat@.len()) =~= pat@);
    true
}

/// The first index from `start` on where `pat` occurs in `s`.
pub fn find_exec(s: &Vec<char>, pat: &Vec<char>, start: usize) -> (r: Option<usize>)
    requires
        start <= s.len(),
    ensures
        match find_pat(s@.skip(start as int), pat@) {
            Some(j) => r == Some((j + start) as usize),
            None => r is None,
        },
{
    let ghost t = s@.skip(start as int);
    if pat.len() > s.len() - start {
        return None;
    }
    let last = s.len() - pat.len();
    let mut i: usize = start;
    loop
        invariant
            start <= i <= last,
            last + pat@.len() == s@.len(),
            t == s@.skip(start as int),
            find_pat(t, pat@) == find_from(t, pat@, (i - start) as nat),
        decreases last - i,
    {
        proof {
            lemma_matches_shift(s@, pat@, start as int, i - start);
        }
        if matches_at_exec(s, pat, i) {
            return Some(i);
        }
        if i == last {
            proof {
                assert(find_from(t, pat@, (i + 1 - start) as nat) is None);
            }
            return None;
        }
        i += 1;
    }
}

proof fn lemma_skip_skip(s: Seq<char>, a: int, b: int)
    requires
        0 <= a,
        0 <= b,
        a + b <= s.len(),
    ensures
        s.skip(a).skip(b) == s.skip(a + b),
        s.skip(a).take(b) == s.subrange(a, a + b),
{
    assert(s.skip(a).skip(b) =~= s.skip(a + b));
    assert(s.skip(a).take(b) =~= s.subrange(a, a + b));
}

/// The characters of `s` from `a` up to `b`.
pub fn slice_chars(s: &Vec<char>, a: usize, b: usize) -> (r: Vec<char>)
    requires
        a <= b <= s.len(),
    ensures
        r@ == s@.subrange(a as int, b as int),
{
    let mut r: Vec<char> = Vec::new();
    let mut i = a;
    while i < b
        invariant
            a <= i <= b,
            b <= s.len(),
            r@ == s@.subrange(a as int, i as int),
        decreases b - i,
    {
        r.push(s[i]);
        i += 1;
        assert(r@ =~= s@.subrange(a as int, i as int));
    }
    r
}

/// `str::split` by a non-empty pattern.
pub fn split_exec(s: &Vec<char>, pat: &Vec<char>) -> (r: Vec<Vec<char>>)
    requires
        pat@.len() > 0,
    ensures
        chars_view(r@) == split_pat(s@, pat@),
{
    let mut out: Vec<Vec<char>> = Vec::new();
    let mut pos: usize = 0;
    assert(s@.skip(0) =~= s@);
    assert(chars_view(out@) =~= seq![]);
    loop
        invariant
            pos <= s.len(),
            pat@.len() > 0,
            chars_view(out@) + split_pat(s@.skip(pos as int), pat@) == split_pat(s@, pat@),
        decreases s.len() - pos,
    {
        let ghost rest = s@.skip(pos as int);
        match find_exec(s, pat, pos) {
            None => {
                let piece = slice_chars(s, pos, s.len());
                assert(piece@ =~= rest);
                let ghost before = chars_view(out@);
                out.push(piece);
                assert(chars_view(out@) =~= before.push(rest));
                assert(split_pat(rest, pat@) == seq![rest]);
                assert(before + seq![rest] =~= before.push(rest));
                return out;
            },
            Some(j) => {
                proof {
                    lemma_find_from_bounds(rest, pat@, 0);
                    lemma_skip_skip(s@, pos as int, j - pos + pat@.len());
                    lemma_skip_skip(s@, pos as int, j - pos);
                }
                let piece = slice_chars(s, pos, j);
                let ghost before = chars_view(out@);
                out.push(piece);
                assert(chars_view(out@) =~= before.push(rest.take(j - pos)));
                assert(before + (seq![rest.take(j - pos)] + split_pat(
                    s@.skip(j + pat@.len()),
                    pat@,
                )) =~= before.push(rest.take(j - pos)) + split_pat(s@.skip(j + pat@.len()), pat@));
                pos = j + pat.len();
            },
        }
    }
}

/// `str::replace` with a non-empty pattern.
pub fn replace_exec(s: &Vec<char>, pat: &Vec<char>, with: &Vec<char>) -> (r: Vec<char>)
    requires
        pat@.len() > 0,
    ensures
        r@ == replace_pat(s@, pat@, with@),
{
    let mut out: Vec<char> = Vec::new();
    let mut pos: usize = 0;
    assert(s@.skip(0) =~= s@);
    loop
        invariant
            pos <= s.len(),
            pat@.len() > 0,
            out@ + replace_pat(s@.skip(pos as int), pat@, with@) == replace_pat(s@, pat@, with@),
        decreases s.len() - pos,
    {
        let ghost rest = s@.skip(pos as int);
        let ghost before = out@;
        match find_exec(s, pat, pos) {
            None => {
                let piece = slice_chars(s, pos, s.len());
                assert(piece@ =~= rest);
                extend_chars(&mut out, &piece);
                return out;
            },
            Some(j) => {
                proof {
                    lemma_find_from_bounds(rest, pat@, 0);
                    lemma_skip_skip(s@, pos as int, j - pos + pat@.len());
                    lemma_skip_skip(s@, pos as int, j - pos);
                }
                let piece = slice_chars(s, pos, j);
                extend_chars(&mut out, &piece);
                extend_chars(&mut out, with);
                assert(before + (rest.take(j - pos) + with@ + replace_pat(
                    s@.skip(j + pat@.len()),
                    pat@,
                    with@,
                )) =~= out@ + replace_pat(s@.skip(j + pat@.len()), pat@, with@));
                pos = j + pat.len();
            },
        }
    }
}

/// Whether `s` begins with `p`.
pub fn starts_with_exec(s: &Vec<char>, p: &Vec<char>) -> (r: bool)
    ensures
        r == starts_with(s@, p@),
{
    let m = matches_at_exec(s, p, 0);
    proof {
        if p@.len() <= s@.len() {
            assert(s@.subrange(0, p@.len() as int) =~= s@.take(p@.len() as int));
        }
    }
    m
}

} // verus!
