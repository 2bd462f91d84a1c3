//! Positions in an edited line of text: byte offsets, UTF-16 offsets, the
//! offsets of a masked (password) rendering, grapheme boundaries, and the
//! selection.

use vstd::prelude::*;
use vstd::utf8::{char_is_scalar, encode_scalar, encode_utf8};

use crate::outside::{grapheme_offsets, grapheme_starts};

verus! {

/// The number of UTF-8 bytes of `c`.
pub open spec fn width8(c: char) -> nat {
    encode_scalar(c as u32).len()
}

/// The number of UTF-16 units of `c` (`char::len_utf16`).
pub open spec fn width16(c: char) -> nat {
    if (c as u32) < 0x10000 {
        1
    } else {
        2
    }
}

/// The byte offset at which the `k`-th character of `s` starts.
pub open spec fn byte_at(s: Seq<char>, k: int) -> nat {
    encode_utf8(s.take(k)).len()
}

proof fn lemma_width8(c: char)
    ensures
        width8(c) == (if (c as u32) <= 0x7F {
            1nat
        } else if (c as u32) <= 0x7FF {
            2nat
        } else if (c as u32) <= 0xFFFF {
            3nat
        } else {
            4nat
        }),
        width16(c) <= width8(c),
{
    char_is_scalar(c);
}

proof fn lemma_encode_push(a: Seq<char>, c: char)
    ensures
        encode_utf8(a.push(c)) == encode_utf8(a) + encode_scalar(c as u32),
    decreases a.len(),
{
    if a.len() == 0 {
        assert(a.push(c).drop_first() =~= Seq::<char>::empty());
        assert(encode_utf8(Seq::<char>::empty()) =~= Seq::<u8>::empty());
        assert(encode_utf8(a.push(c)) =~= encode_scalar(c as u32));
        assert(encode_utf8(a) + encode_scalar(c as u32) =~= encode_scalar(c as u32));
    } else {
        assert(a.push(c).drop_first() =~= a.drop_first().push(c));
        lemma_encode_push(a.drop_first(), c);
        assert(encode_utf8(a.push(c)) =~= encode_utf8(a) + encode_scalar(c as u32));
    }
}

proof fn lemma_byte_at_step(s: Seq<char>, k: int)
    requires
        0 <= k < s.len(),
    ensures
        byte_at(s, k + 1) == byte_at(s, k) + width8(s[k]),
{
    assert(s.take(k + 1) =~= s.take(k).push(s[k]));
    lemma_encode_push(s.take(k), s[k]);
}

/// `o` is the byte offset at which some character of `s` starts, or the
/// byte length of `s`.
pub open spec fn is_boundary(s: Seq<char>, o: int) -> bool {
    exists|k: int| 0 <= k <= s.len() && #[trigger] byte_at(s, k) == o
}

/// The byte length of the UTF-8 encoding of `s`.
pub open spec fn byte_len(s: Seq<char>) -> nat {
    encode_utf8(s).len()
}

pub proof fn lemma_encode_concat(a: Seq<char>, b: Seq<char>)
    ensures
        encode_utf8(a + b) == encode_utf8(a) + encode_utf8(b),
    decreases b.len(),
{
    if b.len() == 0 {
        assert(a + b =~= a);
        assert(encode_utf8(b) =~= Seq::<u8>::empty()) by {
            assert(b =~= Seq::<char>::empty());
        }
        assert(encode_utf8(a) + encode_utf8(b) =~= encode_utf8(a));
    } else {
        let c = b.last();
        let b0 = b.drop_last();
        assert(b =~= b0.push(c));
        assert(a + b =~= (a + b0).push(c));
        lemma_encode_concat(a, b0);
        lemma_encode_push(a + b0, c);
        lemma_encode_push(b0, c);
        assert(encode_utf8(a + b) =~= encode_utf8(a) + encode_utf8(b));
    }
}

proof fn lemma_byte_at_mono(s: Seq<char>, i: int, j: int)
    requires
        0 <= i < j <= s.len(),
    ensures
        byte_at(s, i) < byte_at(s, j),
    decreases j - i,
{
    lemma_byte_at_step(s, i);
    lemma_width8(s[i]);
    if i + 1 < j {
        lemma_byte_at_mono(s, i + 1, j);
    }
}

proof fn lemma_chars_within_from(s: Seq<char>, k: int, m: int)
    requires
        0 <= m <= k <= s.len(),
    ensures
        chars_within(s, byte_at(s, k), m) == k - m,
    decreases k - m,
{
    if m < k {
        if m + 1 < k {
            lemma_byte_at_mono(s, m + 1, k);
        }
        lemma_chars_within_from(s, k, m + 1);
    } else if k < s.len() {
        lemma_byte_at_mono(s, k, k + 1);
    }
}

/// At a boundary, `chars_within` counts the characters before it.
pub proof fn lemma_boundary_index(s: Seq<char>, o: int)
    requires
        is_boundary(s, o),
    ensures
        0 <= chars_within(s, o as nat, 0) <= s.len(),
        byte_at(s, chars_within(s, o as nat, 0) as int) == o,
        0 <= o <= byte_len(s),
{
    let k = choose|k: int| 0 <= k <= s.len() && #[trigger] byte_at(s, k) == o;
    lemma_chars_within_from(s, k, 0);
    lemma_byte_prefix(s, k);
}

/// The start and the end of `s` are boundaries.
pub proof fn lemma_ends_are_boundaries(s: Seq<char>)
    ensures
        is_boundary(s, 0),
        is_boundary(s, byte_len(s) as int),
{
    assert(s.take(0) =~= Seq::<char>::empty());
    assert(byte_at(s, 0) == 0);
    assert(s.take(s.len() as int) =~= s);
    assert(byte_at(s, s.len() as int) == byte_len(s));
}

fn width8_exec(c: char) -> (r: usize)
    ensures
        r == width8(c),
{
    proof {
        lemma_width8(c);
    }
    let v = c as u32;
    if v <= 0x7F {
        1
    } else if v <= 0x7FF {
        2
    } else if v <= 0xFFFF {
        3
    } else {
        4
    }
}

fn width16_exec(c: char) -> (r: usize)
    ensures
        r == width16(c),
{
    if (c as u32) < 0x10000 {
        1
    } else {
        2
    }
}

/// The UTF-16 units of the characters that start before byte `off`, from
/// the `k`-th character on.
pub open spec fn utf16_before(s: Seq<char>, off: nat, k: int) -> nat
    decreases s.len() - k,
{
    if k < 0 || k >= s.len() || byte_at(s, k) >= off {
        0
    } else {
        width16(s[k]) + utf16_before(s, off, k + 1)
    }
}

/// The UTF-16 offset of the byte offset `offset` in `content`.
pub fn offset_to_utf16(content: &str, offset: usize) -> (r: usize)
    ensures
        r == utf16_before(content@, offset as nat, 0),
{
    let len = content.as_bytes().len();
    let v = crate::text::chars_of(content);
    let ghost s = content@;
    assert(len == encode_utf8(s).len());
    let mut idx: usize = 0;
    let mut units: usize = 0;
    let mut k: usize = 0;
    assert(s.take(0) =~= Seq::<char>::empty());
    while k < v.len()
        invariant
            v@ == s,
            s == content@,
            k <= v.len(),
            idx == byte_at(s, k as int),
            units <= idx,
            idx <= encode_utf8(s).len(),
            encode_utf8(s).len() == len,
            utf16_before(s, offset as nat, 0) == units + utf16_before(s, offset as nat, k as int),
        decreases v.len() - k,
    {
        if idx >= offset {
            assert(utf16_before(s, offset as nat, k as int) == 0);
            return units;
        }
        let c = v[k];
        proof {
            lemma_byte_at_step(s, k as int);
            lemma_width8(c);
            lemma_byte_prefix(s, k + 1);
        }
        units = units + width16_exec(c);
        idx = idx + width8_exec(c);
        k += 1;
    }
    units
}

proof fn lemma_byte_prefix(s: Seq<char>, k: int)
    requires
        0 <= k <= s.len(),
    ensures
        byte_at(s, k) <= encode_utf8(s).len(),
    decreases s.len() - k,
{
    if k < s.len() {
        lemma_byte_at_step(s, k);
        lemma_byte_prefix(s, k + 1);
    } else {
        assert(s.take(k) =~= s);
    }
}

/// The byte offset of the first character at or after which `target`
/// UTF-16 units have gone by, from the `k`-th character on, where `units`
/// have gone by before it.
pub open spec fn byte_of_utf16(s: Seq<char>, target: nat, k: int, units: nat) -> nat
    decreases s.len() - k,
{
    if k < 0 || k >= s.len() {
        encode_utf8(s).len()
    } else if units >= target {
        byte_at(s, k)
    } else {
        byte_of_utf16(s, target, k + 1, units + width16(s[k]))
    }
}

proof fn lemma_byte_of_utf16_boundary(s: Seq<char>, target: nat, k: int, units: nat)
    requires
        0 <= k <= s.len(),
    ensures
        is_boundary(s, byte_of_utf16(s, target, k, units) as int),
        byte_at(s, k) <= byte_of_utf16(s, target, k, units),
    decreases s.len() - k,
{
    lemma_ends_are_boundaries(s);
    if k >= s.len() {
        assert(s.take(k) =~= s);
    } else if units >= target {
        assert(byte_at(s, k) == byte_of_utf16(s, target, k, units));
    } else {
        lemma_byte_of_utf16_boundary(s, target, k + 1, units + width16(s[k]));
        lemma_byte_at_mono(s, k, k + 1);
    }
}

proof fn lemma_byte_of_utf16_mono(s: Seq<char>, a: nat, b: nat, k: int, units: nat)
    requires
        0 <= k <= s.len(),
        a <= b,
    ensures
        byte_of_utf16(s, a, k, units) <= byte_of_utf16(s, b, k, units),
    decreases s.len() - k,
{
    if k < s.len() {
        if units >= b {
        } else if units >= a {
            lemma_byte_of_utf16_boundary(s, b, k + 1, units + width16(s[k]));
            lemma_byte_at_mono(s, k, k + 1);
        } else {
            lemma_byte_of_utf16_mono(s, a, b, k + 1, units + width16(s[k]));
        }
    }
}

/// A larger UTF-16 offset never maps to a smaller byte offset.
pub proof fn lemma_offset_from_utf16_mono(s: Seq<char>, a: nat, b: nat)
    requires
        a <= b,
    ensures
        byte_of_utf16(s, a, 0, 0) <= byte_of_utf16(s, b, 0, 0),
{
    lemma_byte_of_utf16_mono(s, a, b, 0, 0);
}

/// The byte offset of the UTF-16 offset `offset_utf16` in `content`.
pub fn offset_from_utf16(content: &str, offset_utf16: usize) -> (r: usize)
    ensures
        r == byte_of_utf16(content@, offset_utf16 as nat, 0, 0),
        is_boundary(content@, r as int),
{
    proof {
        lemma_byte_of_utf16_boundary(content@, offset_utf16 as nat, 0, 0);
    }
    let len = content.as_bytes().len();
    let v = crate::text::chars_of(content);
    let ghost s = content@;
    assert(len == encode_utf8(s).len());
    let mut idx: usize = 0;
    let mut units: usize = 0;
    let mut k: usize = 0;
    assert(s.take(0) =~= Seq::<char>::empty());
    while k < v.len()
        invariant
            v@ == s,
            s == content@,
            k <= v.len(),
            idx == byte_at(s, k as int),
            units <= idx,
            idx <= encode_utf8(s).len(),
            encode_utf8(s).len() == len,
            byte_of_utf16(s, offset_utf16 as nat, 0, 0) == byte_of_utf16(
                s,
                offset_utf16 as nat,
                k as int,
                units as nat,
            ),
        decreases v.len() - k,
    {
        if units >= offset_utf16 {
            assert(byte_of_utf16(s, offset_utf16 as nat, k as int, units as nat) == byte_at(s, k as int));
            return idx;
        }
        let c = v[k];
        proof {
            lemma_byte_at_step(s, k as int);
            lemma_width8(c);
            lemma_byte_prefix(s, k + 1);
        }
        units = units + width16_exec(c);
        idx = idx + width8_exec(c);
        k += 1;
    }
    len
}

/// How many characters end at or before byte `x`, from the `k`-th on.
pub open spec fn chars_within(s: Seq<char>, x: nat, k: int) -> nat
    decreases s.len() - k,
{
    if k < 0 || k >= s.len() || byte_at(s, k + 1) > x {
        0
    } else {
        1 + chars_within(s, x, k + 1)
    }
}

/// A masked line shows each character as `•` (three bytes).
pub open spec fn to_shaped_spec(s: Seq<char>, offset: nat, is_secret: bool) -> nat {
    let len = encode_utf8(s).len();
    if !is_secret || s.len() == 0 {
        if offset < len {
            offset
        } else {
            len
        }
    } else {
        chars_within(
            s,
            if offset < len {
                offset
            } else {
                len
            },
            0,
        ) * 3
    }
}

/// The offset in the rendered line of the byte offset `content_offset`:
/// the same where the line is shown as it is, else three bytes for each
/// whole character before it.
pub fn content_offset_to_shaped(content: &str, content_offset: usize, is_secret: bool) -> (r: usize)
    requires
        to_shaped_spec(content@, content_offset as nat, is_secret) <= usize::MAX,
    ensures
        r == to_shaped_spec(content@, content_offset as nat, is_secret),
{
    let len = content.as_bytes().len();
    let v = crate::text::chars_of(content);
    let ghost s = content@;
    assert(len == encode_utf8(s).len());
    let x = if content_offset < len {
        content_offset
    } else {
        len
    };
    if !is_secret || v.len() == 0 {
        return x;
    }
    let mut idx: usize = 0;
    let mut count: usize = 0;
    let mut k: usize = 0;
    assert(s.take(0) =~= Seq::<char>::empty());
    while k < v.len()
        invariant
            v@ == s,
            s == content@,
            k <= v.len(),
            count == k,
            idx == byte_at(s, k as int),
            idx <= encode_utf8(s).len(),
            encode_utf8(s).len() == len,
            x <= len,
            x == (if content_offset < len {
                content_offset
            } else {
                len
            }),
            is_secret,
            s.len() > 0,
            chars_within(s, x as nat, 0) * 3 <= usize::MAX,
            chars_within(s, x as nat, 0) == count + chars_within(s, x as nat, k as int),
        decreases v.len() - k,
    {
        let c = v[k];
        proof {
            lemma_byte_at_step(s, k as int);
            lemma_width8(c);
            lemma_byte_prefix(s, k + 1);
        }
        let next = idx + width8_exec(c);
        if next > x {
            assert(chars_within(s, x as nat, k as int) == 0);
            return count * 3;
        }
        idx = next;
        count += 1;
        k += 1;
    }
    count * 3
}

/// The byte offset of the rendered offset `shaped` (see
/// `content_offset_to_shaped`).
pub open spec fn from_shaped_spec(s: Seq<char>, shaped: nat, is_secret: bool) -> nat {
    let len = encode_utf8(s).len();
    if !is_secret || s.len() == 0 {
        if shaped < len {
            shaped
        } else {
            len
        }
    } else if shaped / 3 < s.len() {
        byte_at(s, (shaped / 3) as int)
    } else {
        len
    }
}

/// The byte offset in `content` of the offset `shaped_offset` in the
/// rendered line.
pub fn shaped_offset_to_content(content: &str, shaped_offset: usize, is_secret: bool) -> (r: usize)
    ensures
        r == from_shaped_spec(content@, shaped_offset as nat, is_secret),
{
    let len = content.as_bytes().len();
    let v = crate::text::chars_of(content);
    let ghost s = content@;
    assert(len == encode_utf8(s).len());
    if !is_secret || v.len() == 0 {
        return if shaped_offset < len {
            shaped_offset
        } else {
            len
        };
    }
    let target = shaped_offset / 3;
    if target >= v.len() {
        return len;
    }
    let mut idx: usize = 0;
    let mut k: usize = 0;
    assert(s.take(0) =~= Seq::<char>::empty());
    while k < target
        invariant
            v@ == s,
            s == content@,
            k <= target,
            target < v.len(),
            idx == byte_at(s, k as int),
            idx <= encode_utf8(s).len(),
            encode_utf8(s).len() == len,
        decreases target - k,
    {
        let c = v[k];
        proof {
            lemma_byte_at_step(s, k as int);
            lemma_width8(c);
            lemma_byte_prefix(s, k + 1);
        }
        idx = idx + width8_exec(c);
        k += 1;
    }
    idx
}

/// The index of the character that starts at the boundary `o` of the
/// characters `v` (their count where `o` is the end).
fn char_index(v: &Vec<char>, o: usize) -> (k: usize)
    requires
        is_boundary(v@, o as int),
    ensures
        k == chars_within(v@, o as nat, 0),
        k <= v@.len(),
        byte_at(v@, k as int) == o,
{
    let ghost s = v@;
    proof {
        lemma_boundary_index(s, o as int);
    }
    let mut idx: usize = 0;
    let mut k: usize = 0;
    assert(s.take(0) =~= Seq::<char>::empty());
    while k < v.len()
        invariant
            v@ == s,
            k <= s.len(),
            idx == byte_at(s, k as int),
            idx <= o,
            byte_at(s, chars_within(s, o as nat, 0) as int) == o,
            chars_within(s, o as nat, 0) <= s.len(),
        ensures
            k == s.len() || (k < s.len() && byte_at(s, k + 1) > o),
        decreases v.len() - k,
    {
        let c = v[k];
        proof {
            lemma_byte_at_step(s, k as int);
        }
        let w = width8_exec(c);
        if w > o - idx {
            break;
        }
        idx = idx + w;
        k += 1;
    }
    proof {
        let j = chars_within(s, o as nat, 0) as int;
        if j > k {
            if k + 1 < j {
                lemma_byte_at_mono(s, k + 1, j);
            }
            lemma_byte_at_step(s, k as int);
        } else if j < k {
            lemma_byte_at_mono(s, j, k as int);
        }
        lemma_chars_within_from(s, k as int, 0);
    }
    k
}

/// The UTF-16 units of the first `k` characters of `s`.
pub open spec fn units_to(s: Seq<char>, k: int) -> nat
    decreases k,
{
    if k <= 0 {
        0
    } else {
        units_to(s, k - 1) + width16(s[k - 1])
    }
}

proof fn lemma_utf16_before_at(s: Seq<char>, k: int, j: int)
    requires
        0 <= j <= k <= s.len(),
    ensures
        utf16_before(s, byte_at(s, k), j) == units_to(s, k) - units_to(s, j),
    decreases k - j,
{
    if j < k {
        lemma_byte_at_mono(s, j, k);
        lemma_utf16_before_at(s, k, j + 1);
    }
}

proof fn lemma_byte_of_units(s: Seq<char>, k: int, j: int)
    requires
        0 <= j <= k <= s.len(),
    ensures
        byte_of_utf16(s, units_to(s, k), j, units_to(s, j)) == byte_at(s, k),
    decreases k - j,
{
    if j < k {
        lemma_units_grow(s, j + 1, k);
        lemma_byte_of_units(s, k, j + 1);
    } else if k == s.len() {
        assert(s.take(k) =~= s);
    }
}

proof fn lemma_units_grow(s: Seq<char>, i: int, k: int)
    requires
        0 <= i <= k <= s.len(),
    ensures
        units_to(s, i) + (k - i) <= units_to(s, k),
    decreases k - i,
{
    if i < k {
        lemma_units_grow(s, i + 1, k);
    }
}

/// Converting a character boundary to UTF-16 units and back gives it back.
pub proof fn lemma_utf16_round_trip(s: Seq<char>, o: int)
    requires
        is_boundary(s, o),
    ensures
        byte_of_utf16(s, utf16_before(s, o as nat, 0), 0, 0) == o,
{
    lemma_boundary_index(s, o);
    let k = chars_within(s, o as nat, 0) as int;
    lemma_utf16_before_at(s, k, 0);
    lemma_byte_of_units(s, k, 0);
}

/// Converting a character boundary to an offset in the rendered line and
/// back gives it back, masked or not, for every content and offset
/// (`content_offset_to_shaped` asks only that the rendered offset fit in
/// `usize`, where the original's multiplication would overflow).
pub proof fn lemma_shaped_round_trip(s: Seq<char>, o: int, is_secret: bool)
    requires
        is_boundary(s, o),
    ensures
        from_shaped_spec(s, to_shaped_spec(s, o as nat, is_secret), is_secret) == o,
{
    lemma_boundary_index(s, o);
    let k = chars_within(s, o as nat, 0) as int;
    if is_secret && s.len() != 0 {
        assert((k * 3) / 3 == k) by (nonlinear_arith);
        if k == s.len() {
            assert(s.take(k) =~= s);
        }
    }
}

/// `content` with the bytes `start..end` replaced by `text`: the
/// characters before `start`, then `text`, then those from `end` on.
pub open spec fn spliced(s: Seq<char>, start: nat, end: nat, text: Seq<char>) -> Seq<char> {
    s.take(chars_within(s, start, 0) as int) + text + s.skip(chars_within(s, end, 0) as int)
}

/// Builds `content[..start] + text + content[end..]`.
pub fn splice(content: &str, start: usize, end: usize, text: &str) -> (r: String)
    requires
        is_boundary(content@, start as int),
        is_boundary(content@, end as int),
    ensures
        r@ == spliced(content@, start as nat, end as nat, text@),
        byte_len(r@) == start + byte_len(text@) + (byte_len(content@) - end),
        is_boundary(r@, start + byte_len(text@)),
{
    let v = crate::text::chars_of(content);
    let t = crate::text::chars_of(text);
    let ghost s = content@;
    let i = char_index(&v, start);
    let j = char_index(&v, end);
    let mut out: Vec<char> = Vec::new();
    let mut a: usize = 0;
    while a < i
        invariant
            v@ == s,
            i <= s.len(),
            a <= i,
            out@ == s.take(a as int),
        decreases i - a,
    {
        out.push(v[a]);
        a += 1;
        assert(out@ =~= s.take(a as int));
    }
    crate::text::extend_chars(&mut out, &t);
    let mut b: usize = j;
    let ghost mid = out@;
    assert(s.skip(j as int).take(0) =~= Seq::<char>::empty());
    while b < v.len()
        invariant
            v@ == s,
            j <= b <= s.len(),
            out@ == mid + s.skip(j as int).take(b - j),
        decreases v.len() - b,
    {
        out.push(v[b]);
        b += 1;
        assert(out@ =~= mid + s.skip(j as int).take(b - j));
    }
    assert(s.skip(j as int).take(s.len() - j) =~= s.skip(j as int));
    let r = crate::text::string_of(&out);
    proof {
        let pre = s.take(i as int);
        let post = s.skip(j as int);
        assert(r@ =~= pre + text@ + post);
        lemma_encode_concat(pre + text@, post);
        lemma_encode_concat(pre, text@);
        assert(s =~= s.take(j as int) + post);
        lemma_encode_concat(s.take(j as int), post);
        lemma_byte_prefix(s, j as int);
        let k = i + text@.len();
        assert((pre + text@ + post).take(k) =~= pre + text@);
        assert(byte_at(r@, k) == start + byte_len(text@));
    }
    r
}

/// Each boundary of `text` lands, shifted by `start`, on a boundary of
/// the spliced content.
pub proof fn lemma_spliced_boundary(s: Seq<char>, start: nat, end: nat, text: Seq<char>, k: int)
    requires
        is_boundary(s, start as int),
        0 <= k <= text.len(),
    ensures
        is_boundary(spliced(s, start, end, text), (start + byte_at(text, k)) as int),
        byte_at(text, k) <= byte_len(text),
{
    lemma_boundary_index(s, start as int);
    let i = chars_within(s, start, 0) as int;
    let pre = s.take(i);
    let r = spliced(s, start, end, text);
    assert(r.take(i + k) =~= pre + text.take(k));
    lemma_encode_concat(pre, text.take(k));
    assert(byte_at(r, i + k) == start + byte_at(text, k));
    lemma_byte_prefix(text, k);
}

/// The byte offset in `t` of the character at which exactly `target`
/// UTF-16 units have gone by, from the `k`-th character on with `units`
/// gone by before it; the length of `t` where there is none.
pub open spec fn rel_of_utf16(t: Seq<char>, target: nat, k: int, units: nat) -> nat
    decreases t.len() - k,
{
    if k < 0 || k >= t.len() {
        byte_len(t)
    } else if units == target {
        byte_at(t, k)
    } else {
        rel_of_utf16(t, target, k + 1, units + width16(t[k]))
    }
}

proof fn lemma_rel_of_utf16_boundary(t: Seq<char>, target: nat, k: int, units: nat)
    requires
        0 <= k <= t.len(),
    ensures
        exists|j: int| 0 <= j <= t.len() && #[trigger] byte_at(t, j) == rel_of_utf16(t, target, k, units),
    decreases t.len() - k,
{
    if k >= t.len() {
        assert(t.take(t.len() as int) =~= t);
        assert(byte_at(t, t.len() as int) == byte_len(t));
    } else if units == target {
        assert(byte_at(t, k) == rel_of_utf16(t, target, k, units));
    } else {
        lemma_rel_of_utf16_boundary(t, target, k + 1, units + width16(t[k]));
    }
}

/// The byte offset in `text` where exactly `target` UTF-16 units have gone
/// by, or the length of `text` where no character starts there.
pub fn relative_from_utf16(text: &str, target: usize) -> (r: usize)
    ensures
        r == rel_of_utf16(text@, target as nat, 0, 0),
        exists|j: int| 0 <= j <= text@.len() && #[trigger] byte_at(text@, j) == r,
{
    let len = text.as_bytes().len();
    let v = crate::text::chars_of(text);
    let ghost s = text@;
    proof {
        lemma_rel_of_utf16_boundary(s, target as nat, 0, 0);
    }
    let mut idx: usize = 0;
    let mut units: usize = 0;
    let mut k: usize = 0;
    assert(s.take(0) =~= Seq::<char>::empty());
    while k < v.len()
        invariant
            v@ == s,
            s == text@,
            k <= v.len(),
            idx == byte_at(s, k as int),
            units <= idx,
            idx <= encode_utf8(s).len(),
            encode_utf8(s).len() == len,
            rel_of_utf16(s, target as nat, 0, 0) == rel_of_utf16(s, target as nat, k as int, units as nat),
        decreases v.len() - k,
    {
        if units == target {
            return idx;
        }
        let c = v[k];
        proof {
            lemma_byte_at_step(s, k as int);
            lemma_width8(c);
            lemma_byte_prefix(s, k + 1);
        }
        units = units + width16_exec(c);
        idx = idx + width8_exec(c);
        k += 1;
    }
    len
}

/// The characters of `v` from index `i` up to `j`.
fn chars_range(v: &Vec<char>, i: usize, j: usize) -> (r: String)
    requires
        i <= j <= v@.len(),
    ensures
        r@ == v@.subrange(i as int, j as int),
{
    let mut out: Vec<char> = Vec::new();
    let mut a: usize = i;
    while a < j
        invariant
            i <= a <= j <= v@.len(),
            out@ == v@.subrange(i as int, a as int),
        decreases j - a,
    {
        out.push(v[a]);
        a += 1;
        assert(out@ =~= v@.subrange(i as int, a as int));
    }
    crate::text::string_of(&out)
}

/// The text between the boundaries `start` and `end` of `content`
/// (`&content[start..end]`).
pub fn slice_between(content: &str, start: usize, end: usize) -> (r: String)
    requires
        is_boundary(content@, start as int),
        is_boundary(content@, end as int),
        start <= end,
    ensures
        r@ == content@.subrange(
            chars_within(content@, start as nat, 0) as int,
            chars_within(content@, end as nat, 0) as int,
        ),
{
    let v = crate::text::chars_of(content);
    let i = char_index(&v, start);
    let j = char_index(&v, end);
    proof {
        if j < i {
            lemma_byte_at_mono(content@, j as int, i as int);
        }
    }
    chars_range(&v, i, j)
}

// ---------------------------------------------------------------------
// Grapheme boundaries
// ---------------------------------------------------------------------

/// The last of `starts` below `offset`, or 0.
pub open spec fn last_below(starts: Seq<usize>, offset: usize) -> usize
    decreases starts.len(),
{
    if starts.len() == 0 {
        0
    } else if starts.last() < offset {
        starts.last()
    } else {
        last_below(starts.drop_last(), offset)
    }
}

/// The first of `starts` above `offset`, or `end`.
pub open spec fn first_above(starts: Seq<usize>, offset: usize, end: usize) -> usize
    decreases starts.len(),
{
    if starts.len() == 0 {
        end
    } else if starts[0] > offset {
        starts[0]
    } else {
        first_above(starts.drop_first(), offset, end)
    }
}

proof fn lemma_last_below_from(starts: Seq<usize>, offset: usize)
    ensures
        last_below(starts, offset) == 0 || exists|i: int|
            0 <= i < starts.len() && #[trigger] starts[i] == last_below(starts, offset),
    decreases starts.len(),
{
    if starts.len() > 0 && !(starts.last() < offset) {
        lemma_last_below_from(starts.drop_last(), offset);
        let r = last_below(starts.drop_last(), offset);
        if r != 0 {
            let i = choose|i: int| 0 <= i < starts.drop_last().len() && #[trigger] starts.drop_last()[i] == r;
            assert(starts[i] == r);
        }
    } else if starts.len() > 0 {
        assert(starts[starts.len() - 1] == starts.last());
    }
}

proof fn lemma_first_above_from(starts: Seq<usize>, offset: usize, end: usize)
    ensures
        first_above(starts, offset, end) == end || exists|i: int|
            0 <= i < starts.len() && #[trigger] starts[i] == first_above(starts, offset, end),
    decreases starts.len(),
{
    if starts.len() > 0 && !(starts[0] > offset) {
        lemma_first_above_from(starts.drop_first(), offset, end);
        let r = first_above(starts.drop_first(), offset, end);
        if r != end {
            let i = choose|i: int| 0 <= i < starts.drop_first().len() && #[trigger] starts.drop_first()[i] == r;
            assert(starts[i + 1] == r);
        }
    }
}

/// The last of the grapheme starts `starts` below `offset`, or 0.
pub fn previous_boundary_in(starts: &Vec<usize>, offset: usize) -> (r: usize)
    ensures
        r == last_below(starts@, offset),
{
    let mut j = starts.len();
    assert(starts@.take(j as int) =~= starts@);
    while j > 0
        invariant
            j <= starts.len(),
            last_below(starts@, offset) == last_below(starts@.take(j as int), offset),
        decreases j,
    {
        assert(starts@.take(j as int).last() == starts@[j - 1]);
        assert(starts@.take(j as int).drop_last() =~= starts@.take(j - 1));
        if starts[j - 1] < offset {
            return starts[j - 1];
        }
        j -= 1;
    }
    0
}

/// The first of the grapheme starts `starts` above `offset`, or `end`.
pub fn next_boundary_in(starts: &Vec<usize>, offset: usize, end: usize) -> (r: usize)
    ensures
        r == first_above(starts@, offset, end),
{
    let mut i: usize = 0;
    assert(starts@.skip(0) =~= starts@);
    while i < starts.len()
        invariant
            i <= starts.len(),
            first_above(starts@, offset, end) == first_above(starts@.skip(i as int), offset, end),
        decreases starts.len() - i,
    {
        assert(starts@.skip(i as int)[0] == starts@[i as int]);
        assert(starts@.skip(i as int).drop_first() =~= starts@.skip(i + 1));
        if starts[i] > offset {
            return starts[i];
        }
        i += 1;
    }
    end
}

/// The grapheme boundary before byte `offset` of `content` (0 at the
/// start).
pub fn previous_boundary(content: &str, offset: usize) -> (r: usize)
    ensures
        r == last_below(grapheme_offsets(content@), offset),
        is_boundary(content@, r as int),
{
    let starts = grapheme_starts(content);
    proof {
        lemma_last_below_from(starts@, offset);
        lemma_ends_are_boundaries(content@);
        let r = last_below(starts@, offset);
        if r != 0 {
            let i = choose|i: int| 0 <= i < starts@.len() && #[trigger] starts@[i] == r;
            assert(is_boundary(content@, starts@[i] as int));
        }
    }
    previous_boundary_in(&starts, offset)
}

/// The grapheme boundary after byte `offset` of `content` (its length at
/// the end).
pub fn next_boundary(content: &str, offset: usize) -> (r: usize)
    ensures
        r == first_above(grapheme_offsets(content@), offset, encode_utf8(content@).len() as usize),
        is_boundary(content@, r as int),
{
    let starts = grapheme_starts(content);
    let len = content.as_bytes().len();
    assert(len == encode_utf8(content@).len());
    proof {
        lemma_first_above_from(starts@, offset, len);
        lemma_ends_are_boundaries(content@);
        let r = first_above(starts@, offset, len);
        if r != len {
            let i = choose|i: int| 0 <= i < starts@.len() && #[trigger] starts@[i] == r;
            assert(is_boundary(content@, starts@[i] as int));
        }
    }
    next_boundary_in(&starts, offset, len)
}

} // verus!
