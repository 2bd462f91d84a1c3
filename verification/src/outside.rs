//! Calls into outside crates and into std functions that vstd leaves
//! unspecified. Each item's contract is trusted, not proved; the doc
//! comment of each says what is claimed of the code it calls.

use vstd::prelude::*;
use vstd::utf8::*;
use crate::editing::is_boundary;

verus! {

// ---------------------------------------------------------------------
// percent-encoding
// ---------------------------------------------------------------------

pub open spec fn is_hex_digit(c: char) -> bool {
    ('0' <= c && c <= '9') || ('a' <= c && c <= 'f') || ('A' <= c && c <= 'F')
}

/// `s` holds an escape: a `%` followed by two hex digits.
pub open spec fn has_escape(s: Seq<char>) -> bool {
    exists|i: int|
        0 <= i && i + 2 < s.len() && #[trigger] s[i] == '%' && is_hex_digit(s[i + 1])
            && is_hex_digit(s[i + 2])
}

/// The value of a hex digit byte (`char::to_digit(16)`).
pub open spec fn hex_value(b: u8) -> Option<u8> {
    if 48 <= b && b <= 57 {
        Some((b - 48) as u8)
    } else if 97 <= b && b <= 102 {
        Some((b - 87) as u8)
    } else if 65 <= b && b <= 70 {
        Some((b - 55) as u8)
    } else {
        None
    }
}

/// Percent-decoding of bytes: each `%` followed by two hex digits becomes
/// the byte they spell; every other byte stays.
pub open spec fn percent_decoded(b: Seq<u8>) -> Seq<u8>
    decreases b.len(),
{
    if b.len() == 0 {
        seq![]
    } else if b[0] == 37 && b.len() >= 3 && hex_value(b[1]) is Some && hex_value(b[2]) is Some {
        seq![(hex_value(b[1])->0 * 16 + hex_value(b[2])->0) as u8] + percent_decoded(b.skip(3))
    } else {
        seq![b[0]] + percent_decoded(b.drop_first())
    }
}

/// The text `String::from_utf8_lossy` makes of `bytes`: valid UTF-8 as it
/// decodes, anything else as the name `utf8_lossy` stands for.
pub open spec fn lossy_text(bytes: Seq<u8>) -> Seq<char> {
    if valid_utf8(bytes) {
        decode_utf8(bytes)
    } else {
        utf8_lossy(bytes)
    }
}

/// What `percent_encoding::percent_decode_str(raw).decode_utf8_lossy()`
/// yields for `raw`: its UTF-8 bytes percent-decoded, then read lossily.
pub open spec fn url_decoded(raw: Seq<char>) -> Seq<char> {
    lossy_text(percent_decoded(encode_utf8(raw)))
}

/// `percent_encoding::percent_decode_str(raw).decode_utf8_lossy()`.
/// Claimed, as the crate's source shows: the bytes of `raw` are decoded as
/// `percent_decoded` states (`after_percent_sign` takes two digits that
/// `to_digit(16)` reads, else the `%` stays), and the result goes through
/// `String::from_utf8_lossy`, which keeps valid UTF-8 as it is; a string
/// without an escape therefore comes back unchanged.
#[verifier::external_body]
pub(crate) fn percent_decode_lossy(raw: &str) -> (r: String)
    ensures
        r@ == utf8_lossy(percent_decoded(encode_utf8(raw@))),
        valid_utf8(percent_decoded(encode_utf8(raw@))) ==> r@ == decode_utf8(
            percent_decoded(encode_utf8(raw@)),
        ),
        r@ == url_decoded(raw@),
        !has_escape(raw@) ==> r@ == raw@,
{
    percent_encoding::percent_decode_str(raw).decode_utf8_lossy().to_string()
}

pub open spec fn is_ascii_alnum_byte(b: u8) -> bool {
    (48 <= b && b <= 57) || (65 <= b && b <= 90) || (97 <= b && b <= 122)
}

pub open spec fn hex_upper(d: u8) -> char {
    if d < 10 {
        ((d + 48) as u8) as char
    } else {
        ((d + 55) as u8) as char
    }
}

/// One byte as `NON_ALPHANUMERIC` percent-encoding writes it.
pub open spec fn encoded_byte(b: u8) -> Seq<char> {
    if is_ascii_alnum_byte(b) {
        seq![b as char]
    } else {
        seq!['%', hex_upper(b / 16), hex_upper(b % 16)]
    }
}

pub open spec fn percent_encoded_bytes(bytes: Seq<u8>) -> Seq<char>
    decreases bytes.len(),
{
    if bytes.len() == 0 {
        seq![]
    } else {
        encoded_byte(bytes[0]) + percent_encoded_bytes(bytes.drop_first())
    }
}

/// `percent_encoding::utf8_percent_encode(s, NON_ALPHANUMERIC).to_string()`.
/// Claimed, as the crate's source shows: every byte of the UTF-8 encoding
/// of `s` that is not an ASCII letter or digit becomes `%` and two
/// upper-case hex digits; letters and digits are kept.
#[verifier::external_body]
pub(crate) fn percent_encode_segment(s: &str) -> (r: String)
    ensures
        r@ == percent_encoded_bytes(encode_utf8(s@)),
{
    percent_encoding::utf8_percent_encode(s, percent_encoding::NON_ALPHANUMERIC).to_string()
}

// ---------------------------------------------------------------------
// base64
// ---------------------------------------------------------------------

/// What `base64::engine::general_purpose::STANDARD.decode(s)` yields for
/// `s`: the decoded bytes, or `None` where it returns an error.
pub uninterp spec fn base64_decoded(s: Seq<char>) -> Option<Seq<u8>>;

/// `base64::Engine::decode(&base64::engine::general_purpose::STANDARD, s)`,
/// with the error mapped to `None`. Claimed: the result is a function of
/// `s` alone.
#[verifier::external_body]
pub(crate) fn base64_decode_standard(s: &str) -> (r: Option<Vec<u8>>)
    ensures
        match r {
            Some(v) => base64_decoded(s@) == Some(v@),
            None => base64_decoded(s@) is None,
        },
{
    base64::Engine::decode(&base64::engine::general_purpose::STANDARD, s).ok()
}

// ---------------------------------------------------------------------
// std: UTF-8 validation, string push
// ---------------------------------------------------------------------

/// `std::str::from_utf8`, owned. Claimed, as std documents it: it succeeds
/// exactly on valid UTF-8 and then holds the decoded characters.
#[verifier::external_body]
pub(crate) fn utf8_decode(bytes: &Vec<u8>) -> (r: Option<String>)
    ensures
        match r {
            Some(s) => valid_utf8(bytes@) && s@ == decode_utf8(bytes@),
            None => !valid_utf8(bytes@),
        },
{
    std::str::from_utf8(bytes.as_slice()).ok().map(|s| s.to_string())
}

// ---------------------------------------------------------------------
// mime_guess
// ---------------------------------------------------------------------

/// What `mime_guess::from_ext(ext).first_or_octet_stream().essence_str()`
/// yields for `ext`.
pub uninterp spec fn mime_of_ext(ext: Seq<char>) -> Seq<char>;

/// `mime_guess::from_ext(ext).first_or_octet_stream()`, as its essence
/// string. Claimed: the result is a function of `ext` alone, and an empty
/// extension gives `application/octet-stream` (the crate returns an empty
/// guess for it).
#[verifier::external_body]
pub(crate) fn mime_for_extension(ext: &str) -> (r: String)
    ensures
        r@ == mime_of_ext(ext@),
        ext@.len() == 0 ==> r@ == "application/octet-stream"@,
{
    mime_guess::from_ext(ext).first_or_octet_stream().essence_str().to_string()
}

// ---------------------------------------------------------------------
// std::path
// ---------------------------------------------------------------------

/// The path's last component is `..`: it is `..` or ends with `/..`.
pub open spec fn ends_in_parent(path: Seq<char>) -> bool {
    path == seq!['.', '.'] || (path.len() >= 3 && path.subrange(path.len() - 3, path.len() as int)
        == seq!['/', '.', '.'])
}

/// What `Path::file_name` gives on every platform: nothing for `/` or a
/// path whose last component is `..`, and otherwise, where it gives a
/// name, a non-empty one without `/` (a separator everywhere).
pub open spec fn file_name_fits(path: Seq<char>, name: Option<Seq<char>>) -> bool {
    &&& (path == seq!['/'] || ends_in_parent(path)) ==> name is None
    &&& (name matches Some(n) ==> n.len() > 0 && !n.contains('/'))
}

/// The text after the last `/` of `p` (all of `p` where it has none).
pub open spec fn after_last_slash(p: Seq<char>) -> Seq<char>
    decreases p.len(),
{
    if p.len() == 0 {
        p
    } else if p.last() == '/' {
        seq![]
    } else {
        after_last_slash(p.drop_last()).push(p.last())
    }
}

/// The file name of a path that reads the same on every platform: no `\`,
/// no `:`, no leading `//`, and a last part after `/` that is a name
/// (neither empty, nor `.` or `..`). Such a path's file name is that part.
pub open spec fn plain_file_name(p: Seq<char>) -> Option<Seq<char>> {
    let n = after_last_slash(p);
    if !p.contains('\\') && !p.contains(':') && !(p.len() >= 2 && p[0] == '/' && p[1] == '/')
        && n.len() > 0 && n != seq!['.'] && n != seq!['.', '.'] {
        Some(n)
    } else {
        None
    }
}

/// `Path::new(path).file_name()`, converted to a `String` (lossless for a
/// path made from a `&str`). Claimed, as std documents it: `None` for `/`
/// and for a path that ends in `..`; a name is the path's last normal
/// component, non-empty and free of `/`; and for a path without `\`, `:`
/// or a leading `//` (so without a Windows prefix) whose text after the
/// last `/` is a name, the file name is that text. Which other characters
/// separate components differs between platforms and is not stated.
#[verifier::external_body]
pub(crate) fn path_file_name(path: &str) -> (r: Option<String>)
    ensures
        file_name_fits(
            path@,
            match r {
                Some(n) => Some(n@),
                None => None,
            },
        ),
        plain_file_name(path@) is Some ==> r is Some && r->Some_0@ == plain_file_name(path@)->Some_0,
{
    std::path::Path::new(path).file_name().map(|s| s.to_string_lossy().to_string())
}

// ---------------------------------------------------------------------
// std: lossy UTF-8 decoding
// ---------------------------------------------------------------------

/// What `String::from_utf8_lossy(bytes)` yields for `bytes`.
pub uninterp spec fn utf8_lossy(bytes: Seq<u8>) -> Seq<char>;

/// `String::from_utf8_lossy`, owned. Claimed, as std documents it: the
/// result is a function of the bytes alone, and valid UTF-8 comes back
/// decoded as it is (only invalid sequences become U+FFFD).
#[verifier::external_body]
pub(crate) fn decode_utf8_lossy(bytes: &Vec<u8>) -> (r: String)
    ensures
        r@ == utf8_lossy(bytes@),
        valid_utf8(bytes@) ==> r@ == decode_utf8(bytes@),
{
    String::from_utf8_lossy(bytes.as_slice()).into_owned()
}

// ---------------------------------------------------------------------
// std: Unicode lower case
// ---------------------------------------------------------------------

/// What `str::to_lowercase` yields for `s`.
pub uninterp spec fn lowercased(s: Seq<char>) -> Seq<char>;

/// `str::to_lowercase`. Claimed: the result is a function of `s` alone
/// (std maps each character by the Unicode case tables it is built with).
#[verifier::external_body]
pub(crate) fn to_lowercase(s: &str) -> (r: String)
    ensures
        r@ == lowercased(s@),
{
    s.to_lowercase()
}

// ---------------------------------------------------------------------
// unicode-segmentation
// ---------------------------------------------------------------------

/// The byte offsets that `grapheme_indices(s, true)` yields for `s`.
pub uninterp spec fn grapheme_offsets(s: Seq<char>) -> Seq<usize>;

/// `unicode_segmentation::UnicodeSegmentation::grapheme_indices(s, true)`,
/// keeping the byte offset at which each extended grapheme cluster
/// starts. Claimed: the offsets are a function of `s` alone (the crate's
/// Unicode tables are fixed), and each is a character boundary of `s` (the
/// iterator yields `&s[start..next]`, a slice that only such offsets allow).
#[verifier::external_body]
pub(crate) fn grapheme_starts(s: &str) -> (r: Vec<usize>)
    ensures
        r@ == grapheme_offsets(s@),
        forall|i: int| 0 <= i < r@.len() ==> is_boundary(s@, #[trigger] r@[i] as int),
{
    unicode_segmentation::UnicodeSegmentation::grapheme_indices(s, true).map(|(i, _)| i).collect()
}

} // verus!
