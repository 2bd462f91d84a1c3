//! The HTML pages the server sends: directory listings and status pages,
//! and the size labels they show.

use vstd::prelude::*;

use super::spec::{child_url, escaped, parent_spec};
use super::{html_escape, join_child_url, parent_path};
use crate::outside::percent_encoded_bytes;
use crate::text::{
    chars_of, decimal, decimal_chars, digit_char, extend_chars, extend_str, string_of,
};
use crate::vfs::{entries_view, DirEntry, DirEntryView};

verus! {

/// The unit a byte count is shown in: 0 for bytes, then KB, MB, GB, TB.
pub open spec fn unit_index(n: nat) -> nat {
    if n < 1024 {
        0
    } else if n < 1048576 {
        1
    } else if n < 1073741824 {
        2
    } else if n < 1099511627776 {
        3
    } else {
        4
    }
}

pub open spec fn unit_size(u: nat) -> nat {
    if u == 0 {
        1
    } else if u == 1 {
        1024
    } else if u == 2 {
        1048576
    } else if u == 3 {
        1073741824
    } else {
        1099511627776
    }
}

pub open spec fn unit_name(u: nat) -> Seq<char> {
    if u == 0 {
        "B"@
    } else if u == 1 {
        "KB"@
    } else if u == 2 {
        "MB"@
    } else if u == 3 {
        "GB"@
    } else {
        "TB"@
    }
}

/// A byte count for people: `n B` below 1024, else the count in the
/// largest unit it reaches (up to TB), cut to one decimal.
pub open spec fn bytes_label(n: nat) -> Seq<char> {
    if n < 1024 {
        decimal(n) + " B"@
    } else {
        let u = unit_index(n);
        let tenths = n * 10 / unit_size(u);
        decimal(tenths / 10) + "."@ + seq![digit_char(tenths % 10)] + " "@ + unit_name(u)
    }
}

/// `n` bytes for people (see `bytes_label`).
pub fn format_bytes(n: u64) -> (r: String)
    ensures
        r@ == bytes_label(n as nat),
{
    if n < 1024 {
        let mut buf = decimal_chars(n);
        extend_str(&mut buf, " B");
        return string_of(&buf);
    }
    let (size, name): (u64, &str) = if n < 1048576 {
        (1024, "KB")
    } else if n < 1073741824 {
        (1048576, "MB")
    } else if n < 1099511627776 {
        (1073741824, "GB")
    } else {
        (1099511627776, "TB")
    };
    let wide: u128 = (n as u128) * 10;
    let tenths: u128 = wide / (size as u128);
    assert(tenths == ((n as nat) * 10) / unit_size(unit_index(n as nat)));
    assert(tenths <= (n as int) * 10) by (nonlinear_arith)
        requires
            tenths == wide / (size as u128),
            size >= 1,
            wide == n * 10,
    ;
    let whole: u64 = (tenths / 10) as u64;
    let frac: u64 = (tenths % 10) as u64;
    let mut buf = decimal_chars(whole);
    extend_str(&mut buf, ".");
    buf.push(crate::text::digit_char_exec(frac));
    extend_str(&mut buf, " ");
    extend_str(&mut buf, name);
    string_of(&buf)
}

/// The listing line that leads one level up.
pub open spec fn up_row(parent: Seq<char>) -> Seq<char> {
    "<div class=\"item dir\"><a href=\""@ + parent
        + "\"><span class=\"icon\">^</span><span class=\"name\">..</span></a><span class=\"mtime\"></span><span class=\"size\">?</span></div>"@
}

/// What the size column shows for an entry.
pub open spec fn size_cell(e: DirEntryView) -> Seq<char> {
    match e.size {
        Some(n) => bytes_label(n as nat),
        None => if e.is_dir {
            "?"@
        } else {
            "0 B"@
        },
    }
}

/// The listing line of one entry under the URL path `base`.
pub open spec fn entry_row(base: Seq<char>, e: DirEntryView) -> Seq<char> {
    let href = child_url(base, percent_encoded_bytes(vstd::utf8::encode_utf8(e.name)), e.is_dir);
    let mtime = match e.mtime {
        Some(m) => m,
        None => seq![],
    };
    "<div class=\"item "@ + (if e.is_dir {
        "dir"@
    } else {
        "file"@
    }) + "\"><a href=\""@ + href + "\"><span class=\"icon\">"@ + (if e.is_dir {
        "[D]"@
    } else {
        "[F]"@
    }) + "</span><span class=\"name\">"@ + escaped(e.name) + "</span></a><span class=\"mtime\">"@
        + escaped(mtime) + "</span><span class=\"size\">"@ + size_cell(e) + "</span></div>"@
}

/// The listing lines of `es`, in order.
pub open spec fn entry_rows(base: Seq<char>, es: Seq<DirEntryView>) -> Seq<char>
    decreases es.len(),
{
    if es.len() == 0 {
        seq![]
    } else {
        entry_rows(base, es.drop_last()) + entry_row(base, es.last())
    }
}

pub open spec fn upload_form_html(allow_upload: bool) -> Seq<char> {
    if allow_upload {
        "<div id=\"upload-form\"><form method=\"post\" enctype=\"multipart/form-data\"><input type=\"file\" name=\"file\" multiple/><button type=\"submit\">Upload</button></form></div>"@
    } else {
        seq![]
    }
}

/// The directory listing page.
pub open spec fn directory_page(
    title: Seq<char>,
    url_path: Seq<char>,
    es: Seq<DirEntryView>,
    allow_upload: bool,
) -> Seq<char> {
    let rows = (if url_path != "/"@ {
        up_row(parent_spec(url_path))
    } else {
        seq![]
    }) + entry_rows(url_path, es);
    "<!DOCTYPE html><html><head><meta charset=\"utf-8\"><meta name=\"viewport\" content=\"width=device-width, initial-scale=1\"><title>HFS-RS "@
        + escaped(title)
        + "</title><link rel=\"stylesheet\" href=\"/~style.css\"></head><body><div id=\"wrapper\"><div id=\"menu-panel\"><div class=\"brand\">HFS-RS</div><div class=\"path\">"@
        + escaped(url_path) + "</div></div>"@ + upload_form_html(allow_upload)
        + "<div id=\"files\">"@ + rows
        + "</div><div id=\"serverinfo\">Inspired by HFS2 ? Rust + GPUI</div></div></body></html>"@
}

#[verifier::spinoff_prover]
#[verifier::rlimit(80)]
fn append_entry_row(buf: &mut Vec<char>, base: &str, e: &DirEntry)
    ensures
        final(buf)@ == old(buf)@ + entry_row(base@, e@),
{
    let href = join_child_url(base, e.name.as_str(), e.is_dir);
    let size = match e.size {
        Some(n) => format_bytes(n),
        None => if e.is_dir {
            "?".to_string()
        } else {
            "0 B".to_string()
        },
    };
    let mtime = match &e.mtime {
        Some(m) => html_escape(m.as_str()),
        None => html_escape(""),
    };
    proof {
        reveal_strlit("");
        assert(""@ =~= Seq::<char>::empty());
    }
    extend_str(buf, "<div class=\"item ");
    if e.is_dir {
        extend_str(buf, "dir");
    } else {
        extend_str(buf, "file");
    }
    extend_str(buf, "\"><a href=\"");
    extend_str(buf, href.as_str());
    extend_str(buf, "\"><span class=\"icon\">");
    if e.is_dir {
        extend_str(buf, "[D]");
    } else {
        extend_str(buf, "[F]");
    }
    extend_str(buf, "</span><span class=\"name\">");
    let name = html_escape(e.name.as_str());
    extend_str(buf, name.as_str());
    extend_str(buf, "</span></a><span class=\"mtime\">");
    extend_str(buf, mtime.as_str());
    extend_str(buf, "</span><span class=\"size\">");
    extend_str(buf, size.as_str());
    extend_str(buf, "</span></div>");
    assert(final(buf)@ =~= old(buf)@ + entry_row(base@, e@));
}

/// The HTML page listing `entries` under the URL path `url_path`, with an
/// upload form where uploads are allowed and a link one level up below
/// the top level.
pub fn render_directory(
    title: &str,
    url_path: &str,
    entries: &Vec<DirEntry>,
    allow_upload: bool,
) -> (r: String)
    ensures
        r@ == directory_page(title@, url_path@, entries_view(entries@), allow_upload),
{
    let mut rows: Vec<char> = Vec::new();
    let up = chars_of(url_path);
    let mut root: Vec<char> = Vec::new();
    root.push('/');
    proof {
        reveal_strlit("/");
        assert("/"@ =~= seq!['/']);
    }
    if !crate::text::chars_eq(&up, &root) {
        let parent = parent_path(url_path);
        extend_str(&mut rows, "<div class=\"item dir\"><a href=\"");
        extend_str(&mut rows, parent.as_str());
        extend_str(
            &mut rows,
            "\"><span class=\"icon\">^</span><span class=\"name\">..</span></a><span class=\"mtime\"></span><span class=\"size\">?</span></div>",
        );
    }
    let ghost head = rows@;
    assert(head =~= (if url_path@ != "/"@ {
        up_row(parent_spec(url_path@))
    } else {
        seq![]
    }));
    let mut i: usize = 0;
    while i < entries.len()
        invariant
            i <= entries.len(),
            rows@ == head + entry_rows(url_path@, entries_view(entries@).take(i as int)),
        decreases entries.len() - i,
    {
        append_entry_row(&mut rows, url_path, &entries[i]);
        let ghost es = entries_view(entries@);
        assert(es.take(i + 1).drop_last() =~= es.take(i as int));
        assert(es.take(i + 1).last() == entries@[i as int]@);
        i += 1;
    }
    assert(entries_view(entries@).take(entries.len() as int) =~= entries_view(entries@));
    let mut page = chars_of(
        "<!DOCTYPE html><html><head><meta charset=\"utf-8\"><meta name=\"viewport\" content=\"width=device-width, initial-scale=1\"><title>HFS-RS ",
    );
    let t = html_escape(title);
    extend_str(&mut page, t.as_str());
    extend_str(
        &mut page,
        "</title><link rel=\"stylesheet\" href=\"/~style.css\"></head><body><div id=\"wrapper\"><div id=\"menu-panel\"><div class=\"brand\">HFS-RS</div><div class=\"path\">",
    );
    let p = html_escape(url_path);
    extend_str(&mut page, p.as_str());
    extend_str(&mut page, "</div></div>");
    if allow_upload {
        extend_str(
            &mut page,
            "<div id=\"upload-form\"><form method=\"post\" enctype=\"multipart/form-data\"><input type=\"file\" name=\"file\" multiple/><button type=\"submit\">Upload</button></form></div>",
        );
    }
    extend_str(&mut page, "<div id=\"files\">");
    extend_chars(&mut page, &rows);
    extend_str(
        &mut page,
        "</div><div id=\"serverinfo\">Inspired by HFS2 ? Rust + GPUI</div></div></body></html>",
    );
    assert(page@ =~= directory_page(title@, url_path@, entries_view(entries@), allow_upload));
    string_of(&page)
}

/// The small page sent with an error or a status: a heading `title`, the
/// text `msg`, and a link home. Neither is escaped.
pub open spec fn status_page(title: Seq<char>, msg: Seq<char>) -> Seq<char> {
    "<!DOCTYPE html><html><head><meta charset=\"utf-8\"><title>"@ + title
        + "</title><link rel=\"stylesheet\" href=\"/~style.css\"></head><body><div id=\"wrapper\"><h1>"@
        + title + "</h1><p>"@ + msg + "</p><p><a href=\"/\">Home</a></p></div></body></html>"@
}

/// The status page with heading `title` and text `msg`.
pub fn html_status_body(title: &str, msg: &str) -> (r: String)
    ensures
        r@ == status_page(title@, msg@),
{
    let mut page = chars_of("<!DOCTYPE html><html><head><meta charset=\"utf-8\"><title>");
    extend_str(&mut page, title);
    extend_str(
        &mut page,
        "</title><link rel=\"stylesheet\" href=\"/~style.css\"></head><body><div id=\"wrapper\"><h1>",
    );
    extend_str(&mut page, title);
    extend_str(&mut page, "</h1><p>");
    extend_str(&mut page, msg);
    extend_str(&mut page, "</p><p><a href=\"/\">Home</a></p></div></body></html>");
    assert(page@ =~= status_page(title@, msg@));
    string_of(&page)
}

} // verus!
