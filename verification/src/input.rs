//! The state of a one-line text input: its content, the selection, the
//! range marked by an input method, and what each editing key does to them.

use std::ops::Range;

use vstd::prelude::*;

use crate::editing::{
    byte_at, byte_len, byte_of_utf16, chars_within, content_offset_to_shaped, first_above,
    from_shaped_spec, is_boundary, last_below, lemma_boundary_index, lemma_ends_are_boundaries,
    lemma_spliced_boundary, offset_from_utf16, offset_to_utf16, rel_of_utf16,
    relative_from_utf16, shaped_offset_to_content, splice, spliced, to_shaped_spec, utf16_before,
};
use crate::outside::grapheme_offsets;

verus! {

/// What an input tells its owner.
#[derive(Clone, Debug, PartialEq, Eq)]
pub enum TextInputEvent {
    Change(String),
    Submit(String),
    Escape,
}

/// A selection given in UTF-16 units.
#[derive(Debug, PartialEq, Eq)]
pub struct Utf16Selection {
    pub range: Range<usize>,
    pub reversed: bool,
}

/// The modifier keys that editing looks at.
#[derive(Clone, Copy, Debug, PartialEq, Eq)]
pub struct Modifiers {
    pub control: bool,
    pub platform: bool,
    pub shift: bool,
}

/// What a key press asks of the input.
#[derive(Clone, Copy, Debug, PartialEq, Eq, Structural)]
pub enum KeyCommand {
    SelectAll,
    Copy,
    Cut,
    Paste,
    Enter,
    Left,
    Right,
    Home,
    End,
    Backspace,
    Delete,
    Escape,
    Ignored,
}

/// What a key press gives back: text for the clipboard, and an event for
/// the owner.
#[derive(Clone, Debug, PartialEq, Eq)]
pub struct KeyOutcome {
    pub copied: Option<String>,
    pub event: Option<TextInputEvent>,
}

impl KeyOutcome {
    /// Nothing copied and nothing to tell.
    pub open spec fn quiet(&self) -> bool {
        self.copied is None && self.event is None
    }

    /// Nothing copied, and the change event for `s`.
    pub open spec fn changed_to(&self, s: Seq<char>) -> bool {
        self.copied is None && (self.event matches Some(e) && is_change_of(e, s))
    }
}

/// The command of the key named `key`; with control or the platform key
/// held only select-all, copy, cut and paste count.
pub open spec fn key_command_spec(key: Seq<char>, command: bool) -> KeyCommand {
    if command {
        if key == "a"@ || key == "A"@ {
            KeyCommand::SelectAll
        } else if key == "c"@ || key == "C"@ {
            KeyCommand::Copy
        } else if key == "x"@ || key == "X"@ {
            KeyCommand::Cut
        } else if key == "v"@ || key == "V"@ {
            KeyCommand::Paste
        } else {
            KeyCommand::Ignored
        }
    } else if key == "enter"@ {
        KeyCommand::Enter
    } else if key == "left"@ {
        KeyCommand::Left
    } else if key == "right"@ {
        KeyCommand::Right
    } else if key == "home"@ {
        KeyCommand::Home
    } else if key == "end"@ {
        KeyCommand::End
    } else if key == "backspace"@ {
        KeyCommand::Backspace
    } else if key == "delete"@ {
        KeyCommand::Delete
    } else if key == "escape"@ {
        KeyCommand::Escape
    } else {
        KeyCommand::Ignored
    }
}

fn is_key(key: &Vec<char>, name: &str) -> (r: bool)
    ensures
        r == (key@ == name@),
{
    let n = crate::text::chars_of(name);
    crate::text::chars_eq(key, &n)
}

/// The command of the key named `key` (see `key_command_spec`).
pub fn key_command(key: &str, command: bool) -> (r: KeyCommand)
    ensures
        r == key_command_spec(key@, command),
{
    let k = crate::text::chars_of(key);
    if command {
        if is_key(&k, "a") || is_key(&k, "A") {
            KeyCommand::SelectAll
        } else if is_key(&k, "c") || is_key(&k, "C") {
            KeyCommand::Copy
        } else if is_key(&k, "x") || is_key(&k, "X") {
            KeyCommand::Cut
        } else if is_key(&k, "v") || is_key(&k, "V") {
            KeyCommand::Paste
        } else {
            KeyCommand::Ignored
        }
    } else if is_key(&k, "enter") {
        KeyCommand::Enter
    } else if is_key(&k, "left") {
        KeyCommand::Left
    } else if is_key(&k, "right") {
        KeyCommand::Right
    } else if is_key(&k, "home") {
        KeyCommand::Home
    } else if is_key(&k, "end") {
        KeyCommand::End
    } else if is_key(&k, "backspace") {
        KeyCommand::Backspace
    } else if is_key(&k, "delete") {
        KeyCommand::Delete
    } else if is_key(&k, "escape") {
        KeyCommand::Escape
    } else {
        KeyCommand::Ignored
    }
}

/// Pasted text with each line break (`\r` or `\n`) turned into a space.
pub open spec fn pasted(t: Seq<char>) -> Seq<char> {
    Seq::new(
        t.len(),
        |i: int|
            if t[i] == '\r' || t[i] == '\n' {
                ' '
            } else {
                t[i]
            },
    )
}

/// `text` with each line break turned into a space.
pub fn paste_text(text: &str) -> (r: String)
    ensures
        r@ == pasted(text@),
{
    let v = crate::text::chars_of(text);
    let mut out: Vec<char> = Vec::new();
    let mut i: usize = 0;
    while i < v.len()
        invariant
            v@ == text@,
            i <= v.len(),
            out@ == pasted(text@).take(i as int),
        decreases v.len() - i,
    {
        let c = v[i];
        if c == '\r' || c == '\n' {
            out.push(' ');
        } else {
            out.push(c);
        }
        i += 1;
        assert(out@ =~= pasted(text@).take(i as int));
    }
    assert(out@ =~= pasted(text@));
    crate::text::string_of(&out)
}

/// A one-line text input. Offsets are byte offsets into `content`.
pub struct TextInput {
    pub content: String,
    pub placeholder: String,
    pub selected_range: Range<usize>,
    pub selection_reversed: bool,
    pub marked_range: Option<Range<usize>>,
    pub is_secret: bool,
}

/// A byte offset clamped to the length `len` (`offset.min(len)`).
pub open spec fn clamp(offset: nat, len: nat) -> nat {
    if offset < len {
        offset
    } else {
        len
    }
}

/// `t` is the change event for the text `s`.
pub open spec fn is_change_of(t: TextInputEvent, s: Seq<char>) -> bool {
    match t {
        TextInputEvent::Change(c) => c@ == s,
        _ => false,
    }
}

impl TextInput {
    /// Every offset the input holds is a character boundary of its content.
    pub open spec fn wf(&self) -> bool {
        &&& is_boundary(self.content@, self.selected_range.start as int)
        &&& is_boundary(self.content@, self.selected_range.end as int)
        &&& match self.marked_range {
            Some(m) => is_boundary(self.content@, m.start as int) && is_boundary(
                self.content@,
                m.end as int,
            ),
            None => true,
        }
    }

    /// The byte length of the content.
    pub open spec fn len_spec(&self) -> nat {
        byte_len(self.content@)
    }

    /// Where the cursor is: the start of a reversed selection, else its end.
    pub open spec fn cursor_spec(&self) -> usize {
        if self.selection_reversed {
            self.selected_range.start
        } else {
            self.selected_range.end
        }
    }

    /// Nothing is selected (`Range::is_empty`).
    pub open spec fn selection_empty(&self) -> bool {
        !(self.selected_range.start < self.selected_range.end)
    }

    /// `next` is `self` with the bytes `start..end` of the content replaced
    /// by `text`, the cursor just after `text` and nothing marked.
    pub open spec fn replaced_by(&self, next: TextInput, start: nat, end: nat, text: Seq<char>) -> bool {
        &&& next.content@ == spliced(self.content@, start, end, text)
        &&& next.selected_range.start == start + byte_len(text)
        &&& next.selected_range.end == start + byte_len(text)
        &&& next.marked_range is None
        &&& next.selection_reversed == self.selection_reversed
        &&& next.placeholder@ == self.placeholder@
        &&& next.is_secret == self.is_secret
    }

    /// `next` is `self` with the cursor at `o` and nothing selected.
    pub open spec fn moved_to(&self, next: TextInput, o: nat) -> bool {
        &&& next.selected_range.start == o
        &&& next.selected_range.end == o
        &&& next.content@ == self.content@
        &&& next.selection_reversed == self.selection_reversed
        &&& next.marked_range == self.marked_range
        &&& next.placeholder@ == self.placeholder@
        &&& next.is_secret == self.is_secret
    }

    /// `next` is `self` with the cursor end of the selection moved to `o`;
    /// where the ends cross they swap and the direction flips.
    pub open spec fn selected_to(&self, next: TextInput, o: nat) -> bool {
        let s = if self.selection_reversed {
            o
        } else {
            self.selected_range.start as nat
        };
        let e = if self.selection_reversed {
            self.selected_range.end as nat
        } else {
            o
        };
        &&& if e < s {
            &&& next.selected_range.start == e
            &&& next.selected_range.end == s
            &&& next.selection_reversed == !self.selection_reversed
        } else {
            &&& next.selected_range.start == s
            &&& next.selected_range.end == e
            &&& next.selection_reversed == self.selection_reversed
        }
        &&& next.content@ == self.content@
        &&& next.marked_range == self.marked_range
        &&& next.placeholder@ == self.placeholder@
        &&& next.is_secret == self.is_secret
    }

    /// `next` holds what `self` holds.
    pub open spec fn same_as(&self, next: TextInput) -> bool {
        &&& next.content@ == self.content@
        &&& next.placeholder@ == self.placeholder@
        &&& next.selected_range == self.selected_range
        &&& next.selection_reversed == self.selection_reversed
        &&& next.marked_range == self.marked_range
        &&& next.is_secret == self.is_secret
    }

    /// The grapheme boundary before `offset` (0 at the start).
    pub open spec fn prev_spec(&self, offset: usize) -> usize {
        last_below(grapheme_offsets(self.content@), offset)
    }

    /// The grapheme boundary after `offset` (the length at the end).
    pub open spec fn next_spec(&self, offset: usize) -> usize {
        first_above(grapheme_offsets(self.content@), offset, self.len_spec() as usize)
    }

    /// The selected text, between the boundaries of the selection.
    pub open spec fn selected_text(&self) -> Seq<char> {
        self.content@.subrange(
            chars_within(self.content@, self.selected_range.start as nat, 0) as int,
            chars_within(self.content@, self.selected_range.end as nat, 0) as int,
        )
    }

    /// The byte range an edit applies to: `range_utf16` where given, else
    /// the marked range, else the selection.
    pub open spec fn target_range(&self, range_utf16: Option<Range<usize>>) -> (nat, nat) {
        match range_utf16 {
            Some(r) => (
                byte_of_utf16(self.content@, r.start as nat, 0, 0),
                byte_of_utf16(self.content@, r.end as nat, 0, 0),
            ),
            None => match self.marked_range {
                Some(m) => (m.start as nat, m.end as nat),
                None => (self.selected_range.start as nat, self.selected_range.end as nat),
            },
        }
    }

    /// An empty input with the given placeholder.
    pub fn new(placeholder: String) -> (r: TextInput)
        ensures
            r.wf(),
            r.content@ == Seq::<char>::empty(),
            r.placeholder@ == placeholder@,
            r.selected_range.start == 0,
            r.selected_range.end == 0,
            !r.selection_reversed,
            r.marked_range is None,
            !r.is_secret,
    {
        let r = TextInput {
            content: String::new(),
            placeholder,
            selected_range: Range { start: 0, end: 0 },
            selection_reversed: false,
            marked_range: None,
            is_secret: false,
        };
        proof {
            lemma_ends_are_boundaries(r.content@);
        }
        r
    }

    /// The content.
    pub fn text(&self) -> (r: &str)
        ensures
            r@ == self.content@,
    {
        self.content.as_str()
    }

    /// Whether the content is shown masked.
    pub fn set_secret(&mut self, is_secret: bool)
        ensures
            final(self).is_secret == is_secret,
            final(self).content@ == old(self).content@,
            final(self).placeholder@ == old(self).placeholder@,
            final(self).selected_range == old(self).selected_range,
            final(self).selection_reversed == old(self).selection_reversed,
            final(self).marked_range == old(self).marked_range,
    {
        self.is_secret = is_secret;
    }

    /// A new placeholder.
    pub fn set_placeholder(&mut self, placeholder: String)
        ensures
            final(self).placeholder@ == placeholder@,
            final(self).content@ == old(self).content@,
            final(self).is_secret == old(self).is_secret,
            final(self).selected_range == old(self).selected_range,
            final(self).selection_reversed == old(self).selection_reversed,
            final(self).marked_range == old(self).marked_range,
    {
        self.placeholder = placeholder;
    }

    /// Replaces the content without telling the owner: the cursor goes to
    /// the end and nothing is marked.
    pub fn set_text_silent(&mut self, text: String)
        ensures
            final(self).wf(),
            final(self).content@ == text@,
            final(self).selected_range.start == byte_len(text@),
            final(self).selected_range.end == byte_len(text@),
            final(self).marked_range is None,
            final(self).selection_reversed == old(self).selection_reversed,
            final(self).placeholder@ == old(self).placeholder@,
            final(self).is_secret == old(self).is_secret,
    {
        let len = text.as_str().as_bytes().len();
        self.content = text;
        self.selected_range = Range { start: len, end: len };
        self.marked_range = None;
        proof {
            lemma_ends_are_boundaries(self.content@);
        }
    }

    /// Replaces the content as `set_text_silent` does, and gives the
    /// change event for the new content.
    pub fn set_text(&mut self, text: String) -> (ev: TextInputEvent)
        ensures
            final(self).wf(),
            final(self).content@ == text@,
            final(self).selected_range.start == byte_len(text@),
            final(self).selected_range.end == byte_len(text@),
            final(self).marked_range is None,
            final(self).selection_reversed == old(self).selection_reversed,
            final(self).placeholder@ == old(self).placeholder@,
            final(self).is_secret == old(self).is_secret,
            is_change_of(ev, text@),
    {
        self.set_text_silent(text);
        TextInputEvent::Change(self.content.clone())
    }

    /// Empties the input and gives the change event.
    pub fn clear(&mut self) -> (ev: TextInputEvent)
        ensures
            final(self).wf(),
            final(self).content@ == Seq::<char>::empty(),
            final(self).selected_range.start == 0,
            final(self).selected_range.end == 0,
            !final(self).selection_reversed,
            final(self).marked_range is None,
            final(self).placeholder@ == old(self).placeholder@,
            final(self).is_secret == old(self).is_secret,
            is_change_of(ev, Seq::<char>::empty()),
    {
        self.content = String::new();
        self.selected_range = Range { start: 0, end: 0 };
        self.selection_reversed = false;
        self.marked_range = None;
        proof {
            lemma_ends_are_boundaries(self.content@);
        }
        TextInputEvent::Change(self.content.clone())
    }

    /// The offset in the rendered line of the byte offset `content_offset`.
    pub fn content_offset_to_shaped_offset(&self, content_offset: usize) -> (r: usize)
        requires
            to_shaped_spec(self.content@, content_offset as nat, self.is_secret) <= usize::MAX,
        ensures
            r == to_shaped_spec(self.content@, content_offset as nat, self.is_secret),
    {
        content_offset_to_shaped(self.content.as_str(), content_offset, self.is_secret)
    }

    /// The byte offset of the offset `shaped_offset` in the rendered line.
    pub fn shaped_offset_to_content_offset(&self, shaped_offset: usize) -> (r: usize)
        ensures
            r == from_shaped_spec(self.content@, shaped_offset as nat, self.is_secret),
    {
        shaped_offset_to_content(self.content.as_str(), shaped_offset, self.is_secret)
    }

    /// Where the cursor is.
    pub fn cursor_offset(&self) -> (r: usize)
        ensures
            r == self.cursor_spec(),
    {
        if self.selection_reversed {
            self.selected_range.start
        } else {
            self.selected_range.end
        }
    }

    /// The byte length of the content.
    fn content_len(&self) -> (r: usize)
        ensures
            r == self.len_spec(),
    {
        self.content.as_str().as_bytes().len()
    }

    /// Puts the cursor at `offset` (cut to the content's length), with
    /// nothing selected.
    pub fn move_to(&mut self, offset: usize)
        requires
            old(self).wf(),
            is_boundary(old(self).content@, clamp(offset as nat, old(self).len_spec()) as int),
        ensures
            final(self).wf(),
            old(self).moved_to(*final(self), clamp(offset as nat, old(self).len_spec())),
    {
        let len = self.content_len();
        let o = if offset < len {
            offset
        } else {
            len
        };
        self.selected_range = Range { start: o, end: o };
    }

    /// Moves the cursor end of the selection to `offset` (cut to the
    /// content's length); where the ends cross they swap and the
    /// direction flips.
    pub fn select_to(&mut self, offset: usize)
        requires
            old(self).wf(),
            is_boundary(old(self).content@, clamp(offset as nat, old(self).len_spec()) as int),
        ensures
            final(self).wf(),
            old(self).selected_to(*final(self), clamp(offset as nat, old(self).len_spec())),
    {
        let len = self.content_len();
        let o = if offset < len {
            offset
        } else {
            len
        };
        let mut start = self.selected_range.start;
        let mut end = self.selected_range.end;
        if self.selection_reversed {
            start = o;
        } else {
            end = o;
        }
        if end < start {
            self.selection_reversed = !self.selection_reversed;
            self.selected_range = Range { start: end, end: start };
        } else {
            self.selected_range = Range { start, end };
        }
    }

    /// Replaces the bytes `start..end` (each cut to the content's length)
    /// by `new_text`; the cursor goes after it and nothing stays marked.
    fn replace_bytes(&mut self, start: usize, end: usize, new_text: &str) -> (ev: TextInputEvent)
        requires
            old(self).wf(),
            is_boundary(old(self).content@, clamp(start as nat, old(self).len_spec()) as int),
            is_boundary(old(self).content@, clamp(end as nat, old(self).len_spec()) as int),
        ensures
            final(self).wf(),
            old(self).replaced_by(
                *final(self),
                clamp(start as nat, old(self).len_spec()),
                clamp(end as nat, old(self).len_spec()),
                new_text@,
            ),
            is_change_of(ev, final(self).content@),
    {
        let len = self.content_len();
        let start = if start < len {
            start
        } else {
            len
        };
        let end = if end < len {
            end
        } else {
            len
        };
        let next = splice(self.content.as_str(), start, end, new_text);
        let next_len = next.as_str().as_bytes().len();
        let added = new_text.as_bytes().len();
        assert(start + added <= next_len);
        let cursor = start + added;
        self.content = next;
        self.selected_range = Range { start: cursor, end: cursor };
        self.marked_range = None;
        TextInputEvent::Change(self.content.clone())
    }

    /// Replaces the target range (`range_utf16` in UTF-16 units where
    /// given, else the marked range, else the selection) by `new_text`.
    pub fn replace_text_in_range(&mut self, range_utf16: Option<Range<usize>>, new_text: &str) -> (ev: TextInputEvent)
        requires
            old(self).wf(),
        ensures
            final(self).wf(),
            old(self).replaced_by(
                *final(self),
                old(self).target_range(range_utf16).0,
                old(self).target_range(range_utf16).1,
                new_text@,
            ),
            is_change_of(ev, final(self).content@),
    {
        let (start, end) = self.target(&range_utf16);
        proof {
            crate::editing::lemma_boundary_index(self.content@, start as int);
            crate::editing::lemma_boundary_index(self.content@, end as int);
        }
        self.replace_bytes(start, end, new_text)
    }

    /// Replaces the target range by `new_text` as `replace_text_in_range`
    /// does, marks the inserted text, and selects within it the range
    /// `new_selected_range_utf16`, given in UTF-16 units of `new_text` (an
    /// end at which no character of `new_text` starts goes to its end);
    /// without one, the cursor goes after the inserted text.
    pub fn replace_and_mark_text_in_range(
        &mut self,
        range_utf16: Option<Range<usize>>,
        new_text: &str,
        new_selected_range_utf16: Option<Range<usize>>,
    ) -> (ev: TextInputEvent)
        requires
            old(self).wf(),
        ensures
            final(self).wf(),
            ({
                let (start, end) = old(self).target_range(range_utf16);
                &&& final(self).content@ == spliced(old(self).content@, start, end, new_text@)
                &&& final(self).marked_range matches Some(m) && m.start == start && m.end == start
                    + byte_len(new_text@)
                &&& match new_selected_range_utf16 {
                    Some(r) => {
                        &&& final(self).selected_range.start == start + rel_of_utf16(
                            new_text@,
                            r.start as nat,
                            0,
                            0,
                        )
                        &&& final(self).selected_range.end == start + rel_of_utf16(
                            new_text@,
                            r.end as nat,
                            0,
                            0,
                        )
                    },
                    None => {
                        &&& final(self).selected_range.start == start + byte_len(new_text@)
                        &&& final(self).selected_range.end == start + byte_len(new_text@)
                    },
                }
            }),
            final(self).selection_reversed == old(self).selection_reversed,
            final(self).placeholder@ == old(self).placeholder@,
            final(self).is_secret == old(self).is_secret,
            is_change_of(ev, final(self).content@),
    {
        let ghost before = *self;
        let (start, end) = self.target(&range_utf16);
        proof {
            lemma_boundary_index(self.content@, start as int);
            lemma_boundary_index(self.content@, end as int);
            lemma_spliced_boundary(before.content@, start as nat, end as nat, new_text@, 0);
            assert(new_text@.take(0) =~= Seq::<char>::empty());
            assert(byte_at(new_text@, 0) == 0);
        }
        let ev = self.replace_bytes(start, end, new_text);
        let cursor = self.selected_range.end;
        self.marked_range = Some(Range { start, end: cursor });
        match new_selected_range_utf16 {
            Some(r) => {
                let rel_start = relative_from_utf16(new_text, r.start);
                let rel_end = relative_from_utf16(new_text, r.end);
                proof {
                    let js = choose|j: int| 0 <= j <= new_text@.len() && #[trigger] byte_at(new_text@, j) == rel_start;
                    let je = choose|j: int| 0 <= j <= new_text@.len() && #[trigger] byte_at(new_text@, j) == rel_end;
                    lemma_spliced_boundary(before.content@, start as nat, end as nat, new_text@, js);
                    lemma_spliced_boundary(before.content@, start as nat, end as nat, new_text@, je);
                }
                self.selected_range = Range { start: start + rel_start, end: start + rel_end };
            },
            None => {},
        }
        ev
    }

    /// The grapheme boundary before `offset` (0 at the start).
    pub fn previous_boundary(&self, offset: usize) -> (r: usize)
        ensures
            r == self.prev_spec(offset),
            is_boundary(self.content@, r as int),
    {
        crate::editing::previous_boundary(self.content.as_str(), offset)
    }

    /// The grapheme boundary after `offset` (the length at the end).
    pub fn next_boundary(&self, offset: usize) -> (r: usize)
        ensures
            r == self.next_spec(offset),
            is_boundary(self.content@, r as int),
    {
        crate::editing::next_boundary(self.content.as_str(), offset)
    }

    /// The UTF-16 offset of the byte offset `offset`.
    pub fn offset_to_utf16(&self, offset: usize) -> (r: usize)
        ensures
            r == utf16_before(self.content@, offset as nat, 0),
    {
        offset_to_utf16(self.content.as_str(), offset)
    }

    /// The byte offset of the UTF-16 offset `offset_utf16`.
    pub fn offset_from_utf16(&self, offset_utf16: usize) -> (r: usize)
        ensures
            r == byte_of_utf16(self.content@, offset_utf16 as nat, 0, 0),
            is_boundary(self.content@, r as int),
    {
        offset_from_utf16(self.content.as_str(), offset_utf16)
    }

    /// A byte range in UTF-16 units.
    pub fn range_to_utf16(&self, range: &Range<usize>) -> (r: Range<usize>)
        ensures
            r.start == utf16_before(self.content@, range.start as nat, 0),
            r.end == utf16_before(self.content@, range.end as nat, 0),
    {
        Range { start: self.offset_to_utf16(range.start), end: self.offset_to_utf16(range.end) }
    }

    /// A range in UTF-16 units in bytes.
    pub fn range_from_utf16(&self, range_utf16: &Range<usize>) -> (r: Range<usize>)
        ensures
            r.start == byte_of_utf16(self.content@, range_utf16.start as nat, 0, 0),
            r.end == byte_of_utf16(self.content@, range_utf16.end as nat, 0, 0),
            is_boundary(self.content@, r.start as int),
            is_boundary(self.content@, r.end as int),
    {
        Range {
            start: self.offset_from_utf16(range_utf16.start),
            end: self.offset_from_utf16(range_utf16.end),
        }
    }

    /// The text of the UTF-16 range `range_utf16`; `actual_range` is set to
    /// the range it covers, in UTF-16 units.
    pub fn text_for_range(
        &self,
        range_utf16: Range<usize>,
        actual_range: &mut Option<Range<usize>>,
    ) -> (r: Option<String>)
        requires
            range_utf16.start <= range_utf16.end,
        ensures
            ({
                let a = byte_of_utf16(self.content@, range_utf16.start as nat, 0, 0);
                let b = byte_of_utf16(self.content@, range_utf16.end as nat, 0, 0);
                &&& r matches Some(t) && t@ == self.content@.subrange(
                    chars_within(self.content@, a, 0) as int,
                    chars_within(self.content@, b, 0) as int,
                )
                &&& *final(actual_range) matches Some(x) && x.start == utf16_before(
                    self.content@,
                    a,
                    0,
                ) && x.end == utf16_before(self.content@, b, 0)
            }),
    {
        let range = self.range_from_utf16(&range_utf16);
        proof {
            crate::editing::lemma_offset_from_utf16_mono(
                self.content@,
                range_utf16.start as nat,
                range_utf16.end as nat,
            );
        }
        *actual_range = Some(self.range_to_utf16(&range));
        Some(crate::editing::slice_between(self.content.as_str(), range.start, range.end))
    }

    /// The selection in UTF-16 units.
    pub fn selected_text_range(&self) -> (r: Option<Utf16Selection>)
        ensures
            r matches Some(x) && x.range.start == utf16_before(
                self.content@,
                self.selected_range.start as nat,
                0,
            ) && x.range.end == utf16_before(self.content@, self.selected_range.end as nat, 0)
                && x.reversed == self.selection_reversed,
    {
        Some(
            Utf16Selection {
                range: self.range_to_utf16(&self.selected_range),
                reversed: self.selection_reversed,
            },
        )
    }

    /// The marked range in UTF-16 units, if any.
    pub fn marked_text_range(&self) -> (r: Option<Range<usize>>)
        ensures
            match self.marked_range {
                Some(m) => r matches Some(x) && x.start == utf16_before(
                    self.content@,
                    m.start as nat,
                    0,
                ) && x.end == utf16_before(self.content@, m.end as nat, 0),
                None => r is None,
            },
    {
        match &self.marked_range {
            Some(m) => Some(self.range_to_utf16(m)),
            None => None,
        }
    }

    /// Forgets the marked range.
    pub fn unmark_text(&mut self)
        requires
            old(self).wf(),
        ensures
            final(self).wf(),
            final(self).marked_range is None,
            final(self).content@ == old(self).content@,
            final(self).placeholder@ == old(self).placeholder@,
            final(self).selected_range == old(self).selected_range,
            final(self).selection_reversed == old(self).selection_reversed,
            final(self).is_secret == old(self).is_secret,
    {
        self.marked_range = None;
    }

    /// Whether the key `key` with `modifiers` pastes, so that its caller
    /// reads the clipboard for it.
    pub fn needs_clipboard(key: &str, modifiers: Modifiers) -> (r: bool)
        ensures
            r == (key_command_spec(key@, modifiers.control || modifiers.platform)
                == KeyCommand::Paste),
    {
        let c = key_command(key, modifiers.control || modifiers.platform);
        match c {
            KeyCommand::Paste => true,
            _ => false,
        }
    }

    /// The byte range backspace removes: the marked range, else the
    /// selection, else the grapheme before the cursor.
    pub open spec fn backspace_range(&self) -> (nat, nat) {
        let cur = self.cursor_spec();
        match self.marked_range {
            Some(m) => (m.start as nat, m.end as nat),
            None => if self.selection_empty() && cur > 0 {
                (self.prev_spec(cur) as nat, cur as nat)
            } else {
                (self.selected_range.start as nat, self.selected_range.end as nat)
            },
        }
    }

    /// The byte range delete removes: the marked range, else the
    /// selection, else the grapheme after the cursor.
    pub open spec fn delete_range(&self) -> (nat, nat) {
        let cur = self.cursor_spec();
        match self.marked_range {
            Some(m) => (m.start as nat, m.end as nat),
            None => if self.selection_empty() && cur < self.len_spec() {
                (cur as nat, self.next_spec(cur) as nat)
            } else {
                (self.selected_range.start as nat, self.selected_range.end as nat)
            },
        }
    }

    /// What the key named `key` does with `modifiers` held; `clipboard` is
    /// what the clipboard holds, read only for paste.
    pub fn handle_key_down(&mut self, key: &str, modifiers: Modifiers, clipboard: Option<String>) -> (out: KeyOutcome)
        requires
            old(self).wf(),
        ensures
            final(self).wf(),
            ({
                let o = *old(self);
                let n = *final(self);
                let cur = o.cursor_spec();
                let len = o.len_spec();
                let edit = o.target_range(None);
                match key_command_spec(key@, modifiers.control || modifiers.platform) {
                    KeyCommand::SelectAll => {
                        &&& n.content@ == o.content@
                        &&& n.selected_range.start == 0
                        &&& n.selected_range.end == len
                        &&& !n.selection_reversed
                        &&& n.marked_range == o.marked_range
                        &&& n.placeholder@ == o.placeholder@
                        &&& n.is_secret == o.is_secret
                        &&& out.quiet()
                    },
                    KeyCommand::Copy => {
                        &&& o.same_as(n)
                        &&& out.event is None
                        &&& if o.selection_empty() {
                            out.copied is None
                        } else {
                            out.copied matches Some(t) && t@ == o.selected_text()
                        }
                    },
                    KeyCommand::Cut => if o.selection_empty() {
                        o.same_as(n) && out.quiet()
                    } else {
                        &&& out.copied matches Some(t) && t@ == o.selected_text()
                        &&& o.replaced_by(n, edit.0, edit.1, Seq::<char>::empty())
                        &&& out.event matches Some(e) && is_change_of(e, n.content@)
                    },
                    KeyCommand::Paste => match clipboard {
                        Some(c) => o.replaced_by(n, edit.0, edit.1, pasted(c@)) && out.changed_to(
                            n.content@,
                        ),
                        None => o.same_as(n) && out.quiet(),
                    },
                    KeyCommand::Enter => {
                        &&& o.same_as(n)
                        &&& out.copied is None
                        &&& out.event matches Some(e) && (e matches TextInputEvent::Submit(s)
                            && s@ == o.content@)
                    },
                    KeyCommand::Escape => o.same_as(n) && out.copied is None && out.event == Some(
                        TextInputEvent::Escape,
                    ),
                    KeyCommand::Left => out.quiet() && if modifiers.shift {
                        o.selected_to(n, o.prev_spec(cur) as nat)
                    } else if o.selection_empty() {
                        o.moved_to(n, o.prev_spec(cur) as nat)
                    } else {
                        o.moved_to(n, o.selected_range.start as nat)
                    },
                    KeyCommand::Right => out.quiet() && if modifiers.shift {
                        o.selected_to(n, o.next_spec(cur) as nat)
                    } else if o.selection_empty() {
                        o.moved_to(n, o.next_spec(cur) as nat)
                    } else {
                        o.moved_to(n, o.selected_range.end as nat)
                    },
                    KeyCommand::Home => out.quiet() && if modifiers.shift {
                        o.selected_to(n, 0)
                    } else {
                        o.moved_to(n, 0)
                    },
                    KeyCommand::End => out.quiet() && if modifiers.shift {
                        o.selected_to(n, len)
                    } else {
                        o.moved_to(n, len)
                    },
                    KeyCommand::Backspace => o.replaced_by(
                        n,
                        o.backspace_range().0,
                        o.backspace_range().1,
                        Seq::<char>::empty(),
                    ) && out.changed_to(n.content@),
                    KeyCommand::Delete => o.replaced_by(
                        n,
                        o.delete_range().0,
                        o.delete_range().1,
                        Seq::<char>::empty(),
                    ) && out.changed_to(n.content@),
                    KeyCommand::Ignored => o.same_as(n) && out.quiet(),
                }
            }),
    {
        proof {
            reveal_strlit("");
            lemma_ends_are_boundaries(self.content@);
        }
        let len = self.content_len();
        let cmd = key_command(key, modifiers.control || modifiers.platform);
        match cmd {
            KeyCommand::SelectAll => {
                self.selected_range = Range { start: 0, end: len };
                self.selection_reversed = false;
                KeyOutcome { copied: None, event: None }
            },
            KeyCommand::Copy => {
                if self.selected_range.start < self.selected_range.end {
                    let t = crate::editing::slice_between(
                        self.content.as_str(),
                        self.selected_range.start,
                        self.selected_range.end,
                    );
                    KeyOutcome { copied: Some(t), event: None }
                } else {
                    KeyOutcome { copied: None, event: None }
                }
            },
            KeyCommand::Cut => {
                if self.selected_range.start < self.selected_range.end {
                    let t = crate::editing::slice_between(
                        self.content.as_str(),
                        self.selected_range.start,
                        self.selected_range.end,
                    );
                    let ev = self.replace_text_in_range(None, "");
                    KeyOutcome { copied: Some(t), event: Some(ev) }
                } else {
                    KeyOutcome { copied: None, event: None }
                }
            },
            KeyCommand::Paste => {
                match clipboard {
                    Some(text) => {
                        let clean = paste_text(text.as_str());
                        let ev = self.replace_text_in_range(None, clean.as_str());
                        KeyOutcome { copied: None, event: Some(ev) }
                    },
                    None => KeyOutcome { copied: None, event: None },
                }
            },
            KeyCommand::Enter => KeyOutcome {
                copied: None,
                event: Some(TextInputEvent::Submit(self.content.clone())),
            },
            KeyCommand::Escape => KeyOutcome { copied: None, event: Some(TextInputEvent::Escape) },
            KeyCommand::Left => {
                let cur = self.cursor_offset();
                if modifiers.shift {
                    let prev = self.previous_boundary(cur);
                    proof {
                        lemma_boundary_index(self.content@, prev as int);
                    }
                    self.select_to(prev);
                } else if !(self.selected_range.start < self.selected_range.end) {
                    let prev = self.previous_boundary(cur);
                    proof {
                        lemma_boundary_index(self.content@, prev as int);
                    }
                    self.move_to(prev);
                } else {
                    let s = self.selected_range.start;
                    proof {
                        lemma_boundary_index(self.content@, s as int);
                    }
                    self.move_to(s);
                }
                KeyOutcome { copied: None, event: None }
            },
            KeyCommand::Right => {
                let cur = self.cursor_offset();
                if modifiers.shift {
                    let next = self.next_boundary(cur);
                    proof {
                        lemma_boundary_index(self.content@, next as int);
                    }
                    self.select_to(next);
                } else if !(self.selected_range.start < self.selected_range.end) {
                    let next = self.next_boundary(cur);
                    proof {
                        lemma_boundary_index(self.content@, next as int);
                    }
                    self.move_to(next);
                } else {
                    let e = self.selected_range.end;
                    proof {
                        lemma_boundary_index(self.content@, e as int);
                    }
                    self.move_to(e);
                }
                KeyOutcome { copied: None, event: None }
            },
            KeyCommand::Home => {
                if modifiers.shift {
                    self.select_to(0);
                } else {
                    self.move_to(0);
                }
                KeyOutcome { copied: None, event: None }
            },
            KeyCommand::End => {
                if modifiers.shift {
                    self.select_to(len);
                } else {
                    self.move_to(len);
                }
                KeyOutcome { copied: None, event: None }
            },
            KeyCommand::Backspace => {
                if !(self.selected_range.start < self.selected_range.end) {
                    let cur = self.cursor_offset();
                    let prev = self.previous_boundary(cur);
                    if cur > 0 {
                        self.selected_range = Range { start: prev, end: cur };
                    }
                }
                let ev = self.replace_text_in_range(None, "");
                KeyOutcome { copied: None, event: Some(ev) }
            },
            KeyCommand::Delete => {
                if !(self.selected_range.start < self.selected_range.end) {
                    let cur = self.cursor_offset();
                    let next = self.next_boundary(cur);
                    if cur < len {
                        self.selected_range = Range { start: cur, end: next };
                    }
                }
                let ev = self.replace_text_in_range(None, "");
                KeyOutcome { copied: None, event: Some(ev) }
            },
            KeyCommand::Ignored => KeyOutcome { copied: None, event: None },
        }
    }

    /// The target range of an edit, in bytes.
    fn target(&self, range_utf16: &Option<Range<usize>>) -> (r: (usize, usize))
        requires
            self.wf(),
        ensures
            r.0 == self.target_range(*range_utf16).0,
            r.1 == self.target_range(*range_utf16).1,
            is_boundary(self.content@, r.0 as int),
            is_boundary(self.content@, r.1 as int),
    {
        match range_utf16 {
            Some(r) => (
                offset_from_utf16(self.content.as_str(), r.start),
                offset_from_utf16(self.content.as_str(), r.end),
            ),
            None => match &self.marked_range {
                Some(m) => (m.start, m.end),
                None => (self.selected_range.start, self.selected_range.end),
            },
        }
    }
}

} // verus!
