use hfs_rs::editing::{
    content_offset_to_shaped, next_boundary, next_boundary_in, offset_from_utf16,
    offset_to_utf16, previous_boundary, previous_boundary_in, shaped_offset_to_content,
};

#[test]
fn utf16_offsets_count_surrogate_pairs() {
    let s = "a\u{1F600}b";
    assert_eq!(offset_to_utf16(s, 0), 0);
    assert_eq!(offset_to_utf16(s, 1), 1);
    assert_eq!(offset_to_utf16(s, 5), 3);
    assert_eq!(offset_to_utf16(s, 100), 4);
}

#[test]
fn utf16_offsets_back_to_bytes() {
    let s = "a\u{1F600}b";
    assert_eq!(offset_from_utf16(s, 0), 0);
    assert_eq!(offset_from_utf16(s, 1), 1);
    assert_eq!(offset_from_utf16(s, 2), 5);
    assert_eq!(offset_from_utf16(s, 3), 5);
    assert_eq!(offset_from_utf16(s, 10), 6);
}

#[test]
fn utf16_round_trip_on_char_starts() {
    let s = "h\u{e9}\u{1F600}z";
    for off in [0usize, 1, 3, 7, 8] {
        assert_eq!(offset_from_utf16(s, offset_to_utf16(s, off)), off);
    }
}

#[test]
fn shaped_offsets_of_plain_text_are_clamped() {
    assert_eq!(content_offset_to_shaped("h\u{e9}llo", 4, false), 4);
    assert_eq!(content_offset_to_shaped("h\u{e9}llo", 100, false), 6);
    assert_eq!(content_offset_to_shaped("", 3, true), 0);
    assert_eq!(shaped_offset_to_content("h\u{e9}llo", 4, false), 4);
    assert_eq!(shaped_offset_to_content("h\u{e9}llo", 100, false), 6);
}

#[test]
fn shaped_offsets_of_secret_text_count_bullets() {
    let s = "h\u{e9}llo";
    assert_eq!(content_offset_to_shaped(s, 3, true), 6);
    assert_eq!(content_offset_to_shaped(s, 2, true), 3);
    assert_eq!(content_offset_to_shaped(s, 100, true), 15);
    assert_eq!(shaped_offset_to_content(s, 6, true), 3);
    assert_eq!(shaped_offset_to_content(s, 7, true), 3);
    assert_eq!(shaped_offset_to_content(s, 15, true), 6);
}

#[test]
fn grapheme_boundaries_skip_combining_marks() {
    let s = "e\u{301}x";
    assert_eq!(previous_boundary(s, 0), 0);
    assert_eq!(previous_boundary(s, 3), 0);
    assert_eq!(previous_boundary(s, 4), 3);
    assert_eq!(next_boundary(s, 0), 3);
    assert_eq!(next_boundary(s, 3), 4);
}

#[test]
fn boundaries_in_a_list_of_starts() {
    let starts = vec![0usize, 2, 5];
    assert_eq!(previous_boundary_in(&starts, 5), 2);
    assert_eq!(previous_boundary_in(&starts, 0), 0);
    assert_eq!(next_boundary_in(&starts, 2, 9), 5);
    assert_eq!(next_boundary_in(&starts, 5, 9), 9);
}

#[test]
fn shaped_round_trip_on_char_starts() {
    let s = "h\u{e9}\u{1F600}z";
    for off in [0usize, 1, 3, 7, 8] {
        for secret in [false, true] {
            let shaped = content_offset_to_shaped(s, off, secret);
            assert_eq!(shaped_offset_to_content(s, shaped, secret), off);
        }
    }
}
