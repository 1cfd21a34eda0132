use tinymist::error::Error;
use tinymist::overlay::Overlay;
use tinymist::text::{
    apply_content_changes, offset_at, unit_len_of, ContentChange, Position, PositionEncoding, Range,
};

fn chars(s: &str) -> Vec<char> {
    s.chars().collect()
}

fn text(v: &[char]) -> String {
    v.iter().collect()
}

fn pos(line: u32, character: u32) -> Position {
    Position { line, character }
}

fn ranged(sl: u32, sc: u32, el: u32, ec: u32, t: &str) -> ContentChange {
    ContentChange { range: Some(Range { start: pos(sl, sc), end: pos(el, ec) }), text: chars(t) }
}

fn whole(t: &str) -> ContentChange {
    ContentChange { range: None, text: chars(t) }
}

#[test]
fn unit_lengths() {
    assert_eq!(unit_len_of('a', PositionEncoding::Utf8), 1);
    assert_eq!(unit_len_of('é', PositionEncoding::Utf8), 2);
    assert_eq!(unit_len_of('€', PositionEncoding::Utf8), 3);
    assert_eq!(unit_len_of('😀', PositionEncoding::Utf8), 4);
    assert_eq!(unit_len_of('€', PositionEncoding::Utf16), 1);
    assert_eq!(unit_len_of('😀', PositionEncoding::Utf16), 2);
}

#[test]
fn offsets_by_line_and_column() {
    let t = chars("ab\ncd\n");
    assert_eq!(offset_at(&t, pos(0, 0), PositionEncoding::Utf16), Some(0));
    assert_eq!(offset_at(&t, pos(0, 2), PositionEncoding::Utf16), Some(2));
    assert_eq!(offset_at(&t, pos(1, 1), PositionEncoding::Utf16), Some(4));
    assert_eq!(offset_at(&t, pos(2, 0), PositionEncoding::Utf16), Some(6));
    // Past the end of a line, or a line that does not exist.
    assert_eq!(offset_at(&t, pos(0, 3), PositionEncoding::Utf16), None);
    assert_eq!(offset_at(&t, pos(3, 0), PositionEncoding::Utf16), None);
}

#[test]
fn offsets_follow_the_encoding() {
    let t = chars("😀x");
    assert_eq!(offset_at(&t, pos(0, 2), PositionEncoding::Utf16), Some(1));
    assert_eq!(offset_at(&t, pos(0, 4), PositionEncoding::Utf8), Some(1));
    // Inside the character.
    assert_eq!(offset_at(&t, pos(0, 1), PositionEncoding::Utf16), None);
    assert_eq!(offset_at(&t, pos(0, 2), PositionEncoding::Utf8), None);
}

#[test]
fn changes_apply_in_order() {
    let t = chars("hello world");
    let changes = vec![ranged(0, 0, 0, 5, "goodbye"), ranged(0, 8, 0, 13, "moon")];
    let r = apply_content_changes(&t, &changes, PositionEncoding::Utf16).unwrap();
    assert_eq!(text(&r), "goodbye moon");
    let changes = vec![whole("x\ny"), ranged(1, 0, 1, 0, "z")];
    let r = apply_content_changes(&t, &changes, PositionEncoding::Utf8).unwrap();
    assert_eq!(text(&r), "x\nzy");
}

#[test]
fn inverted_range_is_rejected() {
    let t = chars("abc");
    let changes = vec![ranged(0, 2, 0, 1, "")];
    assert!(apply_content_changes(&t, &changes, PositionEncoding::Utf16).is_none());
}

#[test]
fn open_edit_close() {
    let mut o = Overlay::new();
    let cs = o.open("/w/a.typ".to_string(), chars("= Title"));
    assert_eq!(cs.changes.len(), 1);
    assert_eq!(cs.changes[0].path, "/w/a.typ");
    assert_eq!(cs.changes[0].mtime, 1);
    assert_eq!(text(cs.changes[0].content.as_ref().unwrap()), "= Title");

    let cs = o
        .edit(&"/w/a.typ".to_string(), &vec![ranged(0, 2, 0, 7, "Intro")], PositionEncoding::Utf16)
        .unwrap();
    assert_eq!(cs.changes[0].mtime, 2);
    assert_eq!(text(cs.changes[0].content.as_ref().unwrap()), "= Intro");
    assert_eq!(text(o.content(&"/w/a.typ".to_string()).unwrap()), "= Intro");

    let cs = o.close("/w/a.typ".to_string());
    assert_eq!(cs.changes[0].mtime, 3);
    assert!(cs.changes[0].content.is_none());
    assert_eq!(o.content(&"/w/a.typ".to_string()), Err(Error::FileMissing));
}

#[test]
fn edit_of_missing_file() {
    let mut o = Overlay::new();
    let r = o.edit(&"/w/none.typ".to_string(), &vec![whole("x")], PositionEncoding::Utf16);
    assert_eq!(r.err(), Some(Error::FileMissing));
}

#[test]
fn bad_range_leaves_file_unchanged() {
    let mut o = Overlay::new();
    o.open("/w/a.typ".to_string(), chars("abc"));
    let r = o.edit(
        &"/w/a.typ".to_string(),
        &vec![whole("xyz"), ranged(5, 0, 5, 0, "!")],
        PositionEncoding::Utf16,
    );
    assert_eq!(r.err(), Some(Error::InvalidRange));
    assert_eq!(text(o.content(&"/w/a.typ".to_string()).unwrap()), "abc");
    // The clock did not move either.
    let cs = o.close("/w/a.typ".to_string());
    assert_eq!(cs.changes[0].mtime, 2);
}

#[test]
fn full_replace_with_same_text_changes_nothing() {
    let mut o = Overlay::new();
    o.open("/w/a.typ".to_string(), chars("same\ntext"));
    let cs = o
        .edit(&"/w/a.typ".to_string(), &vec![whole("same\ntext")], PositionEncoding::Utf16)
        .unwrap();
    assert_eq!(text(cs.changes[0].content.as_ref().unwrap()), "same\ntext");
    assert_eq!(text(o.content(&"/w/a.typ".to_string()).unwrap()), "same\ntext");
}

#[test]
fn snapshot_lists_open_files() {
    let mut o = Overlay::new();
    o.open("/w/a.typ".to_string(), chars("a"));
    o.open("/w/b.typ".to_string(), chars("b"));
    o.open("/w/a.typ".to_string(), chars("a2"));
    let s = o.snapshot();
    assert_eq!(s.changes.len(), 2);
    assert_eq!(s.changes[0].path, "/w/a.typ");
    assert_eq!(text(s.changes[0].content.as_ref().unwrap()), "a2");
    assert_eq!(s.changes[1].path, "/w/b.typ");
}

#[test]
fn crlf_and_cr_end_lines() {
    let t = chars("ab\r\ncd\ref");
    assert_eq!(offset_at(&t, pos(1, 0), PositionEncoding::Utf16), Some(4));
    assert_eq!(offset_at(&t, pos(1, 2), PositionEncoding::Utf16), Some(6));
    assert_eq!(offset_at(&t, pos(2, 1), PositionEncoding::Utf16), Some(8));
    // The line break is not part of the line.
    assert_eq!(offset_at(&t, pos(0, 3), PositionEncoding::Utf16), None);
    assert_eq!(offset_at(&t, pos(3, 0), PositionEncoding::Utf16), None);
}
