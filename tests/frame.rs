use termgrid::frame::{Cell, CellBuffer, CellStyle, Glyph};

#[test]
fn wide_char_writes_head_and_tail() {
    let mut b = CellBuffer::new(4, 1);
    b.put_char(1, 0, '中', CellStyle::plain());
    assert_eq!(b.get(1, 0).glyph, Glyph::Char('中'));
    assert_eq!(b.get(2, 0).glyph, Glyph::WideTail);
    assert_eq!(b.get(3, 0).glyph, Glyph::Char(' '));
}

#[test]
fn overwriting_a_head_blanks_its_orphan_tail() {
    let mut b = CellBuffer::new(5, 1);
    b.put_char(2, 0, '中', CellStyle::plain());
    b.put_char(1, 0, '文', CellStyle::plain());
    assert_eq!(b.get(1, 0).glyph, Glyph::Char('文'));
    assert_eq!(b.get(2, 0).glyph, Glyph::WideTail);
    assert_eq!(b.get(3, 0).glyph, Glyph::Char(' '));
    b.put_char(1, 0, 'x', CellStyle::plain());
    assert_eq!(b.get(2, 0).glyph, Glyph::Char(' '));
}

#[test]
fn wide_char_at_last_column_has_no_tail() {
    let mut b = CellBuffer::new(3, 1);
    b.put_char(2, 0, '中', CellStyle::plain());
    assert_eq!(b.get(2, 0).glyph, Glyph::Char('中'));
}

#[test]
fn writes_off_the_grid_are_dropped() {
    let mut b = CellBuffer::new(2, 2);
    b.put_char(-1, 0, 'a', CellStyle::plain());
    b.put_char(0, 5, 'a', CellStyle::plain());
    b.put_char(2, 0, 'a', CellStyle::plain());
    assert!(b.diff_runs(&CellBuffer::new(2, 2)).is_empty());
}

#[test]
fn control_characters_take_no_cell() {
    let mut b = CellBuffer::new(2, 1);
    b.put_char(0, 0, '\u{7}', CellStyle::plain());
    assert_eq!(b.get(0, 0), Cell::blank());
}

#[test]
fn diff_against_itself_is_empty() {
    let mut b = CellBuffer::new(6, 2);
    b.put_char(0, 0, 'h', CellStyle::plain());
    b.put_char(1, 1, '中', CellStyle::plain());
    assert!(b.diff_runs(&b.clone()).is_empty());
}

#[test]
fn single_changed_cell_is_one_run() {
    let prev = CellBuffer::new(6, 2);
    let mut cur = CellBuffer::new(6, 2);
    cur.put_char(3, 1, 'z', CellStyle::plain());
    let runs = cur.diff_runs(&prev);
    assert_eq!(runs.len(), 1);
    assert_eq!((runs[0].x, runs[0].y, runs[0].text.as_str()), (3, 1, "z"));
}

#[test]
fn same_style_neighbours_join_one_run() {
    let prev = CellBuffer::new(6, 1);
    let mut cur = CellBuffer::new(6, 1);
    let mut bold = CellStyle::plain();
    bold.bold = true;
    cur.put_char(0, 0, 'a', CellStyle::plain());
    cur.put_char(1, 0, 'b', CellStyle::plain());
    cur.put_char(2, 0, 'c', bold);
    let runs = cur.diff_runs(&prev);
    assert_eq!(runs.len(), 2);
    assert_eq!(runs[0].text, "ab");
    assert_eq!(runs[1].text, "c");
    assert!(runs[1].style.bold);
}

#[test]
fn wide_char_is_emitted_whole() {
    let prev = CellBuffer::new(4, 1);
    let mut cur = CellBuffer::new(4, 1);
    cur.put_char(0, 0, '中', CellStyle::plain());
    cur.put_char(2, 0, 'a', CellStyle::plain());
    let runs = cur.diff_runs(&prev);
    assert_eq!(runs.len(), 1);
    assert_eq!(runs[0].text, "中a");
}

#[test]
fn change_in_tail_alone_redraws_its_head() {
    let mut prev = CellBuffer::new(4, 1);
    prev.put_char(0, 0, '中', CellStyle::plain());
    let mut cur = prev.clone();
    let red = termgrid::color::rgb(0xff0000);
    cur.set_bg(1, 0, red);
    let runs = cur.diff_runs(&prev);
    assert_eq!(runs.len(), 1);
    assert_eq!((runs[0].x, runs[0].text.as_str()), (0, "中"));
}

#[test]
fn resized_buffer_redraws_everything() {
    let prev = CellBuffer::new(2, 1);
    let cur = CellBuffer::new(3, 1);
    let runs = cur.diff_runs(&prev);
    assert!(runs.is_empty());
    let mut cur2 = CellBuffer::new(3, 1);
    cur2.put_char(0, 0, 'q', CellStyle::plain());
    let runs = cur2.diff_runs(&prev);
    assert_eq!(runs.len(), 1);
    assert_eq!(runs[0].text, "q");
}

#[test]
fn anchored_character_places_cursor() {
    let mut b = CellBuffer::new(5, 1);
    let mut s = CellStyle::plain();
    s.cursor_anchor = true;
    s.cursor_after = true;
    b.put_char(1, 0, 'x', s);
    assert_eq!(b.cursor(), Some((2, 0)));
    s.cursor_after = false;
    b.put_char(4, 0, 'y', s);
    assert_eq!(b.cursor(), Some((4, 0)));
    s.cursor_after = true;
    b.put_char(4, 0, 'y', s);
    assert_eq!(b.cursor(), Some((4, 0)));
}
