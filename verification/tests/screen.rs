use dex::screen::{TermBuf, TermSize};

fn buf(width: u16, height: u16) -> TermBuf {
    TermBuf::new(TermSize { width, height })
}

#[test]
fn put_string_places_each_grapheme() {
    let mut b = buf(8, 6);
    b.put_string("hi", 2, 3);
    let rows = b.draw_rows();
    assert_eq!(rows.len(), 6);
    assert_eq!(rows[3], "  hi");
    for (i, row) in rows.iter().enumerate() {
        if i != 3 {
            assert_eq!(row, "");
        }
    }
    assert_eq!(b.get_cell(2, 3), Some("h".to_string()));
    assert_eq!(b.get_cell(3, 3), Some("i".to_string()));
    assert_eq!(b.get_cell(1, 3), None);
    assert_eq!(b.get_cell(4, 3), None);
}

#[test]
fn newline_advances_to_next_row_keeping_column() {
    let mut b = buf(8, 4);
    b.put_string("a\nb", 1, 0);
    assert_eq!(b.get_cell(1, 0), Some("a".to_string()));
    // The column is not reset by a newline; writing resumes one
    // column further on the next row.
    assert_eq!(b.get_cell(2, 1), Some("b".to_string()));
    assert_eq!(b.get_cell(1, 1), None);
}

#[test]
fn combining_characters_occupy_one_cell() {
    let mut b = buf(8, 2);
    // 'e' followed by a combining acute accent: one grapheme cluster.
    b.put_string("e\u{301}x", 0, 0);
    assert_eq!(b.get_cell(0, 0), Some("e\u{301}".to_string()));
    assert_eq!(b.get_cell(1, 0), Some("x".to_string()));
    assert_eq!(b.get_cell(2, 0), None);
}

#[test]
fn writes_outside_the_grid_are_dropped() {
    let mut b = buf(4, 3);
    b.put_string("abcdef", 2, 1);
    assert_eq!(b.get_cell(2, 1), Some("a".to_string()));
    assert_eq!(b.get_cell(3, 1), Some("b".to_string()));
    b.put_string("x", 0, 9);
    let rows = b.draw_rows();
    assert_eq!(rows.len(), 3);
    assert_eq!(rows[1], "  ab");
}

#[test]
fn resize_smaller_truncates_then_draws_cleanly() {
    let mut b = buf(8, 6);
    b.put_string("hello", 1, 4);
    b.resize(TermSize { width: 3, height: 3 });
    let rows = b.draw_rows();
    assert_eq!(rows.len(), 3);
    for row in &rows {
        assert_eq!(row, "");
    }
    // Writing after the shrink still works.
    b.put_string("ok", 0, 2);
    assert_eq!(b.draw_rows()[2], "ok");
}

#[test]
fn resize_larger_exposes_empty_cells() {
    let mut b = buf(3, 2);
    b.put_string("ab", 0, 0);
    b.resize(TermSize { width: 6, height: 4 });
    let rows = b.draw_rows();
    assert_eq!(rows.len(), 4);
    assert_eq!(rows[0], "ab");
    assert_eq!(rows[1], "");
    assert_eq!(rows[2], "");
    assert_eq!(rows[3], "");
    assert_eq!(b.get_cell(2, 0), None);
    assert_eq!(b.get_cell(5, 3), None);
}

#[test]
fn clear_empties_every_cell() {
    let mut b = buf(4, 2);
    b.put_string("abcd", 0, 0);
    b.put_string("wxyz", 0, 1);
    b.clear();
    for row in b.draw_rows() {
        assert_eq!(row, "");
    }
}

#[test]
fn set_char_and_cursor_state() {
    let mut b = buf(4, 4);
    b.set_char('q', 1, 1);
    assert_eq!(b.get_cell(1, 1), Some("q".to_string()));
    assert_eq!(b.cursor_position(), (1, 1));
    assert!(b.cursor_visible());
    b.set_cursor_position(3, 2);
    b.set_cursor_visible(false);
    assert_eq!(b.cursor_position(), (3, 2));
    assert!(!b.cursor_visible());
}

#[test]
fn draw_box_outlines_the_rectangle() {
    let mut b = buf(8, 6);
    b.draw_box(1, 1, 3, 2);
    assert_eq!(b.get_cell(1, 1), Some("┌".to_string()));
    assert_eq!(b.get_cell(5, 1), Some("┐".to_string()));
    assert_eq!(b.get_cell(1, 4), Some("└".to_string()));
    assert_eq!(b.get_cell(5, 4), Some("┘".to_string()));
    assert_eq!(b.get_cell(2, 1), Some("─".to_string()));
    assert_eq!(b.get_cell(1, 2), Some("│".to_string()));
    assert_eq!(b.get_cell(5, 3), Some("│".to_string()));
    assert_eq!(b.get_cell(3, 3), None);
}

#[test]
fn trailing_blank_cells_are_trimmed_per_row() {
    let mut b = buf(6, 2);
    b.set_char('a', 0, 0);
    b.set_char('b', 4, 0);
    b.set_char(' ', 2, 1);
    let rows = b.draw_rows();
    // Interior gaps print as spaces; trailing unset cells are trimmed.
    assert_eq!(rows[0], "a   b");
    // An explicitly written space cell still counts as occupied.
    assert_eq!(rows[1], "   ");
}
