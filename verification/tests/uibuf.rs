use iota_core::CharColor;
use iota_core::UIBuffer;

fn dirty_positions(buf: &UIBuffer) -> Vec<(usize, usize)> {
    let mut dirty = Vec::new();
    for row in 0..buf.get_height() {
        for col in 0..buf.get_width() {
            if buf.get_cell(col, row).dirty {
                dirty.push((col, row));
            }
        }
    }
    dirty
}

#[test]
fn a_fresh_buffer_is_blank_and_clean() {
    let buf = UIBuffer::new(7, 3);
    assert_eq!(buf.get_width(), 7);
    assert_eq!(buf.get_height(), 3);
    for row in 0..3 {
        for col in 0..7 {
            let cell = buf.get_cell(col, row);
            assert_eq!(cell.x, col);
            assert_eq!(cell.y, row);
            assert_eq!(cell.ch, ' ');
            assert_eq!(cell.fg, CharColor::Default);
            assert_eq!(cell.bg, CharColor::Default);
            assert!(!cell.dirty);
        }
    }
}

#[test]
fn one_update_dirties_exactly_the_target_and_clearing_restores() {
    let mut buf = UIBuffer::new(10, 4);
    buf.update_cell_content(3, 2, 'q');
    assert_eq!(dirty_positions(&buf), vec![(3, 2)]);
    assert_eq!(buf.get_cell(3, 2).ch, 'q');
    buf.clear_dirty(3, 2);
    assert_eq!(dirty_positions(&buf), Vec::new());
    // the content survives the clear pass; only the flag is reset
    assert_eq!(buf.get_cell(3, 2).ch, 'q');
}

#[test]
fn update_keeps_position_and_colours() {
    let mut buf = UIBuffer::new(5, 5);
    buf.update_cell_content(1, 4, '#');
    let cell = buf.get_cell(1, 4);
    assert_eq!(cell.x, 1);
    assert_eq!(cell.y, 4);
    assert_eq!(cell.fg, CharColor::Default);
    assert_eq!(cell.bg, CharColor::Default);
}

#[test]
fn out_of_bounds_updates_are_silent_no_ops() {
    let mut buf = UIBuffer::new(4, 3);
    buf.update_cell_content(4, 0, 'x');
    buf.update_cell_content(0, 3, 'x');
    buf.update_cell_content(100, 100, 'x');
    assert_eq!(dirty_positions(&buf), Vec::new());
    for row in 0..3 {
        for col in 0..4 {
            assert_eq!(buf.get_cell(col, row).ch, ' ');
        }
    }
}

#[test]
fn repeated_updates_of_one_cell_keep_it_dirty_once() {
    let mut buf = UIBuffer::new(3, 3);
    buf.update_cell_content(2, 1, 'a');
    buf.update_cell_content(2, 1, 'b');
    assert_eq!(dirty_positions(&buf), vec![(2, 1)]);
    assert_eq!(buf.get_cell(2, 1).ch, 'b');
}

#[test]
fn rows_in_range_copies_the_requested_rows() {
    let mut buf = UIBuffer::new(4, 5);
    buf.update_cell_content(0, 1, 'a');
    buf.update_cell_content(3, 2, 'b');
    let rows = buf.rows_in_range(1, 3);
    assert_eq!(rows.len(), 8);
    assert_eq!(rows[0].ch, 'a');
    assert_eq!(rows[0].x, 0);
    assert_eq!(rows[0].y, 1);
    assert!(rows[0].dirty);
    assert_eq!(rows[4 + 3].ch, 'b');
    assert_eq!(rows[4 + 3].y, 2);
    for k in [1, 2, 3, 4, 5, 6] {
        assert_eq!(rows[k].ch, ' ');
        assert!(!rows[k].dirty);
    }
}

#[test]
fn rows_in_range_clamps_to_the_grid() {
    let buf = UIBuffer::new(3, 2);
    assert_eq!(buf.rows_in_range(0, 100).len(), 6);
    assert_eq!(buf.rows_in_range(2, 2).len(), 0);
    assert_eq!(buf.rows_in_range(5, 1).len(), 0);
}

#[test]
fn an_empty_grid_accepts_writes_without_effect() {
    let mut buf = UIBuffer::new(0, 0);
    assert_eq!(buf.get_width(), 0);
    assert_eq!(buf.get_height(), 0);
    buf.update_cell_content(0, 0, 'x');
    assert_eq!(buf.rows_in_range(0, 1).len(), 0);
}
