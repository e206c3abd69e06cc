use pitty::screen::{Color, ScreenBuffer, ScreenError};

fn screen(rows: usize, cols: usize, limit: usize) -> ScreenBuffer {
    ScreenBuffer::new(rows, cols, limit).unwrap()
}

fn row_text(s: &ScreenBuffer, r: usize) -> String {
    (0..s.cols()).map(|c| s.cell(r, c).ch).collect()
}

#[test]
fn zero_size_is_refused() {
    assert_eq!(ScreenBuffer::new(0, 5, 0).err(), Some(ScreenError::ZeroSize));
    assert_eq!(ScreenBuffer::new(5, 0, 0).err(), Some(ScreenError::ZeroSize));
}

#[test]
fn print_advances_and_wraps() {
    let mut s = screen(2, 3, 0);
    for ch in "abcd".chars() {
        s.print(ch);
        let (r, c) = s.cursor();
        assert!(r < 2 && c < 3);
    }
    assert_eq!(row_text(&s, 0), "abc");
    assert_eq!(row_text(&s, 1), "d  ");
    assert_eq!(s.cursor(), (1, 1));
}

#[test]
fn print_at_bottom_right_scrolls() {
    let mut s = screen(2, 2, 10);
    for ch in "abcd".chars() {
        s.print(ch);
    }
    assert_eq!(row_text(&s, 0), "cd");
    assert_eq!(row_text(&s, 1), "  ");
    assert_eq!(s.cursor(), (1, 0));
    assert_eq!(s.scrollback_len(), 1);
    let old: String = s.scrollback_row(0).iter().map(|c| c.ch).collect();
    assert_eq!(old, "ab");
}

#[test]
fn scrollback_is_capped_oldest_first() {
    let mut s = screen(1, 1, 3);
    for ch in "abcdef".chars() {
        s.print(ch);
        assert!(s.scrollback_len() <= 3);
    }
    let kept: String = (0..s.scrollback_len()).map(|i| s.scrollback_row(i)[0].ch).collect();
    assert_eq!(kept, "def");
}

#[test]
fn scrollback_limit_zero_keeps_nothing() {
    let mut s = screen(1, 1, 0);
    s.print('a');
    s.print('b');
    assert_eq!(s.scrollback_len(), 0);
}

#[test]
fn tab_moves_to_next_stop_without_writing() {
    let mut s = screen(1, 20, 0);
    for ch in "abcdefghij".chars() {
        s.print(ch);
    }
    s.carriage_return();
    for _ in 0..5 {
        s.cursor_forward(1);
    }
    assert_eq!(s.cursor(), (0, 5));
    s.tab();
    assert_eq!(s.cursor(), (0, 8));
    assert_eq!(row_text(&s, 0), "abcdefghij          ");
}

#[test]
fn tab_clamps_to_last_column() {
    let mut s = screen(1, 10, 0);
    s.set_cursor_position(1, 9);
    s.tab();
    assert_eq!(s.cursor(), (0, 9));
}

#[test]
fn backspace_stops_at_column_zero() {
    let mut s = screen(2, 4, 0);
    s.set_cursor_position(2, 1);
    s.backspace();
    assert_eq!(s.cursor(), (1, 0));
}

#[test]
fn erase_display_all_then_print_leaves_one_cell() {
    let mut s = screen(3, 4, 0);
    for ch in "abcdefghij".chars() {
        s.print(ch);
    }
    s.set_cursor_position(2, 3);
    s.erase_display(2);
    assert_eq!(s.cursor(), (1, 2));
    s.print('Z');
    let mut marked = Vec::new();
    for r in 0..3 {
        for c in 0..4 {
            if s.cell(r, c).ch != ' ' {
                marked.push((r, c));
            }
        }
    }
    assert_eq!(marked, vec![(1, 2)]);
}

#[test]
fn erase_display_modes_zero_and_one() {
    let mut s = screen(3, 3, 0);
    for ch in "abcdef".chars() {
        s.print(ch);
    }
    s.set_cursor_position(1, 2);
    s.erase_display(0);
    assert_eq!(row_text(&s, 0), "a  ");
    assert_eq!(row_text(&s, 1), "   ");
    let mut t = screen(3, 3, 0);
    for ch in "abcdef".chars() {
        t.print(ch);
    }
    t.set_cursor_position(2, 2);
    t.erase_display(1);
    assert_eq!(row_text(&t, 0), "   ");
    assert_eq!(row_text(&t, 1), "  f");
}

#[test]
fn erase_line_modes() {
    let mut s = screen(3, 3, 0);
    for ch in "abcdef".chars() {
        s.print(ch);
    }
    s.set_cursor_position(1, 2);
    s.erase_line(0);
    assert_eq!(row_text(&s, 0), "a  ");
    assert_eq!(row_text(&s, 1), "def");
    s.set_cursor_position(2, 2);
    s.erase_line(1);
    assert_eq!(row_text(&s, 1), "  f");
    s.erase_line(2);
    assert_eq!(row_text(&s, 1), "   ");
    s.erase_line(7);
    assert_eq!(row_text(&s, 0), "a  ");
}

#[test]
fn rendition_codes_compose() {
    let mut s = screen(1, 4, 0);
    s.set_graphic_rendition(&vec![vec![1], vec![31]]);
    s.set_graphic_rendition(&vec![vec![44], vec![99]]);
    let p = s.pen();
    assert!(p.bold);
    assert_eq!(p.fg, Color::Indexed(1));
    assert_eq!(p.bg, Color::Indexed(4));
    s.set_graphic_rendition(&vec![vec![7], vec![92], vec![103]]);
    let p = s.pen();
    assert!(p.inverse && p.bold);
    assert_eq!(p.fg, Color::Indexed(10));
    assert_eq!(p.bg, Color::Indexed(11));
    s.print('x');
    assert_eq!(s.cell(0, 0).style, p);
    s.set_graphic_rendition(&vec![vec![0]]);
    assert_eq!(s.pen().fg, Color::Default);
    assert!(!s.pen().bold);
    s.set_graphic_rendition(&vec![vec![1]]);
    s.set_graphic_rendition(&vec![]);
    assert!(!s.pen().bold);
}

#[test]
fn cursor_moves_are_clamped() {
    let mut s = screen(5, 10, 0);
    s.set_cursor_position(0, 0);
    assert_eq!(s.cursor(), (0, 0));
    s.set_cursor_position(3, 4);
    assert_eq!(s.cursor(), (2, 3));
    s.set_cursor_position(100, 100);
    assert_eq!(s.cursor(), (4, 9));
    s.cursor_up(2);
    assert_eq!(s.cursor(), (2, 9));
    s.cursor_up(0);
    assert_eq!(s.cursor(), (1, 9));
    s.cursor_up(50);
    assert_eq!(s.cursor(), (0, 9));
    s.cursor_back(3);
    assert_eq!(s.cursor(), (0, 6));
    s.cursor_down(9);
    assert_eq!(s.cursor(), (4, 6));
    s.cursor_forward(9);
    assert_eq!(s.cursor(), (4, 9));
}

#[test]
fn resize_keeps_top_left_and_clamps_cursor() {
    let mut s = screen(3, 3, 0);
    for ch in "abcdef".chars() {
        s.print(ch);
    }
    s.set_cursor_position(2, 3);
    assert_eq!(s.resize(3, 2), Ok(()));
    assert_eq!((s.rows(), s.cols()), (3, 2));
    assert_eq!(row_text(&s, 0), "ab");
    assert_eq!(row_text(&s, 1), "de");
    assert_eq!(row_text(&s, 2), "  ");
    assert_eq!(s.cursor(), (1, 1));
    assert_eq!(s.resize(0, 4), Err(ScreenError::ZeroSize));
    assert_eq!((s.rows(), s.cols()), (3, 2));
}

#[test]
fn snapshot_matches_cells() {
    let mut s = screen(2, 2, 0);
    s.print('q');
    let snap = s.snapshot();
    assert_eq!(snap.len(), 2);
    assert_eq!(snap[0][0].ch, 'q');
    assert_eq!(snap[1][1], s.cell(1, 1));
}

#[test]
fn extended_palette_colours() {
    let mut s = screen(1, 4, 0);
    s.set_graphic_rendition(&vec![vec![38, 5, 200], vec![48, 5, 17], vec![1]]);
    let p = s.pen();
    assert_eq!(p.fg, Color::Indexed(200));
    assert_eq!(p.bg, Color::Indexed(17));
    assert!(p.bold);
}

#[test]
fn direct_colour_changes_nothing() {
    let mut s = screen(1, 4, 0);
    s.set_graphic_rendition(&vec![vec![38, 2, 1, 7, 4], vec![31]]);
    let p = s.pen();
    assert_eq!(p.fg, Color::Indexed(1));
    assert!(!p.bold && !p.inverse && !p.underline);
}

#[test]
fn codes_compose_left_to_right() {
    let mut s = screen(1, 4, 0);
    s.set_graphic_rendition(&vec![vec![38], vec![1]]);
    assert!(s.pen().bold);
    assert_eq!(s.pen().fg, Color::Default);
    s.set_graphic_rendition(&vec![vec![38], vec![5], vec![4]]);
    assert!(s.pen().underline);
    assert_eq!(s.pen().fg, Color::Default);
    s.set_graphic_rendition(&vec![vec![99], vec![32], vec![0], vec![7]]);
    let p = s.pen();
    assert!(p.inverse && !p.bold && !p.underline);
    assert_eq!(p.fg, Color::Default);
}
