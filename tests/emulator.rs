use pitty::emulator::{ChannelEvent, Emulator};
use pitty::screen::{Color, ScreenError};

fn row_text(e: &Emulator, r: usize) -> String {
    let s = e.screen();
    (0..s.cols()).map(|c| s.cell(r, c).ch).collect()
}

#[test]
fn cr_lf_makes_a_true_newline() {
    let mut e = Emulator::new(4, 5, 0).unwrap();
    e.feed(b"A\r\nB");
    assert_eq!(e.screen().cursor(), (1, 1));
    assert_eq!(row_text(&e, 0), "A    ");
    assert_eq!(row_text(&e, 1), "B    ");
}

#[test]
fn split_sgr_colours_following_print() {
    let mut e = Emulator::new(2, 5, 0).unwrap();
    for b in [b"\x1b", b"[", b"3", b"1", b"m"] {
        e.feed(b);
    }
    e.feed(b"x");
    assert_eq!(e.screen().pen().fg, Color::Indexed(1));
    assert_eq!(e.screen().cell(0, 0).style.fg, Color::Indexed(1));
    assert_eq!(e.screen().cell(0, 0).ch, 'x');
}

#[test]
fn sgr_applies_before_later_prints_in_same_chunk() {
    let mut e = Emulator::new(1, 5, 0).unwrap();
    e.feed(b"a\x1b[31mb\x1b[0mc");
    let s = e.screen();
    assert_eq!(s.cell(0, 0).style.fg, Color::Default);
    assert_eq!(s.cell(0, 1).style.fg, Color::Indexed(1));
    assert_eq!(s.cell(0, 2).style.fg, Color::Default);
}

#[test]
fn erase_display_sequence_clears_screen() {
    let mut e = Emulator::new(2, 3, 0).unwrap();
    e.feed(b"abc\x1b[2J");
    assert_eq!(row_text(&e, 0), "   ");
    assert_eq!(e.screen().cursor(), (1, 0));
}

#[test]
fn cursor_position_sequence() {
    let mut e = Emulator::new(5, 5, 0).unwrap();
    e.feed(b"\x1b[3;4HZ\x1b[H\x1b[2B\x1b[C\x1b[1D\x1b[A");
    assert_eq!(e.screen().cell(2, 3).ch, 'Z');
    assert_eq!(e.screen().cursor(), (1, 0));
}

#[test]
fn private_sequences_leave_screen_alone() {
    let mut e = Emulator::new(2, 4, 0).unwrap();
    e.feed(b"ab\x1b[?2J\x1b]0;t\x07");
    assert_eq!(row_text(&e, 0), "ab  ");
}

#[test]
fn channel_events() {
    let mut e = Emulator::new(2, 4, 0).unwrap();
    e.on_event(ChannelEvent::Data(b"hi".to_vec()));
    e.on_event(ChannelEvent::Empty);
    assert!(!e.is_ended());
    assert_eq!(row_text(&e, 0), "hi  ");
    e.on_event(ChannelEvent::Closed);
    assert!(e.is_ended());
    assert_eq!(row_text(&e, 0), "hi  ");
}

#[test]
fn emulator_resize_and_refusal() {
    let mut e = Emulator::new(2, 4, 0).unwrap();
    assert_eq!(e.resize(0, 1), Err(ScreenError::ZeroSize));
    assert_eq!(e.resize(3, 3), Ok(()));
    assert_eq!(e.snapshot().len(), 3);
    assert!(Emulator::new(0, 0, 0).is_err());
}

#[test]
fn feed_returns_actions() {
    let mut e = Emulator::new(2, 4, 0).unwrap();
    let acts = e.feed(b"a\n");
    assert_eq!(acts.len(), 2);
}

#[test]
fn extended_colour_sequence_with_colons() {
    let mut e = Emulator::new(1, 4, 0).unwrap();
    e.feed(b"\x1b[38:5:123mx");
    assert_eq!(e.screen().cell(0, 0).style.fg, Color::Indexed(123));
}

#[test]
fn semicolon_extended_colour_is_three_codes() {
    let mut e = Emulator::new(1, 4, 0).unwrap();
    e.feed(b"\x1b[38;5;1mx");
    let st = e.screen().cell(0, 0).style;
    assert_eq!(st.fg, Color::Default);
    assert!(st.bold);
}

#[test]
fn vertical_tab_and_form_feed_change_nothing() {
    let mut e = Emulator::new(1, 3, 5).unwrap();
    e.feed(b"ab\x0b\x0c\x07\x00");
    assert_eq!(e.screen().cursor(), (0, 2));
    assert_eq!(e.screen().scrollback_len(), 0);
    assert_eq!(row_text(&e, 0), "ab ");
    e.feed(b"\n");
    assert_eq!(e.screen().scrollback_len(), 1);
}
