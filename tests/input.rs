use pitty::input::{encode_key, Key};

#[test]
fn named_keys() {
    assert_eq!(encode_key(Key::Enter), b"\r".to_vec());
    assert_eq!(encode_key(Key::Backspace), vec![0x7f]);
    assert_eq!(encode_key(Key::Tab), b"\t".to_vec());
    assert_eq!(encode_key(Key::Escape), vec![0x1b]);
    assert_eq!(encode_key(Key::Up), b"\x1b[A".to_vec());
    assert_eq!(encode_key(Key::Down), b"\x1b[B".to_vec());
    assert_eq!(encode_key(Key::Right), b"\x1b[C".to_vec());
    assert_eq!(encode_key(Key::Left), b"\x1b[D".to_vec());
    assert_eq!(encode_key(Key::Home), b"\x1b[H".to_vec());
    assert_eq!(encode_key(Key::End), b"\x1b[F".to_vec());
    assert_eq!(encode_key(Key::Delete), b"\x1b[3~".to_vec());
    assert_eq!(encode_key(Key::PageUp), b"\x1b[5~".to_vec());
    assert_eq!(encode_key(Key::PageDown), b"\x1b[6~".to_vec());
    assert_eq!(encode_key(Key::Other), Vec::<u8>::new());
}

#[test]
fn characters_are_utf8() {
    for c in ['a', 'é', '€', '😀', '\u{7f}', '\u{80}', '\u{7ff}', '\u{800}', '\u{ffff}', '\u{10000}', '\u{10ffff}'] {
        let mut buf = [0u8; 4];
        assert_eq!(encode_key(Key::Char(c)), c.encode_utf8(&mut buf).as_bytes().to_vec());
    }
}
