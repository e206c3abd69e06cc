//! Key events as the bytes a shell expects to read.
use vstd::prelude::*;

verus! {

#[derive(Clone, Copy, Debug, PartialEq, Eq, Structural)]
pub enum Key {
    Char(char),
    Enter,
    Backspace,
    Tab,
    Escape,
    Up,
    Down,
    Right,
    Left,
    Home,
    End,
    Delete,
    PageUp,
    PageDown,
    /// A key with no meaning to the shell.
    Other,
}

/// The UTF-8 encoding of a code point.
pub open spec fn utf8_of(v: u32) -> Seq<u8> {
    if v < 0x80 {
        seq![v as u8]
    } else if v < 0x800 {
        seq![(0xC0 + v / 64) as u8, (0x80 + v % 64) as u8]
    } else if v < 0x10000 {
        seq![(0xE0 + v / 4096) as u8, (0x80 + (v / 64) % 64) as u8, (0x80 + v % 64) as u8]
    } else {
        seq![
            (0xF0 + v / 262144) as u8,
            (0x80 + (v / 4096) % 64) as u8,
            (0x80 + (v / 64) % 64) as u8,
            (0x80 + v % 64) as u8,
        ]
    }
}

/// `ESC [` followed by `tail`.
pub open spec fn csi_of(tail: Seq<u8>) -> Seq<u8> {
    seq![0x1bu8, 0x5bu8] + tail
}

pub open spec fn key_bytes(k: Key) -> Seq<u8> {
    match k {
        Key::Char(c) => utf8_of(c as u32),
        Key::Enter => seq![0x0du8],
        Key::Backspace => seq![0x7fu8],
        Key::Tab => seq![0x09u8],
        Key::Escape => seq![0x1bu8],
        Key::Up => csi_of(seq![0x41u8]),
        Key::Down => csi_of(seq![0x42u8]),
        Key::Right => csi_of(seq![0x43u8]),
        Key::Left => csi_of(seq![0x44u8]),
        Key::Home => csi_of(seq![0x48u8]),
        Key::End => csi_of(seq![0x46u8]),
        Key::Delete => csi_of(seq![0x33u8, 0x7eu8]),
        Key::PageUp => csi_of(seq![0x35u8, 0x7eu8]),
        Key::PageDown => csi_of(seq![0x36u8, 0x7eu8]),
        Key::Other => Seq::empty(),
    }
}

fn encode_char(c: char) -> (r: Vec<u8>)
    ensures
        r@ == utf8_of(c as u32),
{
    let v = c as u32;
    if v < 0x80 {
        vec![v as u8]
    } else if v < 0x800 {
        vec![(0xC0 + v / 64) as u8, (0x80 + v % 64) as u8]
    } else if v < 0x10000 {
        vec![(0xE0 + v / 4096) as u8, (0x80 + (v / 64) % 64) as u8, (0x80 + v % 64) as u8]
    } else {
        vec![
            (0xF0 + v / 262144) as u8,
            (0x80 + (v / 4096) % 64) as u8,
            (0x80 + (v / 64) % 64) as u8,
            (0x80 + v % 64) as u8,
        ]
    }
}

fn csi_bytes(tail: &[u8]) -> (r: Vec<u8>)
    ensures
        r@ == csi_of(tail@),
{
    let mut r: Vec<u8> = vec![0x1b, 0x5b];
    let mut i: usize = 0;
    while i < tail.len()
        invariant
            i <= tail@.len(),
            r@ == csi_of(tail@.subrange(0, i as int)),
        decreases tail@.len() - i,
    {
        r.push(tail[i]);
        i = i + 1;
        assert(r@ =~= csi_of(tail@.subrange(0, i as int)));
    }
    assert(tail@.subrange(0, i as int) =~= tail@);
    r
}

/// The bytes to write to the shell for a key; no bytes for a key that the
/// shell has no use for.
pub fn encode_key(k: Key) -> (r: Vec<u8>)
    ensures
        r@ == key_bytes(k),
{
    let r = match k {
        Key::Char(c) => encode_char(c),
        Key::Enter => vec![0x0d],
        Key::Backspace => vec![0x7f],
        Key::Tab => vec![0x09],
        Key::Escape => vec![0x1b],
        Key::Up => csi_bytes(&[0x41]),
        Key::Down => csi_bytes(&[0x42]),
        Key::Right => csi_bytes(&[0x43]),
        Key::Left => csi_bytes(&[0x44]),
        Key::Home => csi_bytes(&[0x48]),
        Key::End => csi_bytes(&[0x46]),
        Key::Delete => csi_bytes(&[0x33, 0x7e]),
        Key::PageUp => csi_bytes(&[0x35, 0x7e]),
        Key::PageDown => csi_bytes(&[0x36, 0x7e]),
        Key::Other => Vec::new(),
    };
    assert(r@ =~= key_bytes(k));
    r
}

} // verus!
