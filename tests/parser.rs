use pitty::parser::{Action, EscapeParser};

fn feed_all(chunks: &[&[u8]]) -> Vec<Action> {
    let mut p = EscapeParser::new();
    let mut out = Vec::new();
    for c in chunks {
        out.extend(p.advance(c));
    }
    out
}

#[test]
fn plain_text_prints_each_character() {
    let acts = feed_all(&[b"ab"]);
    assert_eq!(acts, vec![Action::Print('a'), Action::Print('b')]);
}

#[test]
fn control_bytes_are_executed() {
    let acts = feed_all(&[b"\r\n\t\x08"]);
    assert_eq!(
        acts,
        vec![Action::Execute(13), Action::Execute(10), Action::Execute(9), Action::Execute(8)]
    );
}

#[test]
fn csi_split_over_five_feeds_dispatches_once() {
    let acts = feed_all(&[b"\x1b", b"[", b"3", b"1", b"m"]);
    assert_eq!(
        acts,
        vec![Action::CsiDispatch { params: vec![vec![31]], intermediates: vec![], final_byte: b'm' }]
    );
}

#[test]
fn fragmentation_gives_the_same_actions() {
    let stream: &[u8] = b"hi\x1b[1;31mX\x1b]0;title\x07\xc3\xa9\x1b(B\r\n";
    let whole = feed_all(&[stream]);
    for cut in 0..stream.len() {
        let split = feed_all(&[&stream[..cut], &stream[cut..]]);
        assert_eq!(split, whole, "cut at {}", cut);
    }
    let bytewise: Vec<&[u8]> = stream.chunks(1).collect();
    assert_eq!(feed_all(&bytewise), whole);
}

#[test]
fn csi_parameters_default_and_separate() {
    let acts = feed_all(&[b"\x1b[;5H\x1b[m\x1b[38:5:2m\x1b[38;5;2m"]);
    assert_eq!(
        acts,
        vec![
            Action::CsiDispatch { params: vec![vec![0], vec![5]], intermediates: vec![], final_byte: b'H' },
            Action::CsiDispatch { params: vec![], intermediates: vec![], final_byte: b'm' },
            Action::CsiDispatch { params: vec![vec![38, 5, 2]], intermediates: vec![], final_byte: b'm' },
            Action::CsiDispatch {
                params: vec![vec![38], vec![5], vec![2]],
                intermediates: vec![],
                final_byte: b'm',
            },
        ]
    );
}

#[test]
fn private_marker_is_an_intermediate() {
    let acts = feed_all(&[b"\x1b[?25h"]);
    assert_eq!(
        acts,
        vec![Action::CsiDispatch { params: vec![vec![25]], intermediates: vec![b'?'], final_byte: b'h' }]
    );
}

#[test]
fn parameter_value_saturates() {
    let acts = feed_all(&[b"\x1b[999999A"]);
    assert_eq!(
        acts,
        vec![Action::CsiDispatch { params: vec![vec![65535]], intermediates: vec![], final_byte: b'A' }]
    );
}

#[test]
fn parameter_list_is_capped() {
    let mut s = b"\x1b[".to_vec();
    for _ in 0..20 {
        s.extend_from_slice(b"1;");
    }
    s.push(b'm');
    let acts = feed_all(&[&s]);
    match &acts[..] {
        [Action::CsiDispatch { params, .. }] => assert_eq!(params.len(), 16),
        other => panic!("unexpected {:?}", other),
    }
}

#[test]
fn osc_with_bel_or_st_dispatches() {
    let acts = feed_all(&[b"\x1b]0;t\x07\x1b]2;u\x1b\\"]);
    assert_eq!(
        acts,
        vec![
            Action::OscDispatch { data: b"0;t".to_vec() },
            Action::OscDispatch { data: b"2;u".to_vec() },
        ]
    );
}

#[test]
fn unterminated_osc_swallows_printable_until_aborted() {
    let mut p = EscapeParser::new();
    let first = p.advance(b"\x1b]0;title");
    assert!(first.is_empty());
    let second = p.advance(b"Z");
    assert!(second.is_empty());
    let third = p.advance(b"\x18Z");
    assert_eq!(third, vec![Action::Print('Z')]);
}

#[test]
fn escape_dispatch_with_intermediate() {
    let acts = feed_all(&[b"\x1b(B\x1bM"]);
    assert_eq!(
        acts,
        vec![
            Action::EscDispatch { intermediates: vec![b'('], final_byte: b'B' },
            Action::EscDispatch { intermediates: vec![], final_byte: b'M' },
        ]
    );
}

#[test]
fn malformed_csi_is_discarded() {
    let acts = feed_all(&[b"\x1b[1\x01x"]);
    assert_eq!(acts, vec![Action::Print('x')]);
}

#[test]
fn utf8_is_decoded() {
    let acts = feed_all(&[b"\xc3", b"\xa9\xe2\x82\xac\xf0\x9f\x98\x80"]);
    assert_eq!(acts, vec![Action::Print('é'), Action::Print('€'), Action::Print('😀')]);
}

#[test]
fn malformed_utf8_gives_replacement() {
    let acts = feed_all(&[b"\xc3A\xff"]);
    assert_eq!(
        acts,
        vec![Action::Print('\u{FFFD}'), Action::Print('A'), Action::Print('\u{FFFD}')]
    );
}

#[test]
fn surrogate_code_point_gives_replacement() {
    let acts = feed_all(&[b"\xed\xa0\x80"]);
    assert_eq!(acts, vec![Action::Print('\u{FFFD}')]);
}

#[test]
fn sub_parameter_list_is_capped() {
    let acts = feed_all(&[b"\x1b[1:2:3:4:5:6:7:8m"]);
    assert_eq!(
        acts,
        vec![Action::CsiDispatch {
            params: vec![vec![1, 2, 3, 4, 5, 6]],
            intermediates: vec![],
            final_byte: b'm'
        }]
    );
}

#[test]
fn overlong_utf8_gives_replacement() {
    let acts = feed_all(&[b"\xe0\x81\x81\xe0\x80\x80\xf0\x80\x80\x80\xc2\x80"]);
    assert_eq!(
        acts,
        vec![
            Action::Print('\u{FFFD}'),
            Action::Print('\u{FFFD}'),
            Action::Print('\u{FFFD}'),
            Action::Print('\u{80}'),
        ]
    );
}

#[test]
fn code_point_above_unicode_range_gives_replacement() {
    let acts = feed_all(&[b"\xf4\x90\x80\x80"]);
    assert_eq!(acts, vec![Action::Print('\u{FFFD}')]);
}
