//! Cutting a model endpoint's event stream into blocks, and reading their
//! `data:` lines.

use ag_ui::frames::{payload, signature, take_block};

#[test]
fn every_kind_of_blank_line_ends_a_block() {
    for (bytes, rest) in [
        (&b"data: a\r\n\r\nnext"[..], &b"next"[..]),
        (&b"data: a\n\nnext"[..], &b"next"[..]),
        (&b"data: a\r\rnext"[..], &b"next"[..]),
    ] {
        let mut buffer = bytes.to_vec();
        let block = take_block(&mut buffer).expect("a blank line ends the block");
        assert!(block.starts_with(b"data: a"));
        assert_eq!(buffer, rest);
    }
}

#[test]
fn a_block_without_its_blank_line_stays_buffered() {
    let mut buffer = b"data: a\r\n".to_vec();
    assert!(take_block(&mut buffer).is_none());
    assert_eq!(buffer, b"data: a\r\n");
}

#[test]
fn the_first_blank_line_wins() {
    let mut buffer = b"x\n\ny\r\n\r\nz".to_vec();
    assert_eq!(take_block(&mut buffer).unwrap(), b"x");
    assert_eq!(take_block(&mut buffer).unwrap(), b"y");
    assert_eq!(buffer, b"z");
}

#[test]
fn bytes_after_a_complete_block_do_not_change_it() {
    let mut whole = b"data: 1\n\n".to_vec();
    let mut chunked = b"data: 1\n\ndata: 2".to_vec();
    assert_eq!(take_block(&mut whole), take_block(&mut chunked));
    assert_eq!(chunked, b"data: 2");
}

#[test]
fn data_lines_are_joined_and_other_lines_ignored() {
    assert_eq!(payload(b"event: x\r\ndata: {\"a\":1}\r\n").as_deref(), Some("{\"a\":1}"));
    assert_eq!(payload(b"data: one\ndata:two\n").as_deref(), Some("one\ntwo"));
    assert_eq!(payload(b"data:  two spaces").as_deref(), Some(" two spaces"));
    assert_eq!(payload(b": keep-alive"), None);
    assert_eq!(payload(b"data: \n"), None);
    assert_eq!(payload(b""), None);
}

#[test]
fn an_empty_first_value_takes_no_line_feed() {
    assert_eq!(payload(b"data:\ndata: x").as_deref(), Some("x"));
}

#[test]
fn a_carriage_return_is_dropped_only_before_a_line_feed() {
    assert_eq!(payload(b"data: a\r\ndata: b\r").as_deref(), Some("a\nb\r"));
}

#[test]
fn invalid_bytes_become_replacement_characters() {
    assert_eq!(payload(b"data: \xff").as_deref(), Some("\u{fffd}"));
}

#[test]
fn an_empty_signature_is_no_signature() {
    assert_eq!(signature(Some("")), None);
    assert_eq!(signature(Some("sig")), Some("sig"));
    assert_eq!(signature(None), None);
}
