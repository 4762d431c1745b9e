//! Decoding `text/event-stream` from arbitrarily chunked bytes.

use ag_ui::error::Error;
use ag_ui::sse::{decimal, Delivery, SseDecoder, SseFrame, DEFAULT_MAX_FRAME_SIZE};

fn frames(decoder: &mut SseDecoder) -> Vec<SseFrame> {
    let mut out = Vec::new();
    while let Some(frame) = decoder.next_frame().expect("valid stream") {
        out.push(frame);
    }
    out
}

#[test]
fn a_frame_split_across_chunks_comes_out_whole() {
    let mut decoder = SseDecoder::new();
    decoder
        .push(b": keep-alive\n\ndata: {\"type\":\"RUN_ERROR\",\"mes")
        .expect("fits");
    assert!(decoder.next_frame().expect("valid").is_none());
    decoder.push(b"sage\":\"boom\"}\n\n").expect("fits");
    let frame = decoder.next_frame().expect("valid").expect("a complete frame");
    assert_eq!(frame.data, r#"{"type":"RUN_ERROR","message":"boom"}"#);
    assert_eq!(frame.event, None);
    assert_eq!(frame.id, None);
    assert_eq!(frame.retry, None);
}

#[test]
fn data_lines_are_rejoined_with_newlines() {
    let mut decoder = SseDecoder::new();
    decoder.push(b"data: one\ndata:two\ndata:  three\n\n").expect("fits");
    let out = frames(&mut decoder);
    assert_eq!(out.len(), 1);
    assert_eq!(out[0].data, "one\ntwo\n three");
}

#[test]
fn the_other_fields_are_read() {
    let mut decoder = SseDecoder::new();
    decoder
        .push(b"event: update\nid: 7\nretry: 1500\nunknown: x\ndata\n\n")
        .expect("fits");
    let out = frames(&mut decoder);
    assert_eq!(
        out,
        vec![SseFrame {
            event: Some("update".to_owned()),
            data: String::new(),
            id: Some("7".to_owned()),
            retry: Some(1500),
        }]
    );
}

#[test]
fn a_bad_retry_is_ignored() {
    let mut decoder = SseDecoder::new();
    decoder
        .push(b"retry: 12a\ndata: x\n\nretry: +5\ndata: y\n\nretry: 18446744073709551616\ndata: z\n\n")
        .expect("fits");
    let out = frames(&mut decoder);
    assert_eq!(out.len(), 3);
    assert_eq!(out[0].retry, None);
    assert_eq!(out[1].retry, Some(5));
    assert_eq!(out[2].retry, None);
}

#[test]
fn every_line_ending_is_a_line_ending() {
    let mut decoder = SseDecoder::new();
    decoder.push(b"data: a\r\n\r\ndata: b\r\rdata: c\n\n").expect("fits");
    let out: Vec<String> = frames(&mut decoder).into_iter().map(|f| f.data).collect();
    assert_eq!(out, ["a", "b", "c"]);
}

#[test]
fn a_crlf_split_across_chunks_is_one_line_ending() {
    let mut decoder = SseDecoder::new();
    decoder.push(b"data: a\r").expect("fits");
    assert!(decoder.next_frame().expect("valid").is_none());
    decoder.push(b"\n\r\n").expect("fits");
    let out = frames(&mut decoder);
    assert_eq!(out.len(), 1);
    assert_eq!(out[0].data, "a");
}

#[test]
fn a_leading_byte_order_mark_is_dropped() {
    let mut decoder = SseDecoder::new();
    decoder.push(b"\xef\xbb\xbfdata: x\n\n").expect("fits");
    let out = frames(&mut decoder);
    assert_eq!(out[0].data, "x");
}

#[test]
fn a_frame_without_data_dispatches_nothing() {
    let mut decoder = SseDecoder::new();
    decoder.push(b"event: ping\n\n: comment\n\n").expect("fits");
    assert!(frames(&mut decoder).is_empty());
}

#[test]
fn finish_dispatches_the_last_unterminated_frame() {
    let mut decoder = SseDecoder::new();
    decoder.push(b"data: first\n\ndata: last").expect("fits");
    let out = frames(&mut decoder);
    assert_eq!(out.len(), 1);
    let rest = decoder.finish().expect("valid");
    assert_eq!(rest.len(), 1);
    assert_eq!(rest[0].data, "last");
    assert!(decoder.finish().expect("valid").is_empty());
}

#[test]
fn text_in_any_script_survives() {
    let mut decoder = SseDecoder::new();
    let payload = "data: 안녕 — héllo\n\n".as_bytes();
    decoder.push(&payload[..9]).expect("fits");
    assert!(decoder.next_frame().expect("valid").is_none());
    decoder.push(&payload[9..]).expect("fits");
    assert_eq!(frames(&mut decoder)[0].data, "안녕 — héllo");
}

#[test]
fn invalid_utf8_is_a_decode_error() {
    let mut decoder = SseDecoder::new();
    decoder.push(b"data: \xff\n\n").expect("fits");
    let error = decoder.next_frame().expect_err("not UTF-8");
    let Error::Decode(message) = error else {
        panic!("expected a decode error");
    };
    assert!(message.starts_with("stream is not UTF-8: "), "{message}");
}

#[test]
fn an_oversized_frame_is_refused() {
    let mut decoder = SseDecoder::new().with_max_frame_size(8);
    assert_eq!(decoder.max_frame_size(), 8);
    decoder.push(b"data: ").expect("fits");
    let error = decoder.push(b"123").expect_err("too large");
    assert_eq!(
        error,
        Error::Decode("frame exceeded the 8 byte limit before a line break".to_owned())
    );
    decoder.push(b"12").expect("still fits");
    assert_eq!(SseDecoder::new().max_frame_size(), DEFAULT_MAX_FRAME_SIZE);
    assert_eq!(DEFAULT_MAX_FRAME_SIZE, 8 * 1024 * 1024);
}

#[test]
fn numbers_are_written_in_decimal() {
    assert_eq!(decimal(0), "0");
    assert_eq!(decimal(8), "8");
    assert_eq!(decimal(8388608), "8388608");
    assert_eq!(decimal(1000), "1000");
}

#[test]
fn a_delivered_chunk_yields_the_frames_it_completes() {
    let mut decoder = SseDecoder::new();
    let decoded = decoder.take(Delivery::Chunk(b"data: a\n\ndata: b\n\ndata: c".to_vec()));
    let data: Vec<&str> = decoded.frames.iter().map(|f| f.data.as_str()).collect();
    assert_eq!(data, vec!["a", "b"]);
    assert!(decoded.error.is_none());
    assert!(!decoded.done);
    let last = decoder.take(Delivery::Ended);
    assert_eq!(last.frames.len(), 1);
    assert_eq!(last.frames[0].data, "c");
    assert!(last.error.is_none());
    assert!(last.done);
}

#[test]
fn a_bad_line_ends_the_stream_after_the_frames_before_it() {
    let mut decoder = SseDecoder::new();
    let decoded = decoder.take(Delivery::Chunk(b"data: ok\n\ndata: \xff\n\n".to_vec()));
    assert_eq!(decoded.frames.len(), 1);
    assert_eq!(decoded.frames[0].data, "ok");
    assert!(matches!(decoded.error, Some(Error::Decode(_))));
    assert!(decoded.done);
}

#[test]
fn a_failed_connection_ends_the_stream() {
    let mut decoder = SseDecoder::new();
    let decoded = decoder.take(Delivery::Failed("reset by peer".to_owned()));
    assert!(decoded.frames.is_empty());
    assert_eq!(decoded.error, Some(Error::Transport("reset by peer".to_owned())));
    assert!(decoded.done);
}

#[test]
fn an_oversized_delivery_ends_the_stream() {
    let mut decoder = SseDecoder::new().with_max_frame_size(4);
    let decoded = decoder.take(Delivery::Chunk(b"data: x".to_vec()));
    assert!(decoded.frames.is_empty());
    assert_eq!(
        decoded.error,
        Some(Error::Decode("frame exceeded the 4 byte limit before a line break".to_owned()))
    );
    assert!(decoded.done);
}

#[test]
fn finishing_on_a_line_that_is_not_utf8_is_an_error() {
    let mut decoder = SseDecoder::new();
    decoder.push(b"data: ok\n\ndata: \xc3").expect("fits");
    assert_eq!(frames(&mut decoder).len(), 1);
    let error = decoder.finish().expect_err("not UTF-8");
    let Error::Decode(message) = error else {
        panic!("expected a decode error");
    };
    assert!(message.starts_with("stream is not UTF-8: "), "{message}");
}

#[test]
fn a_frame_of_many_fields_survives_any_split() {
    let body: &[u8] = b"event: patch\r\nid: 42\r\nretry: 250\r\ndata: one\r\ndata: two\r\n\r\n";
    for cut in 0..body.len() {
        let mut decoder = SseDecoder::new();
        decoder.push(&body[..cut]).expect("fits");
        let mut out = frames(&mut decoder);
        decoder.push(&body[cut..]).expect("fits");
        out.extend(frames(&mut decoder));
        assert_eq!(
            out,
            vec![SseFrame {
                event: Some("patch".to_owned()),
                data: "one\ntwo".to_owned(),
                id: Some("42".to_owned()),
                retry: Some(250),
            }],
            "split at {cut}"
        );
    }
}
