//! Frames of server-sent events, out of bytes in any pieces.

use agent_sdk::sse::{find_double_newline, parse_frame, SseFrame, SseParser};

#[test]
fn sse_drains_complete_frames() {
    let mut p = SseParser::new();
    p.push(b"event: message_start\ndata: {\"a\":1}\n\nevent: ping\ndata: {}\n\n");
    let frames = p.drain();
    assert_eq!(frames.len(), 2);
    assert_eq!(frames[0].event, "message_start");
    assert_eq!(frames[0].data, "{\"a\":1}");
    assert_eq!(frames[1].event, "ping");

    let mut p = SseParser::new();
    p.push(b"data: {\"a\":1}\n\ndata: {\"b\":2}\n\n");
    let frames = p.drain();
    assert_eq!(frames.len(), 2);
    assert_eq!(frames[0].data, "{\"a\":1}");
    assert_eq!(frames[1].data, "{\"b\":2}");
}

#[test]
fn sse_buffers_partial_frame_across_pushes() {
    let mut p = SseParser::new();
    p.push(b"event: message_start\ndata: {\"a\"");
    assert!(p.drain().is_empty());
    p.push(b":1}\n\n");
    let frames = p.drain();
    assert_eq!(frames.len(), 1);
    assert_eq!(frames[0].event, "message_start");
    assert_eq!(frames[0].data, "{\"a\":1}");

    let mut p = SseParser::new();
    p.push(b"data: {\"a\"");
    assert!(p.drain().is_empty());
    p.push(b":1}\n\n");
    let frames = p.drain();
    assert_eq!(frames.len(), 1);
    assert_eq!(frames[0].data, "{\"a\":1}");
}

#[test]
fn supports_crlf_terminators() {
    let mut p = SseParser::new();
    p.push(b"event: ping\r\ndata: {}\r\n\r\n");
    let frames = p.drain();
    assert_eq!(frames.len(), 1);
    assert_eq!(frames[0].event, "ping");
    assert_eq!(frames[0].data, "{}");
}

#[test]
fn ignores_comments_and_blank_lines() {
    let mut p = SseParser::new();
    p.push(b": heartbeat\nevent: ping\ndata: {}\n\n");
    let frames = p.drain();
    assert_eq!(frames.len(), 1);
    assert_eq!(frames[0].event, "ping");
}

#[test]
fn merges_multi_data_lines_with_newline() {
    let mut p = SseParser::new();
    p.push(b"data: a\ndata: b\n\n");
    let frames = p.drain();
    assert_eq!(frames[0].data, "a\nb");
}

#[test]
fn keeps_event_line_for_typed_apis() {
    let mut p = SseParser::new();
    p.push(b"event: response.output_text.delta\ndata: {\"delta\":\"hi\"}\n\n");
    let frames = p.drain();
    assert_eq!(frames[0].event, "response.output_text.delta");
    assert_eq!(frames[0].data, "{\"delta\":\"hi\"}");
}

fn frame(event: &str, data: &str) -> SseFrame {
    SseFrame { event: event.to_string(), data: data.to_string() }
}

fn drain_in_pieces(bytes: &[u8], size: usize) -> Vec<SseFrame> {
    let mut p = SseParser::new();
    let mut frames = Vec::new();
    for piece in bytes.chunks(size) {
        p.push(piece);
        frames.extend(p.drain());
    }
    frames
}

#[test]
fn frames_do_not_depend_on_the_pieces() {
    let bytes = "event: a\ndata: x\u{e9}y\n\n: c\n\ndata: 1\r\ndata: 2\r\n\r\nevent: last\n\ndata: r";
    let whole = drain_in_pieces(bytes.as_bytes(), bytes.len());
    assert_eq!(whole, vec![frame("a", "x\u{e9}y"), frame("", "1\n2"), frame("last", "")]);
    for size in 1..9 {
        assert_eq!(drain_in_pieces(bytes.as_bytes(), size), whole, "pieces of {size}");
    }
}

#[test]
fn a_second_drain_gives_nothing() {
    let mut p = SseParser::new();
    p.push(b"data: a\n\ndata: b");
    assert_eq!(p.drain(), vec![frame("", "a")]);
    assert!(p.drain().is_empty());
    p.push(b"\n\n");
    assert_eq!(p.drain(), vec![frame("", "b")]);
}

#[test]
fn the_earlier_terminator_ends_the_frame() {
    let b = find_double_newline(b"ab\n\ncd\r\n\r\n").unwrap();
    assert_eq!((b.start, b.end), (2, 4));
    let b = find_double_newline(b"ab\r\n\r\ncd\n\n").unwrap();
    assert_eq!((b.start, b.end), (2, 6));
    assert!(find_double_newline(b"ab\ncd\r\n").is_none());
    assert!(find_double_newline(b"").is_none());
}

#[test]
fn a_payload_without_fields_is_no_frame() {
    assert_eq!(parse_frame(b": only a comment"), None);
    assert_eq!(parse_frame(b"id: 7"), None);
    assert_eq!(parse_frame(b""), None);
}

#[test]
fn a_payload_that_is_not_utf8_is_no_frame() {
    assert_eq!(parse_frame(b"data: \xff"), None);
    assert_eq!(parse_frame("data: \u{20ac}".as_bytes()), Some(frame("", "\u{20ac}")));
}

#[test]
fn one_space_after_the_colon_is_dropped() {
    assert_eq!(parse_frame(b"data:a"), Some(frame("", "a")));
    assert_eq!(parse_frame(b"event: x\ndata: b"), Some(frame("x", "b")));
}
