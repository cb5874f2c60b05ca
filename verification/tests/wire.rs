use omcp::client::sse::{sse_parse_wire, EventPump, PumpAction, PumpInput, WireParser};
use omcp::client::types::{classify, SseRawEvent};
use omcp::encoding::{bytes_eq, str_eq, utf8_valid};
use omcp::error::Error;

fn feed_all(parser: &mut WireParser, bytes: &[u8]) -> Vec<(Vec<u8>, Vec<u8>)> {
    let (frames, _bad) = parser.feed(bytes);
    frames
}

#[test]
fn parser_whole_buffer() {
    let mut p = WireParser::new(b"http://host:8000/mcp_server/sse");
    let frames = feed_all(&mut p, b"event: endpoint\ndata: /messages/abcd\n");
    assert_eq!(frames.len(), 1);
    assert_eq!(frames[0].0, b"endpoint".to_vec());
    assert_eq!(frames[0].1, b"/messages/abcd".to_vec());
}

#[test]
fn parser_chunks_match_whole() {
    // The same stream cut at every position yields the same frames.
    let stream = b"event: endpoint\r\ndata: /messages/abcd\r\n\r\nevent: message\ndata: {}\n";
    let mut whole = WireParser::new(b"srv");
    let (expected, expected_bad) = whole.feed(stream);
    for cut in 0..stream.len() {
        let mut p = WireParser::new(b"srv");
        let (mut frames, mut bad) = p.feed(&stream[..cut]);
        let (tail_frames, tail_bad) = p.feed(&stream[cut..]);
        frames.extend(tail_frames);
        bad += tail_bad;
        assert_eq!(frames, expected, "cut at {cut}");
        assert_eq!(bad, expected_bad);
    }
}

#[test]
fn parser_byte_at_a_time() {
    let stream = b"event: message\ndata: {\"jsonrpc\":\"2.0\"}\n";
    let mut p = WireParser::new(b"srv");
    let mut frames = Vec::new();
    for b in stream.iter() {
        let (fs, bad) = p.feed(std::slice::from_ref(b));
        assert_eq!(bad, 0);
        frames.extend(fs);
    }
    assert_eq!(frames.len(), 1);
    assert_eq!(frames[0].0, b"message".to_vec());
    assert_eq!(frames[0].1, b"{\"jsonrpc\":\"2.0\"}".to_vec());
}

#[test]
fn parser_skips_comments_and_blank_lines() {
    let mut p = WireParser::new(b"srv");
    let (frames, bad) =
        p.feed(b": a comment\n\n\nevent: message\n: another\ndata: {}\n");
    assert_eq!(bad, 0);
    assert_eq!(frames.len(), 1);
    assert_eq!(frames[0].0, b"message".to_vec());
    assert_eq!(frames[0].1, b"{}".to_vec());
}

#[test]
fn parser_strips_carriage_returns() {
    let mut p = WireParser::new(b"srv");
    let (frames, _) = p.feed(b"event: message\r\ndata: x\r\n");
    assert_eq!(frames.len(), 1);
    assert_eq!(frames[0].1, b"x".to_vec());
}

#[test]
fn parser_drops_invalid_text_line() {
    let mut p = WireParser::new(b"srv");
    // The second line holds a stray continuation byte; the frame after it
    // still comes through.
    let (frames, bad) = p.feed(b"event: message\n\xffdata: broken\ndata: ok\n");
    assert_eq!(bad, 1);
    assert_eq!(frames.len(), 1);
    assert_eq!(frames[0].1, b"ok".to_vec());
}

#[test]
fn parser_keeps_partial_line_across_chunks() {
    let mut p = WireParser::new(b"srv");
    let (frames, _) = p.feed(b"event: mes");
    assert!(frames.is_empty());
    let (frames, _) = p.feed(b"sage\ndata: 1\n");
    assert_eq!(frames.len(), 1);
    assert_eq!(frames[0].0, b"message".to_vec());
}

#[test]
fn classify_endpoint_resolves_url() {
    // The announced path is anchored on its first segment within the
    // origin; the part of the origin before the anchor becomes the base.
    let ev = classify(
        b"http://host:8000/messages/sse",
        b"endpoint",
        b"/messages/xyz",
    )
    .unwrap();
    match ev {
        SseRawEvent::Endpoint(e) => {
            assert_eq!(e.endpoint, b"/messages/xyz".to_vec());
            assert_eq!(e.url, b"http://host:8000/messages/xyz".to_vec());
        }
        SseRawEvent::Message(_) => panic!("classified as message"),
    }
}

#[test]
fn classify_endpoint_shared_prefix() {
    // A session path announced under the same prefix as the connect URL.
    let ev = classify(
        b"http://host:8000/mcp_server/sse",
        b"endpoint",
        b"/mcp_server/messages/xyz",
    )
    .unwrap();
    match ev {
        SseRawEvent::Endpoint(e) => {
            assert_eq!(e.url, b"http://host:8000/mcp_server/messages/xyz".to_vec());
        }
        SseRawEvent::Message(_) => panic!("classified as message"),
    }
}

#[test]
fn classify_endpoint_unanchored_origin_fails() {
    let r = classify(b"http://host:8000/other/sse", b"endpoint", b"/messages/xyz");
    assert!(matches!(r, Err(Error::InvalidEndpoint)));
}

#[test]
fn classify_endpoint_path_without_slash_fails() {
    let r = classify(b"http://host:8000/messages/sse", b"endpoint", b"nopath");
    assert!(matches!(r, Err(Error::InvalidEndpoint)));
}

#[test]
fn classify_unsupported_event_type() {
    let r = classify(b"srv", b"heartbeat", b"{}");
    match r {
        Err(Error::UnsupportedEventType { name }) => assert_eq!(name, b"heartbeat".to_vec()),
        other => panic!("unexpected: {other:?}"),
    }
}

#[test]
fn parse_wire_batch_returns_all_frames() {
    let events = sse_parse_wire(
        b"http://host:8000/mcp_server/sse",
        b"event: endpoint\ndata: /mcp_server/next\nevent: message\ndata: {}\n",
    )
    .unwrap();
    assert_eq!(events.len(), 2);
    assert!(matches!(events[0], SseRawEvent::Endpoint(_)));
    assert!(matches!(&events[1], SseRawEvent::Message(d) if d == b"{}"));
}

#[test]
fn parse_wire_invalid_encoding() {
    let r = sse_parse_wire(b"srv", b"event: \xc3(\ndata: x\n");
    assert!(matches!(r, Err(Error::InvalidEncoding)));
}

#[test]
fn pump_cancellation_exits() {
    let mut pump = EventPump::new(b"srv");
    assert!(matches!(pump.step(PumpInput::Cancelled), PumpAction::Exit));
}

#[test]
fn pump_survives_bad_chunk_and_delivers_next_frame() {
    // One frame with an unknown event name is passed over; the well-formed
    // frame after it is still delivered.
    let mut pump = EventPump::new(b"srv");
    let action = pump.step(PumpInput::Chunk(
        b"event: bogus\ndata: 1\nevent: message\ndata: 2\n".to_vec(),
    ));
    match action {
        PumpAction::Publish(events) => {
            assert_eq!(events.len(), 1);
            assert!(matches!(&events[0], SseRawEvent::Message(d) if d == b"2"));
        }
        other => panic!("unexpected: {other:?}"),
    }
}

#[test]
fn pump_reconnect_resumes_delivery() {
    let mut pump = EventPump::new(b"http://host/mcp/sse");
    // A read error marks the stream dead; only then is a reconnect polled.
    assert!(matches!(pump.step(PumpInput::ChunkError), PumpAction::Idle));
    assert!(matches!(pump.step(PumpInput::Reconnected), PumpAction::Idle));
    // The replacement stream announces a fresh endpoint before anything else.
    let action = pump.step(PumpInput::Chunk(b"event: endpoint\ndata: /mcp/m2\n".to_vec()));
    match action {
        PumpAction::Publish(events) => {
            assert_eq!(events.len(), 1);
            match &events[0] {
                SseRawEvent::Endpoint(e) => assert_eq!(e.url, b"http://host/mcp/m2".to_vec()),
                other => panic!("unexpected: {other:?}"),
            }
        }
        other => panic!("unexpected: {other:?}"),
    }
}

#[test]
fn pump_reconnect_discards_partial_line() {
    let mut pump = EventPump::new(b"srv");
    // The dead stream ends mid-line; its remnant must not corrupt the new one.
    assert!(matches!(
        pump.step(PumpInput::Chunk(b"event: mess".to_vec())),
        PumpAction::Publish(e) if e.is_empty()
    ));
    pump.step(PumpInput::ChunkError);
    pump.step(PumpInput::Reconnected);
    let action = pump.step(PumpInput::Chunk(b"event: message\ndata: 1\n".to_vec()));
    match action {
        PumpAction::Publish(events) => assert_eq!(events.len(), 1),
        other => panic!("unexpected: {other:?}"),
    }
}

#[test]
fn malformed_message_does_not_stop_the_stream() {
    // A frame whose body is not JSON still flows through the pump; its
    // body becomes the fail-soft error envelope when decoding fails, and
    // the next well-formed frame arrives untouched.
    let mut pump = EventPump::new(b"srv");
    let action = pump.step(PumpInput::Chunk(
        b"event: message\ndata: {not json\nevent: message\ndata: {\"jsonrpc\":\"2.0\"}\n".to_vec(),
    ));
    let events = match action {
        PumpAction::Publish(events) => events,
        other => panic!("unexpected: {other:?}"),
    };
    assert_eq!(events.len(), 2);
    let bodies: Vec<&Vec<u8>> = events
        .iter()
        .map(|e| match e {
            SseRawEvent::Message(d) => d,
            other => panic!("unexpected: {other:?}"),
        })
        .collect();
    assert!(serde_json::from_slice::<serde_json::Value>(bodies[0]).is_err());
    match omcp::client::types::message_event(None) {
        omcp::client::types::SseEvent::JsonRpcMessage(b) => {
            assert_eq!(b.error.as_ref().unwrap().code, 1);
        }
        other => panic!("unexpected: {other:?}"),
    }
    assert!(serde_json::from_slice::<serde_json::Value>(bodies[1]).is_ok());
}

#[test]
fn wire_event_accumulator_starts_empty() {
    let w = omcp::client::types::SseWireEvent::new(b"http://host/sse");
    assert_eq!(w.server, b"http://host/sse".to_vec());
    assert!(w.event.is_empty() && w.data.is_empty());
}

#[test]
fn utf8_validity() {
    assert!(utf8_valid(b"plain ascii"));
    assert!(utf8_valid("héllo wörld — ₤ 💚".as_bytes()));
    assert!(!utf8_valid(b"\xff"));
    assert!(!utf8_valid(b"\xc3"));
    assert!(!utf8_valid(b"\xed\xa0\x80")); // surrogate
    assert!(!utf8_valid(b"\xc0\xaf")); // overlong
    assert!(utf8_valid(b""));
}

#[test]
fn byte_and_text_equality() {
    assert!(bytes_eq(b"abc", b"abc"));
    assert!(!bytes_eq(b"abc", b"abd"));
    assert!(!bytes_eq(b"abc", b"ab"));
    assert!(str_eq("tools", "tools"));
    assert!(!str_eq("tools", "tool"));
}
