use ws_rpc::buffer::ReadBuffer;
use ws_rpc::codec::encode_frame;
use ws_rpc::codec::FRAME_HEADER_LEN;
use ws_rpc::result::ErrCvt;
use ws_rpc::result::WSError;
use ws_rpc::result::WsIoErr;
use ws_rpc::result::WsRpcErr;
use ws_rpc::rpc_model::close_conn;
use ws_rpc::rpc_model::consume_i32;
use ws_rpc::rpc_model::consume_u8;
use ws_rpc::rpc_model::read_frame_header;
use ws_rpc::rpc_model::read_len_prefix;
use ws_rpc::rpc_model::ConnState;
use ws_rpc::rpc_model::FrameDisposition;
use ws_rpc::rpc_model::HashValue;
use ws_rpc::rpc_model::RpcState;

type TestState = RpcState<u32, u64>;

#[test]
fn frame_encodes_exact_bytes() {
    let payload = vec![0xAAu8, 0xBB, 0xCC];
    let frame = encode_frame(7, 0x01020304, &payload);
    assert_eq!(
        frame,
        vec![0, 0, 0, 3, 7, 0x01, 0x02, 0x03, 0x04, 0xAA, 0xBB, 0xCC]
    );
}

#[test]
fn frame_round_trips_through_buffer() {
    // Round trip: what one side encodes, the reader parses back unchanged,
    // and trailing bytes of the next frame stay buffered.
    let payload = vec![1u8, 2, 3, 4, 5];
    let frame = encode_frame(2, 42, &payload);
    let mut buf = ReadBuffer::new();
    buf.fill(&frame);
    buf.fill(&[9, 9]); // start of the next frame
    let header = read_frame_header(&mut buf);
    assert_eq!(header.payload_len, 5);
    assert_eq!(header.tag, 2);
    assert_eq!(header.task_id, 42);
    let got = buf.take(header.payload_len);
    assert_eq!(got, payload);
    assert_eq!(buf.readable(), 2);
}

#[test]
fn buffer_preserves_partial_frames() {
    let payload = vec![0x10u8, 0x20, 0x30, 0x40, 0x50, 0x60];
    let frame = encode_frame(1, 7, &payload);
    let mut buf = ReadBuffer::new();
    // Bytes arrive split at awkward boundaries.
    buf.fill(&frame[..4]);
    assert!(buf.readable() < FRAME_HEADER_LEN);
    buf.fill(&frame[4..11]);
    let header = read_frame_header(&mut buf);
    assert_eq!(header.payload_len, 6);
    assert!(buf.readable() < header.payload_len);
    buf.fill(&frame[11..]);
    let got = buf.take(header.payload_len);
    assert_eq!(got, payload);
    assert_eq!(buf.readable(), 0);
}

#[test]
fn sequential_frames_parse_in_submission_order() {
    // Write ordering: the wire carries the first call's frame, header
    // first, strictly before the second call's bytes.
    let first = encode_frame(2, 1, &vec![0x11u8, 0x22]);
    let second = encode_frame(2, 2, &vec![0x33u8]);
    let mut wire = first.clone();
    wire.extend_from_slice(&second);
    assert_eq!(&wire[..first.len()], first.as_slice());

    let mut buf = ReadBuffer::new();
    buf.fill(&wire);
    let h1 = read_frame_header(&mut buf);
    assert_eq!((h1.task_id, h1.payload_len), (1, 2));
    assert_eq!(buf.take(h1.payload_len), vec![0x11, 0x22]);
    let h2 = read_frame_header(&mut buf);
    assert_eq!((h2.task_id, h2.payload_len), (2, 1));
    assert_eq!(buf.take(h2.payload_len), vec![0x33]);
}

#[test]
fn empty_payload_frame_round_trips() {
    let frame = encode_frame(0, 0, &Vec::new());
    assert_eq!(frame, vec![0u8; 9]);
    let mut buf = ReadBuffer::new();
    buf.fill(&frame);
    let header = read_frame_header(&mut buf);
    assert_eq!(header.payload_len, 0);
    assert_eq!(header.tag, 0);
    assert_eq!(header.task_id, 0);
    assert_eq!(buf.readable(), 0);
}

#[test]
fn handshake_length_prefix_parses() {
    let mut buf = ReadBuffer::new();
    buf.fill(&[0, 0, 0, 6]);
    buf.fill(b"node-7");
    let n = read_len_prefix(&mut buf);
    assert_eq!(n, 6);
    let payload = buf.take(n);
    assert_eq!(payload, b"node-7".to_vec());
}

#[test]
fn consume_helpers_read_header_fields() {
    let bytes = [0u8, 0, 1, 2, 9];
    let mut len = 5usize;
    let word = consume_i32(0, &bytes, &mut len);
    assert_eq!(word, 258);
    assert_eq!(len, 1);
    let tag = consume_u8(4, &bytes, &mut len);
    assert_eq!(tag, 9);
    assert_eq!(len, 0);
}

#[test]
fn handshake_registers_and_lookup_finds_it() {
    // Scenario: handshake payload "node-7" verified to the string identity;
    // the registered sender is found under it, and "node-8" finds none.
    let mut st: TestState = RpcState::new();
    let id = HashValue::Str(String::from("node-7"));
    assert!(st.register(id, ConnState { tx: 17 }));
    let found = st.lookup(&HashValue::Str(String::from("node-7")));
    assert_eq!(found.map(|cs| cs.tx), Some(17));
    assert!(st.lookup(&HashValue::Str(String::from("node-8"))).is_none());
}

#[test]
fn conflicting_handshake_is_rejected() {
    // Two handshakes presenting the same verified identity: exactly one
    // registers; the loser is rejected and nothing is overwritten.
    let mut st: TestState = RpcState::new();
    let winner = st.register(HashValue::Str(String::from("peer")), ConnState { tx: 1 });
    let loser = st.register(HashValue::Str(String::from("peer")), ConnState { tx: 2 });
    assert!(winner);
    assert!(!loser);
    let found = st.lookup(&HashValue::Str(String::from("peer")));
    assert_eq!(found.map(|cs| cs.tx), Some(1));
}

#[test]
fn identity_accessors_reflect_the_variant() {
    let a = HashValue::Int(-4);
    let b = HashValue::Str(String::from("node-7"));
    assert_eq!(a.as_int(), Some(-4));
    assert!(a.as_str().is_none());
    assert_eq!(b.as_str().map(|s| s.as_str()), Some("node-7"));
    assert!(b.as_int().is_none());
    assert!(a.same_as(&a.duplicate()));
    assert!(!a.same_as(&b));
}

#[test]
fn int_and_str_identities_are_distinct() {
    let mut st: TestState = RpcState::new();
    assert!(st.register(HashValue::Int(7), ConnState { tx: 1 }));
    assert!(st.register(HashValue::Str(String::from("7")), ConnState { tx: 2 }));
    assert_eq!(st.lookup(&HashValue::Int(7)).map(|cs| cs.tx), Some(1));
}

#[test]
fn close_ends_connection_and_call_fails() {
    // Teardown: after close, a later call resolves no sender and fails
    // with the connection-not-established error.
    let mut st: TestState = RpcState::new();
    let id = HashValue::Str(String::from("gone"));
    assert!(st.register(id.duplicate(), ConnState { tx: 3 }));
    close_conn(&mut st, &id);
    assert!(st.lookup(&id).is_none());
    match st.resolve_target(&id) {
        Err(WsRpcErr::ConnectionNotEstablished(t)) => {
            assert_eq!(t, id);
        }
        _ => panic!("expected a connection-not-established error"),
    }
    // Idempotent: closing again is a no-op.
    close_conn(&mut st, &id);
    assert!(st.lookup(&id).is_none());
}

#[test]
fn correlation_ids_are_distinct_while_pending() {
    // Many calls in flight at once: every pending id is fresh.
    let mut st: TestState = RpcState::new();
    let mut ids = Vec::new();
    for k in 0..100u64 {
        ids.push(st.register_call(k));
    }
    for a in 0..ids.len() {
        for b in (a + 1)..ids.len() {
            assert_ne!(ids[a], ids[b]);
        }
    }
}

#[test]
fn reply_fulfills_exactly_one_waiter() {
    let mut st: TestState = RpcState::new();
    let tid = st.register_call(900);
    let other = st.register_call(901);
    match st.dispatch_frame(false, tid, vec![5, 6, 7]) {
        FrameDisposition::Reply(waiter, payload) => {
            assert_eq!(waiter, 900);
            assert_eq!(payload, vec![5, 6, 7]);
        }
        _ => panic!("expected the pending call's waiter"),
    }
    // The other call is untouched and still waiting.
    assert_eq!(st.take_pending(other), Some(901));
    // The fulfilled entry was removed exactly once.
    assert_eq!(st.take_pending(tid), None);
}

#[test]
fn handled_request_touches_no_bookkeeping() {
    let mut st: TestState = RpcState::new();
    let tid = st.register_call(44);
    match st.dispatch_frame(true, tid, vec![1]) {
        FrameDisposition::HandledAsRequest => {}
        _ => panic!("the handler consumed the frame"),
    }
    assert_eq!(st.take_pending(tid), Some(44));
}

#[test]
fn late_reply_after_timeout_is_dropped() {
    // Timeout: the call removes its own bookkeeping; a reply arriving
    // afterwards keys no waiter and is dropped as an orphan.
    let mut st: TestState = RpcState::new();
    let tid = st.register_call(123);
    assert_eq!(st.take_pending(tid), Some(123));
    match st.dispatch_frame(false, tid, vec![9]) {
        FrameDisposition::Orphan => {}
        _ => panic!("a late reply must be dropped"),
    }
    assert_eq!(st.take_pending(tid), None);
}

#[test]
fn io_error_converts_into_system_error() {
    let e = std::io::Error::new(std::io::ErrorKind::Other, "broken pipe");
    match ErrCvt(e).to_ws_io_err() {
        WSError::WsIoErr(WsIoErr::Io(_)) => {}
        _ => panic!("expected the I/O variant"),
    }
}

#[test]
fn rpc_errors_convert_into_system_error() {
    let timeout: WSError = WsRpcErr::RPCTimout(HashValue::Int(3)).into();
    match timeout {
        WSError::WsRpcErr(WsRpcErr::RPCTimout(HashValue::Int(3))) => {}
        _ => panic!("expected the timeout variant"),
    }
    let bad: WSError = WsRpcErr::InvalidMsgData { msg_id: 8 }.into();
    match bad {
        WSError::WsRpcErr(WsRpcErr::InvalidMsgData { msg_id: 8 }) => {}
        _ => panic!("expected the decode-failure variant"),
    }
}
