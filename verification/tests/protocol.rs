//! Wire-level tests of both dialects: response framing, request routing,
//! and the connection engine end to end, with the real header parser and
//! frame codec linked in.

use embedded_websocket::{
    EmptyRng, WebSocketClient, WebSocketCloseStatusCode, WebSocketReceiveMessageType,
    WebSocketSendMessageType, WebSocketState,
};

use doodle_core::engine::Connection;
use doodle_core::http::{build_response, content_length, route_request, HttpStatus};
use doodle_core::render::drain_all;
use doodle_core::{Canvas, PixelChannel};

fn s(text: &str) -> String {
    text.to_string()
}

fn response_text(bytes: &[u8]) -> String {
    String::from_utf8(bytes.to_vec()).expect("response is not UTF-8")
}

#[test]
fn response_framing_is_exact() {
    let r = build_response(HttpStatus::Ok200, b"OK");
    assert_eq!(
        response_text(&r),
        "HTTP/1.1 200 OK\r\n\
         Access-Control-Allow-Origin: *\r\n\
         Access-Control-Allow-Methods: GET, POST, OPTIONS\r\n\
         Access-Control-Allow-Headers: Content-Type\r\n\
         Content-Length: 2\r\n\r\nOK"
    );
    let empty = build_response(HttpStatus::NotFound404, b"");
    assert!(response_text(&empty).starts_with("HTTP/1.1 404 Not Found\r\n"));
    assert!(response_text(&empty).ends_with("Content-Length: 0\r\n\r\n"));
    // Content-Length is plain decimal without leading zeros.
    let long = build_response(HttpStatus::BadRequest400, &[b'a'; 117]);
    assert!(response_text(&long).contains("Content-Length: 117\r\n\r\n"));
}

#[test]
fn post_pixel_in_range_writes_record_and_returns_200() {
    let mut chan = PixelChannel::new();
    let resp = route_request(
        &s("POST"),
        &s("/pixel"),
        b"{\"x\":10,\"y\":5,\"state\":true}",
        &mut chan,
    );
    assert!(response_text(&resp).starts_with("HTTP/1.1 200 OK"));
    assert_eq!(chan.try_read(), Some((10, 5, 1)));
    assert_eq!(chan.try_read(), None);
}

#[test]
fn post_pixel_out_of_range_returns_400_and_no_write() {
    let mut chan = PixelChannel::new();
    let resp = route_request(
        &s("POST"),
        &s("/pixel"),
        b"{\"x\":60,\"y\":5,\"state\":true}",
        &mut chan,
    );
    assert!(response_text(&resp).starts_with("HTTP/1.1 400 Bad Request"));
    assert_eq!(chan.try_read(), None);
}

#[test]
fn post_pixel_malformed_body_returns_400_and_no_write() {
    let mut chan = PixelChannel::new();
    let resp = route_request(&s("POST"), &s("/pixel"), b"not json", &mut chan);
    assert!(response_text(&resp).starts_with("HTTP/1.1 400 Bad Request"));
    assert_eq!(chan.try_read(), None);
}

#[test]
fn post_clear_writes_sentinel_and_returns_200() {
    let mut chan = PixelChannel::new();
    let resp = route_request(&s("POST"), &s("/clear"), b"", &mut chan);
    assert!(response_text(&resp).starts_with("HTTP/1.1 200 OK"));
    assert!(response_text(&resp).ends_with("Cleared"));
    assert_eq!(chan.try_read(), Some((255, 255, 2)));
}

#[test]
fn options_and_root_and_unknown_routes() {
    let mut chan = PixelChannel::new();
    let resp = route_request(&s("OPTIONS"), &s("/pixel"), b"", &mut chan);
    assert!(response_text(&resp).starts_with("HTTP/1.1 200 OK"));
    assert!(response_text(&resp).ends_with("Content-Length: 0\r\n\r\n"));

    let resp = route_request(&s("GET"), &s("/"), b"", &mut chan);
    assert!(response_text(&resp).ends_with("Doodle canvas ready"));

    let resp = route_request(&s("GET"), &s("/missing"), b"", &mut chan);
    assert!(response_text(&resp).starts_with("HTTP/1.1 404 Not Found"));
    let resp = route_request(&s("PUT"), &s("/pixel"), b"", &mut chan);
    assert!(response_text(&resp).starts_with("HTTP/1.1 404 Not Found"));
    assert_eq!(chan.try_read(), None);
}

#[test]
fn content_length_header_is_read_case_insensitively() {
    let headers = vec![
        (b"Host".to_vec(), b"device".to_vec()),
        (b"CONTENT-length".to_vec(), b" 42 ".to_vec()),
    ];
    assert_eq!(content_length(&headers), 42);
    let none: Vec<(Vec<u8>, Vec<u8>)> = vec![(b"Host".to_vec(), b"device".to_vec())];
    assert_eq!(content_length(&none), 0);
    let junk = vec![(b"Content-Length".to_vec(), b"4x2".to_vec())];
    assert_eq!(content_length(&junk), 0);
}

#[test]
fn http_connection_end_to_end() {
    let mut chan = PixelChannel::new();
    let mut conn = Connection::new();
    let request = b"POST /pixel HTTP/1.1\r\nHost: device\r\nContent-Length: 27\r\n\r\n{\"x\":10,\"y\":5,\"state\":true}";
    let out = conn.on_bytes(request, &mut chan);
    assert!(response_text(&out.output).starts_with("HTTP/1.1 200 OK"));
    assert!(out.close);
    assert_eq!(chan.try_read(), Some((10, 5, 1)));
}

#[test]
fn http_connection_waits_for_split_request() {
    let mut chan = PixelChannel::new();
    let mut conn = Connection::new();
    let request = b"POST /clear HTTP/1.1\r\nHost: device\r\n\r\n";
    let (first, second) = request.split_at(20);
    let out = conn.on_bytes(first, &mut chan);
    assert!(out.output.is_empty());
    assert!(!out.close);
    let out = conn.on_bytes(second, &mut chan);
    assert!(response_text(&out.output).starts_with("HTTP/1.1 200 OK"));
    assert!(out.close);
    assert_eq!(chan.try_read(), Some((255, 255, 2)));
}

#[test]
fn http_connection_waits_for_body_bytes() {
    let mut chan = PixelChannel::new();
    let mut conn = Connection::new();
    let head = b"POST /pixel HTTP/1.1\r\nHost: device\r\nContent-Length: 28\r\n\r\n";
    let out = conn.on_bytes(head, &mut chan);
    assert!(out.output.is_empty());
    assert!(!out.close);
    let out = conn.on_bytes(b"{\"x\":1,\"y\":2,\"state\":false}\n", &mut chan);
    assert!(response_text(&out.output).starts_with("HTTP/1.1 200 OK"));
    assert!(out.close);
    assert_eq!(chan.try_read(), Some((1, 2, 0)));
}

const UPGRADE_REQUEST: &[u8] = b"GET /ws HTTP/1.1\r\nHost: device\r\nUpgrade: websocket\r\nConnection: Upgrade\r\nSec-WebSocket-Key: Z7OY1UwHOx/nkSz38kfPwg==\r\nSec-WebSocket-Version: 13\r\n\r\n";

fn open_session(chan: &mut PixelChannel) -> Connection {
    let mut conn = Connection::new();
    let out = conn.on_bytes(UPGRADE_REQUEST, chan);
    assert!(!out.close);
    let text = response_text(&out.output);
    assert!(text.starts_with("HTTP/1.1 101 Switching Protocols"));
    // The accept string is the fixed function of the key, per the websocket
    // spec's reference example.
    assert!(text.contains("Sec-WebSocket-Accept: ptPnPeDOTo6khJlzmLhOZSh2tAY="));
    conn
}

fn client_frame(kind: WebSocketSendMessageType, payload: &[u8]) -> Vec<u8> {
    let mut client: WebSocketClient<EmptyRng> = WebSocketClient::new_client(EmptyRng::new());
    client.state = WebSocketState::Open;
    let mut buf = [0u8; 512];
    let n = client.write(kind, true, payload, &mut buf).expect("encode frame");
    buf[..n].to_vec()
}

#[test]
fn websocket_binary_pixel_record_reaches_the_channel() {
    let mut chan = PixelChannel::new();
    let mut conn = open_session(&mut chan);
    let frame = client_frame(WebSocketSendMessageType::Binary, &[10, 5, 1]);
    let out = conn.on_bytes(&frame, &mut chan);
    assert!(out.output.is_empty());
    assert!(!out.close);
    assert_eq!(chan.try_read(), Some((10, 5, 1)));
}

#[test]
fn websocket_clear_sentinel_drains_to_full_canvas_clear() {
    let mut chan = PixelChannel::new();
    let mut conn = open_session(&mut chan);
    let mut canvas = Canvas::new();
    canvas.set(10, 5, true);
    canvas.set(0, 47, true);
    let frame = client_frame(WebSocketSendMessageType::Binary, &[255, 255, 2]);
    let out = conn.on_bytes(&frame, &mut chan);
    assert!(!out.close);
    assert!(drain_all(&mut chan, &mut canvas));
    for y in 0..48u8 {
        for x in 0..48u8 {
            assert!(!canvas.get(x, y));
        }
    }
}

#[test]
fn websocket_wrong_length_payload_is_dropped_without_killing_the_loop() {
    let mut chan = PixelChannel::new();
    let mut conn = open_session(&mut chan);
    for payload in [&[1u8, 2][..], &[1, 2, 3, 4][..], &[][..]] {
        let frame = client_frame(WebSocketSendMessageType::Binary, payload);
        let out = conn.on_bytes(&frame, &mut chan);
        assert!(!out.close);
        assert_eq!(chan.try_read(), None);
    }
    // Out-of-range coordinates are dropped silently too.
    let frame = client_frame(WebSocketSendMessageType::Binary, &[48, 0, 1]);
    let out = conn.on_bytes(&frame, &mut chan);
    assert!(!out.close);
    assert_eq!(chan.try_read(), None);
    // The loop is still alive: a valid record still arrives.
    let frame = client_frame(WebSocketSendMessageType::Binary, &[47, 0, 1]);
    conn.on_bytes(&frame, &mut chan);
    assert_eq!(chan.try_read(), Some((47, 0, 1)));
}

#[test]
fn websocket_ping_gets_pong_echoing_payload() {
    let mut chan = PixelChannel::new();
    let mut conn = open_session(&mut chan);
    let frame = client_frame(WebSocketSendMessageType::Ping, b"hello");
    let out = conn.on_bytes(&frame, &mut chan);
    assert!(!out.close);
    assert!(!out.output.is_empty());
    // The reply is one pong frame carrying the identical payload.
    let mut client: WebSocketClient<EmptyRng> = WebSocketClient::new_client(EmptyRng::new());
    client.state = WebSocketState::Open;
    let mut decoded = [0u8; 512];
    let res = client.read(&out.output, &mut decoded).expect("decode pong");
    assert_eq!(res.message_type, WebSocketReceiveMessageType::Pong);
    assert_eq!(&decoded[..res.len_to], b"hello");
}

#[test]
fn websocket_close_gets_close_reply_then_connection_ends() {
    let mut chan = PixelChannel::new();
    let mut conn = open_session(&mut chan);
    let mut client: WebSocketClient<EmptyRng> = WebSocketClient::new_client(EmptyRng::new());
    client.state = WebSocketState::Open;
    let mut buf = [0u8; 512];
    let n = client
        .close(WebSocketCloseStatusCode::NormalClosure, None, &mut buf)
        .expect("encode close");
    let out = conn.on_bytes(&buf[..n], &mut chan);
    assert!(out.close);
    let mut decoded = [0u8; 512];
    let res = client.read(&out.output, &mut decoded).expect("decode close reply");
    assert_eq!(res.message_type, WebSocketReceiveMessageType::CloseCompleted);
}

#[test]
fn websocket_two_frames_in_one_read_are_both_handled() {
    let mut chan = PixelChannel::new();
    let mut conn = open_session(&mut chan);
    let mut bytes = client_frame(WebSocketSendMessageType::Binary, &[1, 1, 1]);
    bytes.extend_from_slice(&client_frame(WebSocketSendMessageType::Binary, &[2, 2, 0]));
    let out = conn.on_bytes(&bytes, &mut chan);
    assert!(!out.close);
    assert_eq!(chan.try_read(), Some((1, 1, 1)));
    assert_eq!(chan.try_read(), Some((2, 2, 0)));
}

#[test]
fn websocket_partial_frame_waits_for_more_bytes() {
    let mut chan = PixelChannel::new();
    let mut conn = open_session(&mut chan);
    let frame = client_frame(WebSocketSendMessageType::Binary, &[9, 9, 1]);
    let (first, second) = frame.split_at(1);
    let out = conn.on_bytes(first, &mut chan);
    assert!(!out.close);
    assert_eq!(chan.try_read(), None);
    let out = conn.on_bytes(second, &mut chan);
    assert!(!out.close);
    assert_eq!(chan.try_read(), Some((9, 9, 1)));
}

#[test]
fn oversized_handshake_key_falls_back_to_routing() {
    // A key that cannot fit the handshake's fixed 24-byte strings is no
    // usable upgrade: the request is routed as plain HTTP instead.
    let mut chan = PixelChannel::new();
    let mut conn = Connection::new();
    let request = b"GET /ws HTTP/1.1\r\nHost: device\r\nUpgrade: websocket\r\nConnection: Upgrade\r\nSec-WebSocket-Key: this-key-is-way-longer-than-twenty-four-bytes\r\nSec-WebSocket-Version: 13\r\n\r\n";
    let out = conn.on_bytes(request, &mut chan);
    assert!(out.close);
    assert!(response_text(&out.output).starts_with("HTTP/1.1 404 Not Found"));
    assert_eq!(chan.try_read(), None);
}

#[test]
fn upgrade_without_key_falls_back_to_routing() {
    let mut chan = PixelChannel::new();
    let mut conn = Connection::new();
    let request = b"GET /ws HTTP/1.1\r\nHost: device\r\nUpgrade: websocket\r\nConnection: Upgrade\r\nSec-WebSocket-Version: 13\r\n\r\n";
    let out = conn.on_bytes(request, &mut chan);
    assert!(out.close);
    assert!(response_text(&out.output).starts_with("HTTP/1.1 404 Not Found"));
    assert_eq!(chan.try_read(), None);
}

#[test]
fn fragmented_record_is_reassembled() {
    // A 3-byte record sent as a fragmented message: a first piece without
    // the final bit, then the continuation that ends it.
    let mut chan = PixelChannel::new();
    let mut conn = open_session(&mut chan);
    let mut client: WebSocketClient<EmptyRng> = WebSocketClient::new_client(EmptyRng::new());
    client.state = WebSocketState::Open;
    let mut buf = [0u8; 512];
    let n = client
        .write(WebSocketSendMessageType::Binary, false, &[10], &mut buf)
        .expect("encode first piece");
    let out = conn.on_bytes(&buf[..n], &mut chan);
    assert!(!out.close);
    assert_eq!(chan.try_read(), None);
    let n = client
        .write(WebSocketSendMessageType::Binary, true, &[5, 1], &mut buf)
        .expect("encode final piece");
    let out = conn.on_bytes(&buf[..n], &mut chan);
    assert!(!out.close);
    assert_eq!(chan.try_read(), Some((10, 5, 1)));
}

#[test]
fn record_split_inside_the_frame_is_reassembled() {
    // One final frame whose payload is split by TCP delivery: the first read
    // holds the header and one payload byte, the second the rest.
    let mut chan = PixelChannel::new();
    let mut conn = open_session(&mut chan);
    let frame = client_frame(WebSocketSendMessageType::Binary, &[7, 8, 1]);
    let cut = frame.len() - 2;
    let out = conn.on_bytes(&frame[..cut], &mut chan);
    assert!(!out.close);
    assert_eq!(chan.try_read(), None);
    let out = conn.on_bytes(&frame[cut..], &mut chan);
    assert!(!out.close);
    assert_eq!(chan.try_read(), Some((7, 8, 1)));
}

#[test]
fn overlong_request_head_abandons_the_connection() {
    let mut chan = PixelChannel::new();
    let mut conn = Connection::new();
    let mut request = b"GET / HTTP/1.1\r\nHost: device\r\nX-Filler: ".to_vec();
    request.extend_from_slice(&[b'a'; 2000]);
    let out = conn.on_bytes(&request, &mut chan);
    assert!(out.close);
    assert!(out.output.is_empty());
}
