//! Trusted interface to the embedded-websocket crate: the server-side frame
//! codec behind the persistent dialect. Each item here wraps exactly one
//! function of that crate; everything decided from their results is verified
//! in the session module.

use vstd::prelude::*;

use crate::byteseq::eq_ignore_case;
use crate::http::headers_view;
use vstd::string::StringSliceAdditionalSpecFns;

verus! {

/// Byte capacity of the decode buffer one frame payload must fit into.
pub const FRAME_BUFFER_LEN: usize = 512;

/// The server-side frame codec of the embedded-websocket crate, held
/// opaquely: its generic head carries that crate's trait bounds, which the
/// verifier does not take in a type declaration, so the codec lives in a
/// hidden field and is reached only through the wrappers below.
#[verifier::external_body]
pub struct WsServer {
    inner: embedded_websocket::WebSocketServer,
}

#[verifier::external_type_specification]
#[verifier::external_body]
pub struct ExReceiveMessageType(embedded_websocket::WebSocketReceiveMessageType);

/// Kind of one decoded inbound frame.
#[derive(PartialEq, Eq, Structural, Clone, Copy, Debug)]
pub enum FrameKind {
    /// A UTF-8 text message.
    Text,
    /// A binary message: the payload may carry a pixel record.
    Binary,
    /// The peer answered a close we sent; the close handshake is complete.
    CloseCompleted,
    /// The peer initiated a close; a close reply is owed before closing.
    CloseMustReply,
    /// A ping; a pong echoing the payload is owed.
    Ping,
    /// A pong.
    Pong,
}

/// Kind of a frame the server sends back.
#[derive(PartialEq, Eq, Structural, Clone, Copy, Debug)]
pub enum SendKind {
    /// Echo of a ping's payload.
    Pong,
    /// Reply completing a peer-initiated close handshake.
    CloseReply,
}

/// Outcome of feeding inbound bytes to the frame decoder.
pub enum FrameOutcome {
    /// One decoded frame or frame piece: its kind, its unmasked payload so
    /// far, whether it ends a message, and how many input bytes it consumed.
    Frame { kind: FrameKind, payload: Vec<u8>, end_of_message: bool, consumed: usize },
    /// The input holds no complete frame header yet: wait for more bytes.
    Incomplete,
    /// The input cannot be decoded as a frame.
    Failed,
}

/// Relies on embedded_websocket::WebSocketServer::new_server: a fresh
/// server-side codec that still awaits its opening handshake.
#[verifier::external_body]
pub fn ws_new_server() -> WsServer {
    WsServer { inner: embedded_websocket::WebSocketServer::new_server() }
}

/// No header that the websocket handshake would copy into its fixed
/// 24-byte key and sub-protocol strings is longer than those strings.
pub open spec fn headers_safe(hs: Seq<(Seq<u8>, Seq<u8>)>) -> bool {
    &&& forall|i: int|
        0 <= i < hs.len() && eq_ignore_case(hs[i].0, "sec-websocket-key".spec_bytes())
            ==> hs[i].1.len() <= 24
    &&& forall|i: int|
        0 <= i < hs.len() && eq_ignore_case(hs[i].0, "sec-websocket-protocol".spec_bytes())
            ==> hs[i].1.len() <= 24
}

/// Relies on embedded_websocket::read_http_header: scans the request headers
/// and, when they announce a websocket upgrade, hands back the client's
/// `Sec-WebSocket-Key` for the accept computation. That crate copies key and
/// sub-protocol values into fixed 24-byte strings and does not return on
/// longer ones, so such headers are excluded here; the caller checks them
/// first.
#[verifier::external_body]
pub fn ws_parse_upgrade(headers: &Vec<(Vec<u8>, Vec<u8>)>) -> (r: Option<String>)
    requires
        headers_safe(headers_view(headers@)),
    ensures
        (r is Some) == (upgrade_key_of(headers_view(headers@)) is Some),
        r matches Some(k) ==> upgrade_key_of(headers_view(headers@)) == Some(k@) && k@.len() <= 24,
        r is Some ==> exists|i: int|
            0 <= i < headers_view(headers@).len() && eq_ignore_case(
                headers_view(headers@)[i].0,
                "upgrade".spec_bytes(),
            ) && eq_ignore_case(headers_view(headers@)[i].1, "websocket".spec_bytes()),
{
    let iter = headers.iter().map(|h| (core::str::from_utf8(h.0.as_slice()).unwrap_or(""), h.1.as_slice()));
    match embedded_websocket::read_http_header(iter) {
        Ok(Some(ctx)) => Some(ctx.sec_websocket_key.as_str().to_string()),
        Ok(None) => None,
        Err(_) => None,
    }
}

/// The upgrade decision the codec reads out of the headers: a function of
/// the headers alone — the client's `Sec-WebSocket-Key` when they announce a
/// websocket upgrade, or nothing.
pub uninterp spec fn upgrade_key_of(hs: Seq<(Seq<u8>, Seq<u8>)>) -> Option<Seq<char>>;

/// The `101 Switching Protocols` response the codec builds for a handshake
/// key: a fixed function of the key alone (an SHA-1 digest, base64-encoded,
/// inside a fixed header template).
pub uninterp spec fn accept_response_of(key: Seq<char>) -> Seq<u8>;

/// Relies on embedded_websocket::WebSocket::server_accept: computes the
/// accept string for the client's key and builds the complete `101
/// Switching Protocols` response, opening the websocket.
#[verifier::external_body]
pub fn ws_accept(ws: &mut WsServer, key: &String) -> (r: Option<
    Vec<u8>,
>)
    ensures
        r matches Some(v) ==> v@ == accept_response_of(key@),
{
    let k = match <embedded_websocket::WebSocketKey as core::str::FromStr>::from_str(key.as_str()) {
        Ok(k) => k,
        Err(_) => return None,
    };
    let mut buf = vec![0u8; FRAME_BUFFER_LEN];
    match ws.inner.server_accept(&k, None, &mut buf) {
        Ok(n) => {
            buf.truncate(n);
            Some(buf)
        }
        Err(_) => None,
    }
}

/// Relies on embedded_websocket::WebSocketReceiveMessageType: names its
/// variants one for one.
#[verifier::external_body]
fn frame_kind_of(t: embedded_websocket::WebSocketReceiveMessageType) -> FrameKind {
    match t {
        embedded_websocket::WebSocketReceiveMessageType::Text => FrameKind::Text,
        embedded_websocket::WebSocketReceiveMessageType::Binary => FrameKind::Binary,
        embedded_websocket::WebSocketReceiveMessageType::CloseCompleted => FrameKind::CloseCompleted,
        embedded_websocket::WebSocketReceiveMessageType::CloseMustReply => FrameKind::CloseMustReply,
        embedded_websocket::WebSocketReceiveMessageType::Ping => FrameKind::Ping,
        embedded_websocket::WebSocketReceiveMessageType::Pong => FrameKind::Pong,
    }
}

/// Relies on embedded_websocket::WebSocket::read: decodes at most one frame
/// from the front of `input` into an unmasked payload, reporting how many
/// input bytes it consumed, or that the input holds no complete frame header
/// yet, or that it cannot be decoded. A frame whose payload does not fit one
/// call arrives as several pieces; only the last has `end_of_message` set.
/// The codec can return a piece that consumed nothing (it holds a drained
/// continuation of an unfinished message): a caller must not count on
/// progress and should abandon the connection on a zero-byte frame.
#[verifier::external_body]
pub fn ws_read_frame(ws: &mut WsServer, input: &[u8]) -> (r:
    FrameOutcome)
    requires
        input@.len() > 0,
    ensures
        r matches FrameOutcome::Frame { kind, payload, end_of_message, consumed } ==> consumed
            <= input@.len() && payload@.len() <= FRAME_BUFFER_LEN,
{
    let mut buf = vec![0u8; FRAME_BUFFER_LEN];
    match ws.inner.read(input, &mut buf) {
        Ok(res) => {
            buf.truncate(res.len_to);
            FrameOutcome::Frame {
                kind: frame_kind_of(res.message_type),
                payload: buf,
                end_of_message: res.end_of_message,
                consumed: res.len_from,
            }
        }
        Err(embedded_websocket::Error::ReadFrameIncomplete) => FrameOutcome::Incomplete,
        Err(_) => FrameOutcome::Failed,
    }
}

/// The frame the codec encodes around a payload the library sends back: a
/// function of the send kind and the payload alone. The library only ever
/// writes final frames through the wrapper below, and every codec value in
/// the crate comes from `ws_new_server`, so the codec's write-continuation
/// flag stays clear and the encoding depends on nothing else.
pub uninterp spec fn server_frame_of(kind: SendKind, payload: Seq<u8>) -> Seq<u8>;

/// Relies on embedded_websocket::WebSocket::write: encodes one unmasked,
/// final server frame around the payload — the opcode byte with the final
/// bit (pong 0x8a, close reply 0x88), a 2-, 4- or 10-byte header by payload
/// length, then the payload itself unchanged.
#[verifier::external_body]
pub fn ws_write_frame(
    ws: &mut WsServer,
    kind: SendKind,
    payload: &[u8],
) -> (r: Option<Vec<u8>>)
    ensures
        r matches Some(v) ==> v@ == server_frame_of(kind, payload@),
        r matches Some(v) ==> v@[0] == (if kind == SendKind::Pong { 0x8a as u8 } else { 0x88 as u8 }),
        r matches Some(v) ==> payload@.len() < 126 ==> v@.len() == payload@.len() + 2,
        r matches Some(v) ==> 126 <= payload@.len() < 65535 ==> v@.len() == payload@.len() + 4,
        r matches Some(v) ==> payload@.len() >= 65535 ==> v@.len() == payload@.len() + 10,
        r matches Some(v) ==> v@.subrange(v@.len() - payload@.len(), v@.len() as int) == payload@,
{
    let mt = match kind {
        SendKind::Pong => embedded_websocket::WebSocketSendMessageType::Pong,
        SendKind::CloseReply => embedded_websocket::WebSocketSendMessageType::CloseReply,
    };
    let mut buf = vec![0u8; payload.len() + 16];
    match ws.inner.write(mt, true, payload, &mut buf) {
        Ok(n) => {
            buf.truncate(n);
            Some(buf)
        }
        Err(_) => None,
    }
}

} // verus!
