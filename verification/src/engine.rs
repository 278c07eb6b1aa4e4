//! The per-connection protocol engine: accumulate inbound bytes in the fixed
//! read buffer, decide the dialect from the first complete request head, and
//! then either answer one request and close (request/response dialect) or
//! complete the websocket handshake and run the frame loop (persistent
//! dialect). Decode failures answer with an error response where the dialect
//! has one; resource exhaustion abandons only this connection.

use vstd::prelude::*;
use vstd::string::StringSliceAdditionalSpecFns;

use crate::byteseq::{append_bytes, sub_bytes};
use crate::channel::PixelChannel;
use crate::http::{
    bad_request_body, content_length, head_fields, head_is_complete, head_is_malformed,
    head_is_partial, headers_view, parse_request_head, response_bytes, route_channel,
    route_request, HeadParse, HttpStatus,
};
use crate::session::{
    record_valid, session_channel, session_feed, AsmModel, MessageAssembly, SessionState,
};
use crate::wsproto::{
    accept_response_of, headers_safe, upgrade_key_of, ws_accept, ws_new_server, ws_parse_upgrade,
    FrameKind, WsServer,
};

verus! {

/// Byte capacity of the per-connection read buffer, shared by both dialects.
/// A request head or frame that does not fit before it completes has the
/// connection abandoned.
pub const READ_BUFFER_CAPACITY: usize = 1024;

/// What the server loop owes the socket after feeding bytes: write `output`
/// (possibly empty), then close the socket if `close` — otherwise keep the
/// connection and read more bytes.
pub struct ConnOutput {
    /// Bytes owed to the peer.
    pub output: Vec<u8>,
    /// The connection is finished once `output` is written.
    pub close: bool,
}

/// One legal move of the connection lifecycle. Mode detection can only open
/// a session or finish the connection; an open session never regresses to
/// the handshake; `Closed` is terminal.
pub open spec fn state_step_ok(s0: SessionState, s1: SessionState) -> bool {
    match s0 {
        SessionState::AwaitingHandshake => s1 == SessionState::AwaitingHandshake || s1
            == SessionState::Open || s1 == SessionState::RepliedPong || s1 == SessionState::Closed,
        SessionState::Open => s1 == SessionState::Open || s1 == SessionState::RepliedPong || s1
            == SessionState::Closed,
        SessionState::RepliedPong => s1 == SessionState::Open || s1 == SessionState::RepliedPong
            || s1 == SessionState::Closed,
        SessionState::Closing => s1 == SessionState::Closed,
        SessionState::Closed => s1 == SessionState::Closed,
    }
}

/// The headers announce a websocket upgrade with a usable (nonempty) key.
pub open spec fn is_ws_upgrade(hs: Seq<(Seq<u8>, Seq<u8>)>) -> bool {
    upgrade_key_of(hs) matches Some(k) && k.len() > 0
}

/// The key of an announced upgrade.
pub open spec fn ws_key(hs: Seq<(Seq<u8>, Seq<u8>)>) -> Seq<char> {
    match upgrade_key_of(hs) {
        Some(k) => k,
        None => Seq::empty(),
    }
}

/// What mode detection owes for buffered bytes `b`, assembly `a` and channel
/// `q0`: how its output `out`, channel `q1`, close flag, next state and kept
/// buffer must look, case by case over the parse of `b`.
pub open spec fn handshake_step_ok(
    b: Seq<u8>,
    a: AsmModel,
    q0: Seq<(u8, u8, u8)>,
    out: Seq<u8>,
    q1: Seq<(u8, u8, u8)>,
    closed: bool,
    st1: SessionState,
    pend1: Seq<u8>,
) -> bool {
    &&& (head_is_partial(b) && b.len() < READ_BUFFER_CAPACITY ==> !closed && st1
        == SessionState::AwaitingHandshake && pend1 == b && out == Seq::<u8>::empty() && q1 == q0)
    &&& (head_is_partial(b) && b.len() >= READ_BUFFER_CAPACITY ==> closed && out == Seq::<
        u8,
    >::empty() && q1 == q0)
    &&& (head_is_malformed(b) ==> closed && out == response_bytes(
        HttpStatus::BadRequest400,
        bad_request_body(),
    ) && q1 == q0)
    &&& (head_is_complete(b) ==> ({
        let (m, p, hs, hl) = head_fields(b);
        &&& (headers_safe(hs) && is_ws_upgrade(hs) ==> ({
            ||| (closed && out == Seq::<u8>::empty() && q1 == q0)
            ||| (accept_response_of(ws_key(hs)).is_prefix_of(out) && exists|
                hist: Seq<(FrameKind, Seq<u8>, bool)>,
            |
                q1 == session_channel(q0, a, hist))
        }))
        &&& (!(headers_safe(hs) && is_ws_upgrade(hs)) ==> ({
            let clen = crate::http::spec_content_length(hs);
            &&& (hl + clen > READ_BUFFER_CAPACITY ==> closed && out == Seq::<u8>::empty() && q1
                == q0)
            &&& (hl + clen <= READ_BUFFER_CAPACITY && b.len() < hl + clen ==> !closed && st1
                == SessionState::AwaitingHandshake && pend1 == b && out == Seq::<u8>::empty() && q1
                == q0)
            &&& (hl + clen <= READ_BUFFER_CAPACITY && b.len() >= hl + clen ==> closed && out
                == crate::http::route_response(m, p, b.subrange(hl, hl + clen)) && q1
                == route_channel(m, p, b.subrange(hl, hl + clen), q0))
        }))
    }))
}

/// Transient per-socket state: the frame codec, the lifecycle state, the
/// message reassembly, and the read buffer of bytes not yet consumed.
/// Destroyed when the socket closes; a new connection starts over at the
/// handshake.
pub struct Connection {
    ws: WsServer,
    state: SessionState,
    reasm: MessageAssembly,
    buf: Vec<u8>,
}

impl Connection {
    /// Current lifecycle state.
    pub closed spec fn spec_state(&self) -> SessionState {
        self.state
    }

    /// Inbound bytes accumulated and not yet consumed.
    pub closed spec fn pending(&self) -> Seq<u8> {
        self.buf@
    }

    /// Reassembly state of the in-flight message.
    pub closed spec fn assembly(&self) -> AsmModel {
        self.reasm@
    }

    /// The read buffer is within capacity, the reassembly is well formed,
    /// and the lifecycle never rests in the transient `Closing` state
    /// between calls.
    pub open spec fn wf(&self) -> bool {
        &&& self.pending().len() <= READ_BUFFER_CAPACITY
        &&& self.spec_state() != SessionState::Closing
        &&& self.asm_wf()
    }

    /// The reassembly invariant, named so callers can speak of it.
    pub closed spec fn asm_wf(&self) -> bool {
        self.reasm.wf()
    }

    /// A fresh connection awaiting its first bytes.
    pub fn new() -> (c: Connection)
        ensures
            c.wf(),
            c.spec_state() == SessionState::AwaitingHandshake,
            c.pending().len() == 0,
    {
        Connection {
            ws: ws_new_server(),
            state: SessionState::AwaitingHandshake,
            reasm: MessageAssembly::new(),
            buf: Vec::new(),
        }
    }

    /// Current lifecycle state.
    pub fn state(&self) -> (s: SessionState)
        ensures
            s == self.spec_state(),
    {
        self.state
    }

    /// Feed bytes read from the socket into the engine. The lifecycle only
    /// moves forward, the connection is reported closed exactly when the
    /// terminal state is reached, everything the engine ever writes into the
    /// channel is a valid 3-byte record, and output and channel are pinned
    /// case by case: mode detection per `handshake_step_ok` over the
    /// accumulated bytes, an open session per the frame fold, buffer
    /// overflow and a finished connection by silent abandonment.
    pub fn on_bytes(&mut self, incoming: &[u8], chan: &mut PixelChannel) -> (r: ConnOutput)
        requires
            old(self).wf(),
            old(chan).wf(),
        ensures
            final(self).wf(),
            final(chan).wf(),
            state_step_ok(old(self).spec_state(), final(self).spec_state()),
            r.close == (final(self).spec_state() == SessionState::Closed),
            forall|i: int|
                0 <= i < final(chan)@.len() ==> old(chan)@.contains(final(chan)@[i])
                    || record_valid(final(chan)@[i]),
            old(self).spec_state() == SessionState::Closed ==> r.close && r.output@ == Seq::<
                u8,
            >::empty() && final(chan)@ == old(chan)@,
            old(self).spec_state() != SessionState::Closed && old(self).pending().len()
                + incoming@.len() > READ_BUFFER_CAPACITY ==> r.close && r.output@ == Seq::<
                u8,
            >::empty() && final(chan)@ == old(chan)@,
            old(self).spec_state() == SessionState::AwaitingHandshake && old(self).pending().len()
                + incoming@.len() <= READ_BUFFER_CAPACITY ==> handshake_step_ok(
                old(self).pending() + incoming@,
                old(self).assembly(),
                old(chan)@,
                r.output@,
                final(chan)@,
                r.close,
                final(self).spec_state(),
                final(self).pending(),
            ),
            (old(self).spec_state() == SessionState::Open || old(self).spec_state()
                == SessionState::RepliedPong) && old(self).pending().len() + incoming@.len()
                <= READ_BUFFER_CAPACITY ==> (exists|hist: Seq<(FrameKind, Seq<u8>, bool)>|
                final(chan)@ == session_channel(old(chan)@, old(self).assembly(), hist))
                && (final(self).spec_state() != SessionState::Closed ==> exists|k: int|
                0 <= k <= (old(self).pending() + incoming@).len() && final(self).pending() == (
                old(self).pending() + incoming@).subrange(
                    k,
                    (old(self).pending() + incoming@).len() as int,
                )),
    {
        if self.state == SessionState::Closed {
            return ConnOutput { output: Vec::new(), close: true };
        }
        if incoming.len() > READ_BUFFER_CAPACITY || self.buf.len() > READ_BUFFER_CAPACITY
            - incoming.len() {
            self.state = SessionState::Closed;
            self.buf = Vec::new();
            return ConnOutput { output: Vec::new(), close: true };
        }
        append_bytes(&mut self.buf, incoming);

        if self.state == SessionState::AwaitingHandshake {
            self.on_handshake_bytes(chan)
        } else {
            let (r, g) = self.on_session_bytes(chan);
            proof {
                assert(chan@ == session_channel(old(chan)@, old(self).assembly(), g@));
                if self.spec_state() != SessionState::Closed {
                    let b = old(self).pending() + incoming@;
                    let k = choose|k: int|
                        0 <= k <= b.len() && self.pending() == b.subrange(k, b.len() as int);
                }
            }
            r
        }
    }

    /// Mode detection: try to read one complete request head off the buffer
    /// and commit to a dialect, as `handshake_step_ok` describes.
    fn on_handshake_bytes(&mut self, chan: &mut PixelChannel) -> (r: ConnOutput)
        requires
            old(self).spec_state() == SessionState::AwaitingHandshake,
            old(self).pending().len() <= READ_BUFFER_CAPACITY,
            old(self).asm_wf(),
            old(chan).wf(),
        ensures
            final(self).wf(),
            final(chan).wf(),
            state_step_ok(old(self).spec_state(), final(self).spec_state()),
            r.close == (final(self).spec_state() == SessionState::Closed),
            forall|i: int|
                0 <= i < final(chan)@.len() ==> old(chan)@.contains(final(chan)@[i])
                    || record_valid(final(chan)@[i]),
            handshake_step_ok(
                old(self).pending(),
                old(self).assembly(),
                old(chan)@,
                r.output@,
                final(chan)@,
                r.close,
                final(self).spec_state(),
                final(self).pending(),
            ),
    {
        let ghost b = old(self).pending();
        match parse_request_head(self.buf.as_slice()) {
            HeadParse::Partial => {
                if self.buf.len() >= READ_BUFFER_CAPACITY {
                    self.state = SessionState::Closed;
                    self.buf = Vec::new();
                    ConnOutput { output: Vec::new(), close: true }
                } else {
                    ConnOutput { output: Vec::new(), close: false }
                }
            }
            HeadParse::Malformed => {
                self.state = SessionState::Closed;
                self.buf = Vec::new();
                let resp = crate::http::build_response(
                    HttpStatus::BadRequest400,
                    "Bad Request".as_bytes(),
                );
                ConnOutput { output: resp, close: true }
            }
            HeadParse::Complete { method, path, headers, head_len } => {
                let safe = check_headers_safe(&headers);
                let mut upgrade_key: Option<String> = None;
                if safe {
                    match ws_parse_upgrade(&headers) {
                        Some(k) => {
                            let ks: &str = &k;
                            if !ks.is_empty() {
                                upgrade_key = Some(k);
                            }
                        }
                        None => {}
                    }
                }
                proof {
                    assert((upgrade_key is Some) == (headers_safe(headers_view(headers@))
                        && is_ws_upgrade(headers_view(headers@))));
                }
                match upgrade_key {
                    Some(key) => {
                        match ws_accept(&mut self.ws, &key) {
                            Some(resp) => {
                                let rest = sub_bytes(self.buf.as_slice(), head_len, self.buf.len());
                                self.buf = Vec::new();
                                let mut output = resp;
                                let ghost accept = output@;
                                if rest.len() > 0 {
                                    let mut extra: Vec<u8> = Vec::new();
                                    let (st, consumed, g) = session_feed(
                                        &mut self.ws,
                                        SessionState::Open,
                                        &rest,
                                        &mut self.reasm,
                                        chan,
                                        &mut extra,
                                    );
                                    append_bytes(&mut output, extra.as_slice());
                                    proof {
                                        assert(accept.is_prefix_of(output@)) by {
                                            assert(output@.subrange(0, accept.len() as int)
                                                =~= accept);
                                        }
                                        assert(chan@ == session_channel(
                                            old(chan)@,
                                            old(self).assembly(),
                                            g@,
                                        ));
                                    }
                                    self.state = st;
                                    if st == SessionState::Closed {
                                        return ConnOutput { output, close: true };
                                    }
                                    self.buf = sub_bytes(rest.as_slice(), consumed, rest.len());
                                } else {
                                    self.state = SessionState::Open;
                                    proof {
                                        let hist = Seq::<(FrameKind, Seq<u8>, bool)>::empty();
                                        assert(chan@ == session_channel(
                                            chan@,
                                            old(self).assembly(),
                                            hist,
                                        ));
                                    }
                                }
                                ConnOutput { output, close: false }
                            }
                            None => {
                                self.state = SessionState::Closed;
                                self.buf = Vec::new();
                                ConnOutput { output: Vec::new(), close: true }
                            }
                        }
                    }
                    None => {
                        let clen = content_length(&headers);
                        if clen > READ_BUFFER_CAPACITY || head_len > READ_BUFFER_CAPACITY - clen {
                            self.state = SessionState::Closed;
                            self.buf = Vec::new();
                            return ConnOutput { output: Vec::new(), close: true };
                        }
                        if self.buf.len() < head_len + clen {
                            return ConnOutput { output: Vec::new(), close: false };
                        }
                        let body = sub_bytes(self.buf.as_slice(), head_len, head_len + clen);
                        let resp = route_request(&method, &path, body.as_slice(), chan);
                        proof {
                            lemma_route_records_valid(method@, path@, body@, old(chan)@);
                        }
                        self.state = SessionState::Closed;
                        self.buf = Vec::new();
                        ConnOutput { output: resp, close: true }
                    }
                }
            }
        }
    }

    /// Drive the open session with the buffered bytes: the channel becomes
    /// exactly the fold of the per-frame effects over the frames decoded
    /// from the consumed prefix, replies are collected into the output, and
    /// the unconsumed suffix is kept for the next call.
    fn on_session_bytes(&mut self, chan: &mut PixelChannel) -> (r: (
        ConnOutput,
        Ghost<Seq<(FrameKind, Seq<u8>, bool)>>,
    ))
        requires
            old(self).spec_state() == SessionState::Open || old(self).spec_state()
                == SessionState::RepliedPong,
            old(self).pending().len() <= READ_BUFFER_CAPACITY,
            old(self).asm_wf(),
            old(chan).wf(),
        ensures
            final(self).wf(),
            final(chan).wf(),
            state_step_ok(old(self).spec_state(), final(self).spec_state()),
            r.0.close == (final(self).spec_state() == SessionState::Closed),
            forall|i: int|
                0 <= i < final(chan)@.len() ==> old(chan)@.contains(final(chan)@[i])
                    || record_valid(final(chan)@[i]),
            final(chan)@ == session_channel(old(chan)@, old(self).assembly(), r.1@),
            final(self).spec_state() != SessionState::Closed ==> exists|k: int|
                0 <= k <= old(self).pending().len() && final(self).pending() == old(
                self,
            ).pending().subrange(k, old(self).pending().len() as int),
    {
        let mut feed: Vec<u8> = Vec::new();
        core::mem::swap(&mut feed, &mut self.buf);
        let mut output: Vec<u8> = Vec::new();
        let st0 = self.state;
        let (st, consumed, g) = session_feed(
            &mut self.ws,
            st0,
            &feed,
            &mut self.reasm,
            chan,
            &mut output,
        );
        self.state = st;
        if st == SessionState::Closed {
            self.buf = Vec::new();
            (ConnOutput { output, close: true }, g)
        } else {
            self.buf = sub_bytes(feed.as_slice(), consumed, feed.len());
            proof {
                assert(0 <= consumed <= old(self).pending().len() && self.pending() == old(
                    self,
                ).pending().subrange(consumed as int, old(self).pending().len() as int));
            }
            (ConnOutput { output, close: false }, g)
        }
    }
}

/// Check `headers_safe` on a parsed header list.
fn check_headers_safe(headers: &Vec<(Vec<u8>, Vec<u8>)>) -> (r: bool)
    ensures
        r == headers_safe(headers_view(headers@)),
{
    let ghost hv = headers_view(headers@);
    let key_name = "sec-websocket-key".as_bytes();
    let proto_name = "sec-websocket-protocol".as_bytes();
    let mut i: usize = 0;
    while i < headers.len()
        invariant
            i <= headers@.len(),
            hv == headers_view(headers@),
            key_name@ == "sec-websocket-key".spec_bytes(),
            proto_name@ == "sec-websocket-protocol".spec_bytes(),
            forall|j: int|
                0 <= j < i && crate::byteseq::eq_ignore_case(
                    hv[j].0,
                    "sec-websocket-key".spec_bytes(),
                ) ==> hv[j].1.len() <= 24,
            forall|j: int|
                0 <= j < i && crate::byteseq::eq_ignore_case(
                    hv[j].0,
                    "sec-websocket-protocol".spec_bytes(),
                ) ==> hv[j].1.len() <= 24,
        decreases headers@.len() - i,
    {
        proof {
            assert(hv[i as int] == (headers@[i as int].0@, headers@[i as int].1@));
        }
        let name = headers[i].0.as_slice();
        if (crate::byteseq::bytes_eq_ignore_case(name, key_name)
            || crate::byteseq::bytes_eq_ignore_case(name, proto_name)) && headers[i].1.len() > 24 {
            return false;
        }
        i = i + 1;
    }
    true
}

/// Every record the request/response dialect writes is a valid 3-byte
/// record: an in-range pixel or the clear sentinel.
proof fn lemma_route_records_valid(
    method: Seq<char>,
    path: Seq<char>,
    body: Seq<u8>,
    q: Seq<(u8, u8, u8)>,
)
    ensures
        forall|i: int|
            0 <= i < route_channel(method, path, body, q).len() ==> q.contains(
                route_channel(method, path, body, q)[i],
            ) || record_valid(route_channel(method, path, body, q)[i]),
{
    if method == "POST"@ && path == "/pixel"@ {
        match crate::json::spec_parse_pixel_body(body) {
            Some((x, y, state)) => {
                if crate::canvas::coords_in_range(x, y) {
                    let rec = (x, y, if state { 1 as u8 } else { 0 as u8 });
                    assert(record_valid(rec));
                    crate::channel::lemma_write_elements(q, rec);
                } else {
                    lemma_self_elements(q);
                }
            }
            None => {
                lemma_self_elements(q);
            }
        }
    } else if method == "POST"@ && path == "/clear"@ {
        let rec = (
            crate::command::CLEAR_BYTE_X,
            crate::command::CLEAR_BYTE_Y,
            crate::command::CLEAR_BYTE_STATE,
        );
        assert(record_valid(rec));
        crate::channel::lemma_write_elements(q, rec);
    } else {
        lemma_self_elements(q);
    }
}

/// A sequence contains each of its own elements.
proof fn lemma_self_elements(q: Seq<(u8, u8, u8)>)
    ensures
        forall|i: int| 0 <= i < q.len() ==> q.contains(q[i]),
{
    assert forall|i: int| 0 <= i < q.len() implies q.contains(q[i]) by {
        assert(exists|j: int| 0 <= j < q.len() && q[j] == q[i]) by {
            assert(0 <= i < q.len() && q[i] == q[i]);
        }
    }
}

} // verus!
