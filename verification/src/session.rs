//! The persistent dialect after the opening handshake: per-frame decisions
//! of the message loop. Binary message pieces are reassembled until the
//! final piece, and exactly a complete 3-byte message that is a valid record
//! is written to the pixel channel; anything else is dropped silently, since
//! the dialect has no per-message response channel. A complete ping is
//! answered with a pong echoing its payload, a peer-initiated close gets its
//! close reply, and the terminal state is always `Closed`.

use vstd::prelude::*;

use crate::byteseq::append_bytes;
use crate::channel::{lemma_write_elements, spec_channel_write, PixelChannel};
use crate::command::{decode_record, spec_decode};
use crate::wsproto::{
    server_frame_of, ws_read_frame, ws_write_frame, FrameKind, FrameOutcome, SendKind, WsServer,
};

verus! {

/// How many leading bytes of an in-flight message the assembly keeps: one
/// more than a record, enough to tell a 3-byte message apart and name it.
pub const MESSAGE_HEAD_KEEP: usize = 4;

/// Where the running message length saturates; only the exact value 3 ever
/// matters, anything at or beyond this bound is equally oversized.
pub const MESSAGE_TOTAL_CAP: usize = 1024;

/// Lifecycle of a persistent-dialect connection. There is no resumption: a
/// new connection must renegotiate the handshake.
#[derive(PartialEq, Eq, Structural, Clone, Copy, Debug)]
pub enum SessionState {
    /// The opening handshake has not completed yet.
    AwaitingHandshake,
    /// The handshake is done; frames flow.
    Open,
    /// The last frame was a complete ping and its pong was sent; frames
    /// still flow.
    RepliedPong,
    /// The close reply to a peer-initiated close was produced; the
    /// connection terminates next.
    Closing,
    /// Terminal: the connection is finished.
    Closed,
}

/// A 3-byte record carries a decodable command: the clear sentinel or an
/// in-range pixel.
pub open spec fn record_valid(r: (u8, u8, u8)) -> bool {
    spec_decode(r.0, r.1, r.2) is Some
}

/// Model of the reassembly state: the kept head bytes of the in-flight
/// message and its running length.
pub type AsmModel = (Seq<u8>, int);

/// The assembly after one more message piece: the head grows up to the kept
/// bound, the total saturates at its cap.
pub open spec fn asm_feed(a: AsmModel, payload: Seq<u8>) -> AsmModel {
    let joined = a.0 + payload;
    let head = if joined.len() <= MESSAGE_HEAD_KEEP {
        joined
    } else {
        joined.subrange(0, MESSAGE_HEAD_KEEP as int)
    };
    let total = if a.1 + payload.len() >= MESSAGE_TOTAL_CAP {
        MESSAGE_TOTAL_CAP as int
    } else {
        a.1 + payload.len()
    };
    (head, total)
}

/// The assembly after a binary piece: reset once the message ends.
pub open spec fn asm_next(a: AsmModel, payload: Seq<u8>, end_of_message: bool) -> AsmModel {
    if end_of_message {
        (Seq::<u8>::empty(), 0)
    } else {
        asm_feed(a, payload)
    }
}

/// The channel effect of one binary piece: exactly a message that ends here,
/// is 3 bytes in all, and is a valid record is written; a message of any
/// other length, an out-of-range record and an unfinished message write
/// nothing.
pub open spec fn binary_channel(
    a: AsmModel,
    payload: Seq<u8>,
    end_of_message: bool,
    q: Seq<(u8, u8, u8)>,
) -> Seq<(u8, u8, u8)> {
    let f = asm_feed(a, payload);
    if end_of_message && f.1 == 3 && f.0.len() == 3 && record_valid((f.0[0], f.0[1], f.0[2])) {
        spec_channel_write(q, (f.0[0], f.0[1], f.0[2]))
    } else {
        q
    }
}

/// The channel effect of one frame of any kind: only binary pieces write.
pub open spec fn frame_effect_channel(
    kind: FrameKind,
    payload: Seq<u8>,
    end_of_message: bool,
    a: AsmModel,
    q: Seq<(u8, u8, u8)>,
) -> Seq<(u8, u8, u8)> {
    if kind == FrameKind::Binary {
        binary_channel(a, payload, end_of_message, q)
    } else {
        q
    }
}

/// The assembly effect of one frame of any kind: only binary pieces feed it.
pub open spec fn frame_effect_asm(
    kind: FrameKind,
    payload: Seq<u8>,
    end_of_message: bool,
    a: AsmModel,
) -> AsmModel {
    if kind == FrameKind::Binary {
        asm_next(a, payload, end_of_message)
    } else {
        a
    }
}

/// The channel after a whole sequence of frames, each applied in arrival
/// order with the assembly state threaded through.
pub open spec fn session_channel(
    q: Seq<(u8, u8, u8)>,
    a: AsmModel,
    frames: Seq<(FrameKind, Seq<u8>, bool)>,
) -> Seq<(u8, u8, u8)>
    decreases frames.len(),
{
    if frames.len() == 0 {
        q
    } else {
        let f = frames[0];
        session_channel(
            frame_effect_channel(f.0, f.1, f.2, a, q),
            frame_effect_asm(f.0, f.1, f.2, a),
            frames.drop_first(),
        )
    }
}

/// The assembly after a whole sequence of frames.
pub open spec fn session_asm(a: AsmModel, frames: Seq<(FrameKind, Seq<u8>, bool)>) -> AsmModel
    decreases frames.len(),
{
    if frames.len() == 0 {
        a
    } else {
        let f = frames[0];
        session_asm(frame_effect_asm(f.0, f.1, f.2, a), frames.drop_first())
    }
}

/// Folding one more frame at the end is one more step on the fold results.
proof fn lemma_session_fold_snoc(
    q: Seq<(u8, u8, u8)>,
    a: AsmModel,
    frames: Seq<(FrameKind, Seq<u8>, bool)>,
    f: (FrameKind, Seq<u8>, bool),
)
    ensures
        session_channel(q, a, frames.push(f)) == frame_effect_channel(
            f.0,
            f.1,
            f.2,
            session_asm(a, frames),
            session_channel(q, a, frames),
        ),
        session_asm(a, frames.push(f)) == frame_effect_asm(f.0, f.1, f.2, session_asm(a, frames)),
    decreases frames.len(),
{
    if frames.len() == 0 {
        let e = frames.push(f);
        assert(e[0] == f);
        assert(e.drop_first() =~= Seq::<(FrameKind, Seq<u8>, bool)>::empty());
        let q1 = frame_effect_channel(f.0, f.1, f.2, a, q);
        let a1 = frame_effect_asm(f.0, f.1, f.2, a);
        assert(session_channel(q, a, e) == session_channel(q1, a1, e.drop_first()));
        assert(session_channel(q1, a1, e.drop_first()) == q1);
        assert(session_asm(a, e) == session_asm(a1, e.drop_first()));
        assert(session_asm(a1, e.drop_first()) == a1);
        assert(session_channel(q, a, frames) == q);
        assert(session_asm(a, frames) == a);
    } else {
        assert(frames.push(f)[0] == frames[0]);
        assert(frames.push(f).drop_first() =~= frames.drop_first().push(f));
        let g = frames[0];
        lemma_session_fold_snoc(
            frame_effect_channel(g.0, g.1, g.2, a, q),
            frame_effect_asm(g.0, g.1, g.2, a),
            frames.drop_first(),
            f,
        );
    }
}

/// Reassembly of one inbound message from its pieces: the message's leading
/// bytes (at most `MESSAGE_HEAD_KEEP` kept) and its running length. Only a
/// message of exactly 3 bytes can become a record, so nothing more needs to
/// be stored.
pub struct MessageAssembly {
    head: Vec<u8>,
    total: usize,
}

impl View for MessageAssembly {
    type V = AsmModel;

    closed spec fn view(&self) -> AsmModel {
        (self.head@, self.total as int)
    }
}

impl MessageAssembly {
    /// The kept head is as long as the message so far, up to the kept bound,
    /// and the total respects its cap.
    pub open spec fn wf(&self) -> bool {
        &&& self@.1 <= MESSAGE_TOTAL_CAP
        &&& self@.0.len() == (if self@.1 <= MESSAGE_HEAD_KEEP {
            self@.1
        } else {
            MESSAGE_HEAD_KEEP as int
        })
    }

    /// No message in flight.
    pub fn new() -> (a: MessageAssembly)
        ensures
            a.wf(),
            a@.0 == Seq::<u8>::empty(),
            a@.1 == 0,
    {
        MessageAssembly { head: Vec::new(), total: 0 }
    }

    /// Take in one more piece of the in-flight message.
    fn feed(&mut self, payload: &Vec<u8>)
        requires
            old(self).wf(),
        ensures
            final(self).wf(),
            final(self)@ == asm_feed(old(self)@, payload@),
    {
        let mut i: usize = 0;
        while i < payload.len() && self.head.len() < MESSAGE_HEAD_KEEP
            invariant
                i <= payload@.len(),
                self.total == old(self).total,
                self.head@ =~= old(self).head@ + payload@.subrange(0, i as int),
                self.head@.len() <= MESSAGE_HEAD_KEEP || i == 0,
                old(self).head@.len() <= MESSAGE_HEAD_KEEP,
            decreases payload@.len() - i,
        {
            self.head.push(payload[i]);
            i = i + 1;
        }
        if payload.len() >= MESSAGE_TOTAL_CAP || self.total >= MESSAGE_TOTAL_CAP - payload.len() {
            self.total = MESSAGE_TOTAL_CAP;
        } else {
            self.total = self.total + payload.len();
        }
        proof {
            let joined = old(self)@.0 + payload@;
            if joined.len() <= MESSAGE_HEAD_KEEP {
                assert(self.head@ =~= joined);
            } else {
                assert(self.head@ =~= joined.subrange(0, MESSAGE_HEAD_KEEP as int));
            }
        }
    }

    /// Forget the completed message.
    fn reset(&mut self)
        ensures
            final(self).wf(),
            final(self)@.0 == Seq::<u8>::empty(),
            final(self)@.1 == 0,
    {
        self.head = Vec::new();
        self.total = 0;
    }

    /// The three bytes of a complete 3-byte message.
    fn head3(&self) -> (r: (u8, u8, u8))
        requires
            self.wf(),
            self@.1 == 3,
        ensures
            r == (self@.0[0], self@.0[1], self@.0[2]),
    {
        (self.head[0], self.head[1], self.head[2])
    }

    /// Running length of the in-flight message.
    fn total(&self) -> (n: usize)
        ensures
            n == self@.1,
    {
        self.total
    }
}

/// What one frame led to: the next session state, the frame to send back if
/// one is owed, and whether the session stays open.
pub struct FrameStep {
    /// Next session state.
    pub state: SessionState,
    /// Encoded frame owed to the peer, if any.
    pub reply: Option<Vec<u8>>,
    /// The session continues; false means the socket is to be closed after
    /// sending any reply.
    pub keep_open: bool,
}

/// Decide what one decoded frame does: binary pieces feed the assembly and a
/// complete valid 3-byte message is written to the channel; a complete ping
/// is answered with the pong frame of its payload; a peer close is answered
/// with the close-reply frame of its payload and ends the session; the next
/// session state in every case.
pub fn handle_frame(
    ws: &mut WsServer,
    state: SessionState,
    kind: FrameKind,
    payload: &Vec<u8>,
    end_of_message: bool,
    reasm: &mut MessageAssembly,
    chan: &mut PixelChannel,
) -> (r: FrameStep)
    requires
        state == SessionState::Open || state == SessionState::RepliedPong,
        old(chan).wf(),
        old(reasm).wf(),
    ensures
        final(chan).wf(),
        final(reasm).wf(),
        final(chan)@ == frame_effect_channel(kind, payload@, end_of_message, old(reasm)@, old(chan)@),
        final(reasm)@ == frame_effect_asm(kind, payload@, end_of_message, old(reasm)@),
        r.state != SessionState::AwaitingHandshake,
        r.keep_open == (r.state == SessionState::Open || r.state == SessionState::RepliedPong),
        kind == FrameKind::Binary ==> r.state == SessionState::Open && r.reply is None,
        kind == FrameKind::Text ==> r.state == SessionState::Open && r.reply is None,
        kind == FrameKind::Pong ==> r.state == SessionState::Open && r.reply is None,
        kind == FrameKind::Ping && end_of_message ==> (r.reply matches Some(v) ==> r.state
            == SessionState::RepliedPong && v@ == server_frame_of(SendKind::Pong, payload@)),
        kind == FrameKind::Ping && end_of_message ==> (r.reply is None ==> r.state
            == SessionState::Closed),
        kind == FrameKind::Ping && !end_of_message ==> r.state == SessionState::Open && r.reply
            is None,
        kind == FrameKind::CloseMustReply ==> !r.keep_open,
        kind == FrameKind::CloseMustReply ==> (r.reply matches Some(v) ==> r.state
            == SessionState::Closing && v@ == server_frame_of(SendKind::CloseReply, payload@)),
        kind == FrameKind::CloseMustReply ==> (r.reply is None ==> r.state == SessionState::Closed),
        kind == FrameKind::CloseCompleted ==> r.state == SessionState::Closed && r.reply is None,
{
    match kind {
        FrameKind::Binary => {
            reasm.feed(payload);
            if end_of_message {
                if reasm.total() == 3 {
                    let (b0, b1, b2) = reasm.head3();
                    match decode_record(b0, b1, b2) {
                        Some(_) => {
                            chan.write(b0, b1, b2);
                        }
                        None => {}
                    }
                }
                reasm.reset();
            }
            FrameStep { state: SessionState::Open, reply: None, keep_open: true }
        }
        FrameKind::Text => FrameStep { state: SessionState::Open, reply: None, keep_open: true },
        FrameKind::Pong => FrameStep { state: SessionState::Open, reply: None, keep_open: true },
        FrameKind::Ping => {
            if end_of_message {
                match ws_write_frame(ws, SendKind::Pong, payload.as_slice()) {
                    Some(v) => FrameStep {
                        state: SessionState::RepliedPong,
                        reply: Some(v),
                        keep_open: true,
                    },
                    None => FrameStep {
                        state: SessionState::Closed,
                        reply: None,
                        keep_open: false,
                    },
                }
            } else {
                FrameStep { state: SessionState::Open, reply: None, keep_open: true }
            }
        }
        FrameKind::CloseMustReply => match ws_write_frame(
            ws,
            SendKind::CloseReply,
            payload.as_slice(),
        ) {
            Some(v) => FrameStep { state: SessionState::Closing, reply: Some(v), keep_open: false },
            None => FrameStep { state: SessionState::Closed, reply: None, keep_open: false },
        },
        FrameKind::CloseCompleted => FrameStep {
            state: SessionState::Closed,
            reply: None,
            keep_open: false,
        },
    }
}

/// Feed one buffer of inbound bytes to an open session: decode and handle
/// the frames at its front, appending any owed reply frames to `out`.
/// Returns the state the session is left in, how many input bytes were
/// consumed, and the frames that were handled; the channel afterwards is
/// exactly the fold of the per-frame channel effect over those frames, in
/// arrival order. An incomplete trailing frame is left unconsumed so the
/// caller can retry once more bytes arrive, and when nothing was consumed,
/// channel and output are untouched. A frame that consumed no bytes means
/// the codec holds a drained unfinished message and can make no progress:
/// the session is abandoned.
pub fn session_feed(
    ws: &mut WsServer,
    st0: SessionState,
    input: &Vec<u8>,
    reasm: &mut MessageAssembly,
    chan: &mut PixelChannel,
    out: &mut Vec<u8>,
) -> (r: (SessionState, usize, Ghost<Seq<(FrameKind, Seq<u8>, bool)>>))
    requires
        st0 == SessionState::Open || st0 == SessionState::RepliedPong,
        old(chan).wf(),
        old(reasm).wf(),
    ensures
        final(chan).wf(),
        final(reasm).wf(),
        r.0 == SessionState::Open || r.0 == SessionState::RepliedPong || r.0
            == SessionState::Closed,
        r.1 <= input@.len(),
        final(chan)@ == session_channel(old(chan)@, old(reasm)@, r.2@),
        final(reasm)@ == session_asm(old(reasm)@, r.2@),
        r.1 == 0 ==> final(chan)@ == old(chan)@ && final(out)@ == old(out)@,
        old(out)@.is_prefix_of(final(out)@),
        forall|i: int|
            0 <= i < final(chan)@.len() ==> old(chan)@.contains(final(chan)@[i]) || record_valid(
                final(chan)@[i],
            ),
{
    let ghost q0 = old(chan)@;
    let ghost a0 = old(reasm)@;
    let ghost mut hist: Seq<(FrameKind, Seq<u8>, bool)> = Seq::empty();
    let mut st = st0;
    let mut offset: usize = 0;
    let mut done = false;
    while offset < input.len() && !done
        invariant
            offset <= input@.len(),
            chan.wf(),
            reasm.wf(),
            st == SessionState::Open || st == SessionState::RepliedPong || st
                == SessionState::Closing || st == SessionState::Closed,
            !done ==> st == SessionState::Open || st == SessionState::RepliedPong,
            chan@ == session_channel(q0, a0, hist),
            reasm@ == session_asm(a0, hist),
            offset == 0 ==> chan@ == q0 && out@ == old(out)@,
            forall|i: int|
                0 <= i < chan@.len() ==> q0.contains(chan@[i]) || record_valid(chan@[i]),
            old(out)@.is_prefix_of(out@),
        decreases input@.len() - offset, (if done {
            0 as int
        } else {
            1 as int
        }),
    {
        let ghost q_before = chan@;
        let ghost a_before = reasm@;
        match ws_read_frame(ws, &input.as_slice()[offset..input.len()]) {
            FrameOutcome::Frame { kind, payload, end_of_message, consumed } => {
                if consumed == 0 {
                    // The codec holds a drained continuation of an
                    // unfinished message and can never move past it.
                    st = SessionState::Closed;
                    done = true;
                } else {
                    let step = handle_frame(ws, st, kind, &payload, end_of_message, reasm, chan);
                    proof {
                        lemma_session_fold_snoc(q0, a0, hist, (kind, payload@, end_of_message));
                        hist = hist.push((kind, payload@, end_of_message));
                        if chan@ != q_before {
                            let f = asm_feed(a_before, payload@);
                            let rec = (f.0[0], f.0[1], f.0[2]);
                            assert(chan@ == spec_channel_write(q_before, rec));
                            assert(record_valid(rec));
                            lemma_write_elements(q_before, rec);
                            assert forall|i: int|
                                0 <= i < chan@.len() implies q0.contains(chan@[i]) || record_valid(
                                chan@[i],
                            ) by {
                                if q_before.contains(chan@[i]) {
                                    let j = choose|j: int|
                                        0 <= j < q_before.len() && q_before[j] == chan@[i];
                                    assert(q0.contains(q_before[j]) || record_valid(q_before[j]));
                                }
                            }
                        }
                    }
                    match step.reply {
                        Some(v) => append_bytes(out, v.as_slice()),
                        None => {}
                    }
                    st = step.state;
                    if !step.keep_open {
                        done = true;
                    }
                    offset = offset + consumed;
                }
            }
            FrameOutcome::Incomplete => {
                done = true;
            }
            FrameOutcome::Failed => {
                st = SessionState::Closed;
                done = true;
            }
        }
    }
    let final_st = if st == SessionState::Closing {
        SessionState::Closed
    } else {
        st
    };
    (final_st, offset, Ghost(hist))
}

} // verus!
