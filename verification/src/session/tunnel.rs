//! A CONNECT-UDP tunnel: what a session does with each message from the HTTP/3 side and
//! with each UDP datagram from the target.
//!
//! A session makes no system call. It is told what has happened, an `Event`, and answers
//! with what to do next, an `Action`.

use bytes::{Bytes, BytesMut};
use vstd::prelude::*;

use crate::buffers;
use crate::protocol::capsule;
use crate::protocol::capsule::{
    decode_capsule, discard_capsule, Capsule, CapsuleParse, CapsuleType,
    DEFAULT_MAX_CAPSULE_PAYLOAD,
};
use crate::protocol::datagram;
use crate::protocol::datagram::{
    decode_http_datagram, encode_http_datagram, HttpDatagram, HttpDatagramView,
    CONNECT_UDP_DEFAULT_CONTEXT_ID,
};
use crate::protocol::error::ProtocolErrorView;
use crate::session::error::{SessionError, SessionErrorView};

verus! {

/// What the HTTP/3 side of a tunnel receives from its peer.
#[derive(Debug, Clone)]
pub enum QuicMessage {
    /// The payload of one QUIC DATAGRAM frame: one HTTP datagram.
    Datagram(Bytes),
    /// Bytes of the request stream, cut anywhere: a part of the capsule stream.
    StreamChunk(Bytes),
    /// The peer closed the stream or the connection.
    Closed,
}

/// A `QuicMessage` as a mathematical value.
pub enum QuicMessageView {
    Datagram(Seq<u8>),
    StreamChunk(Seq<u8>),
    Closed,
}

impl View for QuicMessage {
    type V = QuicMessageView;

    open spec fn view(&self) -> QuicMessageView {
        match *self {
            QuicMessage::Datagram(raw) => QuicMessageView::Datagram(buffers::bytes_seq(raw)),
            QuicMessage::StreamChunk(chunk) => QuicMessageView::StreamChunk(
                buffers::bytes_seq(chunk),
            ),
            QuicMessage::Closed => QuicMessageView::Closed,
        }
    }
}

/// What has happened, with addresses of type `A`.
#[derive(Debug)]
pub enum Event<A> {
    /// A message came from the HTTP/3 side.
    Message(QuicMessage),
    /// No more messages will come from the HTTP/3 side.
    MessagesEnded,
    /// A UDP datagram came from `peer`.
    UdpReceived { peer: A, payload: Bytes },
    /// Receiving from the UDP socket failed.
    UdpReceiveFailed(std::io::Error),
    /// The UDP payload that was to be sent is sent.
    UdpSent,
    /// The UDP payload that was to be sent could not be sent.
    UdpSendFailed(std::io::Error),
    /// The capsule that was skipped is logged.
    Skipped,
    /// The HTTP/3 side took the datagram that it was given.
    DatagramSent,
    /// The HTTP/3 side is gone and takes no datagram.
    DatagramRefused,
}

/// An `Event` as a mathematical value.
pub enum EventView<A> {
    Message(QuicMessageView),
    MessagesEnded,
    UdpReceived { peer: A, payload: Seq<u8> },
    UdpReceiveFailed(std::io::Error),
    UdpSent,
    UdpSendFailed(std::io::Error),
    Skipped,
    DatagramSent,
    DatagramRefused,
}

impl<A> View for Event<A> {
    type V = EventView<A>;

    open spec fn view(&self) -> EventView<A> {
        match *self {
            Event::Message(message) => EventView::Message(message@),
            Event::MessagesEnded => EventView::MessagesEnded,
            Event::UdpReceived { peer, payload } => EventView::UdpReceived {
                peer,
                payload: buffers::bytes_seq(payload),
            },
            Event::UdpReceiveFailed(cause) => EventView::UdpReceiveFailed(cause),
            Event::UdpSent => EventView::UdpSent,
            Event::UdpSendFailed(cause) => EventView::UdpSendFailed(cause),
            Event::Skipped => EventView::Skipped,
            Event::DatagramSent => EventView::DatagramSent,
            Event::DatagramRefused => EventView::DatagramRefused,
        }
    }
}

/// What to do next, with addresses of type `A`.
#[derive(Debug)]
pub enum Action<A> {
    /// Wait for a message from the HTTP/3 side or a UDP datagram, whichever comes first.
    Wait,
    /// Log the error, which ends nothing, and wait as for `Wait`.
    Report(SessionError),
    /// Log the error: a capsule of the stream is malformed or too large and is skipped. Tell
    /// the session when that is done; it goes on with the stream.
    Skip(SessionError),
    /// Send the payload over UDP, to `target` if there is one and else to the address that
    /// the socket is connected to, and tell the session how that went.
    SendUdp { target: Option<A>, payload: Bytes },
    /// Hand an encoded HTTP datagram to the HTTP/3 side, and tell the session how that
    /// went.
    SendDatagram(Bytes),
    /// End the session with this result.
    Finish(Result<(), SessionError>),
}

/// An `Action` as a mathematical value.
pub enum ActionView<A> {
    Wait,
    Report(SessionErrorView),
    Skip(SessionErrorView),
    SendUdp { target: Option<A>, payload: Seq<u8> },
    SendDatagram(Seq<u8>),
    Finish(Result<(), SessionErrorView>),
}

impl<A> View for Action<A> {
    type V = ActionView<A>;

    open spec fn view(&self) -> ActionView<A> {
        match *self {
            Action::Wait => ActionView::Wait,
            Action::Report(e) => ActionView::Report(e@),
            Action::Skip(e) => ActionView::Skip(e@),
            Action::SendUdp { target, payload } => ActionView::SendUdp {
                target,
                payload: buffers::bytes_seq(payload),
            },
            Action::SendDatagram(encoded) => ActionView::SendDatagram(
                buffers::bytes_seq(encoded),
            ),
            Action::Finish(Ok(())) => ActionView::Finish(Ok(())),
            Action::Finish(Err(e)) => ActionView::Finish(Err(e@)),
        }
    }
}

/// What a session waits for.
#[derive(Debug, Clone, Copy, PartialEq, Eq, Structural)]
pub enum Stage {
    /// A message from the HTTP/3 side or a UDP datagram.
    Idle,
    /// The sending of the payload of a QUIC DATAGRAM frame.
    SendingPayload,
    /// The sending of a payload from the capsule stream; more may lie in the buffer.
    DrainingStream,
    /// The logging of a capsule that was skipped; more may lie in the buffer.
    SkippingCapsule,
    /// The handing over of a datagram to the HTTP/3 side.
    SendingDatagram,
    /// Nothing: it has ended.
    Finished,
}

/// A session as a mathematical value.
pub struct SessionView<A> {
    /// The address that UDP payloads go to, once it is learned.
    pub target: Option<A>,
    /// The bytes of the capsule stream that no capsule has been made of yet.
    pub buffer: Seq<u8>,
    /// How many of the next bytes of the capsule stream are to be dropped: what has not come
    /// yet of a capsule that is too large.
    pub skip: nat,
    /// What the session waits for.
    pub stage: Stage,
    /// The size of the largest UDP datagram that is read at once.
    pub udp_recv_buf_size: nat,
}

/// What becomes of the capsules at the front of the buffer.
pub enum Forward {
    /// A payload is to be forwarded; what follows its capsule is left.
    Payload { payload: Seq<u8>, rest: Seq<u8> },
    /// No capsule is left in whole.
    NeedMore { rest: Seq<u8> },
    /// A capsule is malformed or too large. It is dropped, and `skip` of its bytes have not
    /// come yet.
    Failed { error: ProtocolErrorView, rest: Seq<u8>, skip: nat },
}

/// What becomes of the capsules at the front of `s`, up to the first one that forwards a
/// payload or fails. A capsule that is no DATAGRAM is skipped, and so is a datagram of
/// another context than the default one.
pub open spec fn next_forward(s: Seq<u8>) -> Forward
    decreases s.len(),
{
    match capsule::parse_capsule(s, DEFAULT_MAX_CAPSULE_PAYLOAD as nat) {
        CapsuleParse::Incomplete => Forward::NeedMore { rest: s },
        CapsuleParse::TooLarge { length, header } => Forward::Failed {
            error: ProtocolErrorView::CapsuleTooLarge {
                length,
                limit: DEFAULT_MAX_CAPSULE_PAYLOAD as nat,
            },
            rest: capsule::dropped(s, header + length),
            skip: capsule::missing(s, header + length),
        },
        CapsuleParse::Complete { capsule, size } => {
            let rest = s.skip(size as int);
            if capsule.capsule_type != CapsuleType::Datagram {
                next_forward(rest)
            } else {
                match datagram::parse_datagram(capsule.payload) {
                    Err(error) => Forward::Failed { error, rest, skip: 0 },
                    Ok(d) => if d.context_id != CONNECT_UDP_DEFAULT_CONTEXT_ID {
                        next_forward(rest)
                    } else {
                        Forward::Payload { payload: d.payload, rest }
                    },
                }
            }
        },
    }
}

/// Whether an event can come at this point of a session. A session waits either for the
/// peers or for the outcome of what it asked for, and its buffers fit the memory.
pub open spec fn accepts<A>(s: SessionView<A>, e: EventView<A>) -> bool {
    match e {
        EventView::Message(QuicMessageView::StreamChunk(chunk)) => s.stage == Stage::Idle
            && s.buffer.len() + chunk.len() <= isize::MAX,
        EventView::Message(_) => s.stage == Stage::Idle,
        EventView::MessagesEnded => s.stage == Stage::Idle,
        EventView::UdpReceived { payload, .. } => s.stage == Stage::Idle && payload.len() + 8
            <= isize::MAX,
        EventView::UdpReceiveFailed(_) => s.stage == Stage::Idle,
        EventView::UdpSent => s.stage == Stage::SendingPayload || s.stage == Stage::DrainingStream,
        EventView::UdpSendFailed(_) => s.stage == Stage::SendingPayload || s.stage
            == Stage::DrainingStream,
        EventView::Skipped => s.stage == Stage::SkippingCapsule,
        EventView::DatagramSent => s.stage == Stage::SendingDatagram,
        EventView::DatagramRefused => s.stage == Stage::SendingDatagram,
    }
}

/// A session before anything has happened.
pub open spec fn initial<A>(udp_recv_buf_size: nat) -> SessionView<A> {
    SessionView {
        target: None,
        buffer: Seq::empty(),
        skip: 0,
        stage: Stage::Idle,
        udp_recv_buf_size,
    }
}

/// Whether a session is one that can come about: while bytes of a capsule that is too large
/// are awaited, it holds no others.
pub open spec fn well_formed<A>(s: SessionView<A>) -> bool {
    s.skip > 0 ==> s.buffer.len() == 0
}

/// A session with the next bytes of the capsule stream.
pub open spec fn fed<A>(s: SessionView<A>, chunk: Seq<u8>) -> SessionView<A> {
    SessionView {
        buffer: s.buffer + capsule::dropped(chunk, s.skip),
        skip: capsule::missing(chunk, s.skip),
        ..s
    }
}

/// A session that waits for something else.
pub open spec fn at_stage<A>(s: SessionView<A>, stage: Stage) -> SessionView<A> {
    SessionView { stage, ..s }
}

/// A session goes on with the capsules in its buffer.
pub open spec fn drain_step<A>(s: SessionView<A>) -> (SessionView<A>, ActionView<A>) {
    match next_forward(s.buffer) {
        Forward::Payload { payload, rest } => (
            SessionView { buffer: rest, stage: Stage::DrainingStream, ..s },
            ActionView::SendUdp { target: s.target, payload },
        ),
        Forward::NeedMore { rest } => (
            SessionView { buffer: rest, stage: Stage::Idle, ..s },
            ActionView::Wait,
        ),
        Forward::Failed { error, rest, skip } => (
            SessionView { buffer: rest, skip, stage: Stage::SkippingCapsule, ..s },
            ActionView::Skip(SessionErrorView::ProtocolError(error)),
        ),
    }
}

/// A session gets one QUIC DATAGRAM frame.
pub open spec fn datagram_step<A>(s: SessionView<A>, raw: Seq<u8>) -> (
    SessionView<A>,
    ActionView<A>,
) {
    match datagram::parse_datagram(raw) {
        Err(e) => (s, ActionView::Report(SessionErrorView::ProtocolError(e))),
        Ok(d) => if d.context_id != CONNECT_UDP_DEFAULT_CONTEXT_ID {
            (s, ActionView::Wait)
        } else {
            (
                at_stage(s, Stage::SendingPayload),
                ActionView::SendUdp { target: s.target, payload: d.payload },
            )
        },
    }
}

/// The address that payloads go to after a datagram from `peer`: the first peer is
/// remembered.
pub open spec fn learned<A>(target: Option<A>, peer: A) -> Option<A> {
    match target {
        Some(addr) => Some(addr),
        None => Some(peer),
    }
}

/// A UDP payload for the peer of the tunnel: an HTTP datagram of the default context.
pub open spec fn upstream_bytes(payload: Seq<u8>) -> Seq<u8> {
    datagram::datagram_bytes(
        HttpDatagramView { context_id: CONNECT_UDP_DEFAULT_CONTEXT_ID as nat, payload },
    )
}

/// What a session becomes by an event, and what it answers.
pub open spec fn step<A>(s: SessionView<A>, e: EventView<A>) -> (SessionView<A>, ActionView<A>) {
    match e {
        EventView::Message(QuicMessageView::Datagram(raw)) => datagram_step(s, raw),
        EventView::Message(QuicMessageView::StreamChunk(chunk)) => drain_step(fed(s, chunk)),
        EventView::Message(QuicMessageView::Closed) => (
            at_stage(s, Stage::Finished),
            ActionView::Finish(Ok(())),
        ),
        EventView::MessagesEnded => (at_stage(s, Stage::Finished), ActionView::Finish(Ok(()))),
        EventView::UdpReceived { peer, payload } => (
            SessionView {
                target: learned(s.target, peer),
                stage: Stage::SendingDatagram,
                ..s
            },
            ActionView::SendDatagram(upstream_bytes(payload)),
        ),
        EventView::UdpReceiveFailed(cause) => (
            at_stage(s, Stage::Finished),
            ActionView::Finish(Err(SessionErrorView::IoError(cause))),
        ),
        EventView::UdpSent => if s.stage == Stage::DrainingStream {
            drain_step(s)
        } else {
            (at_stage(s, Stage::Idle), ActionView::Wait)
        },
        EventView::UdpSendFailed(cause) => (
            at_stage(s, Stage::Idle),
            ActionView::Report(SessionErrorView::IoError(cause)),
        ),
        EventView::Skipped => drain_step(s),
        EventView::DatagramSent => (at_stage(s, Stage::Idle), ActionView::Wait),
        EventView::DatagramRefused => (
            at_stage(s, Stage::Finished),
            ActionView::Finish(Err(SessionErrorView::ChannelClosed)),
        ),
    }
}

/// A live tunnel: the state of the forwarding in both directions.
///
/// ```text
///  HTTP/3 --[Message]------> ConnectUdpSession --[SendUdp]------> target
///  HTTP/3 <-[SendDatagram]-- ConnectUdpSession <-[UdpReceived]--- target
/// ```
#[derive(Debug)]
pub struct ConnectUdpSession<A> {
    /// The address of the target, learned from its first datagram.
    target_addr: Option<A>,
    /// The reassembly buffer of the capsule stream.
    capsule_buf: BytesMut,
    /// How many of the next bytes of the capsule stream are to be dropped.
    skip: u64,
    /// The size of the largest UDP datagram that is read at once.
    udp_recv_buf_size: usize,
    /// What the session waits for.
    stage: Stage,
}

impl<A> View for ConnectUdpSession<A> {
    type V = SessionView<A>;

    closed spec fn view(&self) -> SessionView<A> {
        SessionView {
            target: self.target_addr,
            buffer: buffers::bytes_mut_seq(self.capsule_buf),
            skip: self.skip as nat,
            stage: self.stage,
            udp_recv_buf_size: self.udp_recv_buf_size as nat,
        }
    }
}

impl<A: Copy> ConnectUdpSession<A> {
    /// A new session, with a UDP receive buffer of 65535 bytes.
    pub fn new() -> (r: Self)
        ensures
            r@ == initial::<A>(65535),
            well_formed(r@),
    {
        let r: Self = ConnectUdpSession {
            target_addr: None,
            capsule_buf: buffers::bytes_mut_with_capacity(4096),
            skip: 0,
            udp_recv_buf_size: 65535,
            stage: Stage::Idle,
        };
        assert(r@.buffer =~= Seq::empty());
        r
    }

    /// The session with another size of the UDP receive buffer.
    pub fn with_udp_recv_buf_size(self, size: usize) -> (r: Self)
        ensures
            r@ == (SessionView { udp_recv_buf_size: size as nat, ..self@ }),
    {
        let mut r: Self = self;
        r.udp_recv_buf_size = size;
        r
    }

    /// The size of the largest UDP datagram that is read at once.
    pub fn udp_recv_buf_size(&self) -> (size: usize)
        ensures
            size == self@.udp_recv_buf_size,
    {
        self.udp_recv_buf_size
    }

    /// Whether an event can come at this point.
    pub fn accepts(&self, event: &Event<A>) -> (r: bool)
        ensures
            r == accepts(self@, event@),
    {
        let sending: bool = self.stage == Stage::SendingPayload || self.stage
            == Stage::DrainingStream;
        let idle: bool = self.stage == Stage::Idle;
        let max: usize = isize::MAX as usize;
        match event {
            Event::Message(QuicMessage::StreamChunk(chunk)) => idle && buffers::bytes_len(chunk)
                <= max && buffers::bytes_mut_len(&self.capsule_buf) <= max - buffers::bytes_len(
                chunk,
            ),
            Event::Message(_) => idle,
            Event::MessagesEnded => idle,
            Event::UdpReceived { payload, .. } => idle && buffers::bytes_len(payload) <= max - 8,
            Event::UdpReceiveFailed(_) => idle,
            Event::UdpSent => sending,
            Event::UdpSendFailed(_) => sending,
            Event::Skipped => self.stage == Stage::SkippingCapsule,
            Event::DatagramSent => self.stage == Stage::SendingDatagram,
            Event::DatagramRefused => self.stage == Stage::SendingDatagram,
        }
    }

    /// Takes note of what has happened and says what to do next.
    ///
    /// The session ends when the HTTP/3 side closes or goes away, and when the UDP socket
    /// fails to receive. A message that cannot be forwarded ends nothing. A capsule of the
    /// stream that is malformed or too large is skipped, and the stream goes on behind it.
    /// When a payload of the stream cannot be sent, the capsules behind it wait for the next
    /// chunk.
    pub fn handle(&mut self, event: Event<A>) -> (action: Action<A>)
        requires
            accepts(old(self)@, event@),
        ensures
            (final(self)@, action@) == step(old(self)@, event@),
            well_formed(old(self)@) ==> well_formed(final(self)@),
    {
        proof {
            law_step_well_formed(self@, event@);
        }
        match event {
            Event::Message(QuicMessage::Datagram(raw)) => self.forward_datagram_to_udp(raw),
            Event::Message(QuicMessage::StreamChunk(chunk)) => self.forward_stream_chunk_to_udp(
                chunk,
            ),
            Event::Message(QuicMessage::Closed) => {
                self.stage = Stage::Finished;
                Action::Finish(Ok(()))
            },
            Event::MessagesEnded => {
                self.stage = Stage::Finished;
                Action::Finish(Ok(()))
            },
            Event::UdpReceived { peer, payload } => {
                self.record_target(peer);
                self.forward_udp_to_h3(payload)
            },
            Event::UdpReceiveFailed(cause) => {
                self.stage = Stage::Finished;
                Action::Finish(Err(SessionError::IoError(cause)))
            },
            Event::UdpSent => if self.stage == Stage::DrainingStream {
                self.drain_stream()
            } else {
                self.stage = Stage::Idle;
                Action::Wait
            },
            Event::UdpSendFailed(cause) => {
                self.stage = Stage::Idle;
                Action::Report(SessionError::IoError(cause))
            },
            Event::Skipped => self.drain_stream(),
            Event::DatagramSent => {
                self.stage = Stage::Idle;
                Action::Wait
            },
            Event::DatagramRefused => {
                self.stage = Stage::Finished;
                Action::Finish(Err(SessionError::ChannelClosed))
            },
        }
    }

    /// Forwards one QUIC DATAGRAM frame. A datagram of a context that is not known is
    /// ignored.
    fn forward_datagram_to_udp(&mut self, raw: Bytes) -> (action: Action<A>)
        ensures
            (final(self)@, action@) == datagram_step(old(self)@, buffers::bytes_seq(raw)),
    {
        let dgram: HttpDatagram = match decode_http_datagram(raw) {
            Ok(dgram) => dgram,
            Err(e) => {
                return Action::Report(SessionError::from(e));
            },
        };
        if dgram.context_id != CONNECT_UDP_DEFAULT_CONTEXT_ID {
            return Action::Wait;
        }
        self.stage = Stage::SendingPayload;
        self.send_udp_payload(dgram.payload)
    }

    /// Adds a chunk to the capsule stream and goes on with the capsules in it.
    fn forward_stream_chunk_to_udp(&mut self, chunk: Bytes) -> (action: Action<A>)
        requires
            old(self)@.buffer.len() + buffers::bytes_seq(chunk).len() <= isize::MAX,
        ensures
            (final(self)@, action@) == drain_step(fed(old(self)@, buffers::bytes_seq(chunk))),
    {
        let mut chunk: Bytes = chunk;
        let ghost s = self@;
        let ghost bytes = buffers::bytes_seq(chunk);
        let came: usize = buffers::bytes_len(&chunk);
        if self.skip >= came as u64 {
            self.skip = self.skip - came as u64;
            assert(self@.buffer =~= s.buffer + Seq::empty());
        } else {
            buffers::bytes_advance(&mut chunk, self.skip as usize);
            self.skip = 0;
            buffers::bytes_mut_extend_from_slice(
                &mut self.capsule_buf,
                buffers::bytes_chunk(&chunk),
            );
        }
        assert(self@ == fed(s, bytes));
        self.drain_stream()
    }

    /// Goes through the capsules in the buffer, up to the first that forwards a payload or is
    /// malformed or too large.
    fn drain_stream(&mut self) -> (action: Action<A>)
        ensures
            (final(self)@, action@) == drain_step(old(self)@),
    {
        loop
            invariant
                next_forward(old(self)@.buffer) == next_forward(self@.buffer),
                self@ == (SessionView { buffer: self@.buffer, ..old(self)@ }),
            decreases self@.buffer.len(),
        {
            match decode_capsule(&mut self.capsule_buf) {
                Err(e) => {
                    self.skip = discard_capsule(
                        &mut self.capsule_buf,
                        DEFAULT_MAX_CAPSULE_PAYLOAD,
                    );
                    self.stage = Stage::SkippingCapsule;
                    return Action::Skip(SessionError::from(e));
                },
                Ok(None) => {
                    self.stage = Stage::Idle;
                    return Action::Wait;
                },
                Ok(Some(Capsule { capsule_type, payload })) => {
                    if capsule_type == CapsuleType::Datagram {
                        match decode_http_datagram(payload) {
                            Err(e) => {
                                self.skip = 0;
                                self.stage = Stage::SkippingCapsule;
                                return Action::Skip(SessionError::from(e));
                            },
                            Ok(dgram) => {
                                if dgram.context_id == CONNECT_UDP_DEFAULT_CONTEXT_ID {
                                    self.stage = Stage::DrainingStream;
                                    return self.send_udp_payload(dgram.payload);
                                }
                            },
                        }
                    }
                },
            }
        }
    }

    /// Wraps a UDP payload in an HTTP datagram of the default context for the HTTP/3 side.
    fn forward_udp_to_h3(&mut self, payload: Bytes) -> (action: Action<A>)
        requires
            buffers::bytes_seq(payload).len() + 8 <= isize::MAX,
        ensures
            final(self)@ == at_stage(old(self)@, Stage::SendingDatagram),
            action@ == ActionView::<A>::SendDatagram(upstream_bytes(buffers::bytes_seq(payload))),
    {
        self.stage = Stage::SendingDatagram;
        Action::SendDatagram(encode_http_datagram(CONNECT_UDP_DEFAULT_CONTEXT_ID, &payload))
    }

    /// A UDP payload for the learned target, or for the address that the socket is connected
    /// to while none is learned.
    fn send_udp_payload(&self, payload: Bytes) -> (action: Action<A>)
        ensures
            action@ == (ActionView::SendUdp {
                target: self@.target,
                payload: buffers::bytes_seq(payload),
            }),
    {
        Action::SendUdp { target: self.target_addr, payload }
    }

    /// Remembers the address of the first UDP datagram.
    fn record_target(&mut self, addr: A)
        ensures
            final(self)@ == (SessionView {
                target: learned(old(self)@.target, addr),
                ..old(self)@
            }),
    {
        if self.target_addr.is_none() {
            self.target_addr = Some(addr);
        }
    }
}

/// No event leads out of the sessions that can come about.
pub proof fn law_step_well_formed<A>(s: SessionView<A>, e: EventView<A>)
    ensures
        well_formed(s) ==> well_formed(step(s, e).0),
{
    lemma_next_forward_skip(s.buffer);
    if let EventView::Message(QuicMessageView::StreamChunk(chunk)) = e {
        lemma_next_forward_skip(fed(s, chunk).buffer);
    }
}

/// Bytes are to be dropped only where none is left, and nothing comes out of no bytes.
proof fn lemma_next_forward_skip(s: Seq<u8>)
    ensures
        next_forward(s) matches Forward::Failed { rest, skip, .. } ==> (skip > 0 ==> rest.len()
            == 0),
        s.len() == 0 ==> next_forward(s) == (Forward::NeedMore { rest: s }),
    decreases s.len(),
{
    match capsule::parse_capsule(s, DEFAULT_MAX_CAPSULE_PAYLOAD as nat) {
        CapsuleParse::Complete { size, .. } => {
            lemma_next_forward_skip(s.skip(size as int));
        },
        _ => {},
    }
}

} // verus!
