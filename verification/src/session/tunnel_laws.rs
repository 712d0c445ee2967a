//! What holds of every run of a tunnel session.

use vstd::prelude::*;

use crate::buffers;
use crate::protocol::capsule;
use crate::protocol::capsule::{
    CapsuleParse, CapsuleType, CapsuleView, DEFAULT_MAX_CAPSULE_PAYLOAD,
};
use crate::protocol::datagram;
use crate::protocol::datagram::{HttpDatagramView, CONNECT_UDP_DEFAULT_CONTEXT_ID};
use crate::protocol::error::ProtocolErrorView;
use crate::protocol::varint;
use crate::protocol::varint::VarInt;
use crate::session::error::SessionErrorView;
use crate::session::tunnel;
use crate::session::tunnel::{
    Action, ActionView, Event, EventView, Forward, QuicMessage, QuicMessageView, SessionView, Stage,
};

verus! {

/// What comes of a capsule of the stream.
pub enum Outcome {
    /// A UDP payload is sent.
    Sent(Seq<u8>),
    /// The capsule is malformed or too large: it is logged and skipped.
    Skipped(ProtocolErrorView),
}

/// What comes of a capsule within the limit: the payload of an HTTP datagram of the default
/// context in a DATAGRAM capsule is sent, a malformed datagram in one is skipped, and of
/// anything else nothing comes.
pub open spec fn outcome_of(c: CapsuleView) -> Seq<Outcome> {
    if c.capsule_type != CapsuleType::Datagram {
        Seq::empty()
    } else {
        match datagram::parse_datagram(c.payload) {
            Ok(d) => if d.context_id == CONNECT_UDP_DEFAULT_CONTEXT_ID {
                seq![Outcome::Sent(d.payload)]
            } else {
                Seq::empty()
            },
            Err(e) => seq![Outcome::Skipped(e)],
        }
    }
}

/// The error for a capsule of the given length.
pub open spec fn too_large(length: nat) -> ProtocolErrorView {
    ProtocolErrorView::CapsuleTooLarge { length, limit: DEFAULT_MAX_CAPSULE_PAYLOAD as nat }
}

/// What comes of a stream. A capsule that is too large is skipped with all its bytes.
pub open spec fn outcomes(s: Seq<u8>) -> Seq<Outcome>
    decreases s.len(),
{
    match capsule::parse_capsule(s, DEFAULT_MAX_CAPSULE_PAYLOAD as nat) {
        CapsuleParse::Incomplete => Seq::empty(),
        CapsuleParse::TooLarge { length, header } => seq![Outcome::Skipped(too_large(length))]
            + outcomes(capsule::dropped(s, header + length)),
        CapsuleParse::Complete { capsule, size } => outcome_of(capsule) + outcomes(
            s.skip(size as int),
        ),
    }
}

/// What is left of a stream: the bytes of a frame that is not there in whole, or how many
/// bytes are still to come of a capsule that is too large.
pub open spec fn left_over(s: Seq<u8>) -> (Seq<u8>, nat)
    decreases s.len(),
{
    match capsule::parse_capsule(s, DEFAULT_MAX_CAPSULE_PAYLOAD as nat) {
        CapsuleParse::Incomplete => (s, 0),
        CapsuleParse::TooLarge { length, header } => if header + length >= s.len() {
            (Seq::empty(), capsule::missing(s, header + length))
        } else {
            left_over(s.skip((header + length) as int))
        },
        CapsuleParse::Complete { size, .. } => left_over(s.skip(size as int)),
    }
}

proof fn lemma_dropped_concat(a: Seq<u8>, b: Seq<u8>, n: nat)
    ensures
        capsule::dropped(a + b, n) == capsule::dropped(a, n) + capsule::dropped(
            b,
            capsule::missing(a, n),
        ),
        capsule::missing(a + b, n) == capsule::missing(b, capsule::missing(a, n)),
{
    assert(capsule::dropped(a + b, n) =~= capsule::dropped(a, n) + capsule::dropped(
        b,
        capsule::missing(a, n),
    ));
}

/// How a stream is cut into chunks makes no difference to what comes of it.
pub proof fn law_outcomes_chunks(first: Seq<u8>, next: Seq<u8>)
    ensures
        outcomes(first + next) == outcomes(first) + outcomes(
            left_over(first).0 + capsule::dropped(next, left_over(first).1),
        ),
    decreases first.len(),
{
    let limit = DEFAULT_MAX_CAPSULE_PAYLOAD as nat;
    let left = left_over(first);
    let after = outcomes(left.0 + capsule::dropped(next, left.1));
    match capsule::parse_capsule(first, limit) {
        CapsuleParse::Incomplete => {
            assert(capsule::dropped(next, 0) =~= next);
            assert(outcomes(first) + after =~= after);
        },
        CapsuleParse::TooLarge { length, header } => {
            let n = header + length;
            let head = seq![Outcome::Skipped(too_large(length))];
            capsule::law_capsule_extension(first, next, limit);
            lemma_dropped_concat(first, next, n);
            if n >= first.len() {
                assert(outcomes(Seq::<u8>::empty()) =~= Seq::<Outcome>::empty());
                assert(outcomes(first) == head + outcomes(Seq::<u8>::empty()));
                assert(outcomes(first) =~= head);
            } else {
                let rest = first.skip(n as int);
                assert(capsule::dropped(next, 0) =~= next);
                law_outcomes_chunks(rest, next);
                assert(outcomes(first + next) == head + outcomes(rest + next));
                assert(outcomes(first) == head + outcomes(rest));
                assert(head + (outcomes(rest) + after) =~= (head + outcomes(rest)) + after);
            }
        },
        CapsuleParse::Complete { capsule, size } => {
            let head = outcome_of(capsule);
            let rest = first.skip(size as int);
            capsule::law_capsule_extension(first, next, limit);
            assert((first + next).skip(size as int) =~= rest + next);
            law_outcomes_chunks(rest, next);
            assert(outcomes(first + next) == head + outcomes(rest + next));
            assert(outcomes(first) == head + outcomes(rest));
            assert(head + (outcomes(rest) + after) =~= (head + outcomes(rest)) + after);
        },
    }
}

/// Going on with a stream takes the first of what comes of it and loses nothing, whatever
/// comes later.
pub proof fn law_next_forward(s: Seq<u8>, later: Seq<u8>)
    ensures
        match tunnel::next_forward(s) {
            Forward::Payload { payload, rest } => outcomes(s + later) == seq![
                Outcome::Sent(payload),
            ] + outcomes(rest + later),
            Forward::NeedMore { rest } => outcomes(s + later) == outcomes(rest + later)
                && capsule::parse_capsule(
                rest,
                DEFAULT_MAX_CAPSULE_PAYLOAD as nat,
            ) is Incomplete,
            Forward::Failed { error, rest, skip } => outcomes(s + later) == seq![
                Outcome::Skipped(error),
            ] + outcomes(rest + capsule::dropped(later, skip)),
        },
    decreases s.len(),
{
    let limit = DEFAULT_MAX_CAPSULE_PAYLOAD as nat;
    match capsule::parse_capsule(s, limit) {
        CapsuleParse::Incomplete => {},
        CapsuleParse::TooLarge { length, header } => {
            capsule::law_capsule_extension(s, later, limit);
            lemma_dropped_concat(s, later, header + length);
        },
        CapsuleParse::Complete { capsule, size } => {
            let rest = s.skip(size as int);
            capsule::law_capsule_extension(s, later, limit);
            assert((s + later).skip(size as int) =~= rest + later);
            assert(capsule::dropped(later, 0) =~= later);
            law_next_forward(rest, later);
            assert(Seq::<Outcome>::empty() + outcomes(rest + later) =~= outcomes(rest + later));
        },
    }
}

/// Whether all events of a run come when the session can take them.
pub open spec fn valid_run<A>(s: SessionView<A>, events: Seq<EventView<A>>) -> bool
    decreases events.len(),
{
    events.len() == 0 || (tunnel::accepts(s, events[0]) && valid_run(
        tunnel::step(s, events[0]).0,
        events.skip(1),
    ))
}

/// The session after a run.
pub open spec fn after_run<A>(s: SessionView<A>, events: Seq<EventView<A>>) -> SessionView<A>
    decreases events.len(),
{
    if events.len() == 0 {
        s
    } else {
        after_run(tunnel::step(s, events[0]).0, events.skip(1))
    }
}

/// What the session answers in a run.
pub open spec fn actions<A>(s: SessionView<A>, events: Seq<EventView<A>>) -> Seq<ActionView<A>>
    decreases events.len(),
{
    if events.len() == 0 {
        Seq::empty()
    } else {
        let (next, action) = tunnel::step(s, events[0]);
        seq![action] + actions(next, events.skip(1))
    }
}

/// The stream bytes that come in with an event.
pub open spec fn chunk_of<A>(e: EventView<A>) -> Seq<u8> {
    match e {
        EventView::Message(QuicMessageView::StreamChunk(chunk)) => chunk,
        _ => Seq::empty(),
    }
}

/// The stream bytes that come in during a run.
pub open spec fn received_stream<A>(events: Seq<EventView<A>>) -> Seq<u8>
    decreases events.len(),
{
    if events.len() == 0 {
        Seq::empty()
    } else {
        chunk_of(events[0]) + received_stream(events.skip(1))
    }
}

/// What a step of a session does with a capsule of the stream, if it does anything: it asks
/// for its payload to be sent over UDP, or for the capsule to be logged as skipped.
pub open spec fn stream_outcome<A>(step: (SessionView<A>, ActionView<A>)) -> Seq<Outcome> {
    match step.1 {
        ActionView::SendUdp { payload, .. } => if step.0.stage == Stage::DrainingStream {
            seq![Outcome::Sent(payload)]
        } else {
            Seq::empty()
        },
        ActionView::Skip(SessionErrorView::ProtocolError(e)) => seq![Outcome::Skipped(e)],
        _ => Seq::empty(),
    }
}

/// What a session does with the capsules of the stream during a run.
pub open spec fn run_outcomes<A>(s: SessionView<A>, events: Seq<EventView<A>>) -> Seq<Outcome>
    decreases events.len(),
{
    if events.len() == 0 {
        Seq::empty()
    } else {
        let one = tunnel::step(s, events[0]);
        stream_outcome(one) + run_outcomes(one.0, events.skip(1))
    }
}

/// Every session that a run leads to can come about.
pub proof fn law_run_well_formed<A>(s: SessionView<A>, events: Seq<EventView<A>>)
    requires
        tunnel::well_formed(s),
    ensures
        tunnel::well_formed(after_run(s, events)),
    decreases events.len(),
{
    if events.len() > 0 {
        tunnel::law_step_well_formed(s, events[0]);
        law_run_well_formed(tunnel::step(s, events[0]).0, events.skip(1));
    }
}

proof fn lemma_step_keeps_stream<A>(s: SessionView<A>, e: EventView<A>, later: Seq<u8>)
    requires
        tunnel::well_formed(s),
    ensures
        ({
            let one = tunnel::step(s, e);
            outcomes(s.buffer + capsule::dropped(chunk_of(e) + later, s.skip)) == stream_outcome(
                one,
            ) + outcomes(one.0.buffer + capsule::dropped(later, one.0.skip))
        }),
{
    let one = tunnel::step(s, e);
    let none = Seq::<Outcome>::empty();
    let t = tunnel::fed(s, chunk_of(e));
    lemma_dropped_concat(chunk_of(e), later, s.skip);
    assert(s.buffer + capsule::dropped(chunk_of(e) + later, s.skip) =~= t.buffer
        + capsule::dropped(later, t.skip));
    if chunk_of(e).len() == 0 {
        assert(t.buffer =~= s.buffer);
        assert(t.skip == s.skip);
    }
    let drains = match e {
        EventView::Message(QuicMessageView::StreamChunk(_)) => true,
        EventView::UdpSent => s.stage == Stage::DrainingStream,
        EventView::Skipped => true,
        _ => false,
    };
    if drains {
        let rest = capsule::dropped(later, t.skip);
        assert(one == tunnel::drain_step(t));
        law_next_forward(t.buffer, rest);
        if t.skip > 0 {
            assert(t.buffer.len() == 0);
            assert(tunnel::next_forward(t.buffer) is NeedMore);
        } else {
            assert(rest =~= later);
        }
        assert(none + outcomes(t.buffer + rest) =~= outcomes(t.buffer + rest));
    } else {
        assert(stream_outcome(one) =~= none);
        assert(one.0.buffer == s.buffer && one.0.skip == s.skip);
        let all = outcomes(s.buffer + capsule::dropped(later, s.skip));
        assert(none + all =~= all);
    }
}

/// In every run what comes of the capsule stream happens in its order, and once: what has
/// been sent over UDP and logged as skipped, and what the bytes left in the buffer come to,
/// are together what comes of the stream. That holds however the stream is cut into chunks,
/// whatever else happens in between, and whichever sends fail.
pub proof fn law_stream_in_order_and_once<A>(s: SessionView<A>, events: Seq<EventView<A>>)
    requires
        tunnel::well_formed(s),
        valid_run(s, events),
    ensures
        outcomes(s.buffer + capsule::dropped(received_stream(events), s.skip)) == run_outcomes(
            s,
            events,
        ) + outcomes(after_run(s, events).buffer),
    decreases events.len(),
{
    if events.len() == 0 {
        assert(s.buffer + capsule::dropped(received_stream(events), s.skip) =~= s.buffer);
        assert(run_outcomes(s, events) + outcomes(s.buffer) =~= outcomes(s.buffer));
    } else {
        let one = tunnel::step(s, events[0]);
        lemma_step_keeps_stream(s, events[0], received_stream(events.skip(1)));
        tunnel::law_step_well_formed(s, events[0]);
        law_stream_in_order_and_once(one.0, events.skip(1));
        assert(run_outcomes(s, events) + outcomes(after_run(s, events).buffer) =~= stream_outcome(
            one,
        ) + (run_outcomes(one.0, events.skip(1)) + outcomes(
            after_run(one.0, events.skip(1)).buffer,
        )));
    }
}

/// Whether every payload of the stream that is to be sent in a run can be sent.
pub open spec fn stream_sends_succeed<A>(s: SessionView<A>, events: Seq<EventView<A>>) -> bool
    decreases events.len(),
{
    events.len() == 0 || (!(events[0] is UdpSendFailed && s.stage == Stage::DrainingStream)
        && stream_sends_succeed(tunnel::step(s, events[0]).0, events.skip(1)))
}

/// Whether a session is in the middle of the capsules in its buffer.
pub open spec fn draining<A>(s: SessionView<A>) -> bool {
    s.stage == Stage::DrainingStream || s.stage == Stage::SkippingCapsule
}

/// Whether a session that is not in the middle of the capsules in its buffer has no whole one
/// there.
pub open spec fn settled<A>(s: SessionView<A>) -> bool {
    draining(s) || capsule::parse_capsule(
        s.buffer,
        DEFAULT_MAX_CAPSULE_PAYLOAD as nat,
    ) is Incomplete
}

proof fn lemma_settled<A>(s: SessionView<A>, events: Seq<EventView<A>>)
    requires
        valid_run(s, events),
        settled(s),
        stream_sends_succeed(s, events),
    ensures
        settled(after_run(s, events)),
    decreases events.len(),
{
    if events.len() > 0 {
        let e = events[0];
        let one = tunnel::step(s, e);
        law_next_forward(s.buffer, Seq::empty());
        law_next_forward(tunnel::fed(s, chunk_of(e)).buffer, Seq::empty());
        assert(settled(one.0));
        lemma_settled(one.0, events.skip(1));
    }
}

/// In a run from the start in which the payloads of the stream can be sent, each capsule is
/// dealt with as soon as it is there in whole: whenever the session is not in the middle of
/// its buffer, all that comes of the stream so far has happened. QUIC DATAGRAM frames that are
/// malformed or cannot be sent change nothing in that, nor do capsules that are skipped.
pub proof fn law_stream_is_forwarded<A>(events: Seq<EventView<A>>, udp_recv_buf_size: nat)
    requires
        valid_run(tunnel::initial::<A>(udp_recv_buf_size), events),
        stream_sends_succeed(tunnel::initial::<A>(udp_recv_buf_size), events),
        !draining(after_run(tunnel::initial::<A>(udp_recv_buf_size), events)),
    ensures
        run_outcomes(tunnel::initial::<A>(udp_recv_buf_size), events) == outcomes(
            received_stream(events),
        ),
{
    let s = tunnel::initial::<A>(udp_recv_buf_size);
    let none = Seq::<Outcome>::empty();
    law_stream_in_order_and_once(s, events);
    lemma_settled(s, events);
    assert(s.buffer + capsule::dropped(received_stream(events), 0) =~= received_stream(events));
    assert(run_outcomes(s, events) + none =~= run_outcomes(s, events));
}

/// The stream cannot fill the memory: in such a run the session holds, between the capsules,
/// fewer bytes than the largest capsule that it accepts takes with its header.
pub proof fn law_buffer_is_bounded<A>(events: Seq<EventView<A>>, udp_recv_buf_size: nat)
    requires
        valid_run(tunnel::initial::<A>(udp_recv_buf_size), events),
        stream_sends_succeed(tunnel::initial::<A>(udp_recv_buf_size), events),
        !draining(after_run(tunnel::initial::<A>(udp_recv_buf_size), events)),
    ensures
        after_run(tunnel::initial::<A>(udp_recv_buf_size), events).buffer.len() < 16
            + DEFAULT_MAX_CAPSULE_PAYLOAD,
{
    lemma_settled(tunnel::initial::<A>(udp_recv_buf_size), events);
}

/// What comes of a capsule within the limit, and then of what follows it.
pub proof fn law_capsule_outcome(c: CapsuleView, after: Seq<u8>)
    requires
        capsule::encodable(c),
        capsule::canonical_type(c.capsule_type),
        c.payload.len() <= DEFAULT_MAX_CAPSULE_PAYLOAD,
    ensures
        outcomes(capsule::capsule_bytes(c) + after) == outcome_of(c) + outcomes(after),
{
    capsule::law_capsule_round_trip(c, after, DEFAULT_MAX_CAPSULE_PAYLOAD as nat);
}

/// A capsule of another type than DATAGRAM, or with a datagram of another context than the
/// default one, is skipped, and what follows it is forwarded as if it were not there.
pub proof fn law_capsule_skipped(c: CapsuleView, rest: Seq<u8>)
    requires
        capsule::encodable(c),
        capsule::canonical_type(c.capsule_type),
        c.payload.len() <= DEFAULT_MAX_CAPSULE_PAYLOAD,
        c.capsule_type == CapsuleType::Datagram ==> (datagram::parse_datagram(
            c.payload,
        ) matches Ok(d) && d.context_id != CONNECT_UDP_DEFAULT_CONTEXT_ID),
    ensures
        tunnel::next_forward(capsule::capsule_bytes(c) + rest) == tunnel::next_forward(rest),
{
    capsule::law_capsule_round_trip(c, rest, DEFAULT_MAX_CAPSULE_PAYLOAD as nat);
}

/// A capsule over the limit is logged once, and then comes what comes of what follows it.
pub proof fn law_too_large_is_skipped(c: CapsuleView, after: Seq<u8>)
    requires
        capsule::encodable(c),
        c.payload.len() > DEFAULT_MAX_CAPSULE_PAYLOAD,
    ensures
        outcomes(capsule::capsule_bytes(c) + after) == seq![
            Outcome::Skipped(too_large(c.payload.len())),
        ] + outcomes(after),
{
    let body = c.payload + after;
    let header = varint::varint_bytes(capsule::capsule_type_value(c.capsule_type))
        + varint::varint_bytes(c.payload.len());
    varint::lemma_varint_bytes_shape(capsule::capsule_type_value(c.capsule_type));
    varint::lemma_varint_bytes_shape(c.payload.len());
    capsule::law_capsule_too_large(c, body, DEFAULT_MAX_CAPSULE_PAYLOAD as nat);
    assert(capsule::capsule_bytes(c) + after =~= header + body);
    assert(capsule::dropped(header + body, header.len() + c.payload.len()) =~= after);
}

/// However a stream that starts with a capsule over the limit is cut into chunks, and
/// whatever else happens in between, that capsule is logged once, and all that comes of what
/// follows it happens.
pub proof fn law_too_large_however_cut<A>(
    c: CapsuleView,
    after: Seq<u8>,
    events: Seq<EventView<A>>,
    udp_recv_buf_size: nat,
)
    requires
        capsule::encodable(c),
        c.payload.len() > DEFAULT_MAX_CAPSULE_PAYLOAD,
        received_stream(events) == capsule::capsule_bytes(c) + after,
        valid_run(tunnel::initial::<A>(udp_recv_buf_size), events),
        stream_sends_succeed(tunnel::initial::<A>(udp_recv_buf_size), events),
        !draining(after_run(tunnel::initial::<A>(udp_recv_buf_size), events)),
    ensures
        run_outcomes(tunnel::initial::<A>(udp_recv_buf_size), events) == seq![
            Outcome::Skipped(too_large(c.payload.len())),
        ] + outcomes(after),
{
    law_stream_is_forwarded(events, udp_recv_buf_size);
    law_too_large_is_skipped(c, after);
}

/// The UDP payloads that capsules carry for the default context, in their order.
pub open spec fn payloads_of(capsules: Seq<CapsuleView>) -> Seq<Seq<u8>>
    decreases capsules.len(),
{
    if capsules.len() == 0 {
        Seq::empty()
    } else {
        let rest = payloads_of(capsules.skip(1));
        let first = outcome_of(capsules[0]);
        if first.len() > 0 && first[0] is Sent {
            seq![first[0]->Sent_0] + rest
        } else {
            rest
        }
    }
}

/// Whether every DATAGRAM capsule holds an HTTP datagram.
pub open spec fn datagrams_decode(capsules: Seq<CapsuleView>) -> bool {
    forall|i: int|
        0 <= i < capsules.len() && (#[trigger] capsules[i]).capsule_type == CapsuleType::Datagram
            ==> datagram::parse_datagram(capsules[i].payload) is Ok
}

proof fn lemma_next_forward_drained(s: Seq<u8>)
    requires
        capsule::drained(s, DEFAULT_MAX_CAPSULE_PAYLOAD as nat).refused is None,
        datagrams_decode(capsule::drained(s, DEFAULT_MAX_CAPSULE_PAYLOAD as nat).capsules),
    ensures
        ({
            let d = capsule::drained(s, DEFAULT_MAX_CAPSULE_PAYLOAD as nat);
            match tunnel::next_forward(s) {
                Forward::Payload { payload, rest } => {
                    let e = capsule::drained(rest, DEFAULT_MAX_CAPSULE_PAYLOAD as nat);
                    &&& rest.len() < s.len()
                    &&& payloads_of(d.capsules) == seq![payload] + payloads_of(e.capsules)
                    &&& e.rest == d.rest
                    &&& e.refused is None
                    &&& datagrams_decode(e.capsules)
                },
                Forward::NeedMore { rest } => rest == d.rest && payloads_of(d.capsules)
                    == Seq::<Seq<u8>>::empty(),
                Forward::Failed { .. } => false,
            }
        }),
    decreases s.len(),
{
    let limit = DEFAULT_MAX_CAPSULE_PAYLOAD as nat;
    let d = capsule::drained(s, limit);
    match capsule::parse_capsule(s, limit) {
        CapsuleParse::Complete { capsule, size } => {
            let rest = s.skip(size as int);
            let e = capsule::drained(rest, limit);
            assert(d.capsules[0] == capsule);
            assert(d.capsules.skip(1) =~= e.capsules);
            assert forall|i: int|
                0 <= i < e.capsules.len() && (#[trigger] e.capsules[i]).capsule_type
                    == CapsuleType::Datagram implies datagram::parse_datagram(
                e.capsules[i].payload,
            ) is Ok by {
                assert(d.capsules[i + 1] == e.capsules[i]);
            }
            lemma_next_forward_drained(rest);
        },
        _ => {},
    }
}

/// What a session answers after it was told `n` times that a payload was sent.
pub open spec fn after_sends<A>(one: (SessionView<A>, ActionView<A>), n: nat) -> (
    SessionView<A>,
    ActionView<A>,
)
    decreases n,
{
    if n == 0 {
        one
    } else {
        after_sends(tunnel::step(one.0, EventView::UdpSent), (n - 1) as nat)
    }
}

proof fn lemma_drain_run<A>(s: SessionView<A>, n: nat)
    requires
        ({
            let d = capsule::drained(s.buffer, DEFAULT_MAX_CAPSULE_PAYLOAD as nat);
            &&& d.refused is None
            &&& datagrams_decode(d.capsules)
            &&& n <= payloads_of(d.capsules).len()
        }),
    ensures
        ({
            let d = capsule::drained(s.buffer, DEFAULT_MAX_CAPSULE_PAYLOAD as nat);
            let payloads = payloads_of(d.capsules);
            let (next, action) = after_sends(tunnel::drain_step(s), n);
            &&& n < payloads.len() ==> action == (ActionView::SendUdp {
                target: s.target,
                payload: payloads[n as int],
            })
            &&& n == payloads.len() ==> action == ActionView::<A>::Wait && next == (SessionView {
                buffer: d.rest,
                stage: Stage::Idle,
                ..s
            })
        }),
    decreases n,
{
    lemma_next_forward_drained(s.buffer);
    let one = tunnel::drain_step(s);
    if n > 0 {
        lemma_drain_run(one.0, (n - 1) as nat);
    }
}

/// When a chunk completes capsules that are all within the limit, and their datagrams decode,
/// the session sends the payloads of exactly the DATAGRAM capsules of the default context, in
/// their order, and then waits. What is left in the buffer is what a pass over the capsules
/// leaves, and the target stays.
pub proof fn law_chunk_sends_its_payloads<A>(s: SessionView<A>, chunk: Seq<u8>, n: nat)
    requires
        s.skip == 0,
        ({
            let d = capsule::drained(s.buffer + chunk, DEFAULT_MAX_CAPSULE_PAYLOAD as nat);
            &&& d.refused is None
            &&& datagrams_decode(d.capsules)
            &&& n <= payloads_of(d.capsules).len()
        }),
    ensures
        ({
            let d = capsule::drained(s.buffer + chunk, DEFAULT_MAX_CAPSULE_PAYLOAD as nat);
            let payloads = payloads_of(d.capsules);
            let first = tunnel::step(s, EventView::Message(QuicMessageView::StreamChunk(chunk)));
            let (next, action) = after_sends(first, n);
            &&& n < payloads.len() ==> action == (ActionView::SendUdp {
                target: s.target,
                payload: payloads[n as int],
            })
            &&& n == payloads.len() ==> action == ActionView::<A>::Wait && next == (SessionView {
                buffer: d.rest,
                stage: Stage::Idle,
                ..s
            })
        }),
{
    assert(capsule::dropped(chunk, 0) =~= chunk);
    lemma_drain_run(tunnel::fed(s, chunk), n);
}

/// A QUIC DATAGRAM frame of another context than the default one changes nothing and is
/// answered with nothing.
pub proof fn law_other_context_ignored<A>(s: SessionView<A>, d: HttpDatagramView)
    requires
        d.context_id <= VarInt::MAX,
        d.context_id != CONNECT_UDP_DEFAULT_CONTEXT_ID,
    ensures
        tunnel::step(
            s,
            EventView::Message(QuicMessageView::Datagram(datagram::datagram_bytes(d))),
        ) == (s, ActionView::<A>::Wait),
{
    datagram::law_datagram_round_trip(d);
}

/// The two directions of a tunnel fit: what a session makes of a UDP payload for its peer
/// is what a session at the other end forwards as that payload, when it comes in a QUIC
/// DATAGRAM frame.
pub proof fn law_payload_through_datagram<A>(
    s: SessionView<A>,
    t: SessionView<A>,
    peer: A,
    payload: Seq<u8>,
)
    ensures
        tunnel::step(s, EventView::UdpReceived { peer, payload }).1 matches ActionView::SendDatagram(
            encoded,
        ) && tunnel::step(t, EventView::Message(QuicMessageView::Datagram(encoded))).1 == (
        ActionView::SendUdp { target: t.target, payload }),
{
    datagram::law_datagram_round_trip(
        HttpDatagramView { context_id: CONNECT_UDP_DEFAULT_CONTEXT_ID as nat, payload },
    );
}

/// A UDP payload comes out of the capsule stream as it went in when the stream before it
/// has been read, whatever follows it in the chunk.
pub proof fn law_payload_through_stream<A>(s: SessionView<A>, payload: Seq<u8>, after: Seq<u8>)
    requires
        s.buffer.len() == 0,
        s.skip == 0,
        payload.len() < DEFAULT_MAX_CAPSULE_PAYLOAD,
    ensures
        ({
            let carrier = CapsuleView {
                capsule_type: CapsuleType::Datagram,
                payload: tunnel::upstream_bytes(payload),
            };
            tunnel::step(
                s,
                EventView::Message(
                    QuicMessageView::StreamChunk(capsule::capsule_bytes(carrier) + after),
                ),
            ) == (
                SessionView { buffer: after, stage: Stage::DrainingStream, ..s },
                ActionView::SendUdp { target: s.target, payload },
            )
        }),
{
    let d = HttpDatagramView { context_id: CONNECT_UDP_DEFAULT_CONTEXT_ID as nat, payload };
    let carrier = CapsuleView {
        capsule_type: CapsuleType::Datagram,
        payload: tunnel::upstream_bytes(payload),
    };
    let chunk = capsule::capsule_bytes(carrier) + after;
    varint::lemma_varint_bytes_shape(CONNECT_UDP_DEFAULT_CONTEXT_ID as nat);
    datagram::law_datagram_capsule_round_trip(d, after, DEFAULT_MAX_CAPSULE_PAYLOAD as nat);
    capsule::law_capsule_round_trip(carrier, after, DEFAULT_MAX_CAPSULE_PAYLOAD as nat);
    assert(s.buffer + capsule::dropped(chunk, 0) =~= chunk);
}

/// The target after datagrams from several peers.
pub open spec fn learned_from<A>(target: Option<A>, peers: Seq<A>) -> Option<A>
    decreases peers.len(),
{
    if peers.len() == 0 {
        target
    } else {
        learned_from(tunnel::learned(target, peers[0]), peers.skip(1))
    }
}

/// The first address is remembered, and later ones change nothing.
pub proof fn law_first_address_sticks<A>(target: Option<A>, peers: Seq<A>)
    ensures
        learned_from(target, peers) == (if target is None && peers.len() > 0 {
            Some(peers[0])
        } else {
            target
        }),
    decreases peers.len(),
{
    if peers.len() > 0 {
        law_first_address_sticks(tunnel::learned(target, peers[0]), peers.skip(1));
    }
}

/// The target never changes once it is learned, and every payload goes to it.
pub proof fn law_target_is_fixed<A>(s: SessionView<A>, events: Seq<EventView<A>>)
    requires
        s.target is Some,
    ensures
        after_run(s, events).target == s.target,
        forall|i: int|
            0 <= i < actions(s, events).len() ==> (#[trigger] actions(
                s,
                events,
            )[i] matches ActionView::SendUdp { target, .. } ==> target == s.target),
    decreases events.len(),
{
    if events.len() > 0 {
        let one = tunnel::step(s, events[0]);
        let others = actions(one.0, events.skip(1));
        law_target_is_fixed(one.0, events.skip(1));
        assert(actions(s, events) =~= seq![one.1] + others);
        assert forall|i: int| 0 <= i < actions(s, events).len() implies (#[trigger] actions(
            s,
            events,
        )[i] matches ActionView::SendUdp { target, .. } ==> target == s.target) by {
            if i > 0 {
                assert(actions(s, events)[i] == others[i - 1]);
            }
        }
    }
}

/// A UDP datagram has its sender remembered as the target if there is none yet, and changes
/// nothing else of what the session knows.
pub proof fn law_target_is_learned<A>(s: SessionView<A>, peer: A, payload: Seq<u8>)
    ensures
        tunnel::step(s, EventView::UdpReceived { peer, payload }).0 == (SessionView {
            target: learned_from(s.target, seq![peer]),
            stage: Stage::SendingDatagram,
            ..s
        }),
{
    assert(seq![peer].skip(1) =~= Seq::empty());
    reveal_with_fuel(learned_from, 2);
}

/// A session ends just when the HTTP/3 side closes or is gone, or the UDP socket fails to
/// receive; it ends well just when the HTTP/3 side closed. After its end it takes nothing.
pub proof fn law_end_of_session<A>(s: SessionView<A>, e: EventView<A>)
    requires
        tunnel::accepts(s, e),
    ensures
        ({
            let (next, action) = tunnel::step(s, e);
            &&& action == ActionView::<A>::Finish(Ok(())) <==> (e is MessagesEnded || e
                == EventView::<A>::Message(QuicMessageView::Closed))
            &&& action matches ActionView::Finish(Err(error)) ==> match e {
                EventView::UdpReceiveFailed(cause) => error == SessionErrorView::IoError(cause),
                EventView::DatagramRefused => error == SessionErrorView::ChannelClosed,
                _ => false,
            }
            &&& (e is UdpReceiveFailed || e is DatagramRefused) ==> action is Finish
            &&& action is Finish <==> next.stage == Stage::Finished
            &&& action is Finish ==> forall|f: EventView<A>| !#[trigger] tunnel::accepts(next, f)
        }),
{
}

/// UDP payloads as a capsule stream: each in an HTTP datagram of the default context, in a
/// DATAGRAM capsule.
pub open spec fn carriers(payloads: Seq<Seq<u8>>) -> Seq<CapsuleView> {
    payloads.map_values(
        |p: Seq<u8>|
            CapsuleView {
                capsule_type: CapsuleType::Datagram,
                payload: tunnel::upstream_bytes(p),
            },
    )
}

/// A stream that was written to carry UDP payloads has them sent, all and in their order,
/// and leaves nothing over.
pub proof fn law_stream_carries_payloads(payloads: Seq<Seq<u8>>)
    requires
        forall|i: int|
            0 <= i < payloads.len() ==> (#[trigger] payloads[i]).len()
                < DEFAULT_MAX_CAPSULE_PAYLOAD,
    ensures
        outcomes(capsule::stream_bytes(carriers(payloads))) == payloads.map_values(
            |p: Seq<u8>| Outcome::Sent(p),
        ),
        left_over(capsule::stream_bytes(carriers(payloads))) == (Seq::<u8>::empty(), 0nat),
    decreases payloads.len(),
{
    let limit = DEFAULT_MAX_CAPSULE_PAYLOAD as nat;
    let capsules = carriers(payloads);
    let sent = payloads.map_values(|p: Seq<u8>| Outcome::Sent(p));
    if payloads.len() == 0 {
        assert(outcomes(capsule::stream_bytes(capsules)) =~= sent);
    } else {
        let c = capsules[0];
        let others = payloads.skip(1);
        let after = capsule::stream_bytes(carriers(others));
        assert(capsules.skip(1) =~= carriers(others));
        assert forall|i: int| 0 <= i < others.len() implies (#[trigger] others[i]).len()
            < DEFAULT_MAX_CAPSULE_PAYLOAD by {
            assert(others[i] == payloads[i + 1]);
        }
        law_stream_carries_payloads(others);
        assert(payloads[0].len() < DEFAULT_MAX_CAPSULE_PAYLOAD);
        varint::lemma_varint_bytes_shape(CONNECT_UDP_DEFAULT_CONTEXT_ID as nat);
        datagram::law_datagram_round_trip(
            HttpDatagramView {
                context_id: CONNECT_UDP_DEFAULT_CONTEXT_ID as nat,
                payload: payloads[0],
            },
        );
        capsule::law_capsule_round_trip(c, after, limit);
        law_capsule_outcome(c, after);
        assert(outcomes(capsule::stream_bytes(capsules)) =~= sent);
    }
}

/// A UDP payload for the peer is written behind one byte 0, however long it is.
pub proof fn law_upstream_wire(payload: Seq<u8>)
    ensures
        tunnel::upstream_bytes(payload) == seq![0u8] + payload,
{
    datagram::law_datagram_wire(HttpDatagramView { context_id: 0, payload });
}

/// The payloads that an event brings in a QUIC DATAGRAM frame of the default context: what
/// follows a first byte 0.
pub open spec fn datagram_payload<A>(e: EventView<A>) -> Seq<Seq<u8>> {
    match e {
        EventView::Message(QuicMessageView::Datagram(raw)) => if raw.len() > 0 && raw[0] == 0 {
            seq![raw.skip(1)]
        } else {
            Seq::empty()
        },
        _ => Seq::empty(),
    }
}

/// The payloads that come in QUIC DATAGRAM frames of the default context during a run.
pub open spec fn received_datagrams<A>(events: Seq<EventView<A>>) -> Seq<Seq<u8>>
    decreases events.len(),
{
    if events.len() == 0 {
        Seq::empty()
    } else {
        datagram_payload(events[0]) + received_datagrams(events.skip(1))
    }
}

/// The payload that a step has sent over UDP outside of the capsule stream, if it does.
pub open spec fn sent_beside<A>(step: (SessionView<A>, ActionView<A>)) -> Seq<Seq<u8>> {
    match step.1 {
        ActionView::SendUdp { payload, .. } => if step.0.stage == Stage::DrainingStream {
            Seq::empty()
        } else {
            seq![payload]
        },
        _ => Seq::empty(),
    }
}

/// The payloads that are sent over UDP outside of the capsule stream during a run.
pub open spec fn run_sent_beside<A>(s: SessionView<A>, events: Seq<EventView<A>>) -> Seq<Seq<u8>>
    decreases events.len(),
{
    if events.len() == 0 {
        Seq::empty()
    } else {
        let one = tunnel::step(s, events[0]);
        sent_beside(one) + run_sent_beside(one.0, events.skip(1))
    }
}

/// In every run the payloads that are sent over UDP outside of the capsule stream are exactly
/// those of the QUIC DATAGRAM frames of the default context, in their order and once each:
/// nothing is sent that no client sent.
pub proof fn law_datagrams_in_order_and_once<A>(s: SessionView<A>, events: Seq<EventView<A>>)
    requires
        valid_run(s, events),
    ensures
        run_sent_beside(s, events) == received_datagrams(events),
    decreases events.len(),
{
    if events.len() > 0 {
        let one = tunnel::step(s, events[0]);
        law_datagram_answer(s, events[0]);
        law_where_payloads_come_from(s, events[0]);
        assert(sent_beside(one) =~= datagram_payload(events[0]));
        law_datagrams_in_order_and_once(one.0, events.skip(1));
    }
}

/// What a QUIC DATAGRAM frame is answered: one with a first byte 0 has the bytes behind it sent
/// to the target. Any other leaves the session as it is: an empty one and one with half a
/// context id is reported as too short, one with a context id wider than need be as malformed,
/// and one of another context is passed over.
pub proof fn law_datagram_answer<A>(s: SessionView<A>, e: EventView<A>)
    ensures
        e matches EventView::Message(QuicMessageView::Datagram(raw)) ==> ({
            let (next, action) = tunnel::step(s, e);
            &&& raw.len() > 0 && raw[0] == 0 ==> action == (ActionView::SendUdp {
                target: s.target,
                payload: raw.skip(1),
            }) && next == (SessionView { stage: Stage::SendingPayload, ..s })
            &&& !(raw.len() > 0 && raw[0] == 0) ==> next == s && (action is Wait || action
                is Report)
            &&& raw.len() > 0 && 0 < raw[0] < 64 ==> action is Wait
            &&& !varint::has_varint(raw) <==> action == ActionView::<A>::Report(
                SessionErrorView::ProtocolError(ProtocolErrorView::DatagramTooShort),
            )
            &&& varint::has_varint(raw) && varint::varint_len(varint::varint_value(raw))
                < varint::field_width(raw[0]) <==> action == ActionView::<A>::Report(
                SessionErrorView::ProtocolError(ProtocolErrorView::InvalidVarInt),
            )
        }),
{
    if let EventView::Message(QuicMessageView::Datagram(raw)) = e {
        varint::law_varint_fields(raw);
        datagram::law_datagram_is_what_stands_there(raw);
        datagram::law_datagram_errors(raw);
        if varint::has_varint(raw) {
            varint::law_varint_range(raw);
        }
    }
}

/// Where the payloads that are sent over UDP come from: from a QUIC DATAGRAM frame, or from the
/// capsule stream, and then the session is in the middle of its buffer. They go to the target
/// that the session has. When the payload of a frame is sent, the session just waits.
pub proof fn law_where_payloads_come_from<A>(s: SessionView<A>, e: EventView<A>)
    requires
        tunnel::accepts(s, e),
    ensures
        ({
            let (next, action) = tunnel::step(s, e);
            let from_stream = match e {
                EventView::Message(QuicMessageView::StreamChunk(_)) => true,
                EventView::UdpSent => s.stage == Stage::DrainingStream,
                EventView::Skipped => true,
                _ => false,
            };
            &&& action matches ActionView::SendUdp { target, .. } ==> target == s.target
            &&& action is SendUdp && !from_stream ==> next.stage == Stage::SendingPayload && e
                is Message
            &&& action is SendUdp && from_stream <==> next.stage == Stage::DrainingStream
            &&& action is Skip <==> next.stage == Stage::SkippingCapsule
            &&& e is UdpSent && s.stage == Stage::SendingPayload ==> action is Wait && next == (
            SessionView { stage: Stage::Idle, ..s })
            &&& e is DatagramSent ==> action is Wait && next == (SessionView {
                stage: Stage::Idle,
                ..s
            })
        }),
{
}

/// After every answer the session can take what may happen next, and nothing else: the outcome
/// of what it asked for, or, when it waits, whatever its peers send that the memory can hold.
pub proof fn law_next_event_is_taken<A>(s: SessionView<A>, e: EventView<A>, f: EventView<A>)
    requires
        tunnel::accepts(s, e),
    ensures
        ({
            let (next, action) = tunnel::step(s, e);
            let outcome_of_send = f is UdpSent || f is UdpSendFailed;
            let outcome_of_handing = f is DatagramSent || f is DatagramRefused;
            let fits = match f {
                EventView::Message(QuicMessageView::StreamChunk(chunk)) => next.buffer.len()
                    + chunk.len() <= isize::MAX,
                EventView::UdpReceived { payload, .. } => payload.len() + 8 <= isize::MAX,
                _ => true,
            };
            &&& action is SendUdp ==> (tunnel::accepts(next, f) <==> outcome_of_send)
            &&& action is SendDatagram ==> (tunnel::accepts(next, f) <==> outcome_of_handing)
            &&& action is Skip ==> (tunnel::accepts(next, f) <==> f is Skipped)
            &&& action is Wait || action is Report ==> (tunnel::accepts(next, f) <==> fits && !(
            outcome_of_send || outcome_of_handing || f is Skipped))
        }),
{
}

/// A new session has no target and holds no bytes, and waits for its peers.
pub proof fn law_new_session<A>(size: nat, f: EventView<A>)
    ensures
        ({
            let s = tunnel::initial::<A>(size);
            &&& s.target is None
            &&& s.buffer.len() == 0
            &&& s.skip == 0
            &&& s.udp_recv_buf_size == size
            &&& f matches EventView::Message(QuicMessageView::Datagram(_)) ==> tunnel::accepts(s, f)
            &&& f matches EventView::Message(QuicMessageView::Closed) ==> tunnel::accepts(s, f)
            &&& f matches EventView::Message(QuicMessageView::StreamChunk(chunk))
                ==> tunnel::accepts(s, f) == (chunk.len() <= isize::MAX)
            &&& f is MessagesEnded || f is UdpReceiveFailed ==> tunnel::accepts(s, f)
            &&& f matches EventView::UdpReceived { payload, .. } ==> tunnel::accepts(s, f) == (
            payload.len() + 8 <= isize::MAX)
            &&& f is UdpSent || f is UdpSendFailed || f is Skipped || f is DatagramSent || f
                is DatagramRefused ==> !tunnel::accepts(s, f)
        }),
{
}

/// The UDP payloads that come in during a run, each as the HTTP datagram that it becomes.
pub open spec fn received_udp<A>(events: Seq<EventView<A>>) -> Seq<Seq<u8>>
    decreases events.len(),
{
    if events.len() == 0 {
        Seq::empty()
    } else {
        let rest = received_udp(events.skip(1));
        match events[0] {
            EventView::UdpReceived { payload, .. } => seq![seq![0u8] + payload] + rest,
            _ => rest,
        }
    }
}

/// The HTTP datagrams that are handed to the HTTP/3 side during a run.
pub open spec fn run_upstream<A>(s: SessionView<A>, events: Seq<EventView<A>>) -> Seq<Seq<u8>>
    decreases events.len(),
{
    if events.len() == 0 {
        Seq::empty()
    } else {
        let one = tunnel::step(s, events[0]);
        let rest = run_upstream(one.0, events.skip(1));
        match one.1 {
            ActionView::SendDatagram(encoded) => seq![encoded] + rest,
            _ => rest,
        }
    }
}

/// In every run what is handed to the HTTP/3 side is exactly what came over UDP, in its order
/// and once each, each payload behind one byte 0.
pub proof fn law_upstream_in_order_and_once<A>(s: SessionView<A>, events: Seq<EventView<A>>)
    requires
        valid_run(s, events),
    ensures
        run_upstream(s, events) == received_udp(events),
    decreases events.len(),
{
    if events.len() > 0 {
        let one = tunnel::step(s, events[0]);
        if let EventView::UdpReceived { payload, .. } = events[0] {
            law_upstream_wire(payload);
        }
        law_upstream_in_order_and_once(one.0, events.skip(1));
    }
}

/// What an event can change: the target only a UDP datagram, the stream bytes only a chunk of
/// the stream or going on with them, and the receive size nothing.
pub proof fn law_what_changes<A>(s: SessionView<A>, e: EventView<A>)
    requires
        tunnel::accepts(s, e),
    ensures
        ({
            let next = tunnel::step(s, e).0;
            let goes_on = match e {
                EventView::Message(QuicMessageView::StreamChunk(_)) => true,
                EventView::UdpSent => s.stage == Stage::DrainingStream,
                EventView::Skipped => true,
                _ => false,
            };
            &&& !(e is UdpReceived) ==> next.target == s.target
            &&& !goes_on ==> next.buffer == s.buffer && next.skip == s.skip
            &&& next.udp_recv_buf_size == s.udp_recv_buf_size
        }),
{
}

/// What is reported without more: a QUIC DATAGRAM frame that is too short or malformed, and a
/// payload that could not be sent, with the cause; and the session then waits.
pub proof fn law_reports<A>(s: SessionView<A>, e: EventView<A>)
    requires
        tunnel::accepts(s, e),
    ensures
        ({
            let (next, action) = tunnel::step(s, e);
            &&& e matches EventView::UdpSendFailed(cause) ==> action == ActionView::<A>::Report(
                SessionErrorView::IoError(cause),
            ) && next == (SessionView { stage: Stage::Idle, ..s })
            &&& action is Report ==> e is UdpSendFailed || (e matches EventView::Message(
                QuicMessageView::Datagram(raw),
            ) && !(raw.len() > 0 && raw[0] < 64))
        }),
{
    law_datagram_answer(s, e);
}

/// What comes of the capsule at the front of a stream, byte by byte. In a DATAGRAM capsule whose
/// payload has a first byte 0 the bytes behind it are forwarded, however many; one whose payload
/// is empty is too short. A capsule of any other type, or of a context from 1 to 63, is passed
/// over. A capsule that is too large is dropped with its header and all its bytes.
pub proof fn law_front_capsule(s: Seq<u8>)
    ensures
        match capsule::parse_capsule(s, 65535) {
            CapsuleParse::Incomplete => tunnel::next_forward(s) == (Forward::NeedMore { rest: s }),
            CapsuleParse::TooLarge { length, header } => {
                &&& tunnel::next_forward(s) matches Forward::Failed { error, rest, skip }
                &&& error == (ProtocolErrorView::CapsuleTooLarge { length, limit: 65535 })
                &&& s.len() <= header + length ==> rest.len() == 0 && skip == header + length
                    - s.len()
                &&& s.len() >= header + length ==> rest == s.skip((header + length) as int) && skip
                    == 0
            },
            CapsuleParse::Complete { capsule, size } => {
                let rest = s.skip(size as int);
                let p = capsule.payload;
                let carries = capsule.capsule_type == CapsuleType::Datagram;
                &&& carries && p.len() > 0 && p[0] == 0 ==> tunnel::next_forward(s) == (
                Forward::Payload { payload: p.skip(1), rest })
                &&& carries && p.len() == 0 ==> tunnel::next_forward(s) == (Forward::Failed {
                    error: ProtocolErrorView::DatagramTooShort,
                    rest,
                    skip: 0,
                })
                &&& carries && p.len() > 0 && 0 < p[0] < 64 ==> tunnel::next_forward(s)
                    == tunnel::next_forward(rest)
                &&& !carries ==> tunnel::next_forward(s) == tunnel::next_forward(rest)
            },
        },
{
    if let CapsuleParse::Complete { capsule, .. } = capsule::parse_capsule(s, 65535) {
        varint::law_varint_fields(capsule.payload);
        datagram::law_datagram_is_what_stands_there(capsule.payload);
        datagram::law_datagram_errors(capsule.payload);
    }
    if let CapsuleParse::TooLarge { length, header } = capsule::parse_capsule(s, 65535) {
        if s.len() == header + length {
            assert(s.skip((header + length) as int) =~= Seq::empty());
        }
    }
}

/// The other DATAGRAM capsules, with a payload whose first byte is 64 or more: one with half a
/// context id is too short, one with a context id in a wider field than it needs is malformed,
/// and any other is passed over.
pub proof fn law_front_capsule_of_wide_context(s: Seq<u8>)
    ensures
        capsule::parse_capsule(s, 65535) matches CapsuleParse::Complete { capsule, size } ==> ({
            let rest = s.skip(size as int);
            let p = capsule.payload;
            let wide = capsule.capsule_type == CapsuleType::Datagram && p.len() > 0 && p[0] >= 64;
            let wider = varint::varint_len(varint::varint_value(p)) < varint::field_width(p[0]);
            &&& wide && !varint::has_varint(p) ==> tunnel::next_forward(s) == (Forward::Failed {
                error: ProtocolErrorView::DatagramTooShort,
                rest,
                skip: 0,
            })
            &&& wide && varint::has_varint(p) && wider ==> tunnel::next_forward(s) == (Forward::Failed {
                error: ProtocolErrorView::InvalidVarInt,
                rest,
                skip: 0,
            })
            &&& wide && varint::has_varint(p) && !wider ==> tunnel::next_forward(s)
                == tunnel::next_forward(rest)
        }),
{
    if let CapsuleParse::Complete { capsule, .. } = capsule::parse_capsule(s, 65535) {
        varint::law_varint_fields(capsule.payload);
        datagram::law_datagram_is_what_stands_there(capsule.payload);
        datagram::law_datagram_errors(capsule.payload);
        if varint::has_varint(capsule.payload) {
            varint::law_varint_range(capsule.payload);
        }
    }
}

/// What a session does with the stream when a chunk comes, when a payload of the stream is sent,
/// and when a skipped capsule is logged: the first of what comes of the bytes that it holds then.
pub proof fn law_stream_step<A>(s: SessionView<A>, chunk: Seq<u8>)
    requires
        s.skip == 0,
    ensures
        ({
            let fed = tunnel::step(s, EventView::Message(QuicMessageView::StreamChunk(chunk)));
            let (next, action) = fed;
            let held = SessionView { buffer: s.buffer + chunk, ..s };
            &&& fed == tunnel::step(held, EventView::Skipped)
            &&& fed == tunnel::step(
                SessionView { stage: Stage::DrainingStream, ..held },
                EventView::UdpSent,
            )
            &&& match tunnel::next_forward(s.buffer + chunk) {
                Forward::Payload { payload, rest } => action == (ActionView::SendUdp {
                    target: s.target,
                    payload,
                }) && next == (SessionView { buffer: rest, stage: Stage::DrainingStream, ..s }),
                Forward::NeedMore { rest } => action is Wait && next == (SessionView {
                    buffer: rest,
                    stage: Stage::Idle,
                    ..s
                }),
                Forward::Failed { error, rest, skip } => action == ActionView::<A>::Skip(
                    SessionErrorView::ProtocolError(error),
                ) && next == (SessionView {
                    buffer: rest,
                    skip,
                    stage: Stage::SkippingCapsule,
                    ..s
                }),
            }
        }),
{
    assert(capsule::dropped(chunk, 0) =~= chunk);
}

/// While bytes of a capsule that is too large are awaited, a chunk of no more than these is
/// dropped whole and just as many fewer are awaited; of a longer chunk the rest is taken as if
/// it had come alone.
pub proof fn law_awaited_bytes_are_dropped<A>(s: SessionView<A>, chunk: Seq<u8>)
    requires
        tunnel::well_formed(s),
        s.skip > 0,
    ensures
        ({
            let fed = tunnel::step(s, EventView::Message(QuicMessageView::StreamChunk(chunk)));
            &&& chunk.len() <= s.skip ==> fed == (
                SessionView { skip: (s.skip - chunk.len()) as nat, stage: Stage::Idle, ..s },
                ActionView::<A>::Wait,
            )
            &&& chunk.len() > s.skip ==> fed == tunnel::step(
                SessionView { skip: 0, ..s },
                EventView::Message(QuicMessageView::StreamChunk(chunk.skip(s.skip as int))),
            )
        }),
{
    assert(s.buffer =~= Seq::empty());
    assert(s.buffer + capsule::dropped(chunk, s.skip) =~= capsule::dropped(chunk, s.skip));
    if chunk.len() > s.skip {
        let tail = chunk.skip(s.skip as int);
        assert(capsule::dropped(tail, 0) =~= tail);
    }
}

/// The view of a message is of the same kind, with the bytes that it carries.
pub proof fn law_message_view(m: QuicMessage)
    ensures
        ({
            &&& m matches QuicMessage::Datagram(raw) ==> m@ == QuicMessageView::Datagram(
                buffers::bytes_seq(raw),
            )
            &&& m matches QuicMessage::StreamChunk(chunk) ==> m@ == QuicMessageView::StreamChunk(
                buffers::bytes_seq(chunk),
            )
            &&& m is Closed ==> m@ is Closed
        }),
{
}

/// The view of an event is of the same kind, with what it carries.
pub proof fn law_event_view<A>(e: Event<A>)
    ensures
        ({
            &&& e matches Event::Message(m) ==> e@ == EventView::<A>::Message(m@)
            &&& e is MessagesEnded ==> e@ is MessagesEnded
            &&& e matches Event::UdpReceived { peer, payload } ==> (e@ is UdpReceived && e@->peer
                == peer && e@->payload == buffers::bytes_seq(payload))
            &&& e matches Event::UdpReceiveFailed(cause) ==> e@ == EventView::<
                A,
            >::UdpReceiveFailed(cause)
            &&& e is UdpSent ==> e@ is UdpSent
            &&& e matches Event::UdpSendFailed(cause) ==> e@ == EventView::<A>::UdpSendFailed(cause)
            &&& e is Skipped ==> e@ is Skipped
            &&& e is DatagramSent ==> e@ is DatagramSent
            &&& e is DatagramRefused ==> e@ is DatagramRefused
        }),
{
}

/// The view of an action is of the same kind, with what it carries.
pub proof fn law_action_view<A>(a: Action<A>)
    ensures
        ({
            &&& a is Wait ==> a@ is Wait
            &&& a matches Action::Report(e) ==> a@ == ActionView::<A>::Report(e@)
            &&& a matches Action::Skip(e) ==> a@ == ActionView::<A>::Skip(e@)
            &&& a matches Action::SendUdp { target, payload } ==> (a@ is SendUdp && a@->target
                == target && a@->payload == buffers::bytes_seq(payload))
            &&& a matches Action::SendDatagram(encoded) ==> a@ == ActionView::<A>::SendDatagram(
                buffers::bytes_seq(encoded),
            )
            &&& a matches Action::Finish(Ok(_)) ==> a@ == ActionView::<A>::Finish(Ok(()))
            &&& a matches Action::Finish(Err(e)) ==> a@ == ActionView::<A>::Finish(Err(e@))
        }),
{
}

} // verus!
