//! From a request to a running tunnel: the decisions on the way, and what the client is
//! answered.
//!
//! A setup makes no system call. It is told how the last step went, a `SetupEvent`, and
//! answers with the next one, a `SetupAction`.

use vstd::prelude::*;
use vstd::string::*;

use crate::session::error::{SessionError, SessionErrorView};
use crate::session::handshake;
use crate::session::handshake::parse_connect_udp_target;
use crate::session::request;
use crate::session::response;
use crate::text;

verus! {

/// The status for a request that asks for no tunnel.
pub const BAD_REQUEST: u16 = 400;

/// The status when no UDP socket can be had.
pub const INTERNAL_SERVER_ERROR: u16 = 500;

/// The status when the target cannot be found or reached.
pub const BAD_GATEWAY: u16 = 502;

/// How a step of a setup went, with addresses of type `A`.
#[derive(Debug)]
pub enum SetupEvent<A> {
    /// The lookup of the target ended, with the first address that it found.
    Resolved(Option<A>),
    /// The UDP socket was bound, or could not be.
    Bound(bool),
    /// The UDP socket was connected to the target, or could not be.
    Connected(bool),
    /// The client was answered that the tunnel is accepted, or could not be.
    Answered(bool),
}

/// The next step of a setup, with addresses of type `A`.
#[derive(Debug)]
pub enum SetupAction<A> {
    /// Bind a UDP socket.
    Bind,
    /// Connect the UDP socket to this address.
    Connect(A),
    /// Answer the client that the tunnel is accepted.
    Accept(http::Response<()>),
    /// Answer the client that the tunnel is refused, and end.
    Refuse(http::Response<()>),
    /// Run the tunnel.
    Run,
    /// End without an answer.
    Abandon,
}

/// A `SetupAction` as a mathematical value, with the status and the fields of an answer.
pub enum SetupActionView<A> {
    Bind,
    Connect(A),
    Accept { status: u16, fields: Map<Seq<char>, Seq<Seq<u8>>> },
    Refuse { status: u16, fields: Map<Seq<char>, Seq<Seq<u8>>> },
    Run,
    Abandon,
}

impl<A> View for SetupAction<A> {
    type V = SetupActionView<A>;

    open spec fn view(&self) -> SetupActionView<A> {
        match *self {
            SetupAction::Bind => SetupActionView::Bind,
            SetupAction::Connect(addr) => SetupActionView::Connect(addr),
            SetupAction::Accept(answer) => SetupActionView::Accept {
                status: response::response_status(answer),
                fields: response::response_fields(answer),
            },
            SetupAction::Refuse(answer) => SetupActionView::Refuse {
                status: response::response_status(answer),
                fields: response::response_fields(answer),
            },
            SetupAction::Run => SetupActionView::Run,
            SetupAction::Abandon => SetupActionView::Abandon,
        }
    }
}

/// What a setup waits for.
#[derive(Debug, Clone, Copy)]
pub enum SetupStage<A> {
    /// The address of the target.
    Resolving,
    /// A UDP socket, to be connected to this address.
    Binding(A),
    /// The connection of the UDP socket.
    Connecting,
    /// The answer to the client.
    Answering,
    /// Nothing: the tunnel runs, or there will be none.
    Ended,
}

/// Whether an event can come at this stage of a setup.
pub open spec fn setup_accepts<A>(stage: SetupStage<A>, e: SetupEvent<A>) -> bool {
    match e {
        SetupEvent::Resolved(_) => stage is Resolving,
        SetupEvent::Bound(_) => stage is Binding,
        SetupEvent::Connected(_) => stage is Connecting,
        SetupEvent::Answered(_) => stage is Answering,
    }
}

/// A setup refuses the tunnel with a status.
pub open spec fn refuse<A>(status: u16) -> (SetupStage<A>, SetupActionView<A>) {
    (SetupStage::Ended, SetupActionView::Refuse { status, fields: response::no_fields() })
}

/// What a setup becomes by an event, and what it answers.
pub open spec fn setup_step<A>(stage: SetupStage<A>, e: SetupEvent<A>) -> (
    SetupStage<A>,
    SetupActionView<A>,
) {
    match e {
        SetupEvent::Resolved(None) => refuse(BAD_GATEWAY),
        SetupEvent::Resolved(Some(addr)) => (SetupStage::Binding(addr), SetupActionView::Bind),
        SetupEvent::Bound(false) => refuse(INTERNAL_SERVER_ERROR),
        SetupEvent::Bound(true) => (
            SetupStage::Connecting,
            SetupActionView::Connect(stage->Binding_0),
        ),
        SetupEvent::Connected(false) => refuse(BAD_GATEWAY),
        SetupEvent::Connected(true) => (
            SetupStage::Answering,
            SetupActionView::Accept { status: 200, fields: response::accepted_fields() },
        ),
        SetupEvent::Answered(false) => (SetupStage::Ended, SetupActionView::Abandon),
        SetupEvent::Answered(true) => (SetupStage::Ended, SetupActionView::Run),
    }
}

/// What a request leads to, by the outcome of its handshake: the target of the tunnel, or why
/// it is turned down, with the status and the header fields of the answer.
pub open spec fn begun(outcome: Result<(Seq<char>, u16), SessionErrorView>) -> Result<
    (Seq<char>, u16),
    (SessionErrorView, u16, Map<Seq<char>, Seq<Seq<u8>>>),
> {
    match outcome {
        Ok(target) => Ok(target),
        Err(e) => Err((e, BAD_REQUEST, response::no_fields())),
    }
}

/// The name that a host and a port are looked up by.
pub open spec fn lookup_text(host: Seq<char>, port: u16) -> Seq<char> {
    host + ":"@ + text::decimal_text(port as nat)
}

/// A request that was turned down: why, and what the client is answered.
#[derive(Debug)]
pub struct Refusal {
    /// Why the request was turned down.
    pub error: SessionError,
    /// The answer to the client.
    pub answer: http::Response<()>,
}

/// The setup of a tunnel that a client asked for.
#[derive(Debug)]
pub struct Setup<A> {
    /// The host that the tunnel leads to.
    pub target_host: String,
    /// The port that the tunnel leads to.
    pub target_port: u16,
    /// What the setup waits for.
    pub stage: SetupStage<A>,
}

impl<A: Copy> Setup<A> {
    /// Begins with a request. One that asks for no tunnel is turned down with status 400.
    pub fn begin(req: &http::Request<()>) -> (r: Result<Self, Refusal>)
        ensures
            match begun(
                handshake::handshake(
                    request::request_method(*req),
                    handshake::protocol_of_fields(request::request_fields(*req)),
                    request::request_path(*req),
                ),
            ) {
                Ok((host, port)) => r is Ok && r->Ok_0.target_host@ == host && r->Ok_0.target_port
                    == port && r->Ok_0.stage is Resolving,
                Err((e, status, fields)) => r is Err && r->Err_0.error@ == e
                    && response::response_status(r->Err_0.answer) == status
                    && response::response_fields(r->Err_0.answer) == fields,
            },
    {
        match parse_connect_udp_target(req) {
            Ok((target_host, target_port)) => Ok(
                Setup { target_host, target_port, stage: SetupStage::Resolving },
            ),
            Err(error) => Err(Refusal { error, answer: response::refusal(BAD_REQUEST) }),
        }
    }

    /// The name to look the target up by: its host and port.
    pub fn lookup_name(&self) -> (s: String)
        ensures
            s@ == lookup_text(self.target_host@, self.target_port),
    {
        text::concat3(
            self.target_host.as_str(),
            ":",
            text::decimal(self.target_port as u64).as_str(),
        )
    }

    /// Whether an event can come at this stage.
    pub fn accepts(&self, event: &SetupEvent<A>) -> (r: bool)
        ensures
            r == setup_accepts(self.stage, *event),
    {
        match (event, &self.stage) {
            (SetupEvent::Resolved(_), SetupStage::Resolving) => true,
            (SetupEvent::Bound(_), SetupStage::Binding(_)) => true,
            (SetupEvent::Connected(_), SetupStage::Connecting) => true,
            (SetupEvent::Answered(_), SetupStage::Answering) => true,
            _ => false,
        }
    }

    /// Takes note of how the last step went and says what to do next.
    pub fn handle(&mut self, event: SetupEvent<A>) -> (action: SetupAction<A>)
        requires
            setup_accepts(old(self).stage, event),
        ensures
            (final(self).stage, action@) == setup_step(old(self).stage, event),
            final(self).target_host == old(self).target_host,
            final(self).target_port == old(self).target_port,
    {
        match event {
            SetupEvent::Resolved(Some(addr)) => {
                self.stage = SetupStage::Binding(addr);
                SetupAction::Bind
            },
            SetupEvent::Resolved(None) => {
                self.stage = SetupStage::Ended;
                SetupAction::Refuse(response::refusal(BAD_GATEWAY))
            },
            SetupEvent::Bound(true) => match self.stage {
                SetupStage::Binding(addr) => {
                    self.stage = SetupStage::Connecting;
                    SetupAction::Connect(addr)
                },
                _ => SetupAction::Abandon,
            },
            SetupEvent::Bound(false) => {
                self.stage = SetupStage::Ended;
                SetupAction::Refuse(response::refusal(INTERNAL_SERVER_ERROR))
            },
            SetupEvent::Connected(true) => {
                self.stage = SetupStage::Answering;
                SetupAction::Accept(response::acceptance())
            },
            SetupEvent::Connected(false) => {
                self.stage = SetupStage::Ended;
                SetupAction::Refuse(response::refusal(BAD_GATEWAY))
            },
            SetupEvent::Answered(true) => {
                self.stage = SetupStage::Ended;
                SetupAction::Run
            },
            SetupEvent::Answered(false) => {
                self.stage = SetupStage::Ended;
                SetupAction::Abandon
            },
        }
    }
}

/// When every step succeeds the socket is connected to the address that the lookup found,
/// the client is answered with status 200 and `capsule-protocol: ?1`, and then the tunnel
/// runs.
pub proof fn law_setup_success<A>(addr: A)
    ensures
        ({
            let resolved = setup_step(SetupStage::Resolving, SetupEvent::Resolved(Some(addr)));
            let bound = setup_step(resolved.0, SetupEvent::Bound(true));
            let connected = setup_step(bound.0, SetupEvent::Connected(true));
            let answered = setup_step(connected.0, SetupEvent::Answered(true));
            &&& resolved.1 is Bind
            &&& bound.1 == SetupActionView::Connect(addr)
            &&& connected.1 == (SetupActionView::<A>::Accept {
                status: 200,
                fields: response::accepted_fields(),
            })
            &&& answered.1 is Run
        }),
{
}

/// A step that fails ends the setup. The client is answered with a server error, unless it
/// is the answer itself that failed. A tunnel runs only once the client has been answered,
/// and is accepted only once the socket is connected. After its end a setup takes nothing.
pub proof fn law_setup_failure<A>(stage: SetupStage<A>, e: SetupEvent<A>)
    requires
        setup_accepts(stage, e),
    ensures
        ({
            let (next, action) = setup_step(stage, e);
            let failed = match e {
                SetupEvent::Resolved(found) => found is None,
                SetupEvent::Bound(done) => !done,
                SetupEvent::Connected(done) => !done,
                SetupEvent::Answered(done) => !done,
            };
            &&& failed && !(e is Answered) <==> action is Refuse
            &&& failed && e is Answered <==> action is Abandon
            &&& action matches SetupActionView::Refuse { status, fields } ==> 500 <= status < 600
                && fields == response::no_fields()
            &&& action is Accept <==> stage is Connecting && !failed
            &&& action is Run <==> stage is Answering && !failed
            &&& next is Ended <==> failed || action is Run
            &&& next is Ended ==> forall|f: SetupEvent<A>| !#[trigger] setup_accepts(next, f)
        }),
{
}

/// What the client is told of each failure: 502 when the target is not found or cannot be
/// connected to, 500 when there is no socket, and 400 is the status of a request that asks for
/// no tunnel. No such answer has a header field.
pub proof fn law_failure_statuses<A>(stage: SetupStage<A>, name: Seq<char>)
    ensures
        ({
            let unresolved = setup_step(stage, SetupEvent::<A>::Resolved(None)).1;
            let unbound = setup_step(stage, SetupEvent::<A>::Bound(false)).1;
            let unconnected = setup_step(stage, SetupEvent::<A>::Connected(false)).1;
            &&& unresolved is Refuse && unresolved->Refuse_status == 502
            &&& !unresolved->Refuse_fields.contains_key(name)
            &&& unbound is Refuse && unbound->Refuse_status == 500
            &&& !unbound->Refuse_fields.contains_key(name)
            &&& unconnected is Refuse && unconnected->Refuse_status == 502
            &&& !unconnected->Refuse_fields.contains_key(name)
            &&& BAD_REQUEST == 400
        }),
{
}

/// A request whose handshake succeeds leads to a tunnel to just that target, and one whose
/// handshake fails, whatever the reason, is turned down with that reason and answered with
/// status 400 and no header field.
pub proof fn law_begin(outcome: Result<(Seq<char>, u16), SessionErrorView>, name: Seq<char>)
    ensures
        outcome matches Ok(target) ==> (begun(outcome) matches Ok(t) && t == target),
        outcome matches Err(e) ==> (begun(outcome) matches Err(answer) && answer.0 == e && answer.1
            == 400 && !answer.2.contains_key(name)),
{
}

/// The target is looked up by its host, a colon and its port in decimal: the name starts with
/// the host, and what follows the colon is read as the port.
pub proof fn law_lookup_name(host: Seq<char>, port: u16)
    ensures
        ({
            let s = lookup_text(host, port);
            let n = host.len() as int;
            &&& s.len() > n + 1
            &&& s.take(n) == host
            &&& s[n] == ':'
            &&& s[n + 1] != '+'
            &&& handshake::port_value(s.skip(n + 1)) == Some(port)
            &&& port > 0 ==> s[n + 1] != '0'
        }),
{
    let s = lookup_text(host, port);
    let n = host.len() as int;
    let digits = text::decimal_text(port as nat);
    reveal_strlit(":");
    handshake::law_decimal_round_trip(port as nat);
    handshake::law_decimal_digits(port as nat, 0);
    assert(digits.len() > 0);
    assert(s.take(n) =~= host);
    assert(s.skip(n + 1) =~= digits);
    assert(s[n + 1] == digits[0]);
}

/// A setup goes through its steps in their order: it starts with the address, and each step
/// that it asks for, and no other, is the one whose outcome it can take next.
pub proof fn law_setup_steps_in_order<A>(stage: SetupStage<A>, e: SetupEvent<A>, f: SetupEvent<A>)
    ensures
        setup_accepts(SetupStage::<A>::Resolving, f) <==> f is Resolved,
        setup_accepts(stage, e) ==> ({
            let (next, action) = setup_step(stage, e);
            &&& action is Bind ==> (setup_accepts(next, f) <==> f is Bound)
            &&& action is Connect ==> (setup_accepts(next, f) <==> f is Connected)
            &&& action is Accept ==> (setup_accepts(next, f) <==> f is Answered)
            &&& action is Refuse || action is Run || action is Abandon ==> !setup_accepts(next, f)
        }),
{
}

/// The socket is connected to the address that the lookup found and to no other.
pub proof fn law_setup_connects_to_what_was_found<A>(stage: SetupStage<A>, e: SetupEvent<A>)
    requires
        setup_accepts(stage, e),
    ensures
        ({
            let (next, action) = setup_step(stage, e);
            &&& next matches SetupStage::Binding(addr) ==> e == SetupEvent::Resolved(Some(addr))
            &&& e matches SetupEvent::Resolved(Some(addr)) ==> next == SetupStage::Binding(addr)
            &&& action matches SetupActionView::Connect(addr) ==> stage == SetupStage::Binding(addr)
            &&& e == SetupEvent::<A>::Bound(true) ==> action is Connect
        }),
{
}

/// The view of an action is of the same kind, with the address, or with the status and the
/// fields of the answer.
pub proof fn law_setup_action_view<A>(a: SetupAction<A>)
    ensures
        ({
            &&& a is Bind ==> a@ is Bind
            &&& a matches SetupAction::Connect(addr) ==> a@ == SetupActionView::Connect(addr)
            &&& a matches SetupAction::Accept(answer) ==> (a@ is Accept && a@->Accept_status
                == response::response_status(answer) && a@->Accept_fields
                == response::response_fields(answer))
            &&& a matches SetupAction::Refuse(answer) ==> (a@ is Refuse && a@->Refuse_status
                == response::response_status(answer) && a@->Refuse_fields
                == response::response_fields(answer))
            &&& a is Run ==> a@ is Run
            &&& a is Abandon ==> a@ is Abandon
        }),
{
}

} // verus!
