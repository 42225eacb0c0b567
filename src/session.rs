//! The per-connection SOCKS5 state machine, free of I/O: it is handed each
//! thing that happens on the connection (bytes from the client, the outcome
//! of a lookup, a dial, a bind or an accept) and answers with what to do
//! next (bytes to send, a socket to open, a relay to start, a close).
use vstd::prelude::*;

use crate::codec::{
    AUTH_SUB_VERSION, AddressType, CommandType, NOT_ACCEPTABLE, NO_AUTH, Reply, ReplyType, Request,
    RequestFields, SOCKS5_VERSION, SocketAddress, USERNAME_PASSWORD, AuthRequest, contains_byte,
    copy_range, decoded_request, greeting_error, greeting_methods, literal_target, reply_frame,
    request_error, target_view,
};
use crate::listener::{ListenerView, Socks5Proxy, auth_without};
use crate::users::credentials_accepted;

verus! {

/// Where a session stands.
#[derive(Clone, Copy, Debug, PartialEq, Eq, Structural)]
pub enum Phase {
    /// Waiting for the client's greeting.
    Greeting,
    /// Username and password were selected; waiting for them.
    SubNegotiation,
    /// Authenticated; waiting for the request.
    RequestWait,
    /// Waiting for the lookup of the requested domain name.
    Resolving,
    /// CONNECT: waiting for the outcome of the dial.
    Dialing,
    /// BIND: waiting for the listening socket.
    Binding,
    /// BIND: waiting for the one inbound connection.
    BoundWaiting,
    /// Bytes are being relayed.
    Relaying,
    /// Nothing more happens on this connection.
    Closed,
}

/// Why a dial to the destination failed.
#[derive(Clone, Copy, Debug, PartialEq, Eq, Structural)]
pub enum DialError {
    ConnectionRefused,
    HostUnreachable,
    NetworkUnreachable,
    Other,
}

/// Something that happened on a session's connection.
#[derive(Debug)]
pub enum SessionEvent {
    /// One message read from the client.
    Received(Vec<u8>),
    /// The first address that the requested name resolved to, if any.
    Resolved(Option<SocketAddress>),
    /// The outcome of connecting to the destination.
    Dialed(Result<(), DialError>),
    /// The local address of the BIND socket, or `None` if it could not be opened.
    Bound(Option<SocketAddress>),
    /// The peer of the inbound BIND connection, or `None` if accepting failed.
    Accepted(Option<SocketAddress>),
}

pub enum EventView {
    Received(Seq<u8>),
    Resolved(Option<(Seq<u8>, u16)>),
    Dialed(Result<(), DialError>),
    Bound(Option<(Seq<u8>, u16)>),
    Accepted(Option<(Seq<u8>, u16)>),
}

impl View for SessionEvent {
    type V = EventView;

    open spec fn view(&self) -> EventView {
        match self {
            SessionEvent::Received(b) => EventView::Received(b@),
            SessionEvent::Resolved(a) => EventView::Resolved(target_view(*a)),
            SessionEvent::Dialed(d) => EventView::Dialed(*d),
            SessionEvent::Bound(a) => EventView::Bound(target_view(*a)),
            SessionEvent::Accepted(a) => EventView::Accepted(target_view(*a)),
        }
    }
}

/// What the session asks of the connection.
#[derive(Debug)]
pub enum SessionAction {
    /// Send the bytes, then read the client's next message.
    Reply(Vec<u8>),
    /// Send the bytes, then close.
    ReplyAndClose(Vec<u8>),
    /// Close without a word.
    Close,
    /// Resolve the name (without its length byte) with the port.
    Resolve(Vec<u8>, u16),
    /// Connect to the address.
    Dial(SocketAddress),
    /// Open a listening socket on the address.
    Bind(SocketAddress),
    /// Send the bytes, then accept one connection on the BIND socket.
    ReplyAndAccept(Vec<u8>),
    /// Send the bytes, then relay between client and destination.
    ReplyAndRelay(Vec<u8>),
}

pub enum ActionView {
    Reply(Seq<u8>),
    ReplyAndClose(Seq<u8>),
    Close,
    Resolve(Seq<u8>, u16),
    Dial((Seq<u8>, u16)),
    Bind((Seq<u8>, u16)),
    ReplyAndAccept(Seq<u8>),
    ReplyAndRelay(Seq<u8>),
}

impl View for SessionAction {
    type V = ActionView;

    open spec fn view(&self) -> ActionView {
        match self {
            SessionAction::Reply(b) => ActionView::Reply(b@),
            SessionAction::ReplyAndClose(b) => ActionView::ReplyAndClose(b@),
            SessionAction::Close => ActionView::Close,
            SessionAction::Resolve(n, p) => ActionView::Resolve(n@, *p),
            SessionAction::Dial(a) => ActionView::Dial(a@),
            SessionAction::Bind(a) => ActionView::Bind(a@),
            SessionAction::ReplyAndAccept(b) => ActionView::ReplyAndAccept(b@),
            SessionAction::ReplyAndRelay(b) => ActionView::ReplyAndRelay(b@),
        }
    }
}

/// What a session is, to the contracts: its phase, and the request under
/// way while its destination is looked up, dialed or bound.
pub struct SessionView {
    pub phase: Phase,
    pub pending: Option<RequestFields>,
}

// ---------------------------------------------------------------------------
// The transition function
// ---------------------------------------------------------------------------

/// The method the server selects: username and password where both sides
/// accept it, else no authentication where both accept that, else none.
pub open spec fn selected_method(offered: Seq<u8>, accepted: Set<u8>) -> u8 {
    if offered.contains(USERNAME_PASSWORD) && accepted.contains(USERNAME_PASSWORD) {
        USERNAME_PASSWORD
    } else if offered.contains(NO_AUTH) && accepted.contains(NO_AUTH) {
        NO_AUTH
    } else {
        NOT_ACCEPTABLE
    }
}

/// Whether `b` is a well-formed RFC 1929 frame: `VER ULEN UNAME PLEN PASSWD`
/// with version 1 and a name and a password of at least one byte.
pub open spec fn credentials_well_formed(b: Seq<u8>) -> bool {
    &&& b.len() >= 2
    &&& b[0] == AUTH_SUB_VERSION
    &&& b[1] >= 1
    &&& b.len() >= 3 + b[1] as int
    &&& b[2 + b[1] as int] >= 1
    &&& b.len() >= 3 + b[1] as int + b[2 + b[1] as int] as int
}

pub open spec fn credentials_name(b: Seq<u8>) -> Seq<u8> {
    b.subrange(2, 2 + b[1] as int)
}

pub open spec fn credentials_password(b: Seq<u8>) -> Seq<u8> {
    let u = b[1] as int;
    b.subrange(3 + u, 3 + u + b[2 + u] as int)
}

/// A reply with status `rep` and the unspecified address 0.0.0.0:0.
pub open spec fn failure_frame(rep: ReplyType) -> Seq<u8> {
    reply_frame(rep, AddressType::IPv4, seq![0u8, 0u8, 0u8, 0u8], 0)
}

/// The reply status for a failed dial.
pub open spec fn dial_status(e: DialError) -> ReplyType {
    match e {
        DialError::ConnectionRefused => ReplyType::ConnectionRefused,
        DialError::HostUnreachable => ReplyType::HostUnreachable,
        DialError::NetworkUnreachable => ReplyType::NetworkUnreachable,
        DialError::Other => ReplyType::GeneralFailure,
    }
}

pub open spec fn closing(bytes: Seq<u8>) -> (SessionView, ActionView) {
    (SessionView { phase: Phase::Closed, pending: None }, ActionView::ReplyAndClose(bytes))
}

pub open spec fn closing_silently() -> (SessionView, ActionView) {
    (SessionView { phase: Phase::Closed, pending: None }, ActionView::Close)
}

pub open spec fn waiting(phase: Phase, pending: Option<RequestFields>, a: ActionView) -> (SessionView, ActionView) {
    (SessionView { phase, pending }, a)
}

pub open spec fn on_greeting(b: Seq<u8>, p: ListenerView) -> (SessionView, ActionView) {
    if greeting_error(b) is Some {
        closing_silently()
    } else {
        let m = selected_method(greeting_methods(b), p.auth_methods);
        if m == USERNAME_PASSWORD {
            waiting(Phase::SubNegotiation, None, ActionView::Reply(seq![SOCKS5_VERSION, m]))
        } else if m == NO_AUTH {
            waiting(Phase::RequestWait, None, ActionView::Reply(seq![SOCKS5_VERSION, m]))
        } else {
            closing(seq![SOCKS5_VERSION, NOT_ACCEPTABLE])
        }
    }
}

pub open spec fn on_credentials(b: Seq<u8>, p: ListenerView) -> (SessionView, ActionView) {
    if credentials_well_formed(b) && credentials_accepted(
        p.users,
        credentials_name(b),
        credentials_password(b),
    ) {
        waiting(Phase::RequestWait, None, ActionView::Reply(seq![AUTH_SUB_VERSION, 0u8]))
    } else {
        closing(seq![AUTH_SUB_VERSION, 1u8])
    }
}

/// Once the destination of a CONNECT or BIND is known: a BIND opens its
/// socket there; a CONNECT is refused if the address is blocked, and dials
/// it otherwise.
pub open spec fn toward_target(f: RequestFields, t: (Seq<u8>, u16), p: ListenerView) -> (SessionView, ActionView) {
    match f.1 {
        CommandType::Bind => waiting(Phase::Binding, Some(f), ActionView::Bind(t)),
        _ => if p.blocked.contains(t.0) {
            closing(failure_frame(ReplyType::ConnectionNotAllowed))
        } else {
            waiting(Phase::Dialing, Some(f), ActionView::Dial(t))
        },
    }
}

pub open spec fn on_request(b: Seq<u8>, p: ListenerView) -> (SessionView, ActionView) {
    if request_error(b) is Some {
        closing(failure_frame(ReplyType::GeneralFailure))
    } else {
        let f = decoded_request(b);
        match f.1 {
            CommandType::UdpAssociate => closing(failure_frame(ReplyType::CommandNotSupported)),
            _ => match literal_target(f.3, f.4, f.5) {
                Some(t) => toward_target(f, t, p),
                None => waiting(
                    Phase::Resolving,
                    Some(f),
                    ActionView::Resolve(f.4.subrange(1, f.4.len() as int), f.5),
                ),
            },
        }
    }
}

/// Relay starts only while the listener has budget left.
pub open spec fn entering_relay(reply: Seq<u8>, p: ListenerView) -> (SessionView, ActionView) {
    if p.max_bandwidth > p.bandwidth_used {
        waiting(Phase::Relaying, None, ActionView::ReplyAndRelay(reply))
    } else {
        closing(failure_frame(ReplyType::GeneralFailure))
    }
}

/// The session's answer to `e` in state `s`, under the listener policy `p`.
/// An event that the phase does not wait for closes the session.
pub open spec fn transition(s: SessionView, p: ListenerView, e: EventView) -> (SessionView, ActionView) {
    match s.phase {
        Phase::Greeting => match e {
            EventView::Received(b) => on_greeting(b, p),
            _ => closing_silently(),
        },
        Phase::SubNegotiation => match e {
            EventView::Received(b) => on_credentials(b, p),
            _ => closing_silently(),
        },
        Phase::RequestWait => match e {
            EventView::Received(b) => on_request(b, p),
            _ => closing_silently(),
        },
        Phase::Resolving => match (e, s.pending) {
            (EventView::Resolved(Some(t)), Some(f)) => toward_target(f, t, p),
            (EventView::Resolved(None), Some(_)) => closing(failure_frame(ReplyType::GeneralFailure)),
            _ => closing_silently(),
        },
        Phase::Dialing => match (e, s.pending) {
            (EventView::Dialed(Ok(())), Some(f)) => entering_relay(
                reply_frame(ReplyType::Succeeded, f.3, f.4, f.5),
                p,
            ),
            (EventView::Dialed(Err(d)), Some(_)) => closing(failure_frame(dial_status(d))),
            _ => closing_silently(),
        },
        Phase::Binding => match (e, s.pending) {
            (EventView::Bound(Some(local)), Some(_)) => waiting(
                Phase::BoundWaiting,
                None,
                ActionView::ReplyAndAccept(
                    reply_frame(ReplyType::Succeeded, AddressType::IPv4, local.0, local.1),
                ),
            ),
            (EventView::Bound(None), Some(_)) => closing(failure_frame(ReplyType::GeneralFailure)),
            _ => closing_silently(),
        },
        Phase::BoundWaiting => match e {
            EventView::Accepted(Some(peer)) => entering_relay(
                reply_frame(ReplyType::Succeeded, AddressType::IPv4, peer.0, peer.1),
                p,
            ),
            EventView::Accepted(None) => closing(failure_frame(ReplyType::GeneralFailure)),
            _ => closing_silently(),
        },
        Phase::Relaying => closing_silently(),
        Phase::Closed => closing_silently(),
    }
}

// ---------------------------------------------------------------------------
// The machine
// ---------------------------------------------------------------------------

/// The method selected for a client that offers `offered`, under the
/// listener's policy.
pub fn select_auth_method(offered: &[u8], policy: &Socks5Proxy) -> (r: u8)
    ensures
        r == selected_method(offered@, policy@.auth_methods),
{
    if contains_byte(offered, USERNAME_PASSWORD) && policy.accepts_method(USERNAME_PASSWORD) {
        USERNAME_PASSWORD
    } else if contains_byte(offered, NO_AUTH) && policy.accepts_method(NO_AUTH) {
        NO_AUTH
    } else {
        NOT_ACCEPTABLE
    }
}

/// The user name and password of an RFC 1929 frame, if it is well formed.
pub fn parse_user_pass(buf: &[u8]) -> (r: Option<(Vec<u8>, Vec<u8>)>)
    ensures
        r is Some <==> credentials_well_formed(buf@),
        r matches Some((n, pw)) ==> n@ == credentials_name(buf@) && pw@ == credentials_password(buf@),
{
    if buf.len() < 2 || buf[0] != AUTH_SUB_VERSION || buf[1] == 0 {
        return None;
    }
    let ulen = buf[1] as usize;
    if buf.len() < 3 + ulen {
        return None;
    }
    let plen = buf[2 + ulen] as usize;
    if plen == 0 || buf.len() < 3 + ulen + plen {
        return None;
    }
    Some((copy_range(buf, 2, 2 + ulen), copy_range(buf, 3 + ulen, 3 + ulen + plen)))
}

/// The bytes of a reply with status `rep` carrying `addr` and `port`.
pub fn reply_bytes(rep: ReplyType, atyp: AddressType, addr: &[u8], port: u16) -> (r: Vec<u8>)
    ensures
        r@ == reply_frame(rep, atyp, addr@, port),
{
    let v = copy_range(addr, 0, addr.len());
    assert(addr@.subrange(0, addr@.len() as int) == addr@);
    Reply::new(rep, atyp, v, port).to_bytes()
}

/// The bytes of a reply with status `rep` and the address 0.0.0.0:0.
pub fn failure_reply(rep: ReplyType) -> (r: Vec<u8>)
    ensures
        r@ == failure_frame(rep),
{
    let mut zero: Vec<u8> = Vec::new();
    zero.push(0);
    zero.push(0);
    zero.push(0);
    zero.push(0);
    assert(zero@ == seq![0u8, 0u8, 0u8, 0u8]);
    reply_bytes(rep, AddressType::IPv4, zero.as_slice(), 0)
}

/// The reply status that reports a failed dial.
pub fn dial_reply_type(e: DialError) -> (r: ReplyType)
    ensures
        r == dial_status(e),
{
    match e {
        DialError::ConnectionRefused => ReplyType::ConnectionRefused,
        DialError::HostUnreachable => ReplyType::HostUnreachable,
        DialError::NetworkUnreachable => ReplyType::NetworkUnreachable,
        DialError::Other => ReplyType::GeneralFailure,
    }
}

pub open spec fn fields_of(r: Option<Request>) -> Option<RequestFields> {
    match r {
        Some(q) => Some(q.fields()),
        None => None,
    }
}

/// A step's result: the next phase, the request under way, the action.
type Outcome = (Phase, Option<Request>, SessionAction);

pub open spec fn outcome_view(o: (Phase, Option<Request>, SessionAction)) -> (SessionView, ActionView) {
    (SessionView { phase: o.0, pending: fields_of(o.1) }, o.2@)
}

fn close_silently() -> (r: Outcome)
    ensures
        outcome_view(r) == closing_silently(),
{
    (Phase::Closed, None, SessionAction::Close)
}

fn close_with(rep: ReplyType) -> (r: Outcome)
    ensures
        outcome_view(r) == closing(failure_frame(rep)),
{
    (Phase::Closed, None, SessionAction::ReplyAndClose(failure_reply(rep)))
}

fn greet(b: &[u8], p: &Socks5Proxy) -> (r: Outcome)
    ensures
        outcome_view(r) == on_greeting(b@, p@),
{
    match AuthRequest::from_bytes(b) {
        Err(_) => close_silently(),
        Ok(req) => {
            let m = select_auth_method(req.methods.as_slice(), p);
            let mut bytes: Vec<u8> = Vec::new();
            bytes.push(SOCKS5_VERSION);
            bytes.push(m);
            assert(bytes@ =~= seq![SOCKS5_VERSION, m]);
            if m == USERNAME_PASSWORD {
                (Phase::SubNegotiation, None, SessionAction::Reply(bytes))
            } else if m == NO_AUTH {
                (Phase::RequestWait, None, SessionAction::Reply(bytes))
            } else {
                (Phase::Closed, None, SessionAction::ReplyAndClose(bytes))
            }
        },
    }
}

fn authenticate(b: &[u8], p: &Socks5Proxy) -> (r: Outcome)
    ensures
        outcome_view(r) == on_credentials(b@, p@),
{
    let ok = match parse_user_pass(b) {
        Some((name, password)) => p.check_credentials(name.as_slice(), password.as_slice()),
        None => false,
    };
    let mut bytes: Vec<u8> = Vec::new();
    bytes.push(AUTH_SUB_VERSION);
    if ok {
        bytes.push(0);
        assert(bytes@ =~= seq![AUTH_SUB_VERSION, 0u8]);
        (Phase::RequestWait, None, SessionAction::Reply(bytes))
    } else {
        bytes.push(1);
        assert(bytes@ =~= seq![AUTH_SUB_VERSION, 1u8]);
        (Phase::Closed, None, SessionAction::ReplyAndClose(bytes))
    }
}

fn toward(req: Request, target: SocketAddress, p: &Socks5Proxy) -> (r: Outcome)
    ensures
        outcome_view(r) == toward_target(req.fields(), target@, p@),
{
    match req.cmd {
        CommandType::Bind => (Phase::Binding, Some(req), SessionAction::Bind(target)),
        _ => {
            if p.is_blocked(&target.ip) {
                close_with(ReplyType::ConnectionNotAllowed)
            } else {
                (Phase::Dialing, Some(req), SessionAction::Dial(target))
            }
        },
    }
}

fn handle_request(b: &[u8], p: &Socks5Proxy) -> (r: Outcome)
    ensures
        outcome_view(r) == on_request(b@, p@),
{
    match Request::from_bytes(b) {
        Err(_) => close_with(ReplyType::GeneralFailure),
        Ok(mut req) => {
            match req.cmd {
                CommandType::UdpAssociate => close_with(ReplyType::CommandNotSupported),
                _ => {
                    let target = req.dst_socket_addr.take();
                    match target {
                        Some(t) => toward(req, t, p),
                        None => {
                            let name = copy_range(req.dst_addr.as_slice(), 1, req.dst_addr.len());
                            let port = req.dst_port;
                            (Phase::Resolving, Some(req), SessionAction::Resolve(name, port))
                        },
                    }
                },
            }
        },
    }
}

fn relay_or_refuse(reply: Vec<u8>, p: &Socks5Proxy) -> (r: Outcome)
    ensures
        outcome_view(r) == entering_relay(reply@, p@),
{
    if p.has_bandwith() {
        (Phase::Relaying, None, SessionAction::ReplyAndRelay(reply))
    } else {
        close_with(ReplyType::GeneralFailure)
    }
}

/// One SOCKS5 connection's protocol state.
#[derive(Debug)]
pub struct Session {
    phase: Phase,
    pending: Option<Request>,
}

impl View for Session {
    type V = SessionView;

    closed spec fn view(&self) -> SessionView {
        SessionView { phase: self.phase, pending: fields_of(self.pending) }
    }
}

impl Session {
    /// A session that waits for the client's greeting.
    pub fn new() -> (r: Session)
        ensures
            r@ == (SessionView { phase: Phase::Greeting, pending: None }),
    {
        Session { phase: Phase::Greeting, pending: None }
    }

    pub fn phase(&self) -> (r: Phase)
        ensures
            r == self@.phase,
    {
        self.phase
    }

    /// Takes in what happened on the connection, under the listener's
    /// current policy, and says what to do next.
    pub fn step(&mut self, policy: &Socks5Proxy, event: SessionEvent) -> (r: SessionAction)
        ensures
            (final(self)@, r@) == transition(old(self)@, policy@, event@),
    {
        let pending = self.pending.take();
        let (phase, next, action) = match self.phase {
            Phase::Greeting => match event {
                SessionEvent::Received(b) => greet(b.as_slice(), policy),
                _ => close_silently(),
            },
            Phase::SubNegotiation => match event {
                SessionEvent::Received(b) => authenticate(b.as_slice(), policy),
                _ => close_silently(),
            },
            Phase::RequestWait => match event {
                SessionEvent::Received(b) => handle_request(b.as_slice(), policy),
                _ => close_silently(),
            },
            Phase::Resolving => match (event, pending) {
                (SessionEvent::Resolved(Some(t)), Some(req)) => toward(req, t, policy),
                (SessionEvent::Resolved(None), Some(_)) => close_with(ReplyType::GeneralFailure),
                _ => close_silently(),
            },
            Phase::Dialing => match (event, pending) {
                (SessionEvent::Dialed(Ok(())), Some(req)) => {
                    let reply = reply_bytes(
                        ReplyType::Succeeded,
                        req.atyp,
                        req.dst_addr.as_slice(),
                        req.dst_port,
                    );
                    relay_or_refuse(reply, policy)
                },
                (SessionEvent::Dialed(Err(d)), Some(_)) => close_with(dial_reply_type(d)),
                _ => close_silently(),
            },
            Phase::Binding => match (event, pending) {
                (SessionEvent::Bound(Some(local)), Some(_)) => {
                    let reply = reply_bytes(
                        ReplyType::Succeeded,
                        AddressType::IPv4,
                        local.ip.octets.as_slice(),
                        local.port,
                    );
                    (Phase::BoundWaiting, None, SessionAction::ReplyAndAccept(reply))
                },
                (SessionEvent::Bound(None), Some(_)) => close_with(ReplyType::GeneralFailure),
                _ => close_silently(),
            },
            Phase::BoundWaiting => match event {
                SessionEvent::Accepted(Some(peer)) => {
                    let reply = reply_bytes(
                        ReplyType::Succeeded,
                        AddressType::IPv4,
                        peer.ip.octets.as_slice(),
                        peer.port,
                    );
                    relay_or_refuse(reply, policy)
                },
                SessionEvent::Accepted(None) => close_with(ReplyType::GeneralFailure),
                _ => close_silently(),
            },
            Phase::Relaying => close_silently(),
            Phase::Closed => close_silently(),
        };
        self.phase = phase;
        self.pending = next;
        action
    }
}

/// With a budget of zero bytes, as `set_max_bandwith(0)` leaves a listener,
/// no step of any session starts a relay or reaches the relaying phase.
pub proof fn lemma_zero_budget_never_relays(s: SessionView, p0: ListenerView, e: EventView)
    ensures
        ({
            let p = ListenerView { max_bandwidth: 0, ..p0 };
            &&& !(transition(s, p, e).1 is ReplyAndRelay)
            &&& transition(s, p, e).0.phase != Phase::Relaying
        }),
{
}

/// Once no-authentication and username/password have both been removed
/// from a listener's methods, every well-formed greeting is answered with
/// `05 FF` and the session closes.
pub proof fn lemma_no_method_left_refuses(p0: ListenerView, b: Seq<u8>)
    requires
        greeting_error(b) is None,
    ensures
        ({
            let p = ListenerView {
                auth_methods: auth_without(
                    auth_without(p0.auth_methods, seq![NO_AUTH]),
                    seq![USERNAME_PASSWORD],
                ),
                ..p0
            };
            transition(SessionView { phase: Phase::Greeting, pending: None }, p, EventView::Received(b))
                == closing(seq![SOCKS5_VERSION, NOT_ACCEPTABLE])
        }),
{
    assert(seq![NO_AUTH][0] == NO_AUTH);
    assert(seq![USERNAME_PASSWORD][0] == USERNAME_PASSWORD);
}

/// A session waiting for credentials that match no user of the listener
/// (or are malformed) answers `01 01` and closes.
pub proof fn lemma_bad_credentials_refused(s: SessionView, p: ListenerView, b: Seq<u8>)
    requires
        s.phase == Phase::SubNegotiation,
        !credentials_well_formed(b) || !credentials_accepted(
            p.users,
            credentials_name(b),
            credentials_password(b),
        ),
    ensures
        transition(s, p, EventView::Received(b)) == closing(seq![AUTH_SUB_VERSION, 1u8]),
{
}

} // verus!
