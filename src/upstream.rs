//! Forwarding a request to the real control API over a connection of its
//! own.
//!
//! An [`UpstreamSession`] opens one connection to the address that the
//! environment gives, performs the HTTP/1.1 handshake, and then relays
//! requests over it: it sends each one as it was given and answers with the
//! upstream response's head and fully collected body, as they came. Any
//! failure ends the session and is handed to the caller; nothing is retried
//! and nothing is answered without a round trip upstream.
//!
//! Whoever runs a session performs each [`UpstreamAction`] and reports the
//! outcome as an [`UpstreamEvent`]. Requests, response heads, bodies and
//! errors are carried through unchanged, whatever their types.

use vstd::prelude::*;

verus! {

/// Why forwarding failed.
#[derive(Debug, PartialEq, Eq)]
pub enum ForwardError<E> {
    /// The environment gives no address for the control API; no connection
    /// was attempted.
    MissingAddress,
    /// The connection could not be opened.
    Connect(E),
    /// The HTTP/1.1 handshake failed.
    Handshake(E),
    /// The request could not be sent, or no response head came back.
    Send(E),
    /// The response body could not be read to its end.
    Receive(E),
}

/// An upstream response, with its body read to the end.
#[derive(Debug, PartialEq, Eq)]
pub struct UpstreamResponse<Head, Body> {
    /// Status, headers and the rest of the response head.
    pub head: Head,
    /// The whole body.
    pub body: Body,
}

/// What happened when an action was performed, or a new request.
#[derive(Debug, PartialEq, Eq)]
pub enum UpstreamEvent<Req, Head, Body, E> {
    /// The connection is open.
    Connected,
    /// Opening the connection failed.
    ConnectFailed(E),
    /// The handshake completed.
    Handshaken,
    /// The handshake failed.
    HandshakeFailed(E),
    /// A request to forward.
    Request(Req),
    /// The upstream response head arrived.
    ResponseHead(Head),
    /// Sending failed.
    SendFailed(E),
    /// The response body was read to its end.
    BodyCollected(Body),
    /// Reading the body failed.
    BodyFailed(E),
}

/// What to do next.
#[derive(Debug, PartialEq, Eq)]
pub enum UpstreamAction<Req, Head, Body, E> {
    /// Open a connection to this address.
    Connect(String),
    /// Perform the HTTP/1.1 handshake on the open connection.
    Handshake,
    /// The connection is ready; hand over a request.
    AwaitRequest,
    /// Send this request upstream.
    Send(Req),
    /// Read the response body to its end.
    CollectBody,
    /// Answer with this response.
    Respond(UpstreamResponse<Head, Body>),
    /// Forwarding failed; the session is over.
    Fail(ForwardError<E>),
    /// Nothing: the event did not answer the pending action.
    Idle,
}

/// Where a session stands.
#[derive(Debug, PartialEq, Eq)]
pub enum UpstreamSession<Head> {
    /// The connection was asked for.
    Connecting,
    /// The handshake was asked for.
    Handshaking,
    /// Waiting for a request.
    Ready,
    /// A request was sent; its response head is awaited.
    Sending,
    /// The response head arrived; its body is being read.
    Collecting(Head),
    /// The session failed and does nothing more.
    Closed,
}

/// How a session opens: on the control API's address if the environment
/// gives one, else failing at once.
pub open spec fn upstream_open<Req, Head, Body, E>(address: Option<String>) -> (
    UpstreamSession<Head>,
    UpstreamAction<Req, Head, Body, E>,
) {
    match address {
        Some(a) => (UpstreamSession::Connecting, UpstreamAction::Connect(a)),
        None => (UpstreamSession::Closed, UpstreamAction::Fail(ForwardError::MissingAddress)),
    }
}

/// One step of a session: the next state and the action to perform.
pub open spec fn upstream_next<Req, Head, Body, E>(
    state: UpstreamSession<Head>,
    event: UpstreamEvent<Req, Head, Body, E>,
) -> (UpstreamSession<Head>, UpstreamAction<Req, Head, Body, E>) {
    match (state, event) {
        (UpstreamSession::Connecting, UpstreamEvent::Connected) => (
            UpstreamSession::Handshaking,
            UpstreamAction::Handshake,
        ),
        (UpstreamSession::Connecting, UpstreamEvent::ConnectFailed(e)) => (
            UpstreamSession::Closed,
            UpstreamAction::Fail(ForwardError::Connect(e)),
        ),
        (UpstreamSession::Handshaking, UpstreamEvent::Handshaken) => (
            UpstreamSession::Ready,
            UpstreamAction::AwaitRequest,
        ),
        (UpstreamSession::Handshaking, UpstreamEvent::HandshakeFailed(e)) => (
            UpstreamSession::Closed,
            UpstreamAction::Fail(ForwardError::Handshake(e)),
        ),
        (UpstreamSession::Ready, UpstreamEvent::Request(req)) => (
            UpstreamSession::Sending,
            UpstreamAction::Send(req),
        ),
        (UpstreamSession::Sending, UpstreamEvent::ResponseHead(head)) => (
            UpstreamSession::Collecting(head),
            UpstreamAction::CollectBody,
        ),
        (UpstreamSession::Sending, UpstreamEvent::SendFailed(e)) => (
            UpstreamSession::Closed,
            UpstreamAction::Fail(ForwardError::Send(e)),
        ),
        (UpstreamSession::Collecting(head), UpstreamEvent::BodyCollected(body)) => (
            UpstreamSession::Ready,
            UpstreamAction::Respond(UpstreamResponse { head, body }),
        ),
        (UpstreamSession::Collecting(_), UpstreamEvent::BodyFailed(e)) => (
            UpstreamSession::Closed,
            UpstreamAction::Fail(ForwardError::Receive(e)),
        ),
        (s, _) => (s, UpstreamAction::Idle),
    }
}

/// The actions that a session in `state` answers `events` with, one per
/// event.
pub open spec fn upstream_trace<Req, Head, Body, E>(
    state: UpstreamSession<Head>,
    events: Seq<UpstreamEvent<Req, Head, Body, E>>,
) -> Seq<UpstreamAction<Req, Head, Body, E>>
    decreases events.len(),
{
    if events.len() == 0 {
        Seq::empty()
    } else {
        let (next, action) = upstream_next(state, events[0]);
        seq![action] + upstream_trace(next, events.drop_first())
    }
}

/// A trace holds one action per event.
pub proof fn lemma_upstream_trace_len<Req, Head, Body, E>(
    state: UpstreamSession<Head>,
    events: Seq<UpstreamEvent<Req, Head, Body, E>>,
)
    ensures
        upstream_trace(state, events).len() == events.len(),
    decreases events.len(),
{
    if events.len() > 0 {
        let (next, action) = upstream_next(state, events[0]);
        lemma_upstream_trace_len(next, events.drop_first());
    }
}

impl<Head> UpstreamSession<Head> {
    /// Opens a session, given the control API's address as the environment
    /// gives it: asks to connect there, or fails without connecting when
    /// there is none.
    pub fn open<Req, Body, E>(address: Option<String>) -> (r: (Self, UpstreamAction<Req, Head, Body, E>))
        ensures
            r == upstream_open::<Req, Head, Body, E>(address),
    {
        match address {
            Some(a) => (UpstreamSession::Connecting, UpstreamAction::Connect(a)),
            None => (UpstreamSession::Closed, UpstreamAction::Fail(ForwardError::MissingAddress)),
        }
    }

    /// Takes the outcome of the pending action, or a new request, and says
    /// what to do next.
    pub fn step<Req, Body, E>(self, event: UpstreamEvent<Req, Head, Body, E>) -> (r: (
        Self,
        UpstreamAction<Req, Head, Body, E>,
    ))
        ensures
            r == upstream_next(self, event),
    {
        match (self, event) {
            (UpstreamSession::Connecting, UpstreamEvent::Connected) => (
                UpstreamSession::Handshaking,
                UpstreamAction::Handshake,
            ),
            (UpstreamSession::Connecting, UpstreamEvent::ConnectFailed(e)) => (
                UpstreamSession::Closed,
                UpstreamAction::Fail(ForwardError::Connect(e)),
            ),
            (UpstreamSession::Handshaking, UpstreamEvent::Handshaken) => (
                UpstreamSession::Ready,
                UpstreamAction::AwaitRequest,
            ),
            (UpstreamSession::Handshaking, UpstreamEvent::HandshakeFailed(e)) => (
                UpstreamSession::Closed,
                UpstreamAction::Fail(ForwardError::Handshake(e)),
            ),
            (UpstreamSession::Ready, UpstreamEvent::Request(req)) => (
                UpstreamSession::Sending,
                UpstreamAction::Send(req),
            ),
            (UpstreamSession::Sending, UpstreamEvent::ResponseHead(head)) => (
                UpstreamSession::Collecting(head),
                UpstreamAction::CollectBody,
            ),
            (UpstreamSession::Sending, UpstreamEvent::SendFailed(e)) => (
                UpstreamSession::Closed,
                UpstreamAction::Fail(ForwardError::Send(e)),
            ),
            (UpstreamSession::Collecting(head), UpstreamEvent::BodyCollected(body)) => (
                UpstreamSession::Ready,
                UpstreamAction::Respond(UpstreamResponse { head, body }),
            ),
            (UpstreamSession::Collecting(_), UpstreamEvent::BodyFailed(e)) => (
                UpstreamSession::Closed,
                UpstreamAction::Fail(ForwardError::Receive(e)),
            ),
            (s, _) => (s, UpstreamAction::Idle),
        }
    }
}

/// A closed session does nothing more.
proof fn lemma_closed_is_idle<Req, Head, Body, E>(
    events: Seq<UpstreamEvent<Req, Head, Body, E>>,
    i: int,
)
    requires
        0 <= i < events.len(),
    ensures
        upstream_trace(UpstreamSession::<Head>::Closed, events)[i] is Idle,
    decreases events.len(),
{
    let (next, action) = upstream_next(UpstreamSession::<Head>::Closed, events[0]);
    lemma_upstream_trace_len(next, events.drop_first());
    assert(upstream_trace(UpstreamSession::<Head>::Closed, events) == seq![action]
        + upstream_trace(next, events.drop_first()));
    if i > 0 {
        lemma_closed_is_idle(events.drop_first(), i - 1);
    }
}

/// Without an address for the control API, opening fails at once with
/// [`ForwardError::MissingAddress`], and the session never asks for a
/// connection, whatever happens afterwards.
pub proof fn lemma_missing_address_never_connects<Req, Head, Body, E>(
    events: Seq<UpstreamEvent<Req, Head, Body, E>>,
)
    ensures
        upstream_open::<Req, Head, Body, E>(None).1 == UpstreamAction::<Req, Head, Body, E>::Fail(
            ForwardError::MissingAddress,
        ),
        forall|i: int|
            0 <= i < events.len() ==> !(#[trigger] upstream_trace(
                upstream_open::<Req, Head, Body, E>(None).0,
                events,
            )[i] is Connect),
{
    assert forall|i: int| 0 <= i < events.len() implies !(#[trigger] upstream_trace(
        upstream_open::<Req, Head, Body, E>(None).0,
        events,
    )[i] is Connect) by {
        lemma_closed_is_idle::<Req, Head, Body, E>(events, i);
    }
}

/// A session opens its one connection when it starts and never another: no
/// step asks to connect, so nothing is retried or reconnected.
pub proof fn lemma_single_connection<Req, Head, Body, E>(
    state: UpstreamSession<Head>,
    events: Seq<UpstreamEvent<Req, Head, Body, E>>,
    i: int,
)
    requires
        0 <= i < events.len(),
    ensures
        !(upstream_trace(state, events)[i] is Connect),
    decreases events.len(),
{
    let (next, action) = upstream_next(state, events[0]);
    lemma_upstream_trace_len(next, events.drop_first());
    assert(upstream_trace(state, events) == seq![action] + upstream_trace(
        next,
        events.drop_first(),
    ));
    if i > 0 {
        lemma_single_connection(next, events.drop_first(), i - 1);
    }
}

/// Each request is sent upstream exactly as it was handed over.
pub proof fn lemma_request_sent_unchanged<Req, Head, Body, E>(
    state: UpstreamSession<Head>,
    events: Seq<UpstreamEvent<Req, Head, Body, E>>,
    i: int,
)
    requires
        0 <= i < events.len(),
        upstream_trace(state, events)[i] is Send,
    ensures
        events[i] == UpstreamEvent::<Req, Head, Body, E>::Request(
            upstream_trace(state, events)[i]->Send_0,
        ),
    decreases events.len(),
{
    let (next, action) = upstream_next(state, events[0]);
    lemma_upstream_trace_len(next, events.drop_first());
    assert(upstream_trace(state, events) == seq![action] + upstream_trace(
        next,
        events.drop_first(),
    ));
    if i > 0 {
        lemma_request_sent_unchanged(next, events.drop_first(), i - 1);
    }
}

/// Where a response comes from, for a session in any state: its body is the
/// one just collected, its head arrived earlier (or was pending when the run
/// began), and a request was sent before it (or was in flight).
proof fn lemma_response_origin<Req, Head, Body, E>(
    state: UpstreamSession<Head>,
    events: Seq<UpstreamEvent<Req, Head, Body, E>>,
    i: int,
)
    requires
        0 <= i < events.len(),
        upstream_trace(state, events)[i] is Respond,
    ensures
        events[i] == UpstreamEvent::<Req, Head, Body, E>::BodyCollected(
            upstream_trace(state, events)[i]->Respond_0.body,
        ),
        state == UpstreamSession::Collecting(upstream_trace(state, events)[i]->Respond_0.head)
            || exists|j: int|
            0 <= j < i && events[j] == UpstreamEvent::<Req, Head, Body, E>::ResponseHead(
                upstream_trace(state, events)[i]->Respond_0.head,
            ),
        state is Sending || state is Collecting || exists|k: int|
            0 <= k < i && #[trigger] upstream_trace(state, events)[k] is Send,
    decreases events.len(),
{
    let (next, action) = upstream_next(state, events[0]);
    let rest = events.drop_first();
    let trace = upstream_trace(state, events);
    lemma_upstream_trace_len(next, rest);
    assert(trace == seq![action] + upstream_trace(next, rest));
    if i > 0 {
        lemma_response_origin(next, rest, i - 1);
        let resp = trace[i]->Respond_0;
        assert(upstream_trace(next, rest)[i - 1] == trace[i]);
        if next == UpstreamSession::Collecting(resp.head) {
            if state != UpstreamSession::Collecting(resp.head) {
                assert(events[0] == UpstreamEvent::<Req, Head, Body, E>::ResponseHead(resp.head));
            }
        } else {
            let j = choose|j: int|
                0 <= j < i - 1 && rest[j] == UpstreamEvent::<Req, Head, Body, E>::ResponseHead(
                    resp.head,
                );
            assert(events[j + 1] == rest[j]);
        }
        if next is Sending || next is Collecting {
            if !(state is Sending || state is Collecting) {
                assert(trace[0] is Send);
            }
        } else {
            let k = choose|k: int| 0 <= k < i - 1 && #[trigger] upstream_trace(next, rest)[k] is Send;
            assert(trace[k + 1] == upstream_trace(next, rest)[k]);
        }
    }
}

/// Forwarding is transparent and nothing is cached: in a session opened on
/// an address, every response is answered with exactly the head that came
/// back from upstream and exactly the body collected after it, and only
/// after a request was sent upstream on this session.
pub proof fn lemma_response_relayed_from_upstream<Req, Head, Body, E>(
    address: String,
    events: Seq<UpstreamEvent<Req, Head, Body, E>>,
    i: int,
)
    requires
        0 <= i < events.len(),
        upstream_trace(upstream_open::<Req, Head, Body, E>(Some(address)).0, events)[i] is Respond,
    ensures
        ({
            let trace = upstream_trace(upstream_open::<Req, Head, Body, E>(Some(address)).0, events);
            let resp = trace[i]->Respond_0;
            &&& events[i] == UpstreamEvent::<Req, Head, Body, E>::BodyCollected(resp.body)
            &&& exists|j: int|
                0 <= j < i && events[j] == UpstreamEvent::<Req, Head, Body, E>::ResponseHead(
                    resp.head,
                )
            &&& exists|k: int| 0 <= k < i && #[trigger] trace[k] is Send
        }),
{
    lemma_response_origin(upstream_open::<Req, Head, Body, E>(Some(address)).0, events, i);
}

} // verus!
