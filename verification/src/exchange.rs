//! The execution of one request as a state machine. The machine does no
//! input or output: whoever drives it hands the request to a transport and
//! reports what the transport did.

use crate::failure::{ApiError, Failure};
use crate::headers::Headers;
use crate::json::{json_document, json_from_slice};
use vstd::prelude::*;

verus! {

#[verifier::external_type_specification]
#[verifier::external_body]
pub struct ExMethod(hyper::Method);

/// A request as it goes to the transport.
#[derive(Debug)]
pub struct Outgoing {
    pub method: hyper::Method,
    /// The target: base path, resolved path and query.
    pub uri: hyper::Uri,
    /// The text that `uri` was read from.
    pub target: String,
    pub headers: Headers,
    pub body: String,
}

/// What a successful execution yields.
#[derive(Debug)]
pub enum Payload {
    /// Nothing: the request expects no body in the response.
    Empty,
    /// The body of the response as a JSON document.
    Json(serde_json::Value),
}

/// Where an execution stands.
#[derive(Debug)]
pub enum State {
    /// The request is assembled and has not gone to the transport.
    Built(Outgoing),
    /// The transport has the request.
    Sent,
    /// Status and headers of the response are here.
    HeadersReceived { status: u16 },
    /// The whole body of the response is here.
    BodyReceived { status: u16, body: Vec<u8> },
    /// The execution succeeded.
    Decoded(Payload),
    /// The execution failed.
    Failed(Failure),
}

/// The phases of an execution, in their order.
#[derive(Clone, Copy, Debug, PartialEq, Eq, Structural)]
pub enum Phase {
    Built,
    Sent,
    HeadersReceived,
    BodyReceived,
    Decoded,
    Failed,
}

/// What the transport reports.
#[derive(Debug)]
pub enum Event {
    /// The transport took the request.
    Dispatched,
    /// Status and headers of the response arrived.
    Head(u16),
    /// The body of the response arrived, all of it.
    Body(Vec<u8>),
    /// Sending or receiving failed.
    TransportFailed(hyper::Error),
}

/// Whether `status` reports success: 200 to 299.
pub open spec fn is_success(status: u16) -> bool {
    200 <= status < 300
}

/// The state after `event` in `state`. An event that does not apply in
/// `state` changes nothing.
pub open spec fn after_event(state: State, event: Event) -> State {
    match (state, event) {
        (State::Built(_), Event::Dispatched) => State::Sent,
        (State::Sent, Event::Head(status)) => State::HeadersReceived { status },
        (State::HeadersReceived { status }, Event::Body(body)) => State::BodyReceived {
            status,
            body,
        },
        (State::Decoded(payload), _) => State::Decoded(payload),
        (State::Failed(failure), _) => State::Failed(failure),
        (_, Event::TransportFailed(e)) => State::Failed(Failure::TransportError(e)),
        (state, _) => state,
    }
}

/// How a response with `status` and `body` ends an execution, where
/// `document` is what the body is as a JSON document.
///
/// On success, the payload is empty where no body is expected, and else the
/// document; a body that is no document is a failure of decoding. Any other
/// status is a failure that carries the status, the body and, where the
/// body is a JSON document, that document.
pub open spec fn judged(
    expects_no_body: bool,
    status: u16,
    body: Vec<u8>,
    document: Result<serde_json::Value, serde_json::Error>,
) -> Result<Payload, Failure> {
    if is_success(status) {
        if expects_no_body {
            Ok(Payload::Empty)
        } else {
            match document {
                Ok(value) => Ok(Payload::Json(value)),
                Err(e) => Err(Failure::SerializationError(e)),
            }
        }
    } else {
        Err(
            Failure::ApiError(
                ApiError {
                    code: status,
                    body,
                    content: match document {
                        Ok(value) => Some(value),
                        Err(_) => None,
                    },
                },
            ),
        )
    }
}

/// How a response with `status` and `body` ends an execution.
pub open spec fn decoded(expects_no_body: bool, status: u16, body: Vec<u8>) -> Result<
    Payload,
    Failure,
> {
    judged(expects_no_body, status, body, json_document(body@))
}

/// What stands at the start of an execution: the assembled request where
/// its target was read as a URI, the failure where it was not.
pub open spec fn started(
    method: hyper::Method,
    target: String,
    headers: Headers,
    body: String,
    parsed: Result<hyper::Uri, hyper::http::uri::InvalidUri>,
) -> State {
    match parsed {
        Ok(uri) => State::Built(Outgoing { method, uri, target, headers, body }),
        Err(e) => State::Failed(Failure::UriError(e)),
    }
}

/// The terminal state of an execution that ended with `outcome`.
pub open spec fn ended(outcome: Result<Payload, Failure>) -> State {
    match outcome {
        Ok(payload) => State::Decoded(payload),
        Err(failure) => State::Failed(failure),
    }
}

/// The state after the response in `state`, if it is complete, was decoded.
pub open spec fn after_decoding(expects_no_body: bool, state: State) -> State {
    match state {
        State::BodyReceived { status, body } => ended(decoded(expects_no_body, status, body)),
        state => state,
    }
}

impl State {
    /// The phase of this state.
    pub open spec fn phase_of(self) -> Phase {
        match self {
            State::Built(_) => Phase::Built,
            State::Sent => Phase::Sent,
            State::HeadersReceived { .. } => Phase::HeadersReceived,
            State::BodyReceived { .. } => Phase::BodyReceived,
            State::Decoded(_) => Phase::Decoded,
            State::Failed(_) => Phase::Failed,
        }
    }

    /// Whether nothing follows this state.
    pub open spec fn is_terminal(self) -> bool {
        self is Decoded || self is Failed
    }
}

/// The place of a phase in the order of the phases. The two ends of an
/// execution share the last place.
pub open spec fn rank(phase: Phase) -> int {
    match phase {
        Phase::Built => 0,
        Phase::Sent => 1,
        Phase::HeadersReceived => 2,
        Phase::BodyReceived => 3,
        Phase::Decoded => 4,
        Phase::Failed => 4,
    }
}

/// Nothing follows the end of an execution: no event and no decoding
/// changes a terminal state.
pub proof fn lemma_terminal_stays(state: State, event: Event, expects_no_body: bool)
    requires
        state.is_terminal(),
    ensures
        after_event(state, event) == state,
        after_decoding(expects_no_body, state) == state,
{
}

/// An execution never goes back: an event leaves the state as it is, moves
/// it to the next phase, or ends it with a failure.
pub proof fn lemma_event_moves_forward(state: State, event: Event)
    ensures
        after_event(state, event) == state || after_event(state, event) is Failed || rank(
            after_event(state, event).phase_of(),
        ) == rank(state.phase_of()) + 1,
        rank(after_event(state, event).phase_of()) >= rank(state.phase_of()),
{
}

/// A failure of the transport ends an execution that has not ended, in
/// whatever phase it stands.
pub proof fn lemma_transport_failure_ends(state: State, e: hyper::Error)
    requires
        !state.is_terminal(),
    ensures
        after_event(state, Event::TransportFailed(e)) == State::Failed(Failure::TransportError(e)),
{
}

/// Decoding ends the execution once the body is here, and does nothing
/// before.
pub proof fn lemma_decoding_ends(expects_no_body: bool, state: State)
    ensures
        state is BodyReceived ==> after_decoding(expects_no_body, state).is_terminal(),
        !(state is BodyReceived) ==> after_decoding(expects_no_body, state) == state,
{
}

/// With a status of success, where no body is expected, the outcome is the
/// empty payload, whatever the body holds.
pub proof fn lemma_nothing_expected(
    status: u16,
    body: Vec<u8>,
    document: Result<serde_json::Value, serde_json::Error>,
)
    requires
        is_success(status),
    ensures
        judged(true, status, body, document) == Ok::<Payload, Failure>(Payload::Empty),
        decoded(true, status, body) == Ok::<Payload, Failure>(Payload::Empty),
{
}

/// With a status of success, where a body is expected, the outcome is the
/// document, or a failure of decoding where the body is none.
pub proof fn lemma_body_expected(
    status: u16,
    body: Vec<u8>,
    document: Result<serde_json::Value, serde_json::Error>,
)
    requires
        is_success(status),
    ensures
        match document {
            Ok(value) => judged(false, status, body, document) == Ok::<Payload, Failure>(
                Payload::Json(value),
            ),
            Err(e) => judged(false, status, body, document) == Err::<Payload, Failure>(
                Failure::SerializationError(e),
            ),
        },
{
}

/// A status outside 200 to 299 is a failure that carries the status, the
/// body and, where the body is a JSON document, that document. It is never
/// a failure of decoding.
pub proof fn lemma_failure_status(
    expects_no_body: bool,
    status: u16,
    body: Vec<u8>,
    document: Result<serde_json::Value, serde_json::Error>,
)
    requires
        !is_success(status),
    ensures
        judged(expects_no_body, status, body, document) matches Err(Failure::ApiError(e)) && (
        e.code == status && e.body == body && match document {
            Ok(value) => e.content == Some(value),
            Err(_) => e.content is None,
        }),
        decoded(expects_no_body, status, body) is Err,
        !(decoded(expects_no_body, status, body) matches Err(Failure::SerializationError(_))),
{
}

/// Decides how a response with `status` and `body` ends an execution,
/// given what the body is as a JSON document.
pub fn judge(
    expects_no_body: bool,
    status: u16,
    body: Vec<u8>,
    document: Result<serde_json::Value, serde_json::Error>,
) -> (r: Result<Payload, Failure>)
    ensures
        r == judged(expects_no_body, status, body, document),
{
    if 200 <= status && status < 300 {
        if expects_no_body {
            Ok(Payload::Empty)
        } else {
            match document {
                Ok(value) => Ok(Payload::Json(value)),
                Err(e) => Err(Failure::SerializationError(e)),
            }
        }
    } else {
        let content = match document {
            Ok(value) => Some(value),
            Err(_) => None,
        };
        Err(Failure::ApiError(ApiError { code: status, body, content }))
    }
}

/// Decides how a response with `status` and `body` ends an execution.
///
/// An empty body is no JSON document: with a status of success, where a
/// body is expected, it is a failure of decoding.
pub fn decode(expects_no_body: bool, status: u16, body: Vec<u8>) -> (r: Result<Payload, Failure>)
    ensures
        r == decoded(expects_no_body, status, body),
        is_success(status) && !expects_no_body && body@.len() == 0 ==> r matches Err(
            Failure::SerializationError(_),
        ),
        !is_success(status) && body@.len() == 0 ==> (r matches Err(Failure::ApiError(e))
            && e.content is None),
{
    if expects_no_body && 200 <= status && status < 300 {
        Ok(Payload::Empty)
    } else {
        let document = json_from_slice(body.as_slice());
        judge(expects_no_body, status, body, document)
    }
}

/// One execution of a request.
#[derive(Debug)]
pub struct Exchange {
    /// Whether the request expects no body in the response.
    pub expects_no_body: bool,
    pub state: State,
}

impl Exchange {
    /// Starts the execution of an assembled request, given what the URI
    /// parser made of its target: in the state `Built` where the target is
    /// a URI, and else in the state `Failed`, with the failure `UriError`.
    pub fn start(
        expects_no_body: bool,
        method: hyper::Method,
        target: String,
        headers: Headers,
        body: String,
        parsed: Result<hyper::Uri, hyper::http::uri::InvalidUri>,
    ) -> (r: Exchange)
        ensures
            r.expects_no_body == expects_no_body,
            r.state == started(method, target, headers, body, parsed),
    {
        let state = match parsed {
            Ok(uri) => State::Built(Outgoing { method, uri, target, headers, body }),
            Err(e) => State::Failed(Failure::UriError(e)),
        };
        Exchange { expects_no_body, state }
    }

    /// The phase in which this execution stands.
    pub fn phase(&self) -> (p: Phase)
        ensures
            p == self.state.phase_of(),
    {
        match &self.state {
            State::Built(_) => Phase::Built,
            State::Sent => Phase::Sent,
            State::HeadersReceived { .. } => Phase::HeadersReceived,
            State::BodyReceived { .. } => Phase::BodyReceived,
            State::Decoded(_) => Phase::Decoded,
            State::Failed(_) => Phase::Failed,
        }
    }

    /// The request to hand to the transport, while it has not been sent.
    pub fn outgoing(&self) -> (r: Option<&Outgoing>)
        ensures
            match self.state {
                State::Built(request) => r == Some(&request),
                _ => r is None,
            },
    {
        match &self.state {
            State::Built(request) => Some(request),
            _ => None,
        }
    }

    /// Hands out the request for the transport to take. The execution is
    /// then in the state that follows the event `Dispatched`.
    pub fn dispatch(self) -> (r: (Exchange, Option<Outgoing>))
        ensures
            r.0.expects_no_body == self.expects_no_body,
            r.0.state == after_event(self.state, Event::Dispatched),
            r.1 == match self.state {
                State::Built(request) => Some(request),
                _ => None,
            },
    {
        let expects_no_body = self.expects_no_body;
        match self.state {
            State::Built(request) => (Exchange { expects_no_body, state: State::Sent }, Some(request)),
            state => (Exchange { expects_no_body, state }, None),
        }
    }

    /// Takes in what the transport reports.
    pub fn advance(self, event: Event) -> (r: Exchange)
        ensures
            r.expects_no_body == self.expects_no_body,
            r.state == after_event(self.state, event),
    {
        let expects_no_body = self.expects_no_body;
        let state = match (self.state, event) {
            (State::Built(_), Event::Dispatched) => State::Sent,
            (State::Sent, Event::Head(status)) => State::HeadersReceived { status },
            (State::HeadersReceived { status }, Event::Body(body)) => State::BodyReceived {
                status,
                body,
            },
            (State::Decoded(payload), _) => State::Decoded(payload),
            (State::Failed(failure), _) => State::Failed(failure),
            (_, Event::TransportFailed(e)) => State::Failed(Failure::TransportError(e)),
            (state, _) => state,
        };
        Exchange { expects_no_body, state }
    }

    /// Decodes the response once its body is here. In any other state
    /// nothing changes.
    pub fn conclude(self) -> (r: Exchange)
        ensures
            r.expects_no_body == self.expects_no_body,
            r.state == after_decoding(self.expects_no_body, self.state),
            (self.state matches State::BodyReceived { status, body } && is_success(status)
                && !self.expects_no_body && body@.len() == 0) ==> r.state matches State::Failed(
                Failure::SerializationError(_),
            ),
    {
        let expects_no_body = self.expects_no_body;
        let state = match self.state {
            State::BodyReceived { status, body } => match decode(expects_no_body, status, body) {
                Ok(payload) => State::Decoded(payload),
                Err(failure) => State::Failed(failure),
            },
            state => state,
        };
        Exchange { expects_no_body, state }
    }

    /// The outcome, once the execution has ended.
    pub fn outcome(self) -> (r: Option<Result<Payload, Failure>>)
        ensures
            r == match self.state {
                State::Decoded(payload) => Some(Ok::<Payload, Failure>(payload)),
                State::Failed(failure) => Some(Err::<Payload, Failure>(failure)),
                _ => None,
            },
    {
        match self.state {
            State::Decoded(payload) => Some(Ok(payload)),
            State::Failed(failure) => Some(Err(failure)),
            _ => None,
        }
    }
}

} // verus!
