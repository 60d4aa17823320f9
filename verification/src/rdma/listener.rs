//! The conversation with one client of the TCP listener.
//!
//! [`SessionState`] and [`SessionEvent`] say where a connection stands and what just happened to
//! it; [`step`] says where it stands next and what is to be done.

use vstd::prelude::*;

use crate::rdma::needle_source;
use crate::rdma::needle_source::NeedleLocation;
use crate::rdma::parse_fid;
use crate::rdma::pread;
use crate::rdma::pread::{PreadError, PreadOutcome, PreadRequest, MAX_PREAD_BYTES};
use crate::storage::file_id;
use crate::storage::io_error::{IoError, IoErrorKind};
use crate::storage::volume;

verus! {

/// The bytes of a request on the wire.
pub const REQUEST_WIRE_SIZE: usize = 64;

/// How long to wait before accepting again after a failed accept.
pub const ACCEPT_BACKOFF_MILLIS: u64 = 50;

/// How a listener is set up.
#[derive(Debug)]
pub struct ListenerConfig {
    /// The address to listen on.
    pub addr: String,
    /// How many requests are served at the same time, over all connections.
    pub max_inflight: usize,
}

impl Clone for ListenerConfig {
    fn clone(&self) -> (copy: Self)
        ensures
            copy == *self,
    {
        ListenerConfig { addr: self.addr.clone(), max_inflight: self.max_inflight }
    }
}

impl Default for ListenerConfig {
    fn default() -> (config: Self)
        ensures
            config.addr@ == "127.0.0.1:0"@,
            config.max_inflight == 256,
    {
        ListenerConfig { addr: "127.0.0.1:0".to_owned(), max_inflight: 256 }
    }
}

/// What the accept loop does with the outcome of an accept.
#[derive(Clone, Copy, Debug, PartialEq, Eq, Structural)]
pub enum AcceptAction {
    /// Serve the connection beside the loop, and accept again at once.
    Serve,
    /// Wait, then accept again.
    Backoff { millis: u64 },
}

/// Decides what the accept loop does next; it never ends.
pub fn after_accept(accepted: bool) -> (action: AcceptAction)
    ensures
        action == if accepted {
            AcceptAction::Serve
        } else {
            AcceptAction::Backoff { millis: ACCEPT_BACKOFF_MILLIS }
        },
{
    if accepted {
        AcceptAction::Serve
    } else {
        AcceptAction::Backoff { millis: ACCEPT_BACKOFF_MILLIS }
    }
}

/// A client's request: part of the payload of the needle that `fid` names.
#[derive(Debug)]
pub struct RdmaReadRequest {
    pub request_id: u64,
    pub fid: String,
    pub offset: u64,
    pub length: u64,
}

/// How a request went.
#[derive(Clone, Copy, Debug, PartialEq, Eq, Structural)]
pub enum RdmaStatus {
    Success,
    Busy,
    NotFound,
    CookieMismatch,
    RangeInvalid,
    Error,
}

/// The reply to a request.
#[derive(Clone, Copy, Debug, PartialEq, Eq, Structural)]
pub struct RdmaReadResponse {
    pub request_id: u64,
    pub status: RdmaStatus,
    pub bytes_transferred: u32,
}

impl RdmaReadResponse {
    /// The reply to a request that got nothing.
    pub fn refusal(request_id: u64, status: RdmaStatus) -> (response: Self)
        ensures
            response == (RdmaReadResponse { request_id, status, bytes_transferred: 0 }),
    {
        RdmaReadResponse { request_id, status, bytes_transferred: 0 }
    }
}

/// Where a connection stands.
#[derive(Debug)]
pub enum SessionState {
    /// Between requests.
    AwaitingRequest,
    /// A request is there, and whether it may be served is being found out.
    AwaitingPermit { request: RdmaReadRequest },
    /// The request may be served, and its needle is being looked for.
    Locating { request: RdmaReadRequest },
    /// The payload is being read.
    Reading { request_id: u64 },
    /// The payload is on its way, and this response is to follow it.
    SendingPayload { response: RdmaReadResponse },
    /// The response is on its way.
    Replying { permit: bool },
    /// The connection has ended.
    Closed,
}

/// What happened to a connection.
#[derive(Debug)]
pub enum SessionEvent {
    /// A whole request came in.
    Request(RdmaReadRequest),
    /// Bytes came in that are no request.
    Undecodable,
    /// Receiving failed, or the stream ended before a whole request.
    ReceiveFailed(IoError),
    /// A permit to serve the request was taken, or there was none.
    Permit { taken: bool },
    /// The needle was looked for.
    Located(Option<NeedleLocation>),
    /// The read came to an end.
    ReadDone(Result<PreadOutcome, PreadError>),
    /// The reading task died.
    ReadLost(IoError),
    /// What was to be sent was sent.
    Sent,
    /// Sending failed.
    SendFailed(IoError),
}

/// What is to be done for a connection.
#[derive(Debug)]
pub enum SessionAction {
    /// Receive a request.
    Receive,
    /// Try, without waiting, to take a permit.
    TakePermit,
    /// Look for the needle that this fid names.
    Locate { fid: String },
    /// Read from this data file.
    Pread { dat_path: String, request: PreadRequest },
    /// Send these bytes of a needle.
    SendPayload { payload: Vec<u8> },
    /// Send this response.
    SendResponse { response: RdmaReadResponse },
    /// End the connection with this result.
    Close(Result<(), IoError>),
}

impl SessionState {
    /// Whether a connection in this state holds a permit.
    pub open spec fn permit(self) -> bool {
        match self {
            SessionState::Locating { .. } => true,
            SessionState::Reading { .. } => true,
            SessionState::SendingPayload { .. } => true,
            SessionState::Replying { permit } => permit,
            _ => false,
        }
    }

    /// Whether a connection in this state holds a permit.
    pub fn holds_permit(&self) -> (holds: bool)
        ensures
            holds == self.permit(),
    {
        match self {
            SessionState::Locating { .. } => true,
            SessionState::Reading { .. } => true,
            SessionState::SendingPayload { .. } => true,
            SessionState::Replying { permit } => *permit,
            _ => false,
        }
    }

    /// `event` can happen to a connection in this state.
    pub open spec fn accepts(self, event: SessionEvent) -> bool {
        match self {
            SessionState::AwaitingRequest => match event {
                SessionEvent::Request(_) => true,
                SessionEvent::Undecodable => true,
                SessionEvent::ReceiveFailed(_) => true,
                _ => false,
            },
            SessionState::AwaitingPermit { .. } => event is Permit,
            SessionState::Locating { .. } => event is Located,
            SessionState::Reading { .. } => match event {
                SessionEvent::ReadDone(Ok(outcome)) => outcome.data@.len() <= MAX_PREAD_BYTES,
                SessionEvent::ReadDone(Err(_)) => true,
                SessionEvent::ReadLost(_) => true,
                _ => false,
            },
            SessionState::SendingPayload { .. } => event is Sent || event is SendFailed,
            SessionState::Replying { .. } => event is Sent || event is SendFailed,
            SessionState::Closed => false,
        }
    }

    /// Tells whether `event` can happen to a connection in this state.
    pub fn can_take(&self, event: &SessionEvent) -> (can: bool)
        ensures
            can == self.accepts(*event),
    {
        match (self, event) {
            (SessionState::AwaitingRequest, SessionEvent::Request(_)) => true,
            (SessionState::AwaitingRequest, SessionEvent::Undecodable) => true,
            (SessionState::AwaitingRequest, SessionEvent::ReceiveFailed(_)) => true,
            (SessionState::AwaitingPermit { .. }, SessionEvent::Permit { .. }) => true,
            (SessionState::Locating { .. }, SessionEvent::Located(_)) => true,
            (SessionState::Reading { .. }, SessionEvent::ReadDone(Ok(outcome))) => {
                outcome.data.len() <= MAX_PREAD_BYTES
            },
            (SessionState::Reading { .. }, SessionEvent::ReadDone(Err(_))) => true,
            (SessionState::Reading { .. }, SessionEvent::ReadLost(_)) => true,
            (SessionState::SendingPayload { .. }, SessionEvent::Sent) => true,
            (SessionState::SendingPayload { .. }, SessionEvent::SendFailed(_)) => true,
            (SessionState::Replying { .. }, SessionEvent::Sent) => true,
            (SessionState::Replying { .. }, SessionEvent::SendFailed(_)) => true,
            _ => false,
        }
    }
}

/// Where a connection stands next, and what is to be done.
pub struct SessionStep {
    pub state: SessionState,
    pub action: SessionAction,
}

/// The end of a connection.
pub open spec fn closing(result: Result<(), IoError>) -> SessionStep {
    SessionStep { state: SessionState::Closed, action: SessionAction::Close(result) }
}

/// A response without payload.
pub open spec fn refusing(permit: bool, request_id: u64, status: RdmaStatus) -> SessionStep {
    SessionStep {
        state: SessionState::Replying { permit },
        action: SessionAction::SendResponse {
            response: RdmaReadResponse { request_id, status, bytes_transferred: 0 },
        },
    }
}

/// The step once the needle of a request was looked for.
pub open spec fn after_locating(
    request: RdmaReadRequest,
    found: Option<NeedleLocation>,
) -> SessionStep {
    match found {
        None => refusing(true, request.request_id, RdmaStatus::NotFound),
        Some(location) => match location.dat_path {
            None => refusing(true, request.request_id, RdmaStatus::Error),
            Some(dat_path) => match parse_fid::fid_outcome(request.fid@) {
                parse_fid::FidOutcome::Parsed { needle_id, cookie, .. } => SessionStep {
                    state: SessionState::Reading { request_id: request.request_id },
                    action: SessionAction::Pread {
                        dat_path,
                        request: PreadRequest {
                            data_offset: location.offset,
                            data_size: location.length,
                            chunk_offset: request.offset,
                            want_length: request.length,
                            expected_needle_id: needle_id,
                            expected_cookie: cookie,
                        },
                    },
                },
                _ => refusing(true, request.request_id, RdmaStatus::NotFound),
            },
        },
    }
}

/// The status that reports a failed read.
pub open spec fn failure_status(error: PreadError) -> RdmaStatus {
    match error {
        PreadError::CookieMismatch { .. } => RdmaStatus::CookieMismatch,
        PreadError::RangeInvalid { .. } => RdmaStatus::RangeInvalid,
        PreadError::Io(_) => RdmaStatus::Error,
    }
}

/// The step once the payload was read, or could not be.
pub open spec fn after_reading(
    request_id: u64,
    result: Result<PreadOutcome, PreadError>,
) -> SessionStep {
    match result {
        Err(error) => refusing(true, request_id, failure_status(error)),
        Ok(outcome) => SessionStep {
            state: SessionState::SendingPayload {
                response: RdmaReadResponse {
                    request_id,
                    status: RdmaStatus::Success,
                    bytes_transferred: outcome.data@.len() as u32,
                },
            },
            action: SessionAction::SendPayload { payload: outcome.data },
        },
    }
}

/// Where a connection stands after `event`, and what is to be done.
pub open spec fn next_step(state: SessionState, event: SessionEvent) -> SessionStep {
    match (state, event) {
        (SessionState::AwaitingRequest, SessionEvent::Request(request)) => SessionStep {
            state: SessionState::AwaitingPermit { request },
            action: SessionAction::TakePermit,
        },
        (SessionState::AwaitingRequest, SessionEvent::ReceiveFailed(e)) => if e.kind
            == IoErrorKind::UnexpectedEof {
            closing(Ok(()))
        } else {
            closing(Err(e))
        },
        (SessionState::AwaitingRequest, _) => closing(Ok(())),
        (SessionState::AwaitingPermit { request }, SessionEvent::Permit { taken }) => if taken {
            SessionStep {
                state: SessionState::Locating { request },
                action: SessionAction::Locate { fid: request.fid },
            }
        } else {
            refusing(false, request.request_id, RdmaStatus::Busy)
        },
        (SessionState::Locating { request }, SessionEvent::Located(found)) => after_locating(
            request,
            found,
        ),
        (SessionState::Reading { request_id }, SessionEvent::ReadDone(result)) => after_reading(
            request_id,
            result,
        ),
        (SessionState::Reading { .. }, SessionEvent::ReadLost(e)) => closing(Err(e)),
        (SessionState::SendingPayload { response }, SessionEvent::Sent) => SessionStep {
            state: SessionState::Replying { permit: true },
            action: SessionAction::SendResponse { response },
        },
        (SessionState::SendingPayload { .. }, SessionEvent::SendFailed(e)) => closing(Err(e)),
        (SessionState::Replying { .. }, SessionEvent::Sent) => SessionStep {
            state: SessionState::AwaitingRequest,
            action: SessionAction::Receive,
        },
        (SessionState::Replying { .. }, SessionEvent::SendFailed(e)) => closing(Err(e)),
        _ => closing(Ok(())),
    }
}

fn close(result: Result<(), IoError>) -> (next: SessionStep)
    ensures
        next == closing(result),
{
    SessionStep { state: SessionState::Closed, action: SessionAction::Close(result) }
}

fn refuse(permit: bool, request_id: u64, status: RdmaStatus) -> (next: SessionStep)
    ensures
        next == refusing(permit, request_id, status),
{
    SessionStep {
        state: SessionState::Replying { permit },
        action: SessionAction::SendResponse {
            response: RdmaReadResponse::refusal(request_id, status),
        },
    }
}

fn located(request: RdmaReadRequest, found: Option<NeedleLocation>) -> (next: SessionStep)
    ensures
        next == after_locating(request, found),
{
    let location: NeedleLocation = match found {
        None => {
            return refuse(true, request.request_id, RdmaStatus::NotFound);
        },
        Some(location) => location,
    };
    let dat_path: String = match location.dat_path {
        None => {
            return refuse(true, request.request_id, RdmaStatus::Error);
        },
        Some(dat_path) => dat_path,
    };
    match parse_fid(request.fid.as_str()) {
        Err(_) => refuse(true, request.request_id, RdmaStatus::NotFound),
        Ok((_, needle_id, cookie)) => SessionStep {
            state: SessionState::Reading { request_id: request.request_id },
            action: SessionAction::Pread {
                dat_path,
                request: PreadRequest {
                    data_offset: location.offset,
                    data_size: location.length,
                    chunk_offset: request.offset,
                    want_length: request.length,
                    expected_needle_id: needle_id,
                    expected_cookie: cookie,
                },
            },
        },
    }
}

fn read_done(request_id: u64, result: Result<PreadOutcome, PreadError>) -> (next: SessionStep)
    requires
        result matches Ok(outcome) ==> outcome.data@.len() <= MAX_PREAD_BYTES,
    ensures
        next == after_reading(request_id, result),
{
    match result {
        Ok(outcome) => {
            let sent: u32 = outcome.data.len() as u32;
            SessionStep {
                state: SessionState::SendingPayload {
                    response: RdmaReadResponse {
                        request_id,
                        status: RdmaStatus::Success,
                        bytes_transferred: sent,
                    },
                },
                action: SessionAction::SendPayload { payload: outcome.data },
            }
        },
        Err(PreadError::CookieMismatch { .. }) => refuse(
            true,
            request_id,
            RdmaStatus::CookieMismatch,
        ),
        Err(PreadError::RangeInvalid { .. }) => refuse(true, request_id, RdmaStatus::RangeInvalid),
        Err(PreadError::Io(_)) => refuse(true, request_id, RdmaStatus::Error),
    }
}

/// A connection that was just accepted.
pub fn open_session() -> (first: SessionStep)
    ensures
        first == (SessionStep {
            state: SessionState::AwaitingRequest,
            action: SessionAction::Receive,
        }),
{
    SessionStep { state: SessionState::AwaitingRequest, action: SessionAction::Receive }
}

/// Decides where a connection stands after `event`, and what is to be done.
pub fn step(state: SessionState, event: SessionEvent) -> (next: SessionStep)
    requires
        state.accepts(event),
    ensures
        next == next_step(state, event),
{
    match (state, event) {
        (SessionState::AwaitingRequest, SessionEvent::Request(request)) => SessionStep {
            state: SessionState::AwaitingPermit { request },
            action: SessionAction::TakePermit,
        },
        (SessionState::AwaitingRequest, SessionEvent::ReceiveFailed(e)) => {
            if e.kind == IoErrorKind::UnexpectedEof {
                close(Ok(()))
            } else {
                close(Err(e))
            }
        },
        (SessionState::AwaitingPermit { request }, SessionEvent::Permit { taken }) => {
            if taken {
                let fid: String = request.fid.clone();
                SessionStep {
                    state: SessionState::Locating { request },
                    action: SessionAction::Locate { fid },
                }
            } else {
                refuse(false, request.request_id, RdmaStatus::Busy)
            }
        },
        (SessionState::Locating { request }, SessionEvent::Located(found)) => located(
            request,
            found,
        ),
        (SessionState::Reading { request_id }, SessionEvent::ReadDone(result)) => read_done(
            request_id,
            result,
        ),
        (SessionState::Reading { .. }, SessionEvent::ReadLost(e)) => close(Err(e)),
        (SessionState::SendingPayload { response }, SessionEvent::Sent) => SessionStep {
            state: SessionState::Replying { permit: true },
            action: SessionAction::SendResponse { response },
        },
        (SessionState::SendingPayload { .. }, SessionEvent::SendFailed(e)) => close(Err(e)),
        (SessionState::Replying { .. }, SessionEvent::Sent) => open_session(),
        (SessionState::Replying { .. }, SessionEvent::SendFailed(e)) => close(Err(e)),
        _ => close(Ok(())),
    }
}

/// What a connection does over the course of `events`, one action for each.
pub open spec fn actions(state: SessionState, events: Seq<SessionEvent>) -> Seq<SessionAction>
    decreases events.len(),
{
    if events.len() == 0 {
        Seq::empty()
    } else {
        let next = next_step(state, events[0]);
        seq![next.action] + actions(next.state, events.drop_first())
    }
}

/// Where a connection stands after `events`.
pub open spec fn state_after(state: SessionState, events: Seq<SessionEvent>) -> SessionState
    decreases events.len(),
{
    if events.len() == 0 {
        state
    } else {
        state_after(next_step(state, events[0]).state, events.drop_first())
    }
}

/// `events` can happen to a connection, one after the other.
pub open spec fn can_happen(state: SessionState, events: Seq<SessionEvent>) -> bool
    decreases events.len(),
{
    events.len() == 0 || {
        &&& state.accepts(events[0])
        &&& can_happen(next_step(state, events[0]).state, events.drop_first())
    }
}

/// The bytes that `action` puts on the wire, where `encoded` encodes responses.
pub open spec fn written(
    action: SessionAction,
    encoded: spec_fn(RdmaReadResponse) -> Seq<u8>,
) -> Seq<u8> {
    match action {
        SessionAction::SendPayload { payload } => payload@,
        SessionAction::SendResponse { response } => encoded(response),
        _ => Seq::empty(),
    }
}

/// The bytes that `done` puts on the wire, action by action.
pub open spec fn wire(
    done: Seq<SessionAction>,
    encoded: spec_fn(RdmaReadResponse) -> Seq<u8>,
) -> Seq<u8>
    decreases done.len(),
{
    if done.len() == 0 {
        Seq::empty()
    } else {
        written(done[0], encoded) + wire(done.drop_first(), encoded)
    }
}

/// The responses that `done` sends, in order.
pub open spec fn responses(done: Seq<SessionAction>) -> Seq<RdmaReadResponse>
    decreases done.len(),
{
    if done.len() == 0 {
        Seq::empty()
    } else {
        match done[0] {
            SessionAction::SendResponse { response } => seq![response] + responses(
                done.drop_first(),
            ),
            _ => responses(done.drop_first()),
        }
    }
}

/// What becomes of a request: whether a permit was taken, where its needle was found, and what the
/// read came to, as far as it got there.
pub struct Fate {
    pub taken: bool,
    pub found: Option<NeedleLocation>,
    pub result: Result<PreadOutcome, PreadError>,
}

impl Fate {
    /// A read hands out no more than it may.
    pub open spec fn possible(self) -> bool {
        self.result matches Ok(outcome) ==> outcome.data@.len() <= MAX_PREAD_BYTES
    }

    /// The status with which `request` is answered: busy before anything else, then what the
    /// search for the needle gave, then what the read gave.
    pub open spec fn status(self, request: RdmaReadRequest) -> RdmaStatus {
        if !self.taken {
            RdmaStatus::Busy
        } else if self.found is None {
            RdmaStatus::NotFound
        } else if self.found->0.dat_path is None {
            RdmaStatus::Error
        } else if !(parse_fid::fid_outcome(request.fid@) is Parsed) {
            RdmaStatus::NotFound
        } else {
            match self.result {
                Ok(_) => RdmaStatus::Success,
                Err(error) => failure_status(error),
            }
        }
    }

    /// The payload that `request` is sent: none unless it succeeds.
    pub open spec fn payload(self, request: RdmaReadRequest) -> Seq<u8> {
        if self.status(request) == RdmaStatus::Success {
            self.result->Ok_0.data@
        } else {
            Seq::empty()
        }
    }

    /// The response that `request` is sent.
    pub open spec fn response(self, request: RdmaReadRequest) -> RdmaReadResponse {
        RdmaReadResponse {
            request_id: request.request_id,
            status: self.status(request),
            bytes_transferred: self.payload(request).len() as u32,
        }
    }

    /// The bytes that `request` is answered with: the payload, then the response.
    pub open spec fn reply(
        self,
        request: RdmaReadRequest,
        encoded: spec_fn(RdmaReadResponse) -> Seq<u8>,
    ) -> Seq<u8> {
        self.payload(request) + encoded(self.response(request))
    }

    /// What happens once the read came to its end: the payload, if there is one, and the response
    /// are sent.
    pub open spec fn ending(self) -> Seq<SessionEvent> {
        if self.result is Ok {
            seq![SessionEvent::Sent, SessionEvent::Sent]
        } else {
            seq![SessionEvent::Sent]
        }
    }

    /// What happens once a permit was taken for `request`.
    pub open spec fn search(self, request: RdmaReadRequest) -> Seq<SessionEvent> {
        seq![SessionEvent::Located(self.found)] + if after_locating(
            request,
            self.found,
        ).action is SendResponse {
            seq![SessionEvent::Sent]
        } else {
            seq![SessionEvent::ReadDone(self.result)] + self.ending()
        }
    }

    /// What happens to a connection that receives `request`, until the response was sent.
    pub open spec fn events(self, request: RdmaReadRequest) -> Seq<SessionEvent> {
        seq![SessionEvent::Request(request), SessionEvent::Permit { taken: self.taken }] + if self.taken {
            self.search(request)
        } else {
            seq![SessionEvent::Sent]
        }
    }
}

/// A course of events is its first part and then its second.
proof fn lemma_course_in_two_parts(
    state: SessionState,
    first: Seq<SessionEvent>,
    second: Seq<SessionEvent>,
)
    ensures
        ({
            let middle = state_after(state, first);
            &&& actions(state, first + second) == actions(state, first) + actions(middle, second)
            &&& state_after(state, first + second) == state_after(middle, second)
            &&& can_happen(state, first + second) == (can_happen(state, first) && can_happen(
                middle,
                second,
            ))
        }),
    decreases first.len(),
{
    if first.len() == 0 {
        assert(first + second =~= second);
        assert(actions(state, first) + actions(state, second) =~= actions(state, second));
    } else {
        let next = next_step(state, first[0]);
        assert((first + second).drop_first() =~= first.drop_first() + second);
        lemma_course_in_two_parts(next.state, first.drop_first(), second);
        assert(actions(state, first + second) =~= actions(state, first) + actions(
            state_after(state, first),
            second,
        ));
    }
}

/// What two rows of actions send is what the first sends and then what the second sends.
proof fn lemma_wire_in_two_parts(
    first: Seq<SessionAction>,
    second: Seq<SessionAction>,
    encoded: spec_fn(RdmaReadResponse) -> Seq<u8>,
)
    ensures
        wire(first + second, encoded) == wire(first, encoded) + wire(second, encoded),
        responses(first + second) == responses(first) + responses(second),
    decreases first.len(),
{
    if first.len() == 0 {
        assert(first + second =~= second);
        assert(wire(first, encoded) + wire(second, encoded) =~= wire(second, encoded));
        assert(responses(first) + responses(second) =~= responses(second));
    } else {
        assert((first + second).drop_first() =~= first.drop_first() + second);
        lemma_wire_in_two_parts(first.drop_first(), second, encoded);
        assert(wire(first + second, encoded) =~= wire(first, encoded) + wire(second, encoded));
        assert(responses(first + second) =~= responses(first) + responses(second));
    }
}

/// Every request is answered, whatever comes of it: with its own id, with the status that its
/// fate calls for, with a payload if and only if it succeeded, and with the number of bytes that
/// the payload has. The payload goes out before the response, and there is one response. The
/// connection then waits for the next request without a permit.
#[verifier::rlimit(50)]
pub proof fn law_every_request_is_answered(
    request: RdmaReadRequest,
    fate: Fate,
    encoded: spec_fn(RdmaReadResponse) -> Seq<u8>,
)
    requires
        fate.possible(),
    ensures
        can_happen(SessionState::AwaitingRequest, fate.events(request)),
        state_after(SessionState::AwaitingRequest, fate.events(request))
            == SessionState::AwaitingRequest,
        wire(actions(SessionState::AwaitingRequest, fate.events(request)), encoded) == fate.reply(
            request,
            encoded,
        ),
        responses(actions(SessionState::AwaitingRequest, fate.events(request)))
            == seq![fate.response(request)],
        fate.response(request).bytes_transferred == fate.payload(request).len(),
        fate.status(request) != RdmaStatus::Success ==> fate.reply(request, encoded) == encoded(
            RdmaReadResponse {
                request_id: request.request_id,
                status: fate.status(request),
                bytes_transferred: 0,
            },
        ),
{
    reveal_with_fuel(actions, 7);
    reveal_with_fuel(state_after, 7);
    reveal_with_fuel(can_happen, 7);
    reveal_with_fuel(wire, 7);
    reveal_with_fuel(responses, 7);
}

/// What happens to a connection that receives `requests`, one after the other, with these fates.
pub open spec fn course(requests: Seq<RdmaReadRequest>, fates: Seq<Fate>) -> Seq<SessionEvent>
    decreases requests.len(),
{
    if requests.len() == 0 {
        Seq::empty()
    } else {
        fates[0].events(requests[0]) + course(requests.drop_first(), fates.drop_first())
    }
}

/// The replies to `requests` with these fates, one after the other.
pub open spec fn replies(
    requests: Seq<RdmaReadRequest>,
    fates: Seq<Fate>,
    encoded: spec_fn(RdmaReadResponse) -> Seq<u8>,
) -> Seq<u8>
    decreases requests.len(),
{
    if requests.len() == 0 {
        Seq::empty()
    } else {
        fates[0].reply(requests[0], encoded) + replies(
            requests.drop_first(),
            fates.drop_first(),
            encoded,
        )
    }
}

/// There is a fate for each request, and each is possible.
pub open spec fn fates_fit(requests: Seq<RdmaReadRequest>, fates: Seq<Fate>) -> bool {
    &&& fates.len() == requests.len()
    &&& forall|i: int| 0 <= i < fates.len() ==> (#[trigger] fates[i]).possible()
}

/// A connection answers its requests in the order in which they came, each with its own reply,
/// whatever became of those before: what it writes is one reply after the other and nothing else,
/// and there are as many responses as requests. It then waits for the next request.
pub proof fn law_requests_are_answered_in_order(
    requests: Seq<RdmaReadRequest>,
    fates: Seq<Fate>,
    encoded: spec_fn(RdmaReadResponse) -> Seq<u8>,
)
    requires
        fates_fit(requests, fates),
    ensures
        can_happen(SessionState::AwaitingRequest, course(requests, fates)),
        state_after(SessionState::AwaitingRequest, course(requests, fates))
            == SessionState::AwaitingRequest,
        wire(actions(SessionState::AwaitingRequest, course(requests, fates)), encoded) == replies(
            requests,
            fates,
            encoded,
        ),
        responses(actions(SessionState::AwaitingRequest, course(requests, fates))) == Seq::new(
            requests.len(),
            |i: int| fates[i].response(requests[i]),
        ),
    decreases requests.len(),
{
    let start = SessionState::AwaitingRequest;
    if requests.len() > 0 {
        let events = fates[0].events(requests[0]);
        let rest = course(requests.drop_first(), fates.drop_first());
        assert forall|i: int| 0 <= i < fates.drop_first().len() implies (
        #[trigger] fates.drop_first()[i]).possible() by {
            assert(fates[i + 1].possible());
        }
        law_requests_are_answered_in_order(requests.drop_first(), fates.drop_first(), encoded);
        law_every_request_is_answered(requests[0], fates[0], encoded);
        lemma_course_in_two_parts(start, events, rest);
        lemma_wire_in_two_parts(actions(start, events), actions(start, rest), encoded);
    }
    assert(responses(actions(start, course(requests, fates))) =~= Seq::new(
        requests.len(),
        |i: int| fates[i].response(requests[i]),
    ));
}

/// What happens to a connection first, if it comes to wait for a request again, is that it
/// receives a request and answers it.
proof fn lemma_first_request(events: Seq<SessionEvent>) -> (first: (RdmaReadRequest, Fate))
    requires
        events.len() > 0,
        can_happen(SessionState::AwaitingRequest, events),
        state_after(SessionState::AwaitingRequest, events) == SessionState::AwaitingRequest,
    ensures
        first.1.possible(),
        first.1.events(first.0).len() <= events.len(),
        events.take(first.1.events(first.0).len() as int) == first.1.events(first.0),
{
    reveal_with_fuel(can_happen, 7);
    reveal_with_fuel(state_after, 7);
    let lost = Err::<PreadOutcome, _>(PreadError::CookieMismatch { expected: 0, actual: 0 });
    let request = events[0]->Request_0;
    let taken = events[1]->taken;
    let found = if taken {
        events[2]->Located_0
    } else {
        None
    };
    let result = if taken && !(after_locating(request, found).action is SendResponse) {
        events[3]->ReadDone_0
    } else {
        lost
    };
    let fate = Fate { taken, found, result };
    assert(events.take(fate.events(request).len() as int) =~= fate.events(request));
    (request, fate)
}

/// Whatever happens to a connection that is still open and between requests, it received some
/// requests and answered each of them before the next.
pub proof fn law_open_connections_owe_no_reply(events: Seq<SessionEvent>)
    requires
        can_happen(SessionState::AwaitingRequest, events),
        state_after(SessionState::AwaitingRequest, events) == SessionState::AwaitingRequest,
    ensures
        exists|requests: Seq<RdmaReadRequest>, fates: Seq<Fate>| #[trigger]
            fates_fit(requests, fates) && events == course(requests, fates),
    decreases events.len(),
{
    let start = SessionState::AwaitingRequest;
    if events.len() == 0 {
        let requests = Seq::<RdmaReadRequest>::empty();
        let fates = Seq::<Fate>::empty();
        assert(fates_fit(requests, fates) && events =~= course(requests, fates));
    } else {
        let (request, fate) = lemma_first_request(events);
        let n = fate.events(request).len() as int;
        let rest = events.skip(n);
        assert(events =~= fate.events(request) + rest);
        law_every_request_is_answered(request, fate, |response: RdmaReadResponse| Seq::empty());
        lemma_course_in_two_parts(start, fate.events(request), rest);
        law_open_connections_owe_no_reply(rest);
        let (requests, fates) = choose|requests: Seq<RdmaReadRequest>, fates: Seq<Fate>| #[trigger]
            fates_fit(requests, fates) && rest == course(requests, fates);
        let all_requests = seq![request] + requests;
        let all_fates = seq![fate] + fates;
        assert(all_requests.drop_first() =~= requests);
        assert(all_fates.drop_first() =~= fates);
        assert(fates_fit(all_requests, all_fates) && events =~= course(all_requests, all_fates));
    }
}

/// A connection whose input ends, fails or makes no sense after some requests has answered them
/// all, writes nothing more and is closed: in peace where the input ended or made no sense, with
/// the failure where it failed.
pub proof fn law_connection_ends_with_its_input(
    requests: Seq<RdmaReadRequest>,
    fates: Seq<Fate>,
    last: SessionEvent,
    encoded: spec_fn(RdmaReadResponse) -> Seq<u8>,
)
    requires
        fates_fit(requests, fates),
        last is Undecodable || last is ReceiveFailed,
    ensures
        ({
            let events = course(requests, fates).push(last);
            let done = actions(SessionState::AwaitingRequest, events);
            &&& can_happen(SessionState::AwaitingRequest, events)
            &&& state_after(SessionState::AwaitingRequest, events) == SessionState::Closed
            &&& wire(done, encoded) == replies(requests, fates, encoded)
            &&& done.last() == SessionAction::Close(
                match last {
                    SessionEvent::ReceiveFailed(e) => if e.kind == IoErrorKind::UnexpectedEof {
                        Ok(())
                    } else {
                        Err(e)
                    },
                    _ => Ok(()),
                },
            )
        }),
{
    let start = SessionState::AwaitingRequest;
    let events = course(requests, fates);
    let end = seq![last];
    law_requests_are_answered_in_order(requests, fates, encoded);
    assert(events.push(last) =~= events + end);
    lemma_course_in_two_parts(start, events, end);
    lemma_wire_in_two_parts(actions(start, events), actions(start, end), encoded);
    reveal_with_fuel(actions, 2);
    reveal_with_fuel(state_after, 2);
    reveal_with_fuel(can_happen, 2);
    reveal_with_fuel(wire, 2);
    assert(wire(actions(start, end), encoded) =~= Seq::<u8>::empty());
    assert(wire(actions(start, events), encoded) + Seq::<u8>::empty() =~= wire(
        actions(start, events),
        encoded,
    ));
}

/// A needle that `store` lists, and the read that a connection asks of its data file when a request
/// names it.
pub open spec fn asks(
    request: RdmaReadRequest,
    store: volume::Store,
    needle: volume::StreamedNeedle,
    asked: PreadRequest,
) -> bool {
    &&& parse_fid::fid_outcome(request.fid@) matches parse_fid::FidOutcome::Parsed {
        volume_id,
        needle_id,
        ..
    }
    &&& store.volume(file_id::VolumeId(volume_id)) matches Some(volume)
    &&& volume.version != volume::VERSION_1
    &&& volume::first_answer(volume.needles@, file_id::NeedleId(needle_id)) == Ok::<
        _,
        volume::VolumeError,
    >(needle)
    &&& next_step(
        SessionState::Locating { request },
        SessionEvent::Located(needle_source::location(store, request.fid@)),
    ).action matches SessionAction::Pread { request: wanted, .. } ==> asked == wanted
}

/// The fate of a request that got a permit, was looked up in `store`, and was read with `result`.
pub open spec fn fate_in(
    store: volume::Store,
    request: RdmaReadRequest,
    result: Result<PreadOutcome, PreadError>,
) -> Fate {
    Fate { taken: true, found: needle_source::location(store, request.fid@), result }
}

/// A stored needle is served: whoever names it with the cookie in its record, and asks for a range
/// that lies in its payload and is not too long, is sent exactly the bytes of that range, and then
/// the response that counts them.
pub proof fn law_stored_needle_is_served(
    request: RdmaReadRequest,
    store: volume::Store,
    needle: volume::StreamedNeedle,
    asked: PreadRequest,
    file: Seq<u8>,
    length: u64,
    result: Result<PreadOutcome, PreadError>,
    encoded: spec_fn(RdmaReadResponse) -> Seq<u8>,
)
    requires
        asks(request, store, needle, asked),
        asked.cookie_in(file) == Some(asked.expected_cookie),
        needle.info.data_file_offset + needle.info.data_size <= file.len() <= u64::MAX,
        needle_source::read_len(
            needle.info.data_size as u64,
            request.offset,
            request.length,
        ) == Ok::<
            _,
            crate::rdma::read_error::ReadFault,
        >(length),
        length <= MAX_PREAD_BYTES,
        pread::pread_gives(result, asked.served(file)),
    ensures
        ({
            let fate = fate_in(store, request, result);
            let payload_bytes = file.subrange(
                needle.info.data_file_offset as int,
                needle.info.data_file_offset + needle.info.data_size,
            );
            let response = RdmaReadResponse {
                request_id: request.request_id,
                status: RdmaStatus::Success,
                bytes_transferred: length as u32,
            };
            &&& fate.possible()
            &&& wire(actions(SessionState::AwaitingRequest, fate.events(request)), encoded)
                == payload_bytes.subrange(request.offset as int, request.offset + length) + encoded(
                response,
            )
        }),
{
    asked.law_serves_the_payload(file, length);
    law_every_request_is_answered(request, fate_in(store, request, result), encoded);
}

/// A stale fid is answered with a cookie mismatch alone, whatever range it asks for.
pub proof fn law_stale_fid_is_refused(
    request: RdmaReadRequest,
    store: volume::Store,
    needle: volume::StreamedNeedle,
    asked: PreadRequest,
    file: Seq<u8>,
    on_disk: u32,
    result: Result<PreadOutcome, PreadError>,
    encoded: spec_fn(RdmaReadResponse) -> Seq<u8>,
)
    requires
        asks(request, store, needle, asked),
        needle.info.data_size > 0,
        asked.cookie_in(file) == Some(on_disk),
        on_disk != asked.expected_cookie,
        pread::pread_gives(result, asked.served(file)),
    ensures
        ({
            let fate = fate_in(store, request, result);
            &&& fate.possible()
            &&& wire(actions(SessionState::AwaitingRequest, fate.events(request)), encoded)
                == encoded(
                RdmaReadResponse {
                    request_id: request.request_id,
                    status: RdmaStatus::CookieMismatch,
                    bytes_transferred: 0,
                },
            )
        }),
{
    asked.law_cookie_is_checked_before_range(file, on_disk);
    law_every_request_is_answered(request, fate_in(store, request, result), encoded);
}

/// With the right cookie, a range that does not lie in the payload is answered as such, and with
/// nothing more.
pub proof fn law_bad_range_is_answered(
    request: RdmaReadRequest,
    store: volume::Store,
    needle: volume::StreamedNeedle,
    asked: PreadRequest,
    file: Seq<u8>,
    result: Result<PreadOutcome, PreadError>,
    encoded: spec_fn(RdmaReadResponse) -> Seq<u8>,
)
    requires
        asks(request, store, needle, asked),
        needle.info.data_size > 0,
        asked.cookie_in(file) == Some(asked.expected_cookie),
        request.offset >= needle.info.data_size || request.offset + request.length
            > needle.info.data_size,
        pread::pread_gives(result, asked.served(file)),
    ensures
        ({
            let fate = fate_in(store, request, result);
            &&& fate.possible()
            &&& wire(actions(SessionState::AwaitingRequest, fate.events(request)), encoded)
                == encoded(
                RdmaReadResponse {
                    request_id: request.request_id,
                    status: RdmaStatus::RangeInvalid,
                    bytes_transferred: 0,
                },
            )
        }),
{
    asked.law_bad_range_is_refused(file);
    law_every_request_is_answered(request, fate_in(store, request, result), encoded);
}

/// A permit is held from when it is taken until the response was sent or the connection ends: no
/// other event takes one, and none is lost in between.
pub proof fn law_permit_is_held_while_serving(state: SessionState, event: SessionEvent)
    requires
        state.accepts(event),
    ensures
        next_step(state, event).state.permit() == match event {
            SessionEvent::Permit { taken } => taken,
            SessionEvent::Located(_) => true,
            SessionEvent::ReadDone(_) => true,
            SessionEvent::Sent => state is SendingPayload,
            _ => false,
        },
        (event is Located || event is ReadDone || event is ReadLost || state is SendingPayload)
            ==> state.permit(),
{
}

/// A connection ends only where its input ended or made no sense, or where receiving, reading or
/// sending failed; in the latter cases it ends with that failure. A refused request never ends it.
pub proof fn law_only_the_stream_ends_a_session(state: SessionState, event: SessionEvent)
    requires
        state.accepts(event),
    ensures
        match next_step(state, event).action {
            SessionAction::Close(Ok(())) => event is Undecodable || (
            event matches SessionEvent::ReceiveFailed(e) && e.kind == IoErrorKind::UnexpectedEof),
            SessionAction::Close(Err(e)) => {
                ||| event == SessionEvent::ReceiveFailed(e) && e.kind != IoErrorKind::UnexpectedEof
                ||| event == SessionEvent::ReadLost(e)
                ||| event == SessionEvent::SendFailed(e)
            },
            _ => !(next_step(state, event).state is Closed),
        },
{
}

} // verus!
