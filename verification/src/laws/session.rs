//! Conversations with clients.

use vstd::prelude::*;

use crate::laws::needle;
use crate::laws::pread;
use crate::laws::store;
use crate::rdma::listener::{
    after_accept, open_session, step, AcceptAction, ListenerConfig, RdmaReadRequest,
    RdmaReadResponse, RdmaStatus, SessionAction, SessionEvent, SessionState, SessionStep,
};
use crate::rdma::needle_source::{locate_in_store, NeedleLocation};
use crate::rdma::parse_fid;
use crate::rdma::pread::{pread_data_with_cookie, PreadError, PreadOutcome, PreadRequest};
use crate::rdma::ParseFidError;
use crate::storage::io_error::{IoError, IoErrorKind};
use crate::storage::volume::{Store, StreamedNeedle, VolumeError};

verus! {

/// A connection starts by receiving a request.
pub proof fn law_connections_start_by_receiving(first: SessionStep)
    requires
        call_ensures(open_session, (), first),
    ensures
        first.state is AwaitingRequest,
        first.action is Receive,
{
}

/// A request waits for a permit before anything else is done for it.
pub proof fn law_request_waits_for_a_permit(request: RdmaReadRequest, next: SessionStep)
    requires
        call_ensures(step, (SessionState::AwaitingRequest, SessionEvent::Request(request)), next),
    ensures
        next.state == (SessionState::AwaitingPermit { request }),
        next.action is TakePermit,
{
}

/// `next` sends this response and nothing before it.
pub open spec fn responds(
    next: SessionStep,
    permit: bool,
    request_id: u64,
    status: RdmaStatus,
    count: int,
) -> bool {
    &&& next.state == (SessionState::Replying { permit })
    &&& next.action matches SessionAction::SendResponse { response }
    &&& response.request_id == request_id
    &&& response.status == status
    &&& response.bytes_transferred == count
}

/// With a permit the needle of the request's own fid is looked for; without one the request is
/// answered as busy.
pub proof fn law_permit_decides(request: RdmaReadRequest, taken: bool, next: SessionStep)
    requires
        call_ensures(
            step,
            (SessionState::AwaitingPermit { request }, SessionEvent::Permit { taken }),
            next,
        ),
    ensures
        taken ==> next.state == (SessionState::Locating { request }) && (
        next.action matches SessionAction::Locate { fid } && fid@ == request.fid@),
        !taken ==> responds(next, false, request.request_id, RdmaStatus::Busy, 0),
{
}

/// A needle that was found leads to a read of just what was asked for: in the data file, at the
/// place and with the length that were found, at the request's own offset and length, and for the
/// needle id and the cookie of the request's own fid. A needle that was not found, or whose fid
/// names none, is answered as not found, and one without a data file as an error.
pub proof fn law_found_needle_is_read_as_asked(
    request: RdmaReadRequest,
    fid_text: &str,
    fid: Result<(u32, u64, u32), ParseFidError>,
    found: Option<NeedleLocation>,
    next: SessionStep,
)
    requires
        call_ensures(step, (SessionState::Locating { request }, SessionEvent::Located(found)), next),
        call_ensures(parse_fid, (fid_text,), fid),
        fid_text@ == request.fid@,
    ensures
        found is None ==> responds(next, true, request.request_id, RdmaStatus::NotFound, 0),
        found matches Some(location) ==> match location.dat_path {
            None => responds(next, true, request.request_id, RdmaStatus::Error, 0),
            Some(path) => match fid {
                Err(_) => responds(next, true, request.request_id, RdmaStatus::NotFound, 0),
                Ok((_, needle_id, cookie)) => {
                    &&& next.state == (SessionState::Reading { request_id: request.request_id })
                    &&& next.action matches SessionAction::Pread { dat_path, request: asked }
                    &&& dat_path == path
                    &&& asked.data_offset == location.offset
                    &&& asked.data_size == location.length
                    &&& asked.chunk_offset == request.offset
                    &&& asked.want_length == request.length
                    &&& asked.expected_needle_id == needle_id
                    &&& asked.expected_cookie == cookie
                },
            },
        },
{
}

/// A read that succeeded is sent, all of it and before the response, which counts it; one that
/// failed is answered by its kind.
pub proof fn law_read_is_answered(
    request_id: u64,
    result: Result<PreadOutcome, PreadError>,
    next: SessionStep,
)
    requires
        call_ensures(
            step,
            (SessionState::Reading { request_id }, SessionEvent::ReadDone(result)),
            next,
        ),
        result matches Ok(outcome) ==> outcome.data@.len() <= 67108864,
    ensures
        match result {
            Ok(outcome) => {
                &&& next.action matches SessionAction::SendPayload { payload }
                &&& payload@ == outcome.data@
                &&& next.state matches SessionState::SendingPayload { response }
                &&& response.request_id == request_id
                &&& response.status == RdmaStatus::Success
                &&& response.bytes_transferred == outcome.data@.len()
            },
            Err(PreadError::CookieMismatch { .. }) => responds(
                next,
                true,
                request_id,
                RdmaStatus::CookieMismatch,
                0,
            ),
            Err(PreadError::RangeInvalid { .. }) => responds(
                next,
                true,
                request_id,
                RdmaStatus::RangeInvalid,
                0,
            ),
            Err(PreadError::Io(_)) => responds(next, true, request_id, RdmaStatus::Error, 0),
        },
{
}

/// A payload that was sent is followed by its response; a response that was sent is followed by
/// the next request.
pub proof fn law_responses_follow_payloads(
    response: RdmaReadResponse,
    permit: bool,
    after_payload: SessionStep,
    after_response: SessionStep,
)
    requires
        call_ensures(
            step,
            (SessionState::SendingPayload { response }, SessionEvent::Sent),
            after_payload,
        ),
        call_ensures(
            step,
            (SessionState::Replying { permit }, SessionEvent::Sent),
            after_response,
        ),
    ensures
        after_payload.state == (SessionState::Replying { permit: true }),
        after_payload.action == (SessionAction::SendResponse { response }),
        after_response.state is AwaitingRequest,
        after_response.action is Receive,
{
}

/// `next` ends the connection with this result.
pub open spec fn ends(next: SessionStep, result: Result<(), IoError>) -> bool {
    next.state is Closed && next.action == SessionAction::Close(result)
}

/// A connection ends in peace where its input ends or makes no sense, and with the failure where
/// receiving, reading or sending fails.
pub proof fn law_failures_end_a_connection(
    e: IoError,
    request_id: u64,
    response: RdmaReadResponse,
    permit: bool,
    senseless: SessionStep,
    unreceived: SessionStep,
    unread: SessionStep,
    payload_unsent: SessionStep,
    response_unsent: SessionStep,
)
    requires
        call_ensures(step, (SessionState::AwaitingRequest, SessionEvent::Undecodable), senseless),
        call_ensures(
            step,
            (SessionState::AwaitingRequest, SessionEvent::ReceiveFailed(e)),
            unreceived,
        ),
        call_ensures(step, (SessionState::Reading { request_id }, SessionEvent::ReadLost(e)), unread),
        call_ensures(
            step,
            (SessionState::SendingPayload { response }, SessionEvent::SendFailed(e)),
            payload_unsent,
        ),
        call_ensures(
            step,
            (SessionState::Replying { permit }, SessionEvent::SendFailed(e)),
            response_unsent,
        ),
    ensures
        ends(senseless, Ok(())),
        e.kind == IoErrorKind::UnexpectedEof ==> ends(unreceived, Ok(())),
        e.kind != IoErrorKind::UnexpectedEof ==> ends(unreceived, Err(e)),
        ends(unread, Err(e)),
        ends(payload_unsent, Err(e)),
        ends(response_unsent, Err(e)),
{
}

/// What can happen to a connection is what its last action can lead to: no more and no less.
pub proof fn law_events_answer_the_last_action(
    state: &SessionState,
    event: &SessionEvent,
    can: bool,
)
    requires
        call_ensures(SessionState::can_take, (state, event), can),
    ensures
        can ==> call_requires(step, (*state, *event)),
        can <==> match *state {
            SessionState::AwaitingRequest => *event is Request || *event is Undecodable
                || *event is ReceiveFailed,
            SessionState::AwaitingPermit { .. } => *event is Permit,
            SessionState::Locating { .. } => *event is Located,
            SessionState::Reading { .. } => *event is ReadLost || (
            *event matches SessionEvent::ReadDone(result) && (result matches Ok(outcome)
                ==> outcome.data@.len() <= 67108864)),
            SessionState::SendingPayload { .. } => *event is Sent || *event is SendFailed,
            SessionState::Replying { .. } => *event is Sent || *event is SendFailed,
            SessionState::Closed => false,
        },
{
}

/// A permit is held while a needle is looked for, read and sent, and while the response to a
/// request that got one is sent.
pub proof fn law_permit_is_held_meanwhile(state: &SessionState, holds: bool)
    requires
        call_ensures(SessionState::holds_permit, (state,), holds),
    ensures
        holds <==> match *state {
            SessionState::Locating { .. } => true,
            SessionState::Reading { .. } => true,
            SessionState::SendingPayload { .. } => true,
            SessionState::Replying { permit } => permit,
            SessionState::AwaitingRequest => false,
            SessionState::AwaitingPermit { .. } => false,
            SessionState::Closed => false,
        },
{
}

/// After a failed accept there is a pause of 50 milliseconds, after another one none.
pub proof fn law_failed_accepts_are_followed_by_a_pause(accepted: bool, action: AcceptAction)
    requires
        call_ensures(after_accept, (accepted,), action),
    ensures
        accepted ==> action is Serve,
        !accepted ==> (action matches AcceptAction::Backoff { millis } && millis == 50),
{
}

/// A refusal bears the request's id and its own status, and counts no bytes.
pub proof fn law_refusals_count_nothing(
    request_id: u64,
    status: RdmaStatus,
    response: RdmaReadResponse,
)
    requires
        call_ensures(RdmaReadResponse::refusal, (request_id, status), response),
    ensures
        response.request_id == request_id,
        response.status == status,
        response.bytes_transferred == 0,
{
}

/// A listener is set up for any local port and 256 requests at a time.
pub proof fn law_listeners_start_locally(config: ListenerConfig)
    requires
        call_ensures(<ListenerConfig as Default>::default, (), config),
    ensures
        config.addr@ == "127.0.0.1:0"@,
        config.max_inflight == 256,
{
}

/// A client that names a stored needle by its fid, with the cookie in the needle's record, and asks
/// for a range that lies in the payload and is not too long, is sent the bytes that stand in the
/// data file at the payload's place plus the request's offset: as many as were asked for or, where
/// none were, all that are left. Then it is sent the response that counts them, and then the next
/// request is received. Each step takes its input from the action of the step before.
pub proof fn law_stored_bytes_reach_the_client(
    request: RdmaReadRequest,
    fid_text: &str,
    fid: Result<(u32, u64, u32), ParseFidError>,
    store: &Store,
    v: int,
    n: int,
    needle: StreamedNeedle,
    file: &[u8],
    at: int,
    received: SessionStep,
    admitted: SessionStep,
    found: Option<NeedleLocation>,
    sought: SessionStep,
    asked: &PreadRequest,
    result: Result<PreadOutcome, PreadError>,
    done: SessionStep,
    sent: SessionStep,
    answered: SessionStep,
)
    requires
        fid_text@ == request.fid@,
        call_ensures(parse_fid, (fid_text,), fid),
        fid matches Ok((volume_id, needle_id, _)) && store::volume_at(*store, volume_id, v)
            && store::needle_at(store.volumes@[v], needle_id, n),
        store.volumes@[v].version != 1,
        store.volumes@[v].needles@[n].answer == Ok::<_, VolumeError>(needle),
        0 <= at,
        at == needle.info.data_file_offset - 20,
        pread::header_starts(file@, at, fid->Ok_0.1),
        pread::four_bytes(file@, at) == fid->Ok_0.2,
        request.offset < needle.info.data_size,
        request.offset + request.length <= needle.info.data_size,
        needle::bytes_taken(
            needle.info.data_size as int,
            request.offset as int,
            request.length as int,
        ) <= 67108864,
        needle.info.data_file_offset + needle.info.data_size <= file@.len() <= 18446744073709551615,
        call_ensures(
            step,
            (SessionState::AwaitingRequest, SessionEvent::Request(request)),
            received,
        ),
        call_ensures(step, (received.state, SessionEvent::Permit { taken: true }), admitted),
        admitted.action matches SessionAction::Locate { fid: named } ==> named@ == fid_text@,
        call_ensures(locate_in_store, (store, fid_text), found),
        call_ensures(step, (admitted.state, SessionEvent::Located(found)), sought),
        sought.action matches SessionAction::Pread { request: wanted, .. } ==> *asked == wanted,
        call_ensures(pread_data_with_cookie, (file, asked), result),
        call_ensures(step, (sought.state, SessionEvent::ReadDone(result)), done),
        call_ensures(step, (done.state, SessionEvent::Sent), sent),
        call_ensures(step, (sent.state, SessionEvent::Sent), answered),
    ensures
        ({
            let taken = needle::bytes_taken(
                needle.info.data_size as int,
                request.offset as int,
                request.length as int,
            );
            let place = needle.info.data_file_offset + request.offset;
            &&& received.action is TakePermit
            &&& admitted.action matches SessionAction::Locate { fid: named } && named@
                == request.fid@
            &&& sought.action matches SessionAction::Pread { dat_path, .. } && dat_path
                == store.volumes@[v].dat_path
            &&& done.action matches SessionAction::SendPayload { payload } && payload@
                == file@.subrange(place, place + taken)
            &&& sent.action matches SessionAction::SendResponse { response } && response.request_id
                == request.request_id && response.status == RdmaStatus::Success
                && response.bytes_transferred == taken
            &&& answered.state is AwaitingRequest
            &&& answered.action is Receive
        }),
{
    needle::law_listed_needle_is_located(store, fid_text, fid, v, n, needle, found);
    law_request_waits_for_a_permit(request, received);
    law_permit_decides(request, true, admitted);
    law_found_needle_is_read_as_asked(request, fid_text, fid, found, sought);
    pread::law_record_decides_what_is_read(file, asked, at, result);
    law_read_is_answered(request.request_id, result, done);
    let response = done.state->response;
    law_responses_follow_payloads(response, true, sent, answered);
}

} // verus!
