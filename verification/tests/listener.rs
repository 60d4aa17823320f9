use seaweed_volume::rdma::listener::{
    after_accept, open_session, step, AcceptAction, ListenerConfig, RdmaReadRequest,
    RdmaReadResponse, RdmaStatus, SessionAction, SessionEvent, SessionState, SessionStep,
    REQUEST_WIRE_SIZE,
};
use seaweed_volume::rdma::needle_source::{locate_in_store, NeedleLocation};
use seaweed_volume::rdma::pread::{
    pread_data_with_cookie, PreadError, PreadOutcome, MAX_PREAD_BYTES,
};
use seaweed_volume::storage::file_id::{Cookie, NeedleId, VolumeId};
use seaweed_volume::storage::io_error::{IoError, IoErrorKind};
use seaweed_volume::storage::volume::{
    NeedleEntry, NeedleStreamInfo, NeedleStreamSource, Store, StreamedNeedle, Volume, VERSION_1,
};

const CURRENT_VERSION: u8 = 3;

/// A server whose one volume has its data file in memory.
struct Server {
    store: Store,
    dat: Vec<u8>,
    permits: usize,
}

fn make_store_with_needle(data: &[u8], cookie: u32) -> (Server, String) {
    make_store_with_needle_version(data, cookie, CURRENT_VERSION)
}

fn make_store_with_needle_version(data: &[u8], cookie: u32, version: u8) -> (Server, String) {
    let mut dat = vec![version, 0, 0, 0, 0, 0, 0, 0];
    dat.extend_from_slice(&cookie.to_be_bytes());
    dat.extend_from_slice(&1u64.to_be_bytes());
    dat.extend_from_slice(&(data.len() as u32 + 5).to_be_bytes());
    dat.extend_from_slice(&(data.len() as u32).to_be_bytes());
    let data_file_offset = dat.len() as u64;
    dat.extend_from_slice(data);
    dat.push(0);
    let needle = StreamedNeedle {
        info: NeedleStreamInfo {
            source: NeedleStreamSource(17),
            volume_id: VolumeId(3),
            needle_id: NeedleId(1),
            data_file_offset,
            data_size: data.len() as u32,
            compaction_revision: 0,
        },
        cookie: Cookie(cookie),
    };
    let store = Store {
        volumes: vec![Volume {
            id: VolumeId(3),
            version,
            dat_path: "/data/3.dat".to_string(),
            needles: vec![NeedleEntry {
                id: NeedleId(1),
                answer: Ok(needle),
            }],
        }],
    };
    let server = Server {
        store,
        dat,
        permits: 8,
    };
    (server, format!("3,{:02x}{:08x}", 1u64, cookie))
}

fn request(request_id: u64, fid: &str, offset: u64, length: u64) -> RdmaReadRequest {
    RdmaReadRequest {
        request_id,
        fid: fid.to_string(),
        offset,
        length,
    }
}

/// Responses as 32 bytes.
fn encode(response: RdmaReadResponse) -> Vec<u8> {
    let status: u64 = match response.status {
        RdmaStatus::Success => 0,
        RdmaStatus::Busy => 1,
        RdmaStatus::NotFound => 2,
        RdmaStatus::CookieMismatch => 3,
        RdmaStatus::RangeInvalid => 4,
        RdmaStatus::Error => 5,
    };
    let mut bytes = response.request_id.to_be_bytes().to_vec();
    bytes.extend_from_slice(&status.to_be_bytes());
    bytes.extend_from_slice(&response.bytes_transferred.to_be_bytes());
    bytes.resize(32, 0);
    bytes
}

fn ok(request_id: u64, bytes_transferred: u32) -> RdmaReadResponse {
    RdmaReadResponse {
        request_id,
        status: RdmaStatus::Success,
        bytes_transferred,
    }
}

/// What came of a connection: the bytes on the wire, the responses, and how it ended.
struct Served {
    wire: Vec<u8>,
    responses: Vec<RdmaReadResponse>,
    result: Result<(), IoError>,
}

/// Lets a connection send these requests and then `last`.
fn serve(server: &Server, requests: Vec<RdmaReadRequest>, last: SessionEvent) -> Served {
    let mut incoming: Vec<SessionEvent> =
        requests.into_iter().map(SessionEvent::Request).collect();
    incoming.push(last);
    let mut incoming = incoming.into_iter();
    let mut wire = Vec::new();
    let mut responses = Vec::new();
    let mut next = open_session();
    loop {
        let event = match next.action {
            SessionAction::Receive => incoming.next().unwrap(),
            SessionAction::TakePermit => SessionEvent::Permit {
                taken: server.permits > 0,
            },
            SessionAction::Locate { fid } => {
                SessionEvent::Located(locate_in_store(&server.store, &fid))
            }
            SessionAction::Pread { dat_path, request } => {
                assert_eq!(dat_path, "/data/3.dat");
                SessionEvent::ReadDone(pread_data_with_cookie(&server.dat, &request))
            }
            SessionAction::SendPayload { payload } => {
                wire.extend_from_slice(&payload);
                SessionEvent::Sent
            }
            SessionAction::SendResponse { response } => {
                wire.extend_from_slice(&encode(response));
                responses.push(response);
                SessionEvent::Sent
            }
            SessionAction::Close(result) => {
                return Served {
                    wire,
                    responses,
                    result,
                }
            }
        };
        assert!(next.state.can_take(&event));
        next = step(next.state, event);
    }
}

fn end_of_stream() -> SessionEvent {
    SessionEvent::ReceiveFailed(IoError::new(IoErrorKind::UnexpectedEof, "early eof"))
}

/// Lets a connection send one request, and gives the payload and the response it gets.
fn send_request(server: &Server, req: RdmaReadRequest) -> (Vec<u8>, RdmaReadResponse) {
    let served = serve(server, vec![req], end_of_stream());
    assert!(served.result.is_ok());
    assert_eq!(served.responses.len(), 1);
    let data = served.wire[..served.wire.len() - 32].to_vec();
    assert_eq!(served.wire[data.len()..], encode(served.responses[0]));
    (data, served.responses[0])
}

fn send_error_request(server: &Server, req: RdmaReadRequest) -> RdmaReadResponse {
    let (data, resp) = send_request(server, req);
    assert!(data.is_empty());
    resp
}

#[test]
fn listener_serves_full_needle_from_real_store() {
    let (server, fid) = make_store_with_needle(b"abcdefgh", 0x89b26a98);

    let (data, resp) = send_request(&server, request(7, &fid, 0, 0));

    assert_eq!(data, b"abcdefgh");
    assert_eq!(resp.request_id, 7);
    assert_eq!(resp.status, RdmaStatus::Success);
    assert_eq!(resp.bytes_transferred, 8);
}

#[test]
fn listener_honors_request_offset_and_length() {
    let (server, fid) = make_store_with_needle(b"abcdefgh", 0x89b26a98);

    let (data, resp) = send_request(&server, request(8, &fid, 3, 4));

    assert_eq!(data, b"defg");
    assert_eq!(resp.status, RdmaStatus::Success);
    assert_eq!(resp.bytes_transferred, 4);
}

#[test]
fn listener_length_zero_returns_remainder_from_offset() {
    let (server, fid) = make_store_with_needle(b"abcdefgh", 0x89b26a98);

    let (data, resp) = send_request(&server, request(9, &fid, 5, 0));

    assert_eq!(data, b"fgh");
    assert_eq!(resp.status, RdmaStatus::Success);
    assert_eq!(resp.bytes_transferred, 3);
}

#[test]
fn listener_returns_cookie_mismatch_on_stale_fid() {
    let (server, _fid) = make_store_with_needle(b"abcdefgh", 0x89b26a98);

    let resp = send_error_request(&server, request(10, "3,01cafebabe", 0, 8));

    assert_eq!(resp.request_id, 10);
    assert_eq!(resp.status, RdmaStatus::CookieMismatch);
    assert_eq!(resp.bytes_transferred, 0);
}

#[test]
fn listener_checks_cookie_before_range_validation() {
    let (server, _fid) = make_store_with_needle(b"abcdefgh", 0x89b26a98);

    let resp = send_error_request(&server, request(13, "3,01cafebabe", 6, 4));

    assert_eq!(resp.request_id, 13);
    assert_eq!(resp.status, RdmaStatus::CookieMismatch);
    assert_eq!(resp.bytes_transferred, 0);
}

#[test]
fn listener_returns_range_invalid_when_request_overshoots_data() {
    let (server, fid) = make_store_with_needle(b"abcdefgh", 0x89b26a98);

    let resp = send_error_request(&server, request(11, &fid, 6, 4));

    assert_eq!(resp.request_id, 11);
    assert_eq!(resp.status, RdmaStatus::RangeInvalid);
    assert_eq!(resp.bytes_transferred, 0);
}

#[test]
fn listener_returns_range_invalid_for_length_zero_at_eof() {
    let (server, fid) = make_store_with_needle(b"abcdefgh", 0x89b26a98);

    let resp = send_error_request(&server, request(14, &fid, 8, 0));

    assert_eq!(resp.request_id, 14);
    assert_eq!(resp.status, RdmaStatus::RangeInvalid);
    assert_eq!(resp.bytes_transferred, 0);
}

#[test]
fn listener_rejects_version_one_volume_until_storage_semantics_are_settled() {
    let (server, fid) = make_store_with_needle_version(b"abcdefgh", 0x89b26a98, VERSION_1);

    let resp = send_error_request(&server, request(15, &fid, 2, 3));

    assert_eq!(resp.status, RdmaStatus::NotFound);
    assert_eq!(resp.bytes_transferred, 0);
}

#[test]
fn listener_returns_not_found_for_missing_needle() {
    let (server, _fid) = make_store_with_needle(b"abcdefgh", 0x89b26a98);

    let resp = send_error_request(&server, request(12, "3,0289b26a98", 0, 8));

    assert_eq!(resp.request_id, 12);
    assert_eq!(resp.status, RdmaStatus::NotFound);
    assert_eq!(resp.bytes_transferred, 0);
}

#[test]
fn a_full_server_is_busy_before_anything_else() {
    let (mut server, _fid) = make_store_with_needle(b"abcdefgh", 0x89b26a98);
    server.permits = 0;

    let resp = send_error_request(&server, request(16, "no fid", 0, 8));

    assert_eq!(resp, RdmaReadResponse::refusal(16, RdmaStatus::Busy));
}

#[test]
fn a_damaged_data_file_is_an_error() {
    let (mut server, fid) = make_store_with_needle(b"abcdefgh", 0x89b26a98);
    server.dat.truncate(30);
    let resp = send_error_request(&server, request(17, &fid, 0, 8));
    assert_eq!(resp, RdmaReadResponse::refusal(17, RdmaStatus::Error));
    server.dat.clear();
    let resp = send_error_request(&server, request(18, &fid, 0, 8));
    assert_eq!(resp, RdmaReadResponse::refusal(18, RdmaStatus::Error));
}

fn locating(fid: &str) -> SessionState {
    SessionState::Locating {
        request: request(19, fid, 0, 0),
    }
}

fn location(dat_path: Option<&str>) -> NeedleLocation {
    NeedleLocation {
        volume_id: 3,
        offset: 28,
        length: 8,
        dat_path: dat_path.map(|path| path.to_string()),
    }
}

fn status_of(next: SessionStep) -> RdmaStatus {
    match next.action {
        SessionAction::SendResponse { response } => response.status,
        other => panic!("{:?}", other),
    }
}

#[test]
fn a_needle_without_a_data_file_is_an_error() {
    let next = step(
        locating("3,0189b26a98"),
        SessionEvent::Located(Some(location(None))),
    );
    assert!(next.state.holds_permit());
    assert_eq!(status_of(next), RdmaStatus::Error);
}

#[test]
fn a_located_needle_with_a_malformed_fid_is_not_found() {
    let next = step(
        locating("3;0189b26a98"),
        SessionEvent::Located(Some(location(Some("3.dat")))),
    );
    assert_eq!(status_of(next), RdmaStatus::NotFound);
}

#[test]
fn a_read_asks_for_what_the_request_asked_for() {
    let state = SessionState::Locating {
        request: request(20, "3,0189b26a98_4", 2, 3),
    };
    let next = step(state, SessionEvent::Located(Some(location(Some("3.dat")))));
    assert!(matches!(
        next.state,
        SessionState::Reading { request_id: 20 }
    ));
    match next.action {
        SessionAction::Pread { dat_path, request } => {
            assert_eq!(dat_path, "3.dat");
            assert_eq!(request.data_offset, 28);
            assert_eq!(request.data_size, 8);
            assert_eq!(request.chunk_offset, 2);
            assert_eq!(request.want_length, 3);
            assert_eq!(request.expected_needle_id, 5);
            assert_eq!(request.expected_cookie, 0x89b26a98);
        }
        other => panic!("{:?}", other),
    }
}

#[test]
fn permits_are_held_until_the_reply_is_sent() {
    let first = open_session();
    assert!(!first.state.holds_permit());
    let asked = step(first.state, SessionEvent::Request(request(1, "3,01", 0, 0)));
    assert!(!asked.state.holds_permit());
    let admitted = step(asked.state, SessionEvent::Permit { taken: true });
    assert!(admitted.state.holds_permit());
    let replying = step(admitted.state, SessionEvent::Located(None));
    assert!(replying.state.holds_permit());
    let done = step(replying.state, SessionEvent::Sent);
    assert!(!done.state.holds_permit());
}

#[test]
fn a_successful_read_is_sent_with_its_length() {
    let next = step(
        SessionState::Reading { request_id: 21 },
        SessionEvent::ReadDone(Ok(PreadOutcome {
            data: b"abc".to_vec(),
        })),
    );
    assert!(next.state.holds_permit());
    match next.action {
        SessionAction::SendPayload { payload } => assert_eq!(payload, b"abc"),
        other => panic!("{:?}", other),
    }
    let next = step(next.state, SessionEvent::Sent);
    assert!(next.state.holds_permit());
    match next.action {
        SessionAction::SendResponse { response } => assert_eq!(response, ok(21, 3)),
        other => panic!("{:?}", other),
    }
    let failed = step(
        SessionState::Reading { request_id: 21 },
        SessionEvent::ReadDone(Err(PreadError::Io(broken()))),
    );
    assert_eq!(status_of(failed), RdmaStatus::Error);
}

fn broken() -> IoError {
    IoError::new(IoErrorKind::Other, "broken pipe")
}

fn closes_with(next: SessionStep) -> Option<String> {
    assert!(matches!(next.state, SessionState::Closed));
    match next.action {
        SessionAction::Close(Ok(())) => None,
        SessionAction::Close(Err(e)) => Some(e.message),
        other => panic!("{:?}", other),
    }
}

#[test]
fn only_the_stream_ends_a_session() {
    let end = step(SessionState::AwaitingRequest, end_of_stream());
    assert_eq!(closes_with(end), None);
    let end = step(SessionState::AwaitingRequest, SessionEvent::Undecodable);
    assert_eq!(closes_with(end), None);
    let end = step(
        SessionState::AwaitingRequest,
        SessionEvent::ReceiveFailed(broken()),
    );
    assert_eq!(closes_with(end).unwrap(), "broken pipe");
    let end = step(
        SessionState::Reading { request_id: 1 },
        SessionEvent::ReadLost(broken()),
    );
    assert_eq!(closes_with(end).unwrap(), "broken pipe");
    let end = step(
        SessionState::SendingPayload { response: ok(1, 3) },
        SessionEvent::SendFailed(broken()),
    );
    assert_eq!(closes_with(end).unwrap(), "broken pipe");
    let end = step(
        SessionState::Replying { permit: false },
        SessionEvent::SendFailed(broken()),
    );
    assert_eq!(closes_with(end).unwrap(), "broken pipe");
}

#[test]
fn listeners_start_on_any_local_port() {
    let config = ListenerConfig::default();
    assert_eq!(config.addr, "127.0.0.1:0");
    assert_eq!(config.max_inflight, 256);
    let copy = config.clone();
    assert_eq!(copy.addr, config.addr);
    assert_eq!(copy.max_inflight, config.max_inflight);
    assert_eq!(REQUEST_WIRE_SIZE, 64);
}

#[test]
fn a_failed_accept_is_followed_by_a_pause() {
    assert_eq!(after_accept(true), AcceptAction::Serve);
    assert_eq!(after_accept(false), AcceptAction::Backoff { millis: 50 });
}

#[test]
fn a_slice_goes_out_before_its_response() {
    let (server, fid) = make_store_with_needle(b"abcdefgh", 0x89b26a98);
    let served = serve(&server, vec![request(8, &fid, 3, 4)], end_of_stream());
    let mut expected = b"defg".to_vec();
    expected.extend_from_slice(&encode(ok(8, 4)));
    assert_eq!(served.wire, expected);
    assert!(served.result.is_ok());
}

#[test]
fn requests_of_a_connection_are_answered_in_order() {
    let (server, fid) = make_store_with_needle(b"abcdefgh", 0x89b26a98);
    let requests = vec![
        request(7, &fid, 0, 0),
        request(10, "3,01cafebabe", 0, 8),
        request(11, &fid, 6, 4),
        request(12, "3,0289b26a98", 0, 8),
        request(13, "no fid", 0, 8),
        request(9, &fid, 5, 0),
    ];
    let served = serve(&server, requests, SessionEvent::Undecodable);
    let mut expected = b"abcdefgh".to_vec();
    expected.extend_from_slice(&encode(ok(7, 8)));
    for (id, status) in [
        (10, RdmaStatus::CookieMismatch),
        (11, RdmaStatus::RangeInvalid),
        (12, RdmaStatus::NotFound),
        (13, RdmaStatus::NotFound),
    ] {
        expected.extend_from_slice(&encode(RdmaReadResponse::refusal(id, status)));
    }
    expected.extend_from_slice(b"fgh");
    expected.extend_from_slice(&encode(ok(9, 3)));
    assert_eq!(served.wire, expected);
    assert!(served.result.is_ok());
}

#[test]
fn a_connection_without_requests_writes_nothing() {
    let (server, _fid) = make_store_with_needle(b"abcdefgh", 0x89b26a98);
    let served = serve(&server, Vec::new(), SessionEvent::ReceiveFailed(broken()));
    assert!(served.wire.is_empty());
    assert_eq!(served.result.unwrap_err().message, "broken pipe");
}

#[test]
fn states_tell_what_can_happen_to_them() {
    let first = open_session().state;
    assert!(first.can_take(&SessionEvent::Undecodable));
    assert!(first.can_take(&end_of_stream()));
    assert!(!first.can_take(&SessionEvent::Sent));
    let reading = SessionState::Reading { request_id: 1 };
    let most = SessionEvent::ReadDone(Ok(PreadOutcome {
        data: vec![0; MAX_PREAD_BYTES],
    }));
    assert!(reading.can_take(&most));
    let more = SessionEvent::ReadDone(Ok(PreadOutcome {
        data: vec![0; MAX_PREAD_BYTES + 1],
    }));
    assert!(!reading.can_take(&more));
    assert!(!reading.can_take(&SessionEvent::Sent));
    assert!(!SessionState::Closed.can_take(&SessionEvent::Sent));
}
