use seaweed_volume::rdma::pread::{
    pread_data_with_cookie, read_exact_at, PreadError, PreadOutcome, PreadRequest, PreadStage,
    PreadStep, MAX_PREAD_BYTES,
};
use seaweed_volume::storage::exact_read::ExactRead;
use seaweed_volume::storage::io_error::{IoError, IoErrorKind};

const COOKIE: u32 = 0x89b26a98;

/// A header of needle 0x0102030405060708.
fn header() -> Vec<u8> {
    let mut bytes = COOKIE.to_be_bytes().to_vec();
    bytes.extend_from_slice(&[1, 2, 3, 4, 5, 6, 7, 8]);
    bytes.extend_from_slice(&[0, 0, 0, 13]);
    bytes
}

fn sized_file() -> Vec<u8> {
    let mut file = header();
    file.extend_from_slice(&[0, 0, 0, 8]);
    file.extend_from_slice(b"abcdefgh");
    file
}

fn bare_file() -> Vec<u8> {
    let mut file = header();
    file.extend_from_slice(b"abcdefgh");
    file
}

fn want(data_offset: u64, chunk_offset: u64, want_length: u64) -> PreadRequest {
    PreadRequest {
        data_offset,
        data_size: 8,
        chunk_offset,
        want_length,
        expected_needle_id: 0x0102030405060708,
        expected_cookie: COOKIE,
    }
}

fn data(result: Result<PreadOutcome, PreadError>) -> Vec<u8> {
    result.unwrap().data
}

fn io_failure(result: Result<PreadOutcome, PreadError>) -> (IoErrorKind, String) {
    match result {
        Err(PreadError::Io(e)) => (e.kind, e.message),
        other => panic!("{:?}", other),
    }
}

#[test]
fn both_record_layouts_are_read() {
    assert_eq!(
        data(pread_data_with_cookie(&sized_file(), &want(20, 0, 0))),
        b"abcdefgh"
    );
    assert_eq!(
        data(pread_data_with_cookie(&bare_file(), &want(16, 2, 3))),
        b"cde"
    );
    assert_eq!(
        data(pread_data_with_cookie(&sized_file(), &want(20, 7, 1))),
        b"h"
    );
}

#[test]
fn a_header_with_a_data_size_is_preferred() {
    // Read 16 bytes before the payload, these bytes are a header of the same needle with the
    // cookie 0x01020304.
    let mut file = COOKIE.to_be_bytes().to_vec();
    file.extend_from_slice(&[1, 2, 3, 4, 1, 2, 3, 4, 1, 2, 3, 4, 0, 0, 0, 8]);
    file.extend_from_slice(b"abcdefgh");
    let mut request = want(20, 0, 1);
    request.expected_needle_id = 0x0102030401020304;
    assert_eq!(data(pread_data_with_cookie(&file, &request)), b"a");
    request.expected_cookie = 0x01020304;
    assert!(matches!(
        pread_data_with_cookie(&file, &request),
        Err(PreadError::CookieMismatch {
            expected: 0x01020304,
            actual: COOKIE
        })
    ));
}

#[test]
fn reading_without_a_length_reads_the_rest() {
    assert_eq!(
        data(pread_data_with_cookie(&sized_file(), &want(20, 5, 0))),
        data(pread_data_with_cookie(&sized_file(), &want(20, 5, 3)))
    );
}

#[test]
fn records_of_other_needles_are_passed_over() {
    let mut request = want(20, 0, 0);
    request.expected_needle_id = 7;
    let missing = (
        IoErrorKind::InvalidData,
        "could not find matching needle header before payload".to_string(),
    );
    assert_eq!(
        io_failure(pread_data_with_cookie(&sized_file(), &request)),
        missing
    );
    assert_eq!(
        io_failure(pread_data_with_cookie(&sized_file(), &want(15, 0, 0))),
        missing
    );
    assert_eq!(
        io_failure(pread_data_with_cookie(&[], &want(20, 0, 0))),
        missing
    );
}

#[test]
fn faults_are_found_in_order() {
    let mut request = want(20, 0, 0);
    request.data_size = 0;
    request.expected_cookie = 1;
    assert_eq!(
        io_failure(pread_data_with_cookie(&sized_file(), &request)),
        (
            IoErrorKind::InvalidData,
            "needle has zero data_size".to_string()
        )
    );
    let mut request = want(20, 9, 9);
    request.expected_cookie = 1;
    assert!(matches!(
        pread_data_with_cookie(&sized_file(), &request),
        Err(PreadError::CookieMismatch {
            expected: 1,
            actual: COOKIE
        })
    ));
    assert!(matches!(
        pread_data_with_cookie(&sized_file(), &want(20, 6, 4)),
        Err(PreadError::RangeInvalid {
            data_size: 8,
            requested_offset: 6,
            requested_length: 4
        })
    ));
    assert!(matches!(
        pread_data_with_cookie(&sized_file(), &want(20, 8, 0)),
        Err(PreadError::RangeInvalid {
            data_size: 8,
            requested_offset: 8,
            requested_length: 0
        })
    ));
    assert!(matches!(
        pread_data_with_cookie(&sized_file(), &want(20, 1, u64::MAX)),
        Err(PreadError::RangeInvalid { .. })
    ));
    let mut request = want(20, 0, 0);
    request.data_size = MAX_PREAD_BYTES as u64 + 1;
    assert_eq!(
        io_failure(pread_data_with_cookie(&sized_file(), &request)),
        (
            IoErrorKind::InvalidData,
            "requested read exceeds MAX_PREAD_BYTES".to_string()
        )
    );
    request.data_size = MAX_PREAD_BYTES as u64;
    assert_eq!(
        io_failure(pread_data_with_cookie(&sized_file(), &request)).0,
        IoErrorKind::UnexpectedEof
    );
}

#[test]
fn a_file_that_does_not_open_is_not_asked() {
    let failed = want(20, 0, 0).start(Err(IoError::new(IoErrorKind::Other, "no such file")));
    match failed {
        PreadStep::Done(result) => {
            assert_eq!(
                io_failure(result),
                (IoErrorKind::Other, "no such file".to_string())
            )
        }
        other => panic!("{:?}", other),
    }
}

#[test]
fn a_read_asks_for_headers_and_then_for_the_payload() {
    let request = want(20, 2, 3);
    assert!(matches!(
        request.start(Ok(())),
        PreadStep::Read {
            stage: PreadStage::SizedHeader,
            offset: 0,
            length: 16
        }
    ));
    let unread = Err(IoError::new(IoErrorKind::Other, "bad sector"));
    assert!(matches!(
        request.advance(PreadStage::SizedHeader, unread),
        PreadStep::Read {
            stage: PreadStage::BareHeader,
            offset: 4,
            length: 16
        }
    ));
    assert!(matches!(
        request.advance(PreadStage::BareHeader, Ok(header())),
        PreadStep::Read {
            stage: PreadStage::Payload,
            offset: 22,
            length: 3
        }
    ));
}

#[test]
fn offsets_that_no_file_has_are_told() {
    let mut request = want(u64::MAX - 3, 4, 1);
    let found = Ok(header());
    assert!(!request.is_answerable(PreadStage::SizedHeader, &found));
    request.chunk_offset = 3;
    assert!(request.is_answerable(PreadStage::SizedHeader, &found));
    request.chunk_offset = 4;
    request.expected_cookie = 1;
    assert!(request.is_answerable(PreadStage::SizedHeader, &found));
    assert!(matches!(
        request.advance(PreadStage::SizedHeader, found),
        PreadStep::Done(Err(PreadError::CookieMismatch { .. }))
    ));
    assert!(!request.is_answerable(PreadStage::BareHeader, &Ok(vec![0; 15])));
    assert!(request.is_answerable(PreadStage::Payload, &Ok(Vec::new())));
}

#[test]
fn exact_reads_stay_inside_the_file() {
    assert_eq!(read_exact_at(b"abcd", 1, 2).unwrap(), b"bc");
    assert_eq!(read_exact_at(b"abcd", 4, 0).unwrap(), b"");
    assert_eq!(
        read_exact_at(b"abcd", 3, 2).unwrap_err().kind,
        IoErrorKind::UnexpectedEof
    );
    assert!(read_exact_at(b"abcd", u64::MAX, usize::MAX).is_err());
}

#[test]
fn short_reads_are_put_together() {
    let mut read = ExactRead::new(10, 100);
    assert_eq!(read.missing(), Some((0, 100)));
    read.took(4).unwrap();
    assert_eq!(read.missing(), Some((4, 104)));
    read.took(6).unwrap();
    assert_eq!(read.missing(), None);
    assert_eq!(ExactRead::new(0, 5).missing(), None);
    let mut read = ExactRead::new(10, 100);
    let end = read.took(0).unwrap_err();
    assert_eq!(end.kind, IoErrorKind::UnexpectedEof);
    assert_eq!(end.message, "unexpected EOF in seek_read");
    assert_eq!(read, ExactRead::new(10, 100));
}
