//! Reading payloads from data files.

use vstd::prelude::*;

use crate::rdma::pread;
use crate::rdma::pread::{
    pread_data_with_cookie, read_exact_at, PreadError, PreadOutcome, PreadRequest, PreadStage,
    PreadStep,
};
use crate::storage::exact_read::ExactRead;
use crate::storage::io_error::{IoError, IoErrorKind};

verus! {

/// The number that four bytes write from `at` on, the most significant first.
pub open spec fn four_bytes(bytes: Seq<u8>, at: int) -> int {
    bytes[at] * 0x100_0000 + bytes[at + 1] * 0x1_0000 + bytes[at + 2] * 0x100 + bytes[at + 3]
}

/// The number that eight bytes write from `at` on, the most significant first.
pub open spec fn eight_bytes(bytes: Seq<u8>, at: int) -> int {
    four_bytes(bytes, at) * 0x1_0000_0000 + four_bytes(bytes, at + 4)
}

proof fn lemma_more_bytes(bytes: Seq<u8>, from: int, to: int)
    requires
        0 <= from < to <= bytes.len(),
    ensures
        pread::big_endian(bytes.subrange(from, to)) == pread::big_endian(
            bytes.subrange(from, to - 1),
        ) * 256 + bytes[to - 1],
{
    let part = bytes.subrange(from, to);
    assert(part.drop_last() =~= bytes.subrange(from, to - 1));
    assert(part.last() == bytes[to - 1]);
}

proof fn lemma_four_bytes(bytes: Seq<u8>, at: int)
    requires
        0 <= at,
        at + 4 <= bytes.len(),
    ensures
        pread::big_endian(bytes.subrange(at, at + 4)) == four_bytes(bytes, at),
{
    assert(bytes.subrange(at, at) =~= Seq::<u8>::empty());
    assert(pread::big_endian(bytes.subrange(at, at)) == 0);
    lemma_more_bytes(bytes, at, at + 1);
    lemma_more_bytes(bytes, at, at + 2);
    lemma_more_bytes(bytes, at, at + 3);
    lemma_more_bytes(bytes, at, at + 4);
}

proof fn lemma_eight_bytes(bytes: Seq<u8>, at: int)
    requires
        0 <= at,
        at + 8 <= bytes.len(),
    ensures
        pread::big_endian(bytes.subrange(at, at + 8)) == eight_bytes(bytes, at),
{
    lemma_four_bytes(bytes, at);
    lemma_more_bytes(bytes, at, at + 5);
    lemma_more_bytes(bytes, at, at + 6);
    lemma_more_bytes(bytes, at, at + 7);
    lemma_more_bytes(bytes, at, at + 8);
}

/// A header is read as its bytes write it.
proof fn lemma_header(header: Seq<u8>)
    requires
        header.len() == 16,
    ensures
        pread::header_cookie(header) == four_bytes(header, 0),
        pread::header_needle_id(header) == eight_bytes(header, 4),
{
    lemma_four_bytes(header, 0);
    lemma_eight_bytes(header, 4);
}

/// In `file`, the header of needle `id` starts at `at`.
pub open spec fn header_starts(file: Seq<u8>, at: int, id: u64) -> bool {
    0 <= at && at + 16 <= file.len() && eight_bytes(file, at + 4) == id
}

/// The record of the request's needle starts at `at`: 20 bytes before the payload or, where none
/// does there, 16.
pub open spec fn record_starts(file: Seq<u8>, request: PreadRequest, at: int) -> bool {
    let data = request.data_offset as int;
    let id = request.expected_needle_id;
    ||| at == data - 20 && header_starts(file, data - 20, id)
    ||| at == data - 16 && header_starts(file, data - 16, id) && !header_starts(file, data - 20, id)
}

proof fn lemma_header_at(file: Seq<u8>, request: PreadRequest, distance: int)
    requires
        distance == 16 || distance == 20,
    ensures
        request.header_at(file, distance) is Some <==> header_starts(
            file,
            request.data_offset - distance,
            request.expected_needle_id,
        ),
        request.header_at(file, distance) matches Some(header) ==> pread::header_cookie(header)
            == four_bytes(file, request.data_offset - distance),
{
    let at = request.data_offset - distance;
    if at >= 0 && at + 16 <= file.len() {
        let header = file.subrange(at, at + 16);
        lemma_header(header);
        assert(header[0] == file[at] && header[1] == file[at + 1] && header[2] == file[at + 2]
            && header[3] == file[at + 3]);
        assert(header[4] == file[at + 4] && header[5] == file[at + 5] && header[6] == file[at + 6]
            && header[7] == file[at + 7]);
        assert(header[8] == file[at + 8] && header[9] == file[at + 9] && header[10] == file[at + 10]
            && header[11] == file[at + 11]);
    }
}

/// `error` is invalid data, in these words.
pub open spec fn invalid(error: PreadError, words: Seq<char>) -> bool {
    error matches PreadError::Io(e) && e.kind == IoErrorKind::InvalidData && e.message@ == words
}

/// The cookie of a needle is the number that the first four bytes of its record write, and the
/// needle is found by the number that the next eight write. A needle that bears the expected
/// cookie is read: the bytes asked for or, where none were, all that are left, as they stand in the
/// file. An empty needle, another cookie, a range that does not lie in the payload, a range of more
/// than 64 MiB and a file that ends too early are refused, in this order.
pub proof fn law_record_decides_what_is_read(
    file: &[u8],
    request: &PreadRequest,
    at: int,
    result: Result<PreadOutcome, PreadError>,
)
    requires
        call_ensures(pread_data_with_cookie, (file, request), result),
        record_starts(file@, *request, at),
    ensures
        ({
            let size = request.data_size as int;
            let from = request.chunk_offset as int;
            let want = request.want_length as int;
            let taken = if want == 0 {
                size - from
            } else {
                want
            };
            let place = request.data_offset + from;
            if size == 0 {
                result matches Err(e) && invalid(e, "needle has zero data_size"@)
            } else if four_bytes(file@, at) != request.expected_cookie {
                result matches Err(PreadError::CookieMismatch { expected, actual }) && expected
                    == request.expected_cookie && actual == four_bytes(file@, at)
            } else if from >= size || from + want > size {
                result matches Err(
                    PreadError::RangeInvalid { data_size, requested_offset, requested_length },
                ) && data_size == size && requested_offset == from && requested_length == want
            } else if taken > 67108864 {
                result matches Err(e) && invalid(e, "requested read exceeds MAX_PREAD_BYTES"@)
            } else if place <= 18446744073709551615 {
                if place + taken <= file@.len() {
                    result matches Ok(outcome) && outcome.data@ == file@.subrange(
                        place,
                        place + taken,
                    )
                } else {
                    result matches Err(PreadError::Io(e)) && e.kind == IoErrorKind::UnexpectedEof
                }
            } else {
                true
            }
        }),
{
    lemma_header_at(file@, *request, 20);
    lemma_header_at(file@, *request, 16);
    assert(request.cookie_in(file@) == Some(four_bytes(file@, at) as u32));
}

/// Every payload may be asked for whose range starts where a file can have it.
pub proof fn law_payloads_may_be_asked_for(file: &[u8], request: &PreadRequest)
    requires
        request.data_offset + request.chunk_offset <= 18446744073709551615,
    ensures
        call_requires(pread_data_with_cookie, (file, request)),
{
}

/// A payload without the record of its needle before it is not read.
pub proof fn law_payload_without_record_is_not_read(
    file: &[u8],
    request: &PreadRequest,
    result: Result<PreadOutcome, PreadError>,
)
    requires
        call_ensures(pread_data_with_cookie, (file, request), result),
        !header_starts(file@, request.data_offset - 20, request.expected_needle_id),
        !header_starts(file@, request.data_offset - 16, request.expected_needle_id),
    ensures
        result matches Err(e) && invalid(
            e,
            "could not find matching needle header before payload"@,
        ),
{
    lemma_header_at(file@, *request, 20);
    lemma_header_at(file@, *request, 16);
}

/// A read starts with a header of 16 bytes, 20 bytes before the payload or, where the file has not
/// so many, 16; it fails with the file that does not open.
pub proof fn law_read_starts_with_a_header(
    request: &PreadRequest,
    opened: Result<(), IoError>,
    next: PreadStep,
)
    requires
        call_ensures(PreadRequest::start, (request, opened), next),
    ensures
        match opened {
            Err(e) => next matches PreadStep::Done(Err(PreadError::Io(failure))) && failure.kind
                == e.kind && failure.message@ == e.message@,
            Ok(()) => if request.data_offset >= 20 {
                next == (PreadStep::Read {
                    stage: PreadStage::SizedHeader,
                    offset: (request.data_offset - 20) as u64,
                    length: 16,
                })
            } else if request.data_offset >= 16 {
                next == (PreadStep::Read {
                    stage: PreadStage::BareHeader,
                    offset: (request.data_offset - 16) as u64,
                    length: 16,
                })
            } else {
                next matches PreadStep::Done(Err(e)) && invalid(
                    e,
                    "could not find matching needle header before payload"@,
                )
            },
        },
{
}

/// A header that cannot be read, or whose bytes write another needle id, is passed over: the read
/// goes on 16 bytes before the payload, and then gives up.
pub proof fn law_other_headers_are_passed_over(
    request: &PreadRequest,
    stage: PreadStage,
    answer: Result<Vec<u8>, IoError>,
    next: PreadStep,
)
    requires
        call_ensures(PreadRequest::advance, (request, stage, answer), next),
        stage != PreadStage::Payload,
        answer matches Ok(header) ==> header@.len() == 16 && eight_bytes(header@, 4)
            != request.expected_needle_id,
    ensures
        if stage == PreadStage::SizedHeader && request.data_offset >= 16 {
            next == (PreadStep::Read {
                stage: PreadStage::BareHeader,
                offset: (request.data_offset - 16) as u64,
                length: 16,
            })
        } else {
            next matches PreadStep::Done(Err(e)) && invalid(
                e,
                "could not find matching needle header before payload"@,
            )
        },
{
    if let Ok(header) = answer {
        lemma_header(header@);
    }
}

/// A header whose bytes write the needle's id leads to the payload where its first four bytes write
/// the expected cookie and the range may be read; else the read ends there.
pub proof fn law_right_header_leads_to_the_payload(
    request: &PreadRequest,
    stage: PreadStage,
    header: Vec<u8>,
    next: PreadStep,
)
    requires
        call_ensures(PreadRequest::advance, (request, stage, Ok::<_, IoError>(header)), next),
        stage != PreadStage::Payload,
        header@.len() == 16,
        eight_bytes(header@, 4) == request.expected_needle_id,
    ensures
        ({
            let size = request.data_size as int;
            let from = request.chunk_offset as int;
            let want = request.want_length as int;
            let taken = if want == 0 {
                size - from
            } else {
                want
            };
            let place = request.data_offset + from;
            if size == 0 {
                next matches PreadStep::Done(Err(e)) && invalid(e, "needle has zero data_size"@)
            } else if four_bytes(header@, 0) != request.expected_cookie {
                next matches PreadStep::Done(
                    Err(PreadError::CookieMismatch { expected, actual }),
                ) && expected == request.expected_cookie && actual == four_bytes(header@, 0)
            } else if from >= size || from + want > size {
                next matches PreadStep::Done(
                    Err(PreadError::RangeInvalid { data_size, requested_offset, requested_length }),
                ) && data_size == size && requested_offset == from && requested_length == want
            } else if taken > 67108864 {
                next matches PreadStep::Done(Err(e)) && invalid(
                    e,
                    "requested read exceeds MAX_PREAD_BYTES"@,
                )
            } else if place <= 18446744073709551615 {
                next matches PreadStep::Read { stage, offset, length } && stage
                    == PreadStage::Payload && offset == place && length == taken
            } else {
                true
            }
        }),
{
    lemma_header(header@);
}

/// A read ends with the bytes that the file gave for the payload, or with its failure.
pub proof fn law_payload_ends_the_read(
    request: &PreadRequest,
    answer: Result<Vec<u8>, IoError>,
    next: PreadStep,
)
    requires
        call_ensures(PreadRequest::advance, (request, PreadStage::Payload, answer), next),
    ensures
        match answer {
            Ok(bytes) => next matches PreadStep::Done(Ok(outcome)) && outcome.data@ == bytes@,
            Err(e) => next matches PreadStep::Done(Err(PreadError::Io(failure))) && failure.kind
                == e.kind && failure.message@ == e.message@,
        },
{
}

/// A read can go on after every answer but a header of another length, and a header that leads to
/// a place that no file has.
pub proof fn law_reads_can_go_on(
    request: &PreadRequest,
    stage: PreadStage,
    answer: &Result<Vec<u8>, IoError>,
    can: bool,
)
    requires
        call_ensures(PreadRequest::is_answerable, (request, stage, answer), can),
    ensures
        can ==> call_requires(PreadRequest::advance, (request, stage, *answer)),
        stage == PreadStage::Payload || *answer is Err ==> can,
        stage != PreadStage::Payload ==> (*answer matches Ok(header) ==> {
            let size = request.data_size as int;
            let from = request.chunk_offset as int;
            let want = request.want_length as int;
            let taken = if want == 0 {
                size - from
            } else {
                want
            };
            &&& header@.len() != 16 ==> !can
            &&& header@.len() == 16 ==> (can <==> !(eight_bytes(header@, 4)
                == request.expected_needle_id && four_bytes(header@, 0) == request.expected_cookie
                && from < size && from + want <= size && taken <= 67108864 && request.data_offset
                + from > 18446744073709551615))
        }),
{
    if let Ok(header) = *answer {
        if header@.len() == 16 {
            lemma_header(header@);
        }
    }
}

/// The bytes of a file that are asked for are given, all of them or none.
pub proof fn law_file_gives_all_or_nothing(
    file: &[u8],
    offset: u64,
    length: usize,
    answer: Result<Vec<u8>, IoError>,
)
    requires
        call_ensures(read_exact_at, (file, offset, length), answer),
    ensures
        offset + length <= file@.len() ==> (answer matches Ok(bytes) && bytes@ == file@.subrange(
            offset as int,
            offset + length,
        )),
        offset + length > file@.len() ==> (answer matches Err(e) && e.kind
            == IoErrorKind::UnexpectedEof),
{
}

/// A buffer is filled from its start on: what it lacks is asked for at the offset that follows what
/// it has, until it lacks nothing.
pub proof fn law_buffer_asks_for_what_it_lacks(
    wanted: usize,
    offset: u64,
    read: ExactRead,
    ask: Option<(usize, u64)>,
)
    requires
        call_ensures(ExactRead::new, (wanted, offset), read),
        call_ensures(ExactRead::missing, (&read,), ask),
    ensures
        read.wanted == wanted && read.filled == 0 && read.offset == offset,
        ask == if wanted > 0 {
            Some((0usize, offset))
        } else {
            None
        },
{
}

/// A buffer may take any number of bytes that it lacks, as far as files reach.
pub proof fn law_buffer_may_take_what_it_lacks(read: &mut ExactRead, n: usize)
    requires
        old(read).filled < old(read).wanted,
        old(read).filled + n <= old(read).wanted,
        old(read).filled <= old(read).offset,
        old(read).offset + n <= 18446744073709551615,
    ensures
        call_requires(ExactRead::took, (read, n)),
{
}

/// Bytes that came in move the buffer on by as many, in the buffer and in the file; none at all is
/// the end of the file.
pub proof fn law_buffer_moves_on(
    read: &mut ExactRead,
    n: usize,
    result: Result<(), IoError>,
    ask: Option<(usize, u64)>,
)
    requires
        call_ensures(ExactRead::took, (read, n), result),
        call_ensures(ExactRead::missing, (&*final(read),), ask),
    ensures
        n > 0 ==> {
            &&& result is Ok
            &&& final(read).wanted == old(read).wanted
            &&& final(read).filled == old(read).filled + n
            &&& final(read).offset == old(read).offset + n
            &&& ask == if final(read).filled < final(read).wanted {
                Some((final(read).filled, final(read).offset))
            } else {
                None
            }
        },
        n == 0 ==> *final(read) == *old(read) && (result matches Err(e) && e.kind
            == IoErrorKind::UnexpectedEof && e.message@ == "unexpected EOF in seek_read"@),
{
}

} // verus!
