//! Reading a needle's payload from its data file, guarded by the cookie in its record.
//!
//! The read is a conversation: [`PreadRequest`] says which bytes of the file it wants next, and is
//! told what the file answered, until it is done.

use vstd::prelude::*;

use crate::rdma::needle_source;
use crate::rdma::needle_source::resolve_read_len;
use crate::storage::io_error;
use crate::storage::io_error::{IoError, IoErrorKind};

verus! {

/// The bytes of a needle header: cookie, needle id and size.
pub const NEEDLE_HEADER_SIZE: usize = 16;

/// The bytes of the data size that newer records put between header and payload.
pub const DATA_SIZE_SIZE: usize = 4;

/// The most bytes that one read hands out.
pub const MAX_PREAD_BYTES: usize = 64 * 1024 * 1024;

/// The number that `bytes` write, the most significant byte first.
pub open spec fn big_endian(bytes: Seq<u8>) -> nat
    decreases bytes.len(),
{
    if bytes.len() == 0 {
        0
    } else {
        big_endian(bytes.drop_last()) * 256 + bytes.last() as nat
    }
}

/// One more than the largest number that `n` bytes write.
pub open spec fn byte_range(n: nat) -> nat
    decreases n,
{
    if n == 0 {
        1
    } else {
        byte_range((n - 1) as nat) * 256
    }
}

proof fn lemma_big_endian_is_bounded(bytes: Seq<u8>)
    ensures
        big_endian(bytes) < byte_range(bytes.len()),
    decreases bytes.len(),
{
    if bytes.len() > 0 {
        lemma_big_endian_is_bounded(bytes.drop_last());
    }
}

/// The number that `bytes[from..to]` writes, the most significant byte first.
fn read_big_endian(bytes: &[u8], from: usize, to: usize) -> (value: u64)
    requires
        from <= to <= bytes@.len(),
        to - from <= 8,
    ensures
        value == big_endian(bytes@.subrange(from as int, to as int)),
        value < byte_range((to - from) as nat),
{
    let mut value: u64 = 0;
    let mut i: usize = from;
    assert(bytes@.subrange(from as int, from as int) =~= Seq::<u8>::empty());
    while i < to
        invariant
            from <= i <= to <= bytes@.len(),
            to - from <= 8,
            value == big_endian(bytes@.subrange(from as int, i as int)),
        decreases to - i,
    {
        proof {
            let longer = bytes@.subrange(from as int, i + 1);
            assert(longer.drop_last() =~= bytes@.subrange(from as int, i as int));
            assert(longer.last() == bytes@[i as int]);
            lemma_big_endian_is_bounded(longer);
            reveal_with_fuel(byte_range, 9);
        }
        value = value * 256 + bytes[i] as u64;
        i = i + 1;
    }
    proof {
        lemma_big_endian_is_bounded(bytes@.subrange(from as int, to as int));
    }
    value
}

/// The bytes that a read got.
#[derive(Debug)]
pub struct PreadOutcome {
    pub data: Vec<u8>,
}

/// Why a read got none.
#[derive(Debug)]
pub enum PreadError {
    /// The file could not be read, or holds no such needle.
    Io(IoError),
    /// The needle bears another cookie than the one asked with.
    CookieMismatch { expected: u32, actual: u32 },
    /// The range asked for does not lie in the payload.
    RangeInvalid { data_size: u64, requested_offset: u64, requested_length: u64 },
}

/// A [`PreadError`] as a mathematical value.
pub enum PreadFault {
    Io(io_error::IoFault),
    CookieMismatch { expected: u32, actual: u32 },
    RangeInvalid { data_size: u64, requested_offset: u64, requested_length: u64 },
}

impl View for PreadError {
    type V = PreadFault;

    open spec fn view(&self) -> PreadFault {
        match *self {
            PreadError::Io(e) => PreadFault::Io(e@),
            PreadError::CookieMismatch { expected, actual } => PreadFault::CookieMismatch {
                expected,
                actual,
            },
            PreadError::RangeInvalid { data_size, requested_offset, requested_length } =>
                PreadFault::RangeInvalid { data_size, requested_offset, requested_length },
        }
    }
}

/// What a stretch of the file is read for.
#[derive(Clone, Copy, Debug, PartialEq, Eq, Structural)]
pub enum PreadStage {
    /// A header, with a data size between it and the payload.
    SizedHeader,
    /// A header right before the payload.
    BareHeader,
    /// The payload.
    Payload,
}

/// What a read does next.
#[derive(Debug)]
pub enum PreadStep {
    /// Read exactly `length` bytes at `offset` of the file, and go on with the answer.
    Read { stage: PreadStage, offset: u64, length: usize },
    /// Nothing more: this came out.
    Done(Result<PreadOutcome, PreadError>),
}

/// A [`PreadStep`] as a mathematical value.
pub enum PreadMove {
    Read { stage: PreadStage, offset: u64, length: usize },
    Served(Seq<u8>),
    Failed(PreadFault),
}

impl View for PreadStep {
    type V = PreadMove;

    open spec fn view(&self) -> PreadMove {
        match *self {
            PreadStep::Read { stage, offset, length } => PreadMove::Read { stage, offset, length },
            PreadStep::Done(Ok(outcome)) => PreadMove::Served(outcome.data@),
            PreadStep::Done(Err(e)) => PreadMove::Failed(e@),
        }
    }
}

/// `answer` as a mathematical value.
pub open spec fn answer_view(answer: Result<Vec<u8>, IoError>) -> Result<
    Seq<u8>,
    io_error::IoFault,
> {
    match answer {
        Ok(bytes) => Ok(bytes@),
        Err(e) => Err(e@),
    }
}

/// The cookie in a needle header.
pub open spec fn header_cookie(header: Seq<u8>) -> u32 {
    big_endian(header.subrange(0, 4)) as u32
}

/// The needle id in a needle header.
pub open spec fn header_needle_id(header: Seq<u8>) -> u64 {
    big_endian(header.subrange(4, 12)) as u64
}

/// A failure that the read itself finds in the data.
pub open spec fn invalid_data(message: Seq<char>) -> PreadMove {
    PreadMove::Failed(
        PreadFault::Io(io_error::IoFault { kind: IoErrorKind::InvalidData, message }),
    )
}

fn fail_invalid_data(message: &str) -> (step: PreadStep)
    ensures
        step@ == invalid_data(message@),
{
    PreadStep::Done(Err(PreadError::Io(IoError::new(IoErrorKind::InvalidData, message))))
}

/// A read of part of a needle's payload: `want_length` bytes at `chunk_offset`, or all from there
/// where `want_length` is zero. The payload is `data_size` bytes at `data_offset` of the file, and
/// the record before it must bear the id and the cookie given here.
#[derive(Clone, Copy, Debug, PartialEq, Eq, Structural)]
pub struct PreadRequest {
    pub data_offset: u64,
    pub data_size: u64,
    pub chunk_offset: u64,
    pub want_length: u64,
    pub expected_needle_id: u64,
    pub expected_cookie: u32,
}

impl PreadRequest {
    /// What is done to find the header before the payload, from `stage` on.
    pub open spec fn seek_header(self, stage: PreadStage) -> PreadMove {
        if stage == PreadStage::SizedHeader && self.data_offset >= NEEDLE_HEADER_SIZE
            + DATA_SIZE_SIZE {
            PreadMove::Read {
                stage: PreadStage::SizedHeader,
                offset: (self.data_offset - NEEDLE_HEADER_SIZE - DATA_SIZE_SIZE) as u64,
                length: NEEDLE_HEADER_SIZE,
            }
        } else if stage != PreadStage::Payload && self.data_offset >= NEEDLE_HEADER_SIZE {
            PreadMove::Read {
                stage: PreadStage::BareHeader,
                offset: (self.data_offset - NEEDLE_HEADER_SIZE) as u64,
                length: NEEDLE_HEADER_SIZE,
            }
        } else {
            invalid_data("could not find matching needle header before payload"@)
        }
    }

    /// How many bytes the range takes, or why it may not be read.
    pub open spec fn range_length(self) -> Result<u64, PreadFault> {
        match needle_source::read_len(self.data_size, self.chunk_offset, self.want_length) {
            Ok(length) => Ok(length),
            Err(_) => Err(
                PreadFault::RangeInvalid {
                    data_size: self.data_size,
                    requested_offset: self.chunk_offset,
                    requested_length: self.want_length,
                },
            ),
        }
    }

    /// What is done once the needle is known to bear the cookie `on_disk`. An empty needle is
    /// refused first, then another cookie, then a bad range, then a range that is too long.
    pub open spec fn check(self, on_disk: u32) -> PreadMove {
        if self.data_size == 0 {
            invalid_data("needle has zero data_size"@)
        } else if on_disk != self.expected_cookie {
            PreadMove::Failed(
                PreadFault::CookieMismatch { expected: self.expected_cookie, actual: on_disk },
            )
        } else {
            match self.range_length() {
                Err(fault) => PreadMove::Failed(fault),
                Ok(length) => if length > MAX_PREAD_BYTES {
                    invalid_data("requested read exceeds MAX_PREAD_BYTES"@)
                } else {
                    PreadMove::Read {
                        stage: PreadStage::Payload,
                        offset: (self.data_offset + self.chunk_offset) as u64,
                        length: length as usize,
                    }
                },
            }
        }
    }

    /// A range that may be read starts at an offset that files can have.
    pub open spec fn addressable(self) -> bool {
        self.range_length() matches Ok(length) && length <= MAX_PREAD_BYTES ==> self.data_offset
            + self.chunk_offset <= u64::MAX
    }

    /// Tells whether a range that may be read starts at an offset that files can have.
    fn is_addressable(&self) -> (addressable: bool)
        ensures
            addressable == self.addressable(),
    {
        match resolve_read_len(self.data_size, self.chunk_offset, self.want_length) {
            Err(_) => true,
            Ok(length) => length > MAX_PREAD_BYTES as u64 || self.data_offset.checked_add(
                self.chunk_offset,
            ).is_some(),
        }
    }

    /// What is done when the bytes for `stage` were asked for and `answer` came back. A header
    /// that cannot be read, or bears another id, is passed over.
    pub open spec fn respond(
        self,
        stage: PreadStage,
        answer: Result<Seq<u8>, io_error::IoFault>,
    ) -> PreadMove {
        match (stage, answer) {
            (PreadStage::Payload, Ok(bytes)) => PreadMove::Served(bytes),
            (PreadStage::Payload, Err(e)) => PreadMove::Failed(PreadFault::Io(e)),
            (_, Ok(header)) => if header_needle_id(header) == self.expected_needle_id {
                self.check(header_cookie(header))
            } else {
                self.seek_on(stage)
            },
            (_, Err(_)) => self.seek_on(stage),
        }
    }

    /// What is done when the header of `stage` was passed over.
    pub open spec fn seek_on(self, stage: PreadStage) -> PreadMove {
        if stage == PreadStage::SizedHeader {
            self.seek_header(PreadStage::BareHeader)
        } else {
            invalid_data("could not find matching needle header before payload"@)
        }
    }

    fn seek_header_from(&self, sized: bool) -> (step: PreadStep)
        ensures
            step@ == self.seek_header(
                if sized {
                    PreadStage::SizedHeader
                } else {
                    PreadStage::BareHeader
                },
            ),
    {
        let header: u64 = NEEDLE_HEADER_SIZE as u64;
        let both: u64 = NEEDLE_HEADER_SIZE as u64 + DATA_SIZE_SIZE as u64;
        if sized && self.data_offset >= both {
            return PreadStep::Read {
                stage: PreadStage::SizedHeader,
                offset: self.data_offset - both,
                length: NEEDLE_HEADER_SIZE,
            };
        }
        if self.data_offset >= header {
            return PreadStep::Read {
                stage: PreadStage::BareHeader,
                offset: self.data_offset - header,
                length: NEEDLE_HEADER_SIZE,
            };
        }
        fail_invalid_data("could not find matching needle header before payload")
    }

    fn check_cookie_and_range(&self, on_disk: u32) -> (step: PreadStep)
        requires
            on_disk == self.expected_cookie ==> self.addressable(),
        ensures
            step@ == self.check(on_disk),
    {
        if self.data_size == 0 {
            return fail_invalid_data("needle has zero data_size");
        }
        if on_disk != self.expected_cookie {
            return PreadStep::Done(
                Err(
                    PreadError::CookieMismatch {
                        expected: self.expected_cookie,
                        actual: on_disk,
                    },
                ),
            );
        }
        let in_range: bool = if self.want_length == 0 {
            self.chunk_offset < self.data_size
        } else {
            match self.chunk_offset.checked_add(self.want_length) {
                Some(end) => end <= self.data_size,
                None => false,
            }
        };
        if !in_range {
            return PreadStep::Done(
                Err(
                    PreadError::RangeInvalid {
                        data_size: self.data_size,
                        requested_offset: self.chunk_offset,
                        requested_length: self.want_length,
                    },
                ),
            );
        }
        let available: u64 = self.data_size - self.chunk_offset;
        let length: u64 = if self.want_length == 0 {
            available
        } else {
            self.want_length
        };
        if length > MAX_PREAD_BYTES as u64 {
            return fail_invalid_data("requested read exceeds MAX_PREAD_BYTES");
        }
        PreadStep::Read {
            stage: PreadStage::Payload,
            offset: self.data_offset + self.chunk_offset,
            length: length as usize,
        }
    }

    /// What the read does once the file was opened, or was found not to open.
    pub open spec fn begin(self, opened: Result<(), io_error::IoFault>) -> PreadMove {
        match opened {
            Err(e) => PreadMove::Failed(PreadFault::Io(e)),
            Ok(()) => self.seek_header(PreadStage::SizedHeader),
        }
    }

    /// Starts the read, once the file was opened or was found not to open.
    pub fn start(&self, opened: Result<(), IoError>) -> (step: PreadStep)
        ensures
            step@ == self.begin(
                match opened {
                    Ok(()) => Ok(()),
                    Err(e) => Err(e@),
                },
            ),
    {
        match opened {
            Err(e) => PreadStep::Done(Err(PreadError::Io(e))),
            Ok(()) => self.seek_header_from(true),
        }
    }

    /// A read can go on after `answer`: a header has its whole length and, where it leads to the
    /// payload, files can have the offset at which the range starts.
    pub open spec fn answerable(
        self,
        stage: PreadStage,
        answer: Result<Seq<u8>, io_error::IoFault>,
    ) -> bool {
        stage != PreadStage::Payload ==> (answer matches Ok(header) ==> {
            &&& header.len() == NEEDLE_HEADER_SIZE
            &&& header_needle_id(header) == self.expected_needle_id && header_cookie(header)
                == self.expected_cookie ==> self.addressable()
        })
    }

    /// Tells whether the read can go on after `answer`.
    pub fn is_answerable(&self, stage: PreadStage, answer: &Result<Vec<u8>, IoError>) -> (answerable:
        bool)
        ensures
            answerable == self.answerable(stage, answer_view(*answer)),
    {
        match (stage, answer) {
            (PreadStage::Payload, _) => true,
            (_, Err(_)) => true,
            (_, Ok(header)) => {
                if header.len() != NEEDLE_HEADER_SIZE {
                    return false;
                }
                proof {
                    reveal_with_fuel(byte_range, 9);
                }
                let bytes: &[u8] = header.as_slice();
                read_big_endian(bytes, 4, 12) != self.expected_needle_id || read_big_endian(
                    bytes,
                    0,
                    4,
                ) != self.expected_cookie as u64 || self.is_addressable()
            },
        }
    }

    /// Goes on with the read, once the bytes for `stage` were asked for and `answer` came back.
    pub fn advance(&self, stage: PreadStage, answer: Result<Vec<u8>, IoError>) -> (step: PreadStep)
        requires
            self.answerable(stage, answer_view(answer)),
        ensures
            step@ == self.respond(stage, answer_view(answer)),
    {
        match stage {
            PreadStage::Payload => PreadStep::Done(
                match answer {
                    Ok(data) => Ok(PreadOutcome { data }),
                    Err(e) => Err(PreadError::Io(e)),
                },
            ),
            PreadStage::SizedHeader | PreadStage::BareHeader => {
                match answer {
                    Ok(header) => {
                        proof {
                            reveal_with_fuel(byte_range, 9);
                        }
                        let bytes: &[u8] = header.as_slice();
                        let needle_id: u64 = read_big_endian(bytes, 4, 12);
                        if needle_id == self.expected_needle_id {
                            let cookie: u64 = read_big_endian(bytes, 0, 4);
                            return self.check_cookie_and_range(cookie as u32);
                        }
                    },
                    Err(_) => {},
                }
                if stage == PreadStage::SizedHeader {
                    self.seek_header_from(false)
                } else {
                    fail_invalid_data("could not find matching needle header before payload")
                }
            },
        }
    }
}

/// What a file of these bytes answers when `length` bytes at `offset` are asked for.
pub open spec fn file_answer(file: Seq<u8>, offset: u64, length: usize) -> Result<
    Seq<u8>,
    io_error::IoFault,
> {
    if offset + length <= file.len() {
        Ok(file.subrange(offset as int, offset + length))
    } else {
        Err(
            io_error::IoFault {
                kind: IoErrorKind::UnexpectedEof,
                message: "file ends before the last byte asked for"@,
            },
        )
    }
}

/// Reads exactly `length` bytes at `offset` of a file whose bytes are at hand.
pub fn read_exact_at(file: &[u8], offset: u64, length: usize) -> (answer: Result<Vec<u8>, IoError>)
    ensures
        answer_view(answer) == file_answer(file@, offset, length),
{
    let len: usize = file.len();
    if offset <= len as u64 && length <= len - offset as usize {
        let from: usize = offset as usize;
        let bytes: &[u8] = vstd::slice::slice_subrange(file, from, from + length);
        Ok(vstd::slice::slice_to_vec(bytes))
    } else {
        Err(
            IoError::new(
                IoErrorKind::UnexpectedEof,
                "file ends before the last byte asked for",
            ),
        )
    }
}

/// How many more answers a read can need.
pub open spec fn moves_left(next: PreadMove) -> nat {
    match next {
        PreadMove::Read { stage: PreadStage::SizedHeader, .. } => 3,
        PreadMove::Read { stage: PreadStage::BareHeader, .. } => 2,
        PreadMove::Read { stage: PreadStage::Payload, .. } => 1,
        _ => 0,
    }
}

impl PreadRequest {
    /// What comes out when the file of these bytes answers every question from `next` on.
    pub open spec fn run(self, file: Seq<u8>, next: PreadMove) -> Result<Seq<u8>, PreadFault>
        decreases moves_left(next),
    {
        match next {
            PreadMove::Read { stage, offset, length } => self.run(
                file,
                self.respond(stage, file_answer(file, offset, length)),
            ),
            PreadMove::Served(bytes) => Ok(bytes),
            PreadMove::Failed(fault) => Err(fault),
        }
    }

    /// The header that `stage` looks at, if the file reaches that far and it bears the id.
    pub open spec fn header_at(self, file: Seq<u8>, distance: int) -> Option<Seq<u8>> {
        let at = self.data_offset - distance;
        if at >= 0 && at + NEEDLE_HEADER_SIZE <= file.len() && header_needle_id(
            file.subrange(at, at + NEEDLE_HEADER_SIZE),
        ) == self.expected_needle_id {
            Some(file.subrange(at, at + NEEDLE_HEADER_SIZE))
        } else {
            None
        }
    }

    /// The cookie in the record before the payload: that of a header with a data size after it
    /// or, where none bears the id, of a header right before the payload.
    pub open spec fn cookie_in(self, file: Seq<u8>) -> Option<u32> {
        match self.header_at(file, NEEDLE_HEADER_SIZE + DATA_SIZE_SIZE) {
            Some(header) => Some(header_cookie(header)),
            None => match self.header_at(file, NEEDLE_HEADER_SIZE as int) {
                Some(header) => Some(header_cookie(header)),
                None => None,
            },
        }
    }

    /// What the read gives from a file of these bytes.
    pub open spec fn served(self, file: Seq<u8>) -> Result<Seq<u8>, PreadFault> {
        match self.cookie_in(file) {
            None => Err(
                PreadFault::Io(
                    io_error::IoFault {
                        kind: IoErrorKind::InvalidData,
                        message: "could not find matching needle header before payload"@,
                    },
                ),
            ),
            Some(on_disk) => match self.check(on_disk) {
                PreadMove::Failed(fault) => Err(fault),
                PreadMove::Served(bytes) => Ok(bytes),
                PreadMove::Read { offset, length, .. } => match file_answer(file, offset, length) {
                    Ok(bytes) => Ok(bytes),
                    Err(e) => Err(PreadFault::Io(e)),
                },
            },
        }
    }

    /// The conversation comes to what the read is to give.
    pub proof fn law_conversation_serves(self, file: Seq<u8>)
        ensures
            self.run(file, self.begin(Ok(()))) == self.served(file),
    {
        reveal_with_fuel(PreadRequest::run, 4);
    }
}

impl PreadRequest {
    /// A read with the right cookie and a range that lies in the payload gives exactly the bytes
    /// of that range: as many as were asked for, or all that are left where none were.
    pub proof fn law_serves_the_payload(self, file: Seq<u8>, length: u64)
        requires
            self.data_size > 0,
            self.data_offset + self.data_size <= file.len(),
            file.len() <= u64::MAX,
            self.cookie_in(file) == Some(self.expected_cookie),
            needle_source::read_len(self.data_size, self.chunk_offset, self.want_length) == Ok::<
                _,
                crate::rdma::read_error::ReadFault,
            >(length),
            length <= MAX_PREAD_BYTES,
        ensures
            self.addressable(),
            self.served(file) == Ok::<_, PreadFault>(
                file.subrange(
                    self.data_offset as int,
                    self.data_offset + self.data_size,
                ).subrange(self.chunk_offset as int, self.chunk_offset + length),
            ),
    {
        assert(file.subrange(
            self.data_offset as int,
            self.data_offset + self.data_size,
        ).subrange(self.chunk_offset as int, self.chunk_offset + length) =~= file.subrange(
            self.data_offset + self.chunk_offset,
            self.data_offset + self.chunk_offset + length,
        ));
    }

    /// The cookie is checked before the range: another cookie is reported as such, whatever part
    /// of the payload is asked for.
    pub proof fn law_cookie_is_checked_before_range(self, file: Seq<u8>, on_disk: u32)
        requires
            self.data_size > 0,
            self.cookie_in(file) == Some(on_disk),
            on_disk != self.expected_cookie,
        ensures
            self.served(file) == Err::<Seq<u8>, _>(
                PreadFault::CookieMismatch { expected: self.expected_cookie, actual: on_disk },
            ),
    {
    }

    /// With the right cookie, a range that does not lie in the payload is reported as such, be it
    /// too long, beyond the end, or empty at the end.
    pub proof fn law_bad_range_is_refused(self, file: Seq<u8>)
        requires
            self.data_size > 0,
            self.cookie_in(file) == Some(self.expected_cookie),
            self.chunk_offset >= self.data_size || self.chunk_offset + self.want_length
                > self.data_size,
        ensures
            self.served(file) == Err::<Seq<u8>, _>(
                PreadFault::RangeInvalid {
                    data_size: self.data_size,
                    requested_offset: self.chunk_offset,
                    requested_length: self.want_length,
                },
            ),
    {
    }

    /// A read never gives an empty answer, nor more than it may hand out at once, nor bytes of a
    /// needle that bears another cookie.
    pub proof fn law_served_bytes_are_bounded(self, file: Seq<u8>)
        ensures
            self.served(file) matches Ok(bytes) ==> {
                &&& 0 < bytes.len() <= MAX_PREAD_BYTES
                &&& self.want_length > 0 ==> bytes.len() == self.want_length
                &&& self.cookie_in(file) == Some(self.expected_cookie)
            },
    {
    }

    /// Asking for no bytes asks for all that are left.
    pub proof fn law_zero_length_asks_for_the_rest(self, file: Seq<u8>)
        requires
            self.want_length == 0,
            self.chunk_offset < self.data_size,
        ensures
            self.served(file) == (PreadRequest {
                want_length: (self.data_size - self.chunk_offset) as u64,
                ..self
            }).served(file),
    {
        let explicit = PreadRequest {
            want_length: (self.data_size - self.chunk_offset) as u64,
            ..self
        };
        assert(explicit.cookie_in(file) == self.cookie_in(file));
    }
}

/// `result` is how a read reports that `served` came out.
pub open spec fn pread_gives(
    result: Result<PreadOutcome, PreadError>,
    served: Result<Seq<u8>, PreadFault>,
) -> bool {
    match result {
        Ok(outcome) => served == Ok::<_, PreadFault>(outcome.data@),
        Err(e) => served == Err::<Seq<u8>, _>(e@),
    }
}

/// Reads part of a needle's payload from a file whose bytes are at hand.
pub fn pread_data_with_cookie(file: &[u8], request: &PreadRequest) -> (result: Result<
    PreadOutcome,
    PreadError,
>)
    requires
        request.cookie_in(file@) == Some(request.expected_cookie) ==> request.addressable(),
    ensures
        pread_gives(result, request.served(file@)),
{
    let mut step: PreadStep = request.start(Ok(()));
    proof {
        request.law_conversation_serves(file@);
    }
    loop
        invariant
            request.cookie_in(file@) == Some(request.expected_cookie) ==> request.addressable(),
            request.run(file@, step@) == request.served(file@),
            step matches PreadStep::Read { stage, .. } ==> match stage {
                PreadStage::SizedHeader => step@ == request.seek_header(stage),
                PreadStage::BareHeader => {
                    &&& step@ == request.seek_header(stage)
                    &&& request.header_at(file@, NEEDLE_HEADER_SIZE + DATA_SIZE_SIZE) is None
                },
                PreadStage::Payload => true,
            },
        decreases moves_left(step@),
    {
        match step {
            PreadStep::Done(result) => {
                return result;
            },
            PreadStep::Read { stage, offset, length } => {
                let answer: Result<Vec<u8>, IoError> = read_exact_at(file, offset, length);
                step = request.advance(stage, answer);
            },
        }
    }
}

} // verus!
