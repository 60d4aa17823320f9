//! Why a needle cannot be opened or read.

use vstd::prelude::*;
use vstd::string::StringExecFns;

use crate::storage::io_error;
use crate::storage::io_error::IoError;
use crate::storage::volume::VolumeError;
use crate::text;
use crate::text::decimal;

verus! {

/// Why a read failed.
#[derive(Debug)]
pub enum RdmaReadError {
    /// The volume or the needle is not there.
    NotFound,
    /// The volume cannot be read this way; in words, why.
    Unsupported(String),
    /// The needle bears another cookie than the reader expects.
    CookieMismatch { expected: u32, actual: u32 },
    /// The range asked for does not lie in the payload.
    RangeInvalid { len: u64, offset: u64, requested: u64 },
    /// Input failed.
    Io(IoError),
    /// Anything else, in words.
    Other(String),
}

/// An [`RdmaReadError`] as a mathematical value.
pub enum ReadFault {
    NotFound,
    Unsupported(Seq<char>),
    CookieMismatch { expected: u32, actual: u32 },
    RangeInvalid { len: u64, offset: u64, requested: u64 },
    Io(io_error::IoFault),
    Other(Seq<char>),
}

impl View for RdmaReadError {
    type V = ReadFault;

    open spec fn view(&self) -> ReadFault {
        match *self {
            RdmaReadError::NotFound => ReadFault::NotFound,
            RdmaReadError::Unsupported(message) => ReadFault::Unsupported(message@),
            RdmaReadError::CookieMismatch { expected, actual } => ReadFault::CookieMismatch {
                expected,
                actual,
            },
            RdmaReadError::RangeInvalid { len, offset, requested } => ReadFault::RangeInvalid {
                len,
                offset,
                requested,
            },
            RdmaReadError::Io(e) => ReadFault::Io(e@),
            RdmaReadError::Other(message) => ReadFault::Other(message@),
        }
    }
}

/// Why a needle could not be opened.
#[derive(Debug)]
pub enum RdmaOpenError {
    /// The fid names nothing that is there.
    NotFound,
    /// The volume cannot be read this way; in words, why.
    Unsupported(String),
    /// Anything else, in words.
    Other(String),
}

/// Why a needle could not be opened, as a mathematical value.
pub enum OpenFault {
    NotFound,
    Unsupported(Seq<char>),
    Other(Seq<char>),
    /// Anything else, in the words that the substrate has for this read error.
    Worded(ReadFault),
}

impl View for RdmaOpenError {
    type V = OpenFault;

    open spec fn view(&self) -> OpenFault {
        match *self {
            RdmaOpenError::NotFound => OpenFault::NotFound,
            RdmaOpenError::Unsupported(message) => OpenFault::Unsupported(message@),
            RdmaOpenError::Other(message) => OpenFault::Other(message@),
        }
    }
}

/// `result` is `expected`, its error taken by its view.
pub open spec fn read_gives<T>(
    result: Result<T, RdmaReadError>,
    expected: Result<T, ReadFault>,
) -> bool {
    match result {
        Ok(value) => expected == Ok::<T, ReadFault>(value),
        Err(e) => expected == Err::<T, ReadFault>(e@),
    }
}

/// `message` is how `words` puts a read error that comes to `fault`.
pub open spec fn puts_in_words<F: FnOnce(RdmaReadError) -> String>(
    words: F,
    fault: ReadFault,
    message: String,
) -> bool {
    exists|e: RdmaReadError| #![trigger e@] e@ == fault && call_ensures(words, (e,), message)
}

/// `error` reports `fault`, where `words` puts read errors in words.
pub open spec fn open_reports<F: FnOnce(RdmaReadError) -> String>(
    error: RdmaOpenError,
    fault: OpenFault,
    words: F,
) -> bool {
    if fault is Worded {
        &&& error is Other
        &&& puts_in_words(words, fault->Worded_0, error->Other_0)
    } else {
        error@ == fault
    }
}

/// `result` is `expected`, its error reported with `words` for read errors.
pub open spec fn open_gives<T, F: FnOnce(RdmaReadError) -> String>(
    result: Result<T, RdmaOpenError>,
    expected: Result<T, OpenFault>,
    words: F,
) -> bool {
    match result {
        Ok(value) => expected == Ok::<T, OpenFault>(value),
        Err(e) => expected matches Err(fault) && open_reports(e, fault, words),
    }
}

/// The read error that stands for a volume error. A deleted needle counts as missing, and a
/// cookie mismatch that the store itself reports expected no cookie.
pub open spec fn volume_fault(err: VolumeError) -> ReadFault {
    match err {
        VolumeError::NotFound => ReadFault::NotFound,
        VolumeError::Deleted => ReadFault::NotFound,
        VolumeError::UnsupportedVersion(version) => ReadFault::Unsupported(
            "unsupported volume version "@ + text::decimal_text(version as nat),
        ),
        VolumeError::StreamingUnsupported => ReadFault::Unsupported(
            "volume cannot provide a streaming source"@,
        ),
        VolumeError::CookieMismatch(actual) => ReadFault::CookieMismatch { expected: 0, actual },
        VolumeError::Io(e) => ReadFault::Io(e@),
        VolumeError::Other(message) => ReadFault::Other(message@),
    }
}

/// Turns a volume error into a read error.
pub fn read_error_from_volume(err: VolumeError) -> (error: RdmaReadError)
    ensures
        error@ == volume_fault(err),
{
    match err {
        VolumeError::NotFound => RdmaReadError::NotFound,
        VolumeError::Deleted => RdmaReadError::NotFound,
        VolumeError::UnsupportedVersion(version) => {
            let mut message: String = "unsupported volume version ".to_owned();
            message.append(decimal(version as u64).as_str());
            RdmaReadError::Unsupported(message)
        },
        VolumeError::StreamingUnsupported => RdmaReadError::Unsupported(
            "volume cannot provide a streaming source".to_owned(),
        ),
        VolumeError::CookieMismatch(actual) => RdmaReadError::CookieMismatch {
            expected: 0,
            actual,
        },
        VolumeError::Io(e) => RdmaReadError::Io(e),
        VolumeError::Other(message) => RdmaReadError::Other(message),
    }
}

/// The open error that stands for a read error.
pub open spec fn open_fault(fault: ReadFault) -> OpenFault {
    match fault {
        ReadFault::NotFound => OpenFault::NotFound,
        ReadFault::Unsupported(message) => OpenFault::Unsupported(message),
        ReadFault::Io(e) => OpenFault::Other(e.message),
        _ => OpenFault::Worded(fault),
    }
}

/// Turns a read error into an open error. What has no kind of its own there is put in words by
/// `words`, and input errors speak for themselves.
pub fn read_to_open_error<F: FnOnce(RdmaReadError) -> String>(err: RdmaReadError, words: F) -> (error:
    RdmaOpenError)
    requires
        forall|e: RdmaReadError| call_requires(words, (e,)),
    ensures
        open_reports(error, open_fault(err@), words),
{
    match err {
        RdmaReadError::NotFound => RdmaOpenError::NotFound,
        RdmaReadError::Unsupported(message) => RdmaOpenError::Unsupported(message),
        RdmaReadError::Io(e) => RdmaOpenError::Other(e.message),
        other => {
            let ghost told = other;
            let message: String = words(other);
            assert(puts_in_words(words, told@, message));
            RdmaOpenError::Other(message)
        },
    }
}

} // verus!
