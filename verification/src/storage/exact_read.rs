//! Filling a buffer from a file that hands out fewer bytes at a time than were asked for.

use vstd::prelude::*;

use crate::storage::io_error;
use crate::storage::io_error::{IoError, IoErrorKind};

verus! {

/// How far a buffer of `wanted` bytes has been filled, and where in the file its next byte lies.
#[derive(Clone, Copy, Debug, PartialEq, Eq, Structural)]
pub struct ExactRead {
    pub wanted: usize,
    pub filled: usize,
    pub offset: u64,
}

impl ExactRead {
    /// No more was filled than was wanted, and what was filled came before `offset`.
    pub open spec fn valid(self) -> bool {
        self.filled <= self.wanted && self.filled <= self.offset
    }

    /// Where in the file the first byte of the buffer lies.
    pub open spec fn start(self) -> int {
        self.offset - self.filled
    }

    /// A buffer of `wanted` bytes, to be filled from `offset`.
    pub fn new(wanted: usize, offset: u64) -> (read: Self)
        ensures
            read.valid(),
            read == (ExactRead { wanted, filled: 0, offset }),
    {
        ExactRead { wanted, filled: 0, offset }
    }

    /// What to ask the file for next: bytes at an offset, for the buffer from an index on. Nothing
    /// once the buffer is full.
    pub fn missing(&self) -> (ask: Option<(usize, u64)>)
        ensures
            ask == if self.filled < self.wanted {
                Some((self.filled, self.offset))
            } else {
                None
            },
    {
        if self.filled < self.wanted {
            Some((self.filled, self.offset))
        } else {
            None
        }
    }

    /// Takes note that the file gave `n` of the bytes it was asked for; giving none means that it
    /// has ended.
    pub fn took(&mut self, n: usize) -> (result: Result<(), IoError>)
        requires
            old(self).valid(),
            old(self).filled < old(self).wanted,
            n <= old(self).wanted - old(self).filled,
            old(self).offset + n <= u64::MAX,
        ensures
            final(self).valid(),
            match result {
                Ok(()) => {
                    &&& n > 0
                    &&& final(self).wanted == old(self).wanted
                    &&& final(self).filled == old(self).filled + n
                    &&& final(self).start() == old(self).start()
                },
                Err(e) => {
                    &&& n == 0
                    &&& *final(self) == *old(self)
                    &&& e@ == io_error::IoFault {
                        kind: IoErrorKind::UnexpectedEof,
                        message: "unexpected EOF in seek_read"@,
                    }
                },
            },
    {
        if n == 0 {
            return Err(IoError::new(IoErrorKind::UnexpectedEof, "unexpected EOF in seek_read"));
        }
        self.filled = self.filled + n;
        self.offset = self.offset + n as u64;
        Ok(())
    }
}

} // verus!
