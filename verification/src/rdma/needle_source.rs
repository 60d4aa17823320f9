//! From the volume server's store to reads of a needle's payload.
//!
//! Every operation takes one look at the store and decides where the bytes lie; whoever holds the
//! data files then reads them there, under the same guard.

use vstd::prelude::*;
use vstd::string::StringExecFns;

use crate::rdma::parse_fid;
use crate::rdma::read_error;
use crate::rdma::read_error::{
    read_error_from_volume, read_to_open_error, RdmaOpenError, RdmaReadError,
};
use crate::storage::file_id::{NeedleId, VolumeId};
use crate::storage::io_error::IoError;
use crate::storage::volume;
use crate::storage::volume::{NeedleStreamSource, Store, StreamedNeedle, VERSION_1};
use crate::text;
use crate::text::decimal;

verus! {

/// How many bytes a read of `requested` bytes at `offset` takes from a payload of `len` bytes.
/// Asking for no bytes asks for all that are left; a range that does not start inside the payload
/// or does not end within it is refused.
pub open spec fn read_len(len: u64, offset: u64, requested: u64) -> Result<
    u64,
    read_error::ReadFault,
> {
    if offset < len && offset + requested <= len {
        Ok(
            if requested == 0 {
                (len - offset) as u64
            } else {
                requested
            },
        )
    } else {
        Err(read_error::ReadFault::RangeInvalid { len, offset, requested })
    }
}

/// How many bytes a read of `requested` bytes at `offset` takes from a payload of `len` bytes.
pub fn resolve_read_len(len: u64, offset: u64, requested: u64) -> (result: Result<
    u64,
    RdmaReadError,
>)
    ensures
        read_error::read_gives(result, read_len(len, offset, requested)),
{
    if len == 0 || offset >= len {
        return Err(RdmaReadError::RangeInvalid { len, offset, requested });
    }
    if requested == 0 {
        return Ok(len - offset);
    }
    match offset.checked_add(requested) {
        Some(end) => if end <= len {
            Ok(requested)
        } else {
            Err(RdmaReadError::RangeInvalid { len, offset, requested })
        },
        None => Err(RdmaReadError::RangeInvalid { len, offset, requested }),
    }
}

/// That a range may be read, or why not.
pub open spec fn range_check(len: u64, offset: u64, requested: u64) -> Result<
    (),
    read_error::ReadFault,
> {
    match read_len(len, offset, requested) {
        Ok(_) => Ok(()),
        Err(fault) => Err(fault),
    }
}

/// Checks that a range may be read.
pub fn validate_range(len: u64, offset: u64, requested: u64) -> (result: Result<(), RdmaReadError>)
    ensures
        read_error::read_gives(result, range_check(len, offset, requested)),
{
    match resolve_read_len(len, offset, requested) {
        Ok(_) => Ok(()),
        Err(e) => Err(e),
    }
}

/// One attempt to take the store's read lock.
#[derive(Debug)]
pub enum StoreAccess {
    /// The lock was taken; what the store says under it.
    Readable(Store),
    /// A writer died holding the lock.
    Poisoned,
}

impl StoreAccess {
    /// The store, if it can be read.
    pub open spec fn store(self) -> Option<Store> {
        match self {
            StoreAccess::Readable(store) => Some(store),
            StoreAccess::Poisoned => None,
        }
    }

    /// The store, or nothing where the lock is poisoned.
    pub fn with_read_option(&self) -> (store: Option<&Store>)
        ensures
            match store {
                Some(store) => self.store() == Some(*store),
                None => self.store() is None,
            },
    {
        match self {
            StoreAccess::Readable(store) => Some(store),
            StoreAccess::Poisoned => None,
        }
    }

    /// The store, for opening a needle.
    pub fn with_read_open(&self) -> (store: Result<&Store, RdmaOpenError>)
        ensures
            match store {
                Ok(store) => self.store() == Some(*store),
                Err(e) => self.store() is None && e@ == read_error::OpenFault::Other(
                    "store read lock poisoned"@,
                ),
            },
    {
        match self {
            StoreAccess::Readable(store) => Ok(store),
            StoreAccess::Poisoned => Err(
                RdmaOpenError::Other("store read lock poisoned".to_owned()),
            ),
        }
    }

    /// The store, for reading a needle.
    pub fn with_read(&self) -> (store: Result<&Store, RdmaReadError>)
        ensures
            match store {
                Ok(store) => self.store() == Some(*store),
                Err(e) => self.store() is None && e@ == read_error::ReadFault::Other(
                    "store read lock poisoned"@,
                ),
            },
    {
        match self {
            StoreAccess::Readable(store) => Ok(store),
            StoreAccess::Poisoned => Err(
                RdmaReadError::Other("store read lock poisoned".to_owned()),
            ),
        }
    }
}

/// Where the payload of a needle lies, for a reader that opens the data file itself.
#[derive(Debug)]
pub struct NeedleLocation {
    pub volume_id: u32,
    pub offset: u64,
    pub length: u64,
    pub dat_path: Option<String>,
}

/// Where the needle that `id` names lies. The cookie in `id` plays no part.
pub open spec fn location(store: Store, id: Seq<char>) -> Option<NeedleLocation> {
    match parse_fid::fid_outcome(id) {
        parse_fid::FidOutcome::Parsed { volume_id, needle_id, .. } => match store.volume(
            VolumeId(volume_id),
        ) {
            None => None,
            Some(volume) => match volume::first_answer(volume.needles@, NeedleId(needle_id)) {
                Err(_) => None,
                Ok(needle) => if volume.version == VERSION_1 {
                    None
                } else {
                    Some(
                        NeedleLocation {
                            volume_id,
                            offset: needle.info.data_file_offset,
                            length: needle.info.data_size as u64,
                            dat_path: Some(volume.dat_path),
                        },
                    )
                },
            },
        },
        _ => None,
    }
}

/// Finds where the needle that `id` names lies: nothing for a malformed id, a missing volume or
/// needle, or a volume of the oldest format.
pub fn locate_in_store(store: &Store, id: &str) -> (found: Option<NeedleLocation>)
    ensures
        found == location(*store, id@),
{
    let (vid, needle_id): (u32, u64) = match parse_fid(id) {
        Ok((vid, needle_id, _)) => (vid, needle_id),
        Err(_) => {
            return None;
        },
    };
    let volume_id: VolumeId = VolumeId(vid);
    let needle: StreamedNeedle = match store.read_volume_needle_stream_info(
        volume_id,
        NeedleId(needle_id),
    ) {
        Ok(needle) => needle,
        Err(_) => {
            return None;
        },
    };
    match store.find_volume(volume_id) {
        None => None,
        Some(volume) => {
            if volume.version == VERSION_1 {
                return None;
            }
            Some(
                NeedleLocation {
                    volume_id: vid,
                    offset: needle.info.data_file_offset,
                    length: needle.info.data_size as u64,
                    dat_path: Some(volume.dat_path.clone()),
                },
            )
        },
    }
}

/// The needles of a volume server, for RDMA readers.
#[derive(Debug)]
pub struct StoreNeedleSource {
    pub access: StoreAccess,
}

impl StoreNeedleSource {
    /// A source over what one look at the store gave.
    pub fn new(access: StoreAccess) -> (source: Self)
        ensures
            source.access == access,
    {
        StoreNeedleSource { access }
    }

    /// Where the needle that `id` names lies; nothing, too, where the store cannot be read.
    pub fn locate(&self, id: &str) -> (found: Option<NeedleLocation>)
        ensures
            found == match self.access.store() {
                None => None::<NeedleLocation>,
                Some(store) => location(store, id@),
            },
    {
        match self.access.with_read_option() {
            None => None,
            Some(store) => locate_in_store(store, id),
        }
    }

    /// What opening the needle that `id` names comes to. A malformed id is a missing needle, and
    /// its cookie plays no part.
    pub open spec fn opened(self, id: Seq<char>) -> Result<
        RustVolumeReadHandle,
        read_error::OpenFault,
    > {
        match parse_fid::fid_outcome(id) {
            parse_fid::FidOutcome::Parsed { volume_id, needle_id, .. } => match self.access.store() {
                None => Err(read_error::OpenFault::Other("store read lock poisoned"@)),
                Some(store) => RustVolumeReadHandle::opened_from(
                    store,
                    VolumeId(volume_id),
                    NeedleId(needle_id),
                ),
            },
            _ => Err(read_error::OpenFault::NotFound),
        }
    }

    /// Opens the needle that `id` names; `words` puts read errors in words.
    pub fn open<F: FnOnce(RdmaReadError) -> String>(&self, id: &str, words: F) -> (result: Result<
        RustVolumeReadHandle,
        RdmaOpenError,
    >)
        requires
            forall|e: RdmaReadError| call_requires(words, (e,)),
        ensures
            read_error::open_gives(result, self.opened(id@), words),
    {
        let (vid, needle_id): (u32, u64) = match parse_fid(id) {
            Ok((vid, needle_id, _)) => (vid, needle_id),
            Err(_) => {
                return Err(RdmaOpenError::NotFound);
            },
        };
        match self.access.with_read_open() {
            Err(e) => Err(e),
            Ok(store) => RustVolumeReadHandle::open_from_store(
                store,
                VolumeId(vid),
                NeedleId(needle_id),
                words,
            ),
        }
    }
}

/// Bytes to be read from an open data file.
#[derive(Clone, Copy, Debug, PartialEq, Eq, Structural)]
pub struct PhysicalRead {
    pub source: NeedleStreamSource,
    pub offset: u64,
    pub length: u64,
}

/// A stretch of a read that goes to one buffer: `length` bytes, `request_offset` bytes into the
/// range asked for.
#[derive(Clone, Copy, Debug, PartialEq, Eq, Structural)]
pub struct ReadSegment {
    pub request_offset: u64,
    pub length: usize,
}

/// The bytes that `segments` take together.
pub open spec fn total_length(segments: Seq<ReadSegment>) -> nat
    decreases segments.len(),
{
    if segments.len() == 0 {
        0
    } else {
        total_length(segments.drop_last()) + segments.last().length as nat
    }
}

/// The first segments never take more than all of them.
proof fn lemma_prefix_takes_no_more(segments: Seq<ReadSegment>, k: int)
    requires
        0 <= k <= segments.len(),
    ensures
        total_length(segments.take(k)) <= total_length(segments),
    decreases segments.len(),
{
    if k == segments.len() {
        assert(segments.take(k) =~= segments);
    } else {
        lemma_prefix_takes_no_more(segments.drop_last(), k);
        assert(segments.drop_last().take(k) =~= segments.take(k));
    }
}

/// The bytes that `segments` take together, as far as a `u64` counts them.
fn requested_length(segments: &[ReadSegment]) -> (total: Option<u64>)
    ensures
        match total {
            Some(total) => total == total_length(segments@),
            None => total_length(segments@) > u64::MAX,
        },
{
    let mut total: u64 = 0;
    let mut i: usize = 0;
    assert(segments@.take(0) =~= Seq::<ReadSegment>::empty());
    while i < segments.len()
        invariant
            i <= segments@.len(),
            total == total_length(segments@.take(i as int)),
        decreases segments@.len() - i,
    {
        proof {
            let longer = segments@.take(i + 1);
            assert(longer.drop_last() =~= segments@.take(i as int));
            assert(longer.last() == segments@[i as int]);
            lemma_prefix_takes_no_more(segments@, i + 1);
        }
        match total.checked_add(segments[i].length as u64) {
            Some(next) => {
                total = next;
            },
            None => {
                return None;
            },
        }
        i = i + 1;
    }
    assert(segments@.take(i as int) =~= segments@);
    Some(total)
}

/// The reads that fill a list of segments, in order, up to the first segment that cannot be
/// addressed.
#[derive(Debug)]
pub struct SegmentReads {
    pub reads: Vec<PhysicalRead>,
    pub stopped: Option<RdmaReadError>,
}

impl SegmentReads {
    /// What the whole read comes to, once its reads were made in order up to the first that
    /// failed.
    pub fn conclude(self, failed: Option<IoError>) -> (result: Result<(), RdmaReadError>)
        ensures
            result == match failed {
                Some(e) => Err::<(), _>(RdmaReadError::Io(e)),
                None => match self.stopped {
                    Some(e) => Err(e),
                    None => Ok(()),
                },
            },
    {
        match failed {
            Some(e) => Err(RdmaReadError::Io(e)),
            None => match self.stopped {
                Some(e) => Err(e),
                None => Ok(()),
            },
        }
    }
}

/// What a read comes to, given what the data file answered.
pub fn conclude_read<T>(answer: Result<T, IoError>) -> (result: Result<T, RdmaReadError>)
    ensures
        result == match answer {
            Ok(value) => Ok::<T, RdmaReadError>(value),
            Err(e) => Err(RdmaReadError::Io(e)),
        },
{
    match answer {
        Ok(value) => Ok(value),
        Err(e) => Err(RdmaReadError::Io(e)),
    }
}

/// A needle opened for reading. It remembers where the payload lay at the last look and which
/// cookie the needle bore; every read looks again.
#[derive(Clone, Copy, Debug, PartialEq, Eq, Structural)]
pub struct RustVolumeReadHandle {
    pub source: Option<NeedleStreamSource>,
    pub volume_id: VolumeId,
    pub needle_id: NeedleId,
    pub data_file_offset: u64,
    pub data_size: u64,
    pub cookie: u32,
    pub compaction_revision: u16,
}

impl RustVolumeReadHandle {
    /// A handle that names a needle and has not looked at it yet.
    pub open spec fn unread(volume_id: VolumeId, needle_id: NeedleId) -> Self {
        RustVolumeReadHandle {
            source: None,
            volume_id,
            needle_id,
            data_file_offset: 0,
            data_size: 0,
            cookie: 0,
            compaction_revision: 0,
        }
    }

    /// A handle that remembers `needle`.
    pub open spec fn remembering(needle: StreamedNeedle) -> Self {
        RustVolumeReadHandle {
            source: Some(needle.info.source),
            volume_id: needle.info.volume_id,
            needle_id: needle.info.needle_id,
            data_file_offset: needle.info.data_file_offset,
            data_size: needle.info.data_size as u64,
            cookie: needle.cookie.0,
            compaction_revision: needle.info.compaction_revision,
        }
    }

    /// What the store says of this handle's needle. Volumes of the oldest format are refused
    /// before the needle is looked for.
    pub open spec fn look(self, store: Store) -> Result<StreamedNeedle, read_error::ReadFault> {
        match store.volume(self.volume_id) {
            None => Err(read_error::ReadFault::NotFound),
            Some(volume) => if volume.version == VERSION_1 {
                Err(
                    read_error::ReadFault::Unsupported(
                        "VERSION_1 volumes are not supported by RDMA read handle"@,
                    ),
                )
            } else {
                match volume::first_answer(volume.needles@, self.needle_id) {
                    Ok(needle) => Ok(needle),
                    Err(e) => Err(read_error::volume_fault(e)),
                }
            },
        }
    }

    /// This handle after a look at the store, if the needle still bears the cookie `expected`.
    pub open spec fn look_for(self, store: Store, expected: u32) -> Result<
        Self,
        read_error::ReadFault,
    > {
        match self.look(store) {
            Err(fault) => Err(fault),
            Ok(needle) => if needle.cookie.0 != expected {
                Err(
                    read_error::ReadFault::CookieMismatch { expected, actual: needle.cookie.0 },
                )
            } else {
                Ok(Self::remembering(needle))
            },
        }
    }

    /// This handle after the look that every read starts with: the lock must be had, and the
    /// needle must bear the cookie it bore when it was opened.
    pub open spec fn current(self, access: StoreAccess) -> Result<Self, read_error::ReadFault> {
        match access.store() {
            None => Err(read_error::ReadFault::Other("store read lock poisoned"@)),
            Some(store) => self.look_for(store, self.cookie),
        }
    }

    /// The handle that opening a needle of `store` gives.
    pub open spec fn opened_from(store: Store, volume_id: VolumeId, needle_id: NeedleId) -> Result<
        Self,
        read_error::OpenFault,
    > {
        match Self::unread(volume_id, needle_id).look(store) {
            Ok(needle) => Ok(Self::remembering(needle)),
            Err(fault) => Err(read_error::open_fault(fault)),
        }
    }

    /// Opens a needle of `store`; `words` puts read errors in words.
    pub fn open_from_store<F: FnOnce(RdmaReadError) -> String>(
        store: &Store,
        volume_id: VolumeId,
        needle_id: NeedleId,
        words: F,
    ) -> (result: Result<Self, RdmaOpenError>)
        requires
            forall|e: RdmaReadError| call_requires(words, (e,)),
        ensures
            read_error::open_gives(result, Self::opened_from(*store, volume_id, needle_id), words),
    {
        let mut handle = RustVolumeReadHandle {
            source: None,
            volume_id,
            needle_id,
            data_file_offset: 0,
            data_size: 0,
            cookie: 0,
            compaction_revision: 0,
        };
        match handle.refresh_from_store(store) {
            Ok(()) => Ok(handle),
            Err(e) => Err(read_to_open_error(e, words)),
        }
    }

    fn look_up(&self, store: &Store) -> (result: Result<StreamedNeedle, RdmaReadError>)
        ensures
            read_error::read_gives(result, self.look(*store)),
    {
        match store.find_volume(self.volume_id) {
            None => {
                return Err(RdmaReadError::NotFound);
            },
            Some(volume) => {
                if volume.version == VERSION_1 {
                    return Err(
                        RdmaReadError::Unsupported(
                            "VERSION_1 volumes are not supported by RDMA read handle".to_owned(),
                        ),
                    );
                }
            },
        }
        match store.read_volume_needle_stream_info(self.volume_id, self.needle_id) {
            Ok(needle) => Ok(needle),
            Err(e) => Err(read_error_from_volume(e)),
        }
    }

    /// Looks at the store and remembers what it says; an error changes nothing.
    pub fn refresh_from_store(&mut self, store: &Store) -> (result: Result<(), RdmaReadError>)
        ensures
            match result {
                Ok(()) => old(self).look(*store) matches Ok(needle) && *final(self)
                    == Self::remembering(needle),
                Err(e) => old(self).look(*store) == Err::<StreamedNeedle, _>(e@) && *final(self)
                    == *old(self),
            },
    {
        match self.look_up(store) {
            Ok(needle) => {
                self.apply_stream_info(needle);
                Ok(())
            },
            Err(e) => Err(e),
        }
    }

    /// Remembers `needle`.
    pub fn apply_stream_info(&mut self, needle: StreamedNeedle)
        ensures
            *final(self) == Self::remembering(needle),
    {
        self.source = Some(needle.info.source);
        self.volume_id = needle.info.volume_id;
        self.needle_id = needle.info.needle_id;
        self.data_file_offset = needle.info.data_file_offset;
        self.data_size = needle.info.data_size as u64;
        self.cookie = needle.cookie.0;
        self.compaction_revision = needle.info.compaction_revision;
    }

    /// Looks at the store and remembers what it says, provided that the needle bears the cookie
    /// `expected_cookie`; an error changes nothing.
    pub fn refresh_for_read(&mut self, store: &Store, expected_cookie: u32) -> (result: Result<
        (),
        RdmaReadError,
    >)
        ensures
            match result {
                Ok(()) => old(self).look_for(*store, expected_cookie) == Ok::<
                    _,
                    read_error::ReadFault,
                >(*final(self)),
                Err(e) => old(self).look_for(*store, expected_cookie) == Err::<Self, _>(e@)
                    && *final(self) == *old(self),
            },
    {
        let needle: StreamedNeedle = match self.look_up(store) {
            Ok(needle) => needle,
            Err(e) => {
                return Err(e);
            },
        };
        if needle.cookie.0 != expected_cookie {
            return Err(
                RdmaReadError::CookieMismatch {
                    expected: expected_cookie,
                    actual: needle.cookie.0,
                },
            );
        }
        self.apply_stream_info(needle);
        Ok(())
    }

    /// The look that every read starts with.
    fn refresh(&mut self, access: &StoreAccess) -> (result: Result<(), RdmaReadError>)
        ensures
            match result {
                Ok(()) => old(self).current(*access) == Ok::<_, read_error::ReadFault>(
                    *final(self),
                ),
                Err(e) => old(self).current(*access) == Err::<Self, _>(e@) && *final(self)
                    == *old(self),
            },
    {
        match access.with_read() {
            Err(e) => Err(e),
            Ok(store) => {
                let cookie: u32 = self.cookie;
                self.refresh_for_read(store, cookie)
            },
        }
    }

    /// Where `length` bytes at `offset` of the payload lie in the data file.
    pub open spec fn physical(self, offset: u64, length: u64) -> Result<
        PhysicalRead,
        read_error::ReadFault,
    > {
        match self.source {
            None => Err(read_error::ReadFault::Other("read handle has no stream source"@)),
            Some(source) => if self.data_file_offset + offset <= u64::MAX {
                Ok(
                    PhysicalRead {
                        source,
                        offset: (self.data_file_offset + offset) as u64,
                        length,
                    },
                )
            } else {
                Err(read_error::ReadFault::Other("physical offset overflow"@))
            },
        }
    }

    /// Where `length` bytes at `offset` of the payload lie in the data file.
    pub fn read_with_current_source(&self, offset: u64, length: u64) -> (result: Result<
        PhysicalRead,
        RdmaReadError,
    >)
        ensures
            read_error::read_gives(result, self.physical(offset, length)),
    {
        match self.source {
            None => Err(RdmaReadError::Other("read handle has no stream source".to_owned())),
            Some(source) => match self.data_file_offset.checked_add(offset) {
                None => Err(RdmaReadError::Other("physical offset overflow".to_owned())),
                Some(physical) => Ok(PhysicalRead { source, offset: physical, length }),
            },
        }
    }

    /// The length of the payload at the last look.
    pub fn len(&self) -> (len: u64)
        ensures
            len == self.data_size,
    {
        self.data_size
    }

    /// The cookie that the needle bore when it was opened.
    pub fn cookie(&self) -> (cookie: u32)
        ensures
            cookie == self.cookie,
    {
        self.cookie
    }

    /// That reads may go straight to the buffers of an RDMA pool.
    pub fn supports_direct_slot_reads(&self) -> (supported: bool)
        ensures
            supported,
    {
        true
    }

    /// Looks at the store again and checks that a range lies in the payload as it is now.
    pub fn validate_read_range(&mut self, access: &StoreAccess, offset: u64, length: u64) -> (result:
        Result<(), RdmaReadError>)
        ensures
            match old(self).current(*access) {
                Err(fault) => *final(self) == *old(self) && read_error::read_gives(
                    result,
                    Err(fault),
                ),
                Ok(handle) => *final(self) == handle && read_error::read_gives(
                    result,
                    range_check(handle.data_size, offset, length),
                ),
            },
    {
        match self.refresh(access) {
            Err(e) => Err(e),
            Ok(()) => validate_range(self.data_size, offset, length),
        }
    }

    /// Where the bytes of a segment lie, for a read at `offset`.
    pub open spec fn segment_read(self, offset: u64, segment: ReadSegment) -> Result<
        PhysicalRead,
        read_error::ReadFault,
    > {
        if offset + segment.request_offset <= u64::MAX {
            self.physical((offset + segment.request_offset) as u64, segment.length as u64)
        } else {
            Err(read_error::ReadFault::Other("segment offset overflow"@))
        }
    }

    /// `plan` holds the reads of the segments in order, up to the first that cannot be addressed.
    pub open spec fn plans(
        self,
        offset: u64,
        segments: Seq<ReadSegment>,
        plan: SegmentReads,
    ) -> bool {
        let n = plan.reads@.len() as int;
        &&& n <= segments.len()
        &&& forall|i: int|
            0 <= i < n ==> self.segment_read(offset, segments[i]) == Ok::<_, read_error::ReadFault>(
                #[trigger] plan.reads@[i],
            )
        &&& match plan.stopped {
            None => n == segments.len(),
            Some(e) => n < segments.len() && self.segment_read(offset, segments[n]) == Err::<
                PhysicalRead,
                _,
            >(e@),
        }
    }

    fn plan_segments(&self, offset: u64, segments: &[ReadSegment]) -> (plan: SegmentReads)
        ensures
            self.plans(offset, segments@, plan),
    {
        let mut reads: Vec<PhysicalRead> = Vec::new();
        let mut i: usize = 0;
        while i < segments.len()
            invariant
                i <= segments@.len(),
                reads@.len() == i,
                forall|j: int|
                    0 <= j < i ==> self.segment_read(offset, segments@[j]) == Ok::<
                        _,
                        read_error::ReadFault,
                    >(#[trigger] reads@[j]),
            decreases segments@.len() - i,
        {
            let segment: ReadSegment = segments[i];
            match offset.checked_add(segment.request_offset) {
                None => {
                    return SegmentReads {
                        reads,
                        stopped: Some(RdmaReadError::Other("segment offset overflow".to_owned())),
                    };
                },
                Some(segment_offset) => match self.read_with_current_source(
                    segment_offset,
                    segment.length as u64,
                ) {
                    Err(e) => {
                        return SegmentReads { reads, stopped: Some(e) };
                    },
                    Ok(read) => {
                        reads.push(read);
                    },
                },
            }
            i = i + 1;
        }
        SegmentReads { reads, stopped: None }
    }

    /// Plans a read at `offset` that fills `segments`, all under one look at the store.
    pub fn read_exact_at_segments(
        &mut self,
        access: &StoreAccess,
        offset: u64,
        segments: &[ReadSegment],
    ) -> (result: Result<SegmentReads, RdmaReadError>)
        ensures
            if total_length(segments@) > u64::MAX {
                *final(self) == *old(self) && read_error::read_gives(
                    result,
                    Err(read_error::ReadFault::Other("segment length overflow"@)),
                )
            } else {
                match old(self).current(*access) {
                    Err(fault) => *final(self) == *old(self) && read_error::read_gives(
                        result,
                        Err(fault),
                    ),
                    Ok(handle) => {
                        &&& *final(self) == handle
                        &&& match range_check(
                            handle.data_size,
                            offset,
                            total_length(segments@) as u64,
                        ) {
                            Err(fault) => read_error::read_gives(result, Err(fault)),
                            Ok(()) => result matches Ok(plan) && handle.plans(
                                offset,
                                segments@,
                                plan,
                            ),
                        }
                    },
                }
            },
    {
        let requested: u64 = match requested_length(segments) {
            Some(requested) => requested,
            None => {
                return Err(RdmaReadError::Other("segment length overflow".to_owned()));
            },
        };
        match self.refresh(access) {
            Err(e) => {
                return Err(e);
            },
            Ok(()) => {},
        }
        match validate_range(self.data_size, offset, requested) {
            Err(e) => Err(e),
            Ok(()) => Ok(self.plan_segments(offset, segments)),
        }
    }

    /// Where a buffer of `length` bytes is filled from, for a read at `offset` of the payload.
    pub open spec fn exact_read(self, offset: u64, length: u64) -> Result<
        PhysicalRead,
        read_error::ReadFault,
    > {
        match read_len(self.data_size, offset, length) {
            Err(fault) => Err(fault),
            Ok(_) => self.physical(offset, length),
        }
    }

    /// Plans a read at `offset` that fills a buffer of `length` bytes.
    pub fn read_exact_at(&mut self, access: &StoreAccess, offset: u64, length: usize) -> (result:
        Result<PhysicalRead, RdmaReadError>)
        ensures
            match old(self).current(*access) {
                Err(fault) => *final(self) == *old(self) && read_error::read_gives(
                    result,
                    Err(fault),
                ),
                Ok(handle) => *final(self) == handle && read_error::read_gives(
                    result,
                    handle.exact_read(offset, length as u64),
                ),
            },
    {
        match self.refresh(access) {
            Err(e) => {
                return Err(e);
            },
            Ok(()) => {},
        }
        match validate_range(self.data_size, offset, length as u64) {
            Err(e) => Err(e),
            Ok(()) => self.read_with_current_source(offset, length as u64),
        }
    }

    /// Where a read of `length` bytes at `offset` is served from; no length asks for all that is
    /// left, and more than `max_len` bytes are refused.
    pub open spec fn bounded_read(self, offset: u64, length: u64, max_len: usize) -> Result<
        PhysicalRead,
        read_error::ReadFault,
    > {
        match read_len(self.data_size, offset, length) {
            Err(fault) => Err(fault),
            Ok(taken) => if taken > max_len {
                Err(
                    read_error::ReadFault::Other(
                        "requested read exceeds max_len: "@ + text::decimal_text(taken as nat),
                    ),
                )
            } else {
                self.physical(offset, taken)
            },
        }
    }

    /// Plans a read of `length` bytes at `offset` into a buffer of its own. The length is settled
    /// after the look at the store, so that it follows a rewrite of the needle.
    pub fn read_at(&mut self, access: &StoreAccess, offset: u64, length: u64, max_len: usize) -> (result:
        Result<PhysicalRead, RdmaReadError>)
        ensures
            match old(self).current(*access) {
                Err(fault) => *final(self) == *old(self) && read_error::read_gives(
                    result,
                    Err(fault),
                ),
                Ok(handle) => *final(self) == handle && read_error::read_gives(
                    result,
                    handle.bounded_read(offset, length, max_len),
                ),
            },
    {
        match self.refresh(access) {
            Err(e) => {
                return Err(e);
            },
            Ok(()) => {},
        }
        let taken: u64 = match resolve_read_len(self.data_size, offset, length) {
            Err(e) => {
                return Err(e);
            },
            Ok(taken) => taken,
        };
        if taken > max_len as u64 {
            let mut message: String = "requested read exceeds max_len: ".to_owned();
            message.append(decimal(taken).as_str());
            return Err(RdmaReadError::Other(message));
        }
        self.read_with_current_source(offset, taken)
    }
}

/// A range that may be read lies in the payload, and takes what was asked for or, where nothing
/// was, all that is left; it is never empty.
pub proof fn law_read_len_lies_in_the_payload(len: u64, offset: u64, requested: u64)
    ensures
        match read_len(len, offset, requested) {
            Ok(taken) => {
                &&& 0 < taken
                &&& offset + taken <= len
                &&& requested > 0 ==> taken == requested
                &&& requested == 0 ==> offset + taken == len
            },
            Err(fault) => {
                &&& fault == (read_error::ReadFault::RangeInvalid { len, offset, requested })
                &&& offset >= len || offset + requested > len
            },
        },
{
}

/// The payload of the needle that `handle` remembers, in a data file of these bytes.
pub open spec fn payload(file: Seq<u8>, handle: RustVolumeReadHandle) -> Seq<u8> {
    file.subrange(
        handle.data_file_offset as int,
        handle.data_file_offset + handle.data_size,
    )
}

/// The bytes that `read` takes from a data file of these bytes.
pub open spec fn bytes_of(file: Seq<u8>, read: PhysicalRead) -> Seq<u8> {
    file.subrange(read.offset as int, read.offset + read.length)
}

impl RustVolumeReadHandle {
    /// `file` is the data file that this handle reads, and the payload lies in it.
    pub open spec fn reads_from(self, file: Seq<u8>) -> bool {
        &&& self.source is Some
        &&& self.data_file_offset + self.data_size <= file.len() <= u64::MAX
    }

    /// A read into a buffer is served if and only if its range lies in the payload, and then gives
    /// exactly the bytes of that range.
    pub proof fn law_exact_read_serves_the_payload(self, file: Seq<u8>, offset: u64, length: u64)
        requires
            self.reads_from(file),
        ensures
            self.exact_read(offset, length) is Ok <==> offset < self.data_size && offset + length
                <= self.data_size,
            self.exact_read(offset, length) matches Ok(read) ==> bytes_of(file, read) == payload(
                file,
                self,
            ).subrange(offset as int, offset + length),
    {
        if let Ok(read) = self.exact_read(offset, length) {
            assert(bytes_of(file, read) =~= payload(file, self).subrange(
                offset as int,
                offset + length,
            ));
        }
    }

    /// A read into a buffer of its own gives exactly the bytes asked for or, where no length was
    /// given, the payload from `offset` to its end; it is refused where that is too much.
    pub proof fn law_bounded_read_serves_the_payload(
        self,
        file: Seq<u8>,
        offset: u64,
        length: u64,
        max_len: usize,
    )
        requires
            self.reads_from(file),
        ensures
            self.bounded_read(offset, length, max_len) is Ok <==> (read_len(
                self.data_size,
                offset,
                length,
            ) matches Ok(taken) && taken <= max_len),
            self.bounded_read(offset, length, max_len) matches Ok(read) ==> bytes_of(file, read)
                == payload(file, self).subrange(
                offset as int,
                if length == 0 {
                    self.data_size as int
                } else {
                    offset + length
                },
            ),
    {
        if let Ok(read) = self.bounded_read(offset, length, max_len) {
            assert(bytes_of(file, read) =~= payload(file, self).subrange(
                offset as int,
                offset + read.length,
            ));
        }
    }

    /// A handle keeps the cookie it was opened with: a look that finds another changes nothing,
    /// and one that succeeds found the same.
    pub proof fn law_cookie_never_changes(self, access: StoreAccess)
        ensures
            self.current(access) matches Ok(handle) ==> handle.cookie == self.cookie,
    {
    }

    /// A look at a store in which the needle was rewritten under the same cookie makes every later
    /// read follow the new payload: its place, its length, its file.
    pub proof fn law_reads_follow_a_rewrite(self, store: Store, needle: StreamedNeedle)
        requires
            self.look(store) == Ok::<_, read_error::ReadFault>(needle),
            needle.cookie.0 == self.cookie,
        ensures
            self.current(StoreAccess::Readable(store)) == Ok::<_, read_error::ReadFault>(
                Self::remembering(needle),
            ),
            Self::remembering(needle).data_size == needle.info.data_size,
            Self::remembering(needle).data_file_offset == needle.info.data_file_offset,
            Self::remembering(needle).source == Some(needle.info.source),
    {
    }

    /// A needle that was rewritten under another cookie can no longer be read through this handle.
    pub proof fn law_another_cookie_bars_reading(self, store: Store, needle: StreamedNeedle)
        requires
            self.look(store) == Ok::<_, read_error::ReadFault>(needle),
            needle.cookie.0 != self.cookie,
        ensures
            self.current(StoreAccess::Readable(store)) == Err::<Self, _>(
                read_error::ReadFault::CookieMismatch {
                    expected: self.cookie,
                    actual: needle.cookie.0,
                },
            ),
    {
    }

    /// A range that was found to lie in the payload can be read as long as the store stays as it
    /// is: the next look finds the same, and the read has its place in the file.
    pub proof fn law_validated_range_can_be_read(
        self,
        access: StoreAccess,
        handle: Self,
        offset: u64,
        length: u64,
    )
        requires
            self.current(access) == Ok::<_, read_error::ReadFault>(handle),
            handle.volume_id == self.volume_id,
            handle.needle_id == self.needle_id,
            handle.data_file_offset + handle.data_size <= u64::MAX,
            range_check(handle.data_size, offset, length) is Ok,
        ensures
            handle.current(access) == Ok::<_, read_error::ReadFault>(handle),
            handle.exact_read(offset, length) is Ok,
    {
    }

    /// A handle that was opened, or has looked again, always has a file to read from.
    pub proof fn law_handles_have_a_source(
        self,
        store: Store,
        volume_id: VolumeId,
        needle_id: NeedleId,
        access: StoreAccess,
    )
        ensures
            Self::opened_from(store, volume_id, needle_id) matches Ok(handle) ==> handle.source
                is Some,
            self.current(access) matches Ok(handle) ==> handle.source is Some,
    {
    }
}

/// Locating and opening agree: a needle is located if and only if it can be opened, and then both
/// say the same of where its payload lies.
pub proof fn law_locate_and_open_agree(source: StoreNeedleSource, store: Store, id: Seq<char>)
    requires
        source.access == StoreAccess::Readable(store),
    ensures
        location(store, id) is Some <==> source.opened(id) is Ok,
        location(store, id) matches Some(found) ==> {
            &&& source.opened(id) matches Ok(handle)
            &&& found.offset == handle.data_file_offset
            &&& found.length == handle.data_size
        },
{
}

/// The oldest volume format is never served: nothing in it is located or opened.
pub proof fn law_version_one_is_never_served(
    source: StoreNeedleSource,
    store: Store,
    id: Seq<char>,
    volume_id: u32,
    needle_id: u64,
    cookie: u32,
    volume: volume::Volume,
)
    requires
        source.access == StoreAccess::Readable(store),
        parse_fid::fid_outcome(id) == (parse_fid::FidOutcome::Parsed {
            volume_id,
            needle_id,
            cookie,
        }),
        store.volume(VolumeId(volume_id)) == Some(volume),
        volume.version == VERSION_1,
    ensures
        location(store, id) is None,
        source.opened(id) == Err::<RustVolumeReadHandle, _>(
            read_error::OpenFault::Unsupported(
                "VERSION_1 volumes are not supported by RDMA read handle"@,
            ),
        ),
{
}

/// Each segment starts where the one before it ends, the first at the start of the range.
pub open spec fn contiguous(segments: Seq<ReadSegment>) -> bool {
    forall|i: int|
        0 <= i < segments.len() ==> (#[trigger] segments[i]).request_offset == total_length(
            segments.take(i),
        )
}

/// The bytes that `reads` take, one after the other.
pub open spec fn joined(file: Seq<u8>, reads: Seq<PhysicalRead>) -> Seq<u8>
    decreases reads.len(),
{
    if reads.len() == 0 {
        Seq::empty()
    } else {
        joined(file, reads.drop_last()) + bytes_of(file, reads.last())
    }
}

/// A read whose range lies in the payload, cut into segments that follow on each other, gives in
/// them exactly the bytes of that range, in order, and leaves no segment out.
pub proof fn law_segments_together_serve_the_payload(
    handle: RustVolumeReadHandle,
    file: Seq<u8>,
    offset: u64,
    segments: Seq<ReadSegment>,
    plan: SegmentReads,
)
    requires
        handle.reads_from(file),
        contiguous(segments),
        offset + total_length(segments) <= handle.data_size,
        handle.plans(offset, segments, plan),
    ensures
        plan.stopped is None,
        plan.reads@.len() == segments.len(),
        joined(file, plan.reads@) == payload(file, handle).subrange(
            offset as int,
            offset + total_length(segments),
        ),
{
    let reads = plan.reads@;
    if plan.stopped is Some {
        let n = reads.len() as int;
        lemma_prefix_takes_no_more(segments, n);
        assert(segments[n].request_offset == total_length(segments.take(n)));
        assert(false);
    }
    lemma_joined_segments(handle, file, offset, segments, reads);
    assert(payload(file, handle).subrange(offset as int, offset + total_length(segments))
        =~= file.subrange(
        handle.data_file_offset + offset,
        handle.data_file_offset + offset + total_length(segments),
    ));
}

proof fn lemma_joined_segments(
    handle: RustVolumeReadHandle,
    file: Seq<u8>,
    offset: u64,
    segments: Seq<ReadSegment>,
    reads: Seq<PhysicalRead>,
)
    requires
        handle.reads_from(file),
        contiguous(segments),
        offset + total_length(segments) <= handle.data_size,
        reads.len() == segments.len(),
        forall|i: int|
            0 <= i < reads.len() ==> handle.segment_read(offset, segments[i]) == Ok::<
                _,
                read_error::ReadFault,
            >(#[trigger] reads[i]),
    ensures
        joined(file, reads) == file.subrange(
            handle.data_file_offset + offset,
            handle.data_file_offset + offset + total_length(segments),
        ),
    decreases segments.len(),
{
    let from = handle.data_file_offset + offset;
    if segments.len() == 0 {
        assert(joined(file, reads) =~= file.subrange(from, from + total_length(segments)));
    } else {
        let n = segments.len() - 1;
        let head = segments.drop_last();
        assert(head =~= segments.take(n));
        assert forall|i: int| 0 <= i < head.len() implies (#[trigger] head[i]).request_offset
            == total_length(head.take(i)) by {
            assert(head.take(i) =~= segments.take(i));
            assert(segments[i].request_offset == total_length(segments.take(i)));
        }
        assert forall|i: int| 0 <= i < n implies handle.segment_read(offset, head[i]) == Ok::<
            _,
            read_error::ReadFault,
        >(#[trigger] reads.drop_last()[i]) by {
            assert(reads.drop_last()[i] == reads[i]);
        }
        lemma_joined_segments(handle, file, offset, head, reads.drop_last());
        assert(segments[n].request_offset == total_length(head));
        assert(handle.segment_read(offset, segments[n]) == Ok::<_, read_error::ReadFault>(
            reads[n],
        ));
        assert(joined(file, reads) =~= file.subrange(from, from + total_length(segments)));
    }
}

} // verus!
