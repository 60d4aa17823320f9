//! Locating, opening and reading needles.

use vstd::prelude::*;

use crate::laws::store;
use crate::laws::text;
use crate::rdma::needle_source;
use crate::rdma::needle_source::{
    conclude_read, locate_in_store, resolve_read_len, validate_range, NeedleLocation, PhysicalRead,
    ReadSegment, RustVolumeReadHandle, SegmentReads, StoreAccess, StoreNeedleSource,
};
use crate::rdma::parse_fid;
use crate::rdma::read_error::{
    read_error_from_volume, read_to_open_error, RdmaOpenError, RdmaReadError,
};
use crate::rdma::ParseFidError;
use crate::storage::file_id::{NeedleId, VolumeId};
use crate::storage::io_error::IoError;
use crate::storage::volume::{Store, StreamedNeedle, VolumeError};

verus! {

/// `e` says in the words of `shown` what it says.
pub open spec fn other(e: RdmaReadError, shown: Seq<char>) -> bool {
    e matches RdmaReadError::Other(message) && message@ == shown
}

/// `e` refuses this range.
pub open spec fn bad_range(e: RdmaReadError, size: int, from: int, asked: int) -> bool {
    e matches RdmaReadError::RangeInvalid { len, offset, requested } && len == size && offset == from
        && requested == asked
}

/// A range may be read if and only if it starts inside the payload and ends within it. It then
/// takes what was asked for or, where nothing was, all that is left.
pub proof fn law_read_length(
    len: u64,
    offset: u64,
    requested: u64,
    result: Result<u64, RdmaReadError>,
)
    requires
        call_ensures(resolve_read_len, (len, offset, requested), result),
    ensures
        result is Ok <==> offset < len && offset + requested <= len,
        result matches Ok(taken) ==> taken == if requested == 0 {
            len - offset
        } else {
            requested as int
        },
        result matches Err(e) ==> bad_range(e, len as int, offset as int, requested as int),
{
}

/// A range check succeeds if and only if the range starts inside the payload and ends within it.
pub proof fn law_range_check(
    len: u64,
    offset: u64,
    requested: u64,
    result: Result<(), RdmaReadError>,
)
    requires
        call_ensures(validate_range, (len, offset, requested), result),
    ensures
        result is Ok <==> offset < len && offset + requested <= len,
        result matches Err(e) ==> bad_range(e, len as int, offset as int, requested as int),
{
}

/// A needle that the store lists in a volume that is not of the oldest format is located where the
/// store says it lies, with the length that the store gives it, in that volume's data file.
pub proof fn law_listed_needle_is_located(
    store: &Store,
    id: &str,
    fid: Result<(u32, u64, u32), ParseFidError>,
    v: int,
    n: int,
    needle: StreamedNeedle,
    found: Option<NeedleLocation>,
)
    requires
        call_ensures(locate_in_store, (store, id), found),
        call_ensures(parse_fid, (id,), fid),
        fid matches Ok((volume_id, needle_id, _)) && store::volume_at(*store, volume_id, v)
            && store::needle_at(store.volumes@[v], needle_id, n),
        store.volumes@[v].version != 1,
        store.volumes@[v].needles@[n].answer == Ok::<_, VolumeError>(needle),
    ensures
        found matches Some(location) && location.volume_id == fid->Ok_0.0 && location.offset
            == needle.info.data_file_offset && location.length == needle.info.data_size
            && location.dat_path == Some(store.volumes@[v].dat_path),
{
    store::lemma_volume_at(*store, fid->Ok_0.0, v);
    store::lemma_needle_at(store.volumes@[v].needles@, fid->Ok_0.1, n);
}

/// Nothing is located for a text that is no fid, in a volume that is missing or of the oldest
/// format, or for a needle that is missing or that the store cannot answer for.
pub proof fn law_nothing_else_is_located(
    store: &Store,
    id: &str,
    fid: Result<(u32, u64, u32), ParseFidError>,
    v: int,
    n: int,
    found: Option<NeedleLocation>,
)
    requires
        call_ensures(locate_in_store, (store, id), found),
        call_ensures(parse_fid, (id,), fid),
        match fid {
            Err(_) => true,
            Ok((volume_id, needle_id, _)) => {
                ||| store::no_volume(*store, volume_id)
                ||| store::volume_at(*store, volume_id, v) && store.volumes@[v].version == 1
                ||| store::volume_at(*store, volume_id, v) && store::no_needle(
                    store.volumes@[v],
                    needle_id,
                )
                ||| store::volume_at(*store, volume_id, v) && store::needle_at(
                    store.volumes@[v],
                    needle_id,
                    n,
                ) && store.volumes@[v].needles@[n].answer is Err
            },
        },
    ensures
        found is None,
{
    if let Ok((volume_id, needle_id, _)) = fid {
        if store::no_volume(*store, volume_id) {
            store::lemma_no_volume(*store, volume_id);
        } else {
            store::lemma_volume_at(*store, volume_id, v);
            if store::no_needle(store.volumes@[v], needle_id) {
                store::lemma_no_needle(store.volumes@[v].needles@, needle_id);
            }
            if store::needle_at(store.volumes@[v], needle_id, n) {
                store::lemma_needle_at(store.volumes@[v].needles@, needle_id, n);
            }
        }
    }
}

/// A source locates in the store that it looked at, and nothing behind a poisoned lock.
pub proof fn law_source_locates_in_its_store(
    source: &StoreNeedleSource,
    store: &Store,
    id: &str,
    in_store: Option<NeedleLocation>,
    found: Option<NeedleLocation>,
)
    requires
        call_ensures(StoreNeedleSource::locate, (source, id), found),
        call_ensures(locate_in_store, (store, id), in_store),
    ensures
        source.access == StoreAccess::Readable(*store) ==> found == in_store,
        source.access is Poisoned ==> found is None,
{
}

/// `handle` remembers just what the store says of `needle`.
pub open spec fn remembers(handle: RustVolumeReadHandle, needle: StreamedNeedle) -> bool {
    &&& handle.source == Some(needle.info.source)
    &&& handle.volume_id == needle.info.volume_id
    &&& handle.needle_id == needle.info.needle_id
    &&& handle.data_file_offset == needle.info.data_file_offset
    &&& handle.data_size == needle.info.data_size
    &&& handle.cookie == needle.cookie.0
    &&& handle.compaction_revision == needle.info.compaction_revision
}

/// `e` is how a volume error is told to a reader.
pub open spec fn told(error: VolumeError, e: RdmaReadError) -> bool {
    match error {
        VolumeError::NotFound => e is NotFound,
        VolumeError::Deleted => e is NotFound,
        VolumeError::UnsupportedVersion(version) => e matches RdmaReadError::Unsupported(message)
            && exists|shown: Seq<char>| #[trigger]
            text::writes(shown, version as int, 1) && message@ == "unsupported volume version "@
                + shown,
        VolumeError::StreamingUnsupported => e matches RdmaReadError::Unsupported(message)
            && message@ == "volume cannot provide a streaming source"@,
        VolumeError::CookieMismatch(found) => e matches RdmaReadError::CookieMismatch {
            expected,
            actual,
        } && expected == 0 && actual == found,
        VolumeError::Io(failure) => e matches RdmaReadError::Io(io) && io.kind == failure.kind
            && io.message@ == failure.message@,
        VolumeError::Other(words) => other(e, words@),
    }
}

/// What a volume error is told as.
pub proof fn law_volume_errors_are_told(error: VolumeError, e: RdmaReadError)
    requires
        call_ensures(read_error_from_volume, (error,), e),
    ensures
        told(error, e),
{
    lemma_told(error, e);
}

proof fn lemma_told(error: VolumeError, e: RdmaReadError)
    requires
        e@ == crate::rdma::read_error::volume_fault(error),
    ensures
        told(error, e),
{
    if let VolumeError::UnsupportedVersion(version) = error {
        text::lemma_decimal(version as nat);
        assert(text::writes(crate::text::decimal_text(version as nat), version as int, 1));
    }
}

/// `error` is how a read error is told to whoever opens a needle, where `words` puts read errors
/// in words.
pub open spec fn told_on_opening<F: FnOnce(RdmaReadError) -> String>(
    e: RdmaReadError,
    error: RdmaOpenError,
    words: F,
) -> bool {
    match e {
        RdmaReadError::NotFound => error is NotFound,
        RdmaReadError::Unsupported(message) => error matches RdmaOpenError::Unsupported(shown)
            && shown@ == message@,
        RdmaReadError::Io(failure) => error matches RdmaOpenError::Other(shown) && shown@
            == failure.message@,
        _ => error matches RdmaOpenError::Other(shown) && exists|same: RdmaReadError|
            #![trigger same@]
            same@ == e@ && call_ensures(words, (same,), shown),
    }
}

/// What a read error is told as on opening.
pub proof fn law_read_errors_are_told_on_opening<F: FnOnce(RdmaReadError) -> String>(
    e: RdmaReadError,
    words: F,
    error: RdmaOpenError,
)
    requires
        call_ensures(read_to_open_error::<F>, (e, words), error),
    ensures
        told_on_opening(e, error, words),
{
}

/// A needle that the store lists in a volume that is not of the oldest format can be opened, and
/// the handle remembers just what the store says of it.
pub proof fn law_listed_needle_is_opened<F: FnOnce(RdmaReadError) -> String>(
    source: &StoreNeedleSource,
    store: Store,
    id: &str,
    words: F,
    fid: Result<(u32, u64, u32), ParseFidError>,
    v: int,
    n: int,
    needle: StreamedNeedle,
    result: Result<RustVolumeReadHandle, RdmaOpenError>,
)
    requires
        call_ensures(StoreNeedleSource::open::<F>, (source, id, words), result),
        call_ensures(parse_fid, (id,), fid),
        source.access == StoreAccess::Readable(store),
        fid matches Ok((volume_id, needle_id, _)) && store::volume_at(store, volume_id, v)
            && store::needle_at(store.volumes@[v], needle_id, n),
        store.volumes@[v].version != 1,
        store.volumes@[v].needles@[n].answer == Ok::<_, VolumeError>(needle),
    ensures
        result matches Ok(handle) && remembers(handle, needle),
{
    store::lemma_volume_at(store, fid->Ok_0.0, v);
    store::lemma_needle_at(store.volumes@[v].needles@, fid->Ok_0.1, n);
}

/// A needle of a store that was looked at is opened in the same way.
pub proof fn law_listed_needle_is_opened_from_store<F: FnOnce(RdmaReadError) -> String>(
    store: &Store,
    volume_id: VolumeId,
    needle_id: NeedleId,
    words: F,
    v: int,
    n: int,
    needle: StreamedNeedle,
    result: Result<RustVolumeReadHandle, RdmaOpenError>,
)
    requires
        call_ensures(
            RustVolumeReadHandle::open_from_store::<F>,
            (store, volume_id, needle_id, words),
            result,
        ),
        store::volume_at(*store, volume_id.0, v),
        store::needle_at(store.volumes@[v], needle_id.0, n),
        store.volumes@[v].version != 1,
        store.volumes@[v].needles@[n].answer == Ok::<_, VolumeError>(needle),
    ensures
        result matches Ok(handle) && remembers(handle, needle),
{
    store::lemma_volume_at(*store, volume_id.0, v);
    store::lemma_needle_at(store.volumes@[v].needles@, needle_id.0, n);
}

/// What is no fid, or is missing, is not found on opening; the oldest format is not supported, a
/// poisoned lock is told, and what the store says instead of an answer is told as it would be to a
/// reader.
pub proof fn law_nothing_else_is_opened<F: FnOnce(RdmaReadError) -> String>(
    source: &StoreNeedleSource,
    store: Store,
    id: &str,
    words: F,
    fid: Result<(u32, u64, u32), ParseFidError>,
    v: int,
    n: int,
    result: Result<RustVolumeReadHandle, RdmaOpenError>,
)
    requires
        call_ensures(StoreNeedleSource::open::<F>, (source, id, words), result),
        call_ensures(parse_fid, (id,), fid),
    ensures
        fid is Err ==> (result matches Err(e) && e is NotFound),
        fid is Ok && source.access is Poisoned ==> (result matches Err(RdmaOpenError::Other(shown))
            && shown@ == "store read lock poisoned"@),
        fid is Ok && source.access == StoreAccess::Readable(store) ==> {
            let (volume_id, needle_id, _) = fid->Ok_0;
            let volume = store.volumes@[v];
            &&& store::no_volume(store, volume_id) ==> (result matches Err(e) && e is NotFound)
            &&& store::volume_at(store, volume_id, v) && volume.version == 1 ==> (
            result matches Err(RdmaOpenError::Unsupported(shown)) && shown@
                == "VERSION_1 volumes are not supported by RDMA read handle"@)
            &&& store::volume_at(store, volume_id, v) && volume.version != 1 && store::no_needle(
                volume,
                needle_id,
            ) ==> (result matches Err(e) && e is NotFound)
            &&& store::volume_at(store, volume_id, v) && volume.version != 1 && store::needle_at(
                volume,
                needle_id,
                n,
            ) && volume.needles@[n].answer is Err ==> (result matches Err(error) && {
                match volume.needles@[n].answer->Err_0 {
                    VolumeError::NotFound => error is NotFound,
                    VolumeError::Deleted => error is NotFound,
                    VolumeError::UnsupportedVersion(version) => {
                        error matches RdmaOpenError::Unsupported(message) && exists|
                            shown: Seq<char>,
                        | #[trigger]
                            text::writes(shown, version as int, 1) && message@
                                == "unsupported volume version "@ + shown
                    },
                    VolumeError::StreamingUnsupported => {
                        error matches RdmaOpenError::Unsupported(message) && message@
                            == "volume cannot provide a streaming source"@
                    },
                    VolumeError::Io(failure) => error matches RdmaOpenError::Other(shown) && shown@
                        == failure.message@,
                    _ => error matches RdmaOpenError::Other(shown) && exists|e: RdmaReadError|
                        #![trigger e@]
                        told(volume.needles@[n].answer->Err_0, e) && call_ensures(words, (e,), shown),
                }
            })
        },
{
    if fid is Ok {
        let (volume_id, needle_id, _) = fid->Ok_0;
        if store::no_volume(store, volume_id) {
            store::lemma_no_volume(store, volume_id);
        }
        if store::volume_at(store, volume_id, v) {
            store::lemma_volume_at(store, volume_id, v);
            if store::no_needle(store.volumes@[v], needle_id) {
                store::lemma_no_needle(store.volumes@[v].needles@, needle_id);
            }
            if store::needle_at(store.volumes@[v], needle_id, n) {
                store::lemma_needle_at(store.volumes@[v].needles@, needle_id, n);
                if let Err(error) = store.volumes@[v].needles@[n].answer {
                    if let VolumeError::UnsupportedVersion(version) = error {
                        text::lemma_decimal(version as nat);
                        assert(text::writes(
                            crate::text::decimal_text(version as nat),
                            version as int,
                            1,
                        ));
                    }
                    assert forall|e: RdmaReadError| #![trigger e@]
                        e@ == crate::rdma::read_error::volume_fault(error) implies told(
                        error,
                        e,
                    ) by {
                        lemma_told(error, e);
                    }
                }
            }
        }
    }
}

/// The needle that `handle` names is listed at `v` and `n`, in a volume that is not of the oldest
/// format, and the store can be read and says where it lies.
pub open spec fn listed(
    handle: RustVolumeReadHandle,
    store: Store,
    v: int,
    n: int,
    needle: StreamedNeedle,
) -> bool {
    &&& store::volume_at(store, handle.volume_id.0, v)
    &&& store.volumes@[v].version != 1
    &&& store::needle_at(store.volumes@[v], handle.needle_id.0, n)
    &&& store.volumes@[v].needles@[n].answer == Ok::<_, VolumeError>(needle)
}

proof fn lemma_listed(
    handle: RustVolumeReadHandle,
    store: Store,
    v: int,
    n: int,
    needle: StreamedNeedle,
)
    requires
        listed(handle, store, v, n, needle),
    ensures
        handle.look(store) == Ok::<_, crate::rdma::read_error::ReadFault>(needle),
{
    store::lemma_volume_at(store, handle.volume_id.0, v);
    store::lemma_needle_at(store.volumes@[v].needles@, handle.needle_id.0, n);
}

/// The store has no answer for the needle that `handle` names, and `e` tells why: the volume or
/// the needle is missing, the volume is of the oldest format, or what the store says instead.
pub open spec fn unlisted(
    handle: RustVolumeReadHandle,
    store: Store,
    v: int,
    n: int,
) -> bool {
    ||| store::no_volume(store, handle.volume_id.0)
    ||| store::volume_at(store, handle.volume_id.0, v) && {
        ||| store.volumes@[v].version == 1
        ||| store::no_needle(store.volumes@[v], handle.needle_id.0)
        ||| store::needle_at(store.volumes@[v], handle.needle_id.0, n)
            && store.volumes@[v].needles@[n].answer is Err
    }
}

/// `e` tells why the store has no answer for the needle that `handle` names.
pub open spec fn unlisted_because(
    handle: RustVolumeReadHandle,
    store: Store,
    v: int,
    n: int,
    e: RdmaReadError,
) -> bool {
    let volume = store.volumes@[v];
    if store::no_volume(store, handle.volume_id.0) {
        e is NotFound
    } else if volume.version == 1 {
        e matches RdmaReadError::Unsupported(message) && message@
            == "VERSION_1 volumes are not supported by RDMA read handle"@
    } else if store::no_needle(volume, handle.needle_id.0) {
        e is NotFound
    } else {
        told(volume.needles@[n].answer->Err_0, e)
    }
}

proof fn lemma_unlisted(
    handle: RustVolumeReadHandle,
    store: Store,
    v: int,
    n: int,
    e: RdmaReadError,
)
    requires
        unlisted(handle, store, v, n),
    ensures
        handle.look(store) is Err,
        handle.look(store) == Err::<StreamedNeedle, _>(e@) ==> unlisted_because(
            handle,
            store,
            v,
            n,
            e,
        ),
{
    if store::no_volume(store, handle.volume_id.0) {
        store::lemma_no_volume(store, handle.volume_id.0);
    } else {
        store::lemma_volume_at(store, handle.volume_id.0, v);
        let volume = store.volumes@[v];
        if volume.version != 1 {
            if store::no_needle(volume, handle.needle_id.0) {
                store::lemma_no_needle(volume.needles@, handle.needle_id.0);
            } else {
                store::lemma_needle_at(volume.needles@, handle.needle_id.0, n);
                if e@ == crate::rdma::read_error::volume_fault(volume.needles@[n].answer->Err_0) {
                    lemma_told(volume.needles@[n].answer->Err_0, e);
                }
            }
        }
    }
}

/// A look at the store makes a handle remember just what the store says of its needle.
pub proof fn law_look_remembers(
    handle: &mut RustVolumeReadHandle,
    store: &Store,
    v: int,
    n: int,
    needle: StreamedNeedle,
    result: Result<(), RdmaReadError>,
)
    requires
        call_ensures(RustVolumeReadHandle::refresh_from_store, (handle, store), result),
    ensures
        listed(*old(handle), *store, v, n, needle) ==> result is Ok && remembers(
            *final(handle),
            needle,
        ),
        unlisted(*old(handle), *store, v, n) ==> (result matches Err(e) && unlisted_because(
            *old(handle),
            *store,
            v,
            n,
            e,
        )) && *final(handle) == *old(handle),
{
    if listed(*old(handle), *store, v, n, needle) {
        lemma_listed(*old(handle), *store, v, n, needle);
    }
    if unlisted(*old(handle), *store, v, n) {
        lemma_unlisted(*old(handle), *store, v, n, result->Err_0);
    }
}

/// A look for reading does the same, provided that the needle bears the expected cookie; another
/// cookie is told, and changes nothing.
pub proof fn law_look_for_reading_compares_cookies(
    handle: &mut RustVolumeReadHandle,
    store: &Store,
    expected_cookie: u32,
    v: int,
    n: int,
    needle: StreamedNeedle,
    result: Result<(), RdmaReadError>,
)
    requires
        call_ensures(
            RustVolumeReadHandle::refresh_for_read,
            (handle, store, expected_cookie),
            result,
        ),
    ensures
        listed(*old(handle), *store, v, n, needle) && needle.cookie.0 == expected_cookie
            ==> result is Ok && remembers(*final(handle), needle),
        listed(*old(handle), *store, v, n, needle) && needle.cookie.0 != expected_cookie ==> (
        result matches Err(RdmaReadError::CookieMismatch { expected, actual }) && expected
            == expected_cookie && actual == needle.cookie.0) && *final(handle) == *old(handle),
        unlisted(*old(handle), *store, v, n) ==> (result matches Err(e) && unlisted_because(
            *old(handle),
            *store,
            v,
            n,
            e,
        )) && *final(handle) == *old(handle),
{
    if listed(*old(handle), *store, v, n, needle) {
        lemma_listed(*old(handle), *store, v, n, needle);
    }
    if unlisted(*old(handle), *store, v, n) {
        lemma_unlisted(*old(handle), *store, v, n, result->Err_0);
    }
}

/// What the store says of a needle is remembered field by field.
pub proof fn law_stream_info_is_applied(handle: &mut RustVolumeReadHandle, needle: StreamedNeedle)
    requires
        call_ensures(RustVolumeReadHandle::apply_stream_info, (handle, needle), ()),
    ensures
        remembers(*final(handle), needle),
{
}

/// A read can start: the lock is to be had, and the needle is listed under the cookie that `handle`
/// was opened with.
pub open spec fn can_look(
    handle: RustVolumeReadHandle,
    access: StoreAccess,
    v: int,
    n: int,
    needle: StreamedNeedle,
) -> bool {
    &&& access matches StoreAccess::Readable(store) && listed(handle, store, v, n, needle)
    &&& needle.cookie.0 == handle.cookie
}

/// A read cannot start.
pub open spec fn cannot_look(
    handle: RustVolumeReadHandle,
    access: StoreAccess,
    v: int,
    n: int,
    needle: StreamedNeedle,
) -> bool {
    match access {
        StoreAccess::Poisoned => true,
        StoreAccess::Readable(store) => unlisted(handle, store, v, n) || (listed(
            handle,
            store,
            v,
            n,
            needle,
        ) && needle.cookie.0 != handle.cookie),
    }
}

/// `e` tells why a read cannot start.
pub open spec fn stopped_because(
    handle: RustVolumeReadHandle,
    access: StoreAccess,
    v: int,
    n: int,
    needle: StreamedNeedle,
    e: RdmaReadError,
) -> bool {
    match access {
        StoreAccess::Poisoned => other(e, "store read lock poisoned"@),
        StoreAccess::Readable(store) => if listed(handle, store, v, n, needle) {
            e matches RdmaReadError::CookieMismatch { expected, actual } && expected
                == handle.cookie && actual == needle.cookie.0
        } else {
            unlisted_because(handle, store, v, n, e)
        },
    }
}

proof fn lemma_can_look(
    handle: RustVolumeReadHandle,
    access: StoreAccess,
    v: int,
    n: int,
    needle: StreamedNeedle,
)
    requires
        can_look(handle, access, v, n, needle),
    ensures
        handle.current(access) matches Ok(after) && remembers(after, needle),
{
    lemma_listed(handle, access->Readable_0, v, n, needle);
}

proof fn lemma_cannot_look(
    handle: RustVolumeReadHandle,
    access: StoreAccess,
    v: int,
    n: int,
    needle: StreamedNeedle,
    e: RdmaReadError,
)
    requires
        cannot_look(handle, access, v, n, needle),
    ensures
        handle.current(access) is Err,
        handle.current(access) == Err::<RustVolumeReadHandle, _>(e@) ==> stopped_because(
            handle,
            access,
            v,
            n,
            needle,
            e,
        ),
{
    if let StoreAccess::Readable(store) = access {
        if listed(handle, store, v, n, needle) {
            lemma_listed(handle, store, v, n, needle);
        } else {
            lemma_unlisted(handle, store, v, n, e);
        }
    }
}

/// Checking a range looks again, and then succeeds if and only if the range starts inside the
/// payload as it is now and ends within it.
pub proof fn law_range_is_checked_against_the_needle_as_it_is(
    handle: &mut RustVolumeReadHandle,
    access: &StoreAccess,
    offset: u64,
    length: u64,
    v: int,
    n: int,
    needle: StreamedNeedle,
    result: Result<(), RdmaReadError>,
)
    requires
        call_ensures(
            RustVolumeReadHandle::validate_read_range,
            (handle, access, offset, length),
            result,
        ),
    ensures
        can_look(*old(handle), *access, v, n, needle) ==> {
            let size = needle.info.data_size as int;
            &&& remembers(*final(handle), needle)
            &&& result is Ok <==> offset < size && offset + length <= size
            &&& result matches Err(e) ==> bad_range(e, size, offset as int, length as int)
        },
        cannot_look(*old(handle), *access, v, n, needle) ==> *final(handle) == *old(handle) && (
        result matches Err(e) && stopped_because(*old(handle), *access, v, n, needle, e)),
{
    if can_look(*old(handle), *access, v, n, needle) {
        lemma_can_look(*old(handle), *access, v, n, needle);
    }
    if cannot_look(*old(handle), *access, v, n, needle) {
        lemma_cannot_look(*old(handle), *access, v, n, needle, result->Err_0);
    }
}

/// `result` is a read of `length` bytes at `offset` of the payload of `needle`, in its own file and
/// at its own place there, or says that no file has that place.
pub open spec fn reads_at(
    result: Result<PhysicalRead, RdmaReadError>,
    needle: StreamedNeedle,
    offset: int,
    length: int,
) -> bool {
    let place = needle.info.data_file_offset + offset;
    if place <= 18446744073709551615 {
        result matches Ok(read) && read.source == needle.info.source && read.offset == place
            && read.length == length
    } else {
        result matches Err(e) && other(e, "physical offset overflow"@)
    }
}

/// A read into a buffer looks again, is refused if and only if its range does not lie in the
/// payload as it is now, and else reads the needle's own file at the payload's place plus the
/// offset, as many bytes as the buffer has.
pub proof fn law_exact_read_fills_the_buffer(
    handle: &mut RustVolumeReadHandle,
    access: &StoreAccess,
    offset: u64,
    length: usize,
    v: int,
    n: int,
    needle: StreamedNeedle,
    result: Result<PhysicalRead, RdmaReadError>,
)
    requires
        call_ensures(RustVolumeReadHandle::read_exact_at, (handle, access, offset, length), result),
    ensures
        can_look(*old(handle), *access, v, n, needle) ==> {
            let size = needle.info.data_size as int;
            &&& remembers(*final(handle), needle)
            &&& if offset < size && offset + length <= size {
                reads_at(result, needle, offset as int, length as int)
            } else {
                result matches Err(e) && bad_range(e, size, offset as int, length as int)
            }
        },
        cannot_look(*old(handle), *access, v, n, needle) ==> *final(handle) == *old(handle) && (
        result matches Err(e) && stopped_because(*old(handle), *access, v, n, needle, e)),
{
    if can_look(*old(handle), *access, v, n, needle) {
        lemma_can_look(*old(handle), *access, v, n, needle);
    }
    if cannot_look(*old(handle), *access, v, n, needle) {
        lemma_cannot_look(*old(handle), *access, v, n, needle, result->Err_0);
    }
}

/// How many bytes a read of `length` bytes at `offset` takes: what was asked for or, where nothing
/// was, all that is left of `size`.
pub open spec fn bytes_taken(size: int, offset: int, length: int) -> int {
    if length == 0 {
        size - offset
    } else {
        length
    }
}

/// `e` refuses a read of that many bytes as too long.
pub open spec fn too_long(e: RdmaReadError, taken: int) -> bool {
    e matches RdmaReadError::Other(message) && exists|shown: Seq<char>| #[trigger]
        text::writes(shown, taken, 1) && message@ == "requested read exceeds max_len: "@ + shown
}

/// A read into a buffer of its own looks again, reads what was asked for or, where nothing was, all
/// that is left of the payload as it is now, and refuses more than `max_len` bytes.
pub proof fn law_bounded_read_takes_what_is_asked_or_left(
    handle: &mut RustVolumeReadHandle,
    access: &StoreAccess,
    offset: u64,
    length: u64,
    max_len: usize,
    v: int,
    n: int,
    needle: StreamedNeedle,
    result: Result<PhysicalRead, RdmaReadError>,
)
    requires
        call_ensures(
            RustVolumeReadHandle::read_at,
            (handle, access, offset, length, max_len),
            result,
        ),
    ensures
        can_look(*old(handle), *access, v, n, needle) ==> {
            let size = needle.info.data_size as int;
            let taken = bytes_taken(size, offset as int, length as int);
            &&& remembers(*final(handle), needle)
            &&& if offset < size && offset + length <= size {
                if taken <= max_len {
                    reads_at(result, needle, offset as int, taken)
                } else {
                    result matches Err(e) && too_long(e, taken)
                }
            } else {
                result matches Err(e) && bad_range(e, size, offset as int, length as int)
            }
        },
        cannot_look(*old(handle), *access, v, n, needle) ==> *final(handle) == *old(handle) && (
        result matches Err(e) && stopped_because(*old(handle), *access, v, n, needle, e)),
{
    if can_look(*old(handle), *access, v, n, needle) {
        lemma_can_look(*old(handle), *access, v, n, needle);
        let size = needle.info.data_size as int;
        let taken = bytes_taken(size, offset as int, length as int);
        if taken >= 0 {
            text::lemma_decimal(taken as nat);
            let shown = crate::text::decimal_text(taken as nat);
            assert(text::writes(shown, taken, 1));
            if let Err(RdmaReadError::Other(message)) = result {
                if taken > max_len && offset < size && offset + length <= size {
                    assert(message@ == "requested read exceeds max_len: "@ + shown);
                }
            }
        }
    }
    if cannot_look(*old(handle), *access, v, n, needle) {
        lemma_cannot_look(*old(handle), *access, v, n, needle, result->Err_0);
    }
}

/// The lengths of the segments, added up.
pub open spec fn sum_of_lengths(segments: Seq<ReadSegment>) -> int
    decreases segments.len(),
{
    if segments.len() == 0 {
        0
    } else {
        segments[0].length + sum_of_lengths(segments.drop_first())
    }
}

proof fn lemma_sum_of_lengths(segments: Seq<ReadSegment>)
    ensures
        sum_of_lengths(segments) == needle_source::total_length(segments),
    decreases segments.len(),
{
    if segments.len() == 1 {
        reveal_with_fuel(sum_of_lengths, 2);
        reveal_with_fuel(needle_source::total_length, 2);
    } else if segments.len() > 1 {
        let head = segments.drop_last();
        let rest = segments.drop_first();
        lemma_sum_of_lengths(rest);
        lemma_sum_of_lengths(head);
        lemma_sum_of_lengths(rest.drop_last());
        assert(head.drop_first() =~= rest.drop_last());
        assert(rest.last() == segments.last());
        assert(head[0] == segments[0]);
    }
}

/// A segmented read looks again once, and is refused if and only if its whole range does not lie in
/// the payload as it is now. Else every segment is read, in order: its own number of bytes, from
/// the needle's own file, at the payload's place plus the offset plus the segment's. Only a place
/// that no file has stops it.
pub proof fn law_segments_are_read_in_order(
    handle: &mut RustVolumeReadHandle,
    access: &StoreAccess,
    offset: u64,
    segments: &[ReadSegment],
    v: int,
    n: int,
    needle: StreamedNeedle,
    result: Result<SegmentReads, RdmaReadError>,
)
    requires
        call_ensures(
            RustVolumeReadHandle::read_exact_at_segments,
            (handle, access, offset, segments),
            result,
        ),
    ensures
        sum_of_lengths(segments@) > 18446744073709551615 ==> *final(handle) == *old(handle) && (
        result matches Err(e) && other(e, "segment length overflow"@)),
        sum_of_lengths(segments@) <= 18446744073709551615 && can_look(
            *old(handle),
            *access,
            v,
            n,
            needle,
        ) ==> {
            let size = needle.info.data_size as int;
            let sum = sum_of_lengths(segments@);
            &&& remembers(*final(handle), needle)
            &&& if offset < size && offset + sum <= size {
                result matches Ok(plan) && {
                    let k = plan.reads@.len() as int;
                    &&& k <= segments@.len()
                    &&& forall|i: int|
                        0 <= i < k ==> (#[trigger] plan.reads@[i]).source == needle.info.source
                            && plan.reads@[i].length == segments@[i].length
                            && plan.reads@[i].offset == needle.info.data_file_offset + offset
                            + segments@[i].request_offset
                    &&& plan.stopped is None <==> k == segments@.len()
                    &&& plan.stopped matches Some(e) ==> {
                        let place = offset + segments@[k].request_offset;
                        ||| place > 18446744073709551615 && other(e, "segment offset overflow"@)
                        ||| place <= 18446744073709551615 && needle.info.data_file_offset + place
                            > 18446744073709551615 && other(e, "physical offset overflow"@)
                    }
                }
            } else {
                result matches Err(e) && bad_range(e, size, offset as int, sum)
            }
        },
        sum_of_lengths(segments@) <= 18446744073709551615 && cannot_look(
            *old(handle),
            *access,
            v,
            n,
            needle,
        ) ==> *final(handle) == *old(handle) && (result matches Err(e) && stopped_because(
            *old(handle),
            *access,
            v,
            n,
            needle,
            e,
        )),
{
    lemma_sum_of_lengths(segments@);
    if can_look(*old(handle), *access, v, n, needle) {
        lemma_can_look(*old(handle), *access, v, n, needle);
    }
    if cannot_look(*old(handle), *access, v, n, needle) {
        lemma_cannot_look(*old(handle), *access, v, n, needle, result->Err_0);
    }
}

/// A read of what a handle remembers goes to the file and the place that it remembers.
pub proof fn law_current_source_is_read(
    handle: &RustVolumeReadHandle,
    offset: u64,
    length: u64,
    result: Result<PhysicalRead, RdmaReadError>,
)
    requires
        call_ensures(
            RustVolumeReadHandle::read_with_current_source,
            (handle, offset, length),
            result,
        ),
    ensures
        match handle.source {
            None => result matches Err(e) && other(e, "read handle has no stream source"@),
            Some(source) => if handle.data_file_offset + offset <= 18446744073709551615 {
                result matches Ok(read) && read.source == source && read.offset
                    == handle.data_file_offset + offset && read.length == length
            } else {
                result matches Err(e) && other(e, "physical offset overflow"@)
            },
        },
{
}

/// A handle tells the length and the cookie that it remembers, and that it reads into slots.
pub proof fn law_handle_tells_what_it_remembers(
    handle: &RustVolumeReadHandle,
    len: u64,
    cookie: u32,
    direct: bool,
)
    requires
        call_ensures(RustVolumeReadHandle::len, (handle,), len),
        call_ensures(RustVolumeReadHandle::cookie, (handle,), cookie),
        call_ensures(RustVolumeReadHandle::supports_direct_slot_reads, (handle,), direct),
    ensures
        len == handle.data_size,
        cookie == handle.cookie,
        direct,
{
}

/// A read ends with what the file gave, or with the failure of the file.
pub proof fn law_read_ends_as_the_file_answered<T>(
    answer: Result<T, IoError>,
    result: Result<T, RdmaReadError>,
)
    requires
        call_ensures(conclude_read::<T>, (answer,), result),
    ensures
        answer matches Ok(value) ==> result == Ok::<_, RdmaReadError>(value),
        answer matches Err(e) ==> result == Err::<T, _>(RdmaReadError::Io(e)),
{
}

/// A segmented read ends with the first failure: of the file or, where the file did not fail, of
/// the segment that stopped it.
pub proof fn law_segments_end_with_the_first_failure(
    plan: SegmentReads,
    failed: Option<IoError>,
    result: Result<(), RdmaReadError>,
)
    requires
        call_ensures(SegmentReads::conclude, (plan, failed), result),
    ensures
        result is Ok <==> failed is None && plan.stopped is None,
        failed matches Some(e) ==> result == Err::<(), _>(RdmaReadError::Io(e)),
        failed is None ==> (plan.stopped matches Some(e) ==> result == Err::<(), _>(e)),
{
}

/// A readable store is handed out whole; a poisoned lock is told in each caller's own terms.
pub proof fn law_poisoned_locks_are_told(
    access: &StoreAccess,
    optional: Option<&Store>,
    opening: Result<&Store, RdmaOpenError>,
    reading: Result<&Store, RdmaReadError>,
)
    requires
        call_ensures(StoreAccess::with_read_option, (access,), optional),
        call_ensures(StoreAccess::with_read_open, (access,), opening),
        call_ensures(StoreAccess::with_read, (access,), reading),
    ensures
        match *access {
            StoreAccess::Readable(store) => {
                &&& optional matches Some(found) && *found == store
                &&& opening matches Ok(found) && *found == store
                &&& reading matches Ok(found) && *found == store
            },
            StoreAccess::Poisoned => {
                &&& optional is None
                &&& opening matches Err(RdmaOpenError::Other(message)) && message@
                    == "store read lock poisoned"@
                &&& reading matches Err(e) && other(e, "store read lock poisoned"@)
            },
        },
{
}

} // verus!
