use seaweed_volume::rdma::needle_source::{
    conclude_read, locate_in_store, resolve_read_len, validate_range, PhysicalRead, ReadSegment,
    RustVolumeReadHandle, SegmentReads, StoreAccess, StoreNeedleSource,
};
use seaweed_volume::rdma::pread::read_exact_at;
use seaweed_volume::rdma::read_error::{
    read_error_from_volume, read_to_open_error, RdmaOpenError, RdmaReadError,
};
use seaweed_volume::storage::file_id::{Cookie, NeedleId, VolumeId};
use seaweed_volume::storage::io_error::{IoError, IoErrorKind};
use seaweed_volume::storage::volume::{
    NeedleEntry, NeedleStreamInfo, NeedleStreamSource, Store, StreamedNeedle, Volume, VolumeError,
    VERSION_1,
};

const SOURCE: NeedleStreamSource = NeedleStreamSource(17);

/// Read errors in words, as a substrate might have them.
fn words(e: RdmaReadError) -> String {
    format!("{:?}", e)
}

/// A volume with its data file in memory.
struct Disk {
    dat: Vec<u8>,
    version: u8,
    needles: Vec<(u64, StreamedNeedle)>,
}

impl Disk {
    fn new(version: u8) -> Disk {
        Disk {
            dat: vec![version, 0, 0, 0, 0, 0, 0, 0],
            version,
            needles: Vec::new(),
        }
    }

    fn write(&mut self, id: u64, cookie: u32, data: &[u8]) {
        self.dat.extend_from_slice(&cookie.to_be_bytes());
        self.dat.extend_from_slice(&id.to_be_bytes());
        self.dat
            .extend_from_slice(&(data.len() as u32 + 5).to_be_bytes());
        self.dat.extend_from_slice(&(data.len() as u32).to_be_bytes());
        let data_file_offset = self.dat.len() as u64;
        self.dat.extend_from_slice(data);
        self.dat.push(0);
        let needle = StreamedNeedle {
            info: NeedleStreamInfo {
                source: SOURCE,
                volume_id: VolumeId(3),
                needle_id: NeedleId(id),
                data_file_offset,
                data_size: data.len() as u32,
                compaction_revision: 2,
            },
            cookie: Cookie(cookie),
        };
        self.needles.retain(|(other, _)| *other != id);
        self.needles.push((id, needle));
    }

    fn store(&self) -> Store {
        Store {
            volumes: vec![Volume {
                id: VolumeId(3),
                version: self.version,
                dat_path: "/data/3.dat".to_string(),
                needles: self
                    .needles
                    .iter()
                    .map(|(id, needle)| NeedleEntry {
                        id: NeedleId(*id),
                        answer: Ok(*needle),
                    })
                    .collect(),
            }],
        }
    }

    fn access(&self) -> StoreAccess {
        StoreAccess::Readable(self.store())
    }

    fn source(&self) -> StoreNeedleSource {
        StoreNeedleSource::new(self.access())
    }

    fn read(&self, plan: PhysicalRead) -> Result<Vec<u8>, RdmaReadError> {
        assert_eq!(plan.source, SOURCE);
        conclude_read(read_exact_at(&self.dat, plan.offset, plan.length as usize))
    }
}

fn make_store_with_needle(data: &[u8], cookie: u32) -> (Disk, String) {
    let mut disk = Disk::new(3);
    disk.write(1, cookie, data);
    let fid = format!("3,{:02x}{:08x}", 1u64, cookie);
    (disk, fid)
}

/// Buffers of one size, as an RDMA pool has them.
struct Pool {
    slots: usize,
    slot_size: usize,
    allocated: usize,
}

impl Pool {
    fn deallocate(&mut self, batch: Vec<(ReadSegment, Vec<u8>)>) -> usize {
        self.allocated -= batch.len();
        batch.len()
    }
}

enum SlotReadError {
    Exhausted,
    Read(RdmaReadError),
}

/// Fills slots of the pool from a handle, and gives each slot with its segment.
fn read_handle_to_slots(
    pool: &mut Pool,
    disk: &Disk,
    handle: &mut RustVolumeReadHandle,
    offset: u64,
    length: u64,
) -> Result<Vec<(ReadSegment, Vec<u8>)>, SlotReadError> {
    handle
        .validate_read_range(&disk.access(), offset, length)
        .map_err(SlotReadError::Read)?;
    let needed = (length as usize + pool.slot_size - 1) / pool.slot_size;
    if pool.slots - pool.allocated < needed {
        return Err(SlotReadError::Exhausted);
    }
    let mut segments = Vec::new();
    let mut at = 0;
    while at < length {
        let taken = (length - at).min(pool.slot_size as u64);
        segments.push(ReadSegment {
            request_offset: at,
            length: taken as usize,
        });
        at += taken;
    }
    let plan = handle
        .read_exact_at_segments(&disk.access(), offset, &segments)
        .map_err(SlotReadError::Read)?;
    let mut filled = Vec::new();
    for read in &plan.reads {
        filled.push(disk.read(*read).map_err(SlotReadError::Read)?);
    }
    plan.conclude(None).map_err(SlotReadError::Read)?;
    pool.allocated += needed;
    Ok(segments.into_iter().zip(filled).collect())
}

#[test]
fn locate_hit_uses_stream_info_and_volume_dat_path() {
    let (disk, fid) = make_store_with_needle(b"hello rdma", 0x89b26a98);
    let store = disk.store();

    let loc = locate_in_store(&store, &fid).unwrap();

    assert_eq!(loc.volume_id, 3);
    assert_eq!(loc.length, 10);
    assert!(loc.dat_path.as_deref().unwrap().ends_with("3.dat"));
    assert!(loc.offset > 0);

    let needle = store
        .read_volume_needle_stream_info(VolumeId(3), NeedleId(1))
        .unwrap();
    assert_eq!(loc.offset, needle.info.data_file_offset);
}

#[test]
fn locate_offset_points_at_payload_bytes_not_record_header() {
    let (disk, fid) = make_store_with_needle(b"hello rdma", 0x89b26a98);

    let loc = locate_in_store(&disk.store(), &fid).unwrap();
    let payload = read_exact_at(&disk.dat, loc.offset, loc.length as usize).unwrap();

    assert_eq!(payload, b"hello rdma");
}

#[test]
fn locate_missing_volume_returns_none() {
    let (disk, _fid) = make_store_with_needle(b"hello rdma", 0x89b26a98);
    assert!(locate_in_store(&disk.store(), "999,189b26a98").is_none());
}

#[test]
fn locate_missing_key_returns_none() {
    let (disk, _fid) = make_store_with_needle(b"hello rdma", 0x89b26a98);
    assert!(locate_in_store(&disk.store(), "3,0289b26a98").is_none());
}

#[test]
fn locate_refuses_malformed_ids_and_the_oldest_format() {
    let (mut disk, fid) = make_store_with_needle(b"hello rdma", 0x89b26a98);
    assert!(locate_in_store(&disk.store(), "hello").is_none());
    assert!(disk.source().locate(&fid).is_some());
    assert!(disk.source().locate("3,01cafebabe").is_some());
    assert!(StoreNeedleSource::new(StoreAccess::Poisoned)
        .locate(&fid)
        .is_none());
    disk.version = VERSION_1;
    assert!(disk.source().locate(&fid).is_none());
}

#[test]
fn read_handle_reports_cookie_and_serves_payload_offset() {
    let (disk, fid) = make_store_with_needle(b"hello rdma", 0x89b26a98);

    let mut handle = disk.source().open(&fid, words).unwrap();
    let plan = handle.read_exact_at(&disk.access(), 6, 4).unwrap();
    let payload = disk.read(plan).unwrap();

    assert_eq!(handle.len(), 10);
    assert_eq!(handle.cookie(), 0x89b26a98);
    assert_eq!(payload, b"rdma");
}

#[test]
fn store_read_handle_advertises_direct_slot_reads() {
    let (disk, fid) = make_store_with_needle(b"hello rdma", 0x89b26a98);

    let handle = disk.source().open(&fid, words).unwrap();

    assert!(handle.supports_direct_slot_reads());
}

#[test]
fn store_read_handle_fills_rdma_buffer_slots() {
    let (disk, fid) = make_store_with_needle(b"abcdefghijklmnopqrstuvwxyz", 0x89b26a98);
    let mut handle = disk.source().open(&fid, words).unwrap();
    let mut pool = Pool {
        slots: 32 / 8,
        slot_size: 8,
        allocated: 0,
    };

    let batch = read_handle_to_slots(&mut pool, &disk, &mut handle, 5, 17)
        .ok()
        .unwrap();

    assert_eq!(batch.len(), 3);
    assert_eq!(batch[0].0.request_offset, 0);
    assert_eq!(batch[0].0.length, 8);
    assert_eq!(batch[1].0.request_offset, 8);
    assert_eq!(batch[1].0.length, 8);
    assert_eq!(batch[2].0.request_offset, 16);
    assert_eq!(batch[2].0.length, 1);

    let mut payload = Vec::new();
    for (_, bytes) in &batch {
        payload.extend_from_slice(bytes);
    }
    assert_eq!(payload, b"fghijklmnopqrstuv");

    assert_eq!(pool.allocated, 3);
    assert_eq!(pool.deallocate(batch), 3);
    assert_eq!(pool.allocated, 0);
}

#[test]
fn direct_slot_read_revalidates_shorter_same_cookie_rewrite() {
    let (mut disk, fid) = make_store_with_needle(b"abcdefgh", 0x89b26a98);
    let mut handle = disk.source().open(&fid, words).unwrap();
    let mut pool = Pool {
        slots: 16 / 8,
        slot_size: 8,
        allocated: 0,
    };

    disk.write(1, 0x89b26a98, b"abcd");

    let err = read_handle_to_slots(&mut pool, &disk, &mut handle, 0, 8)
        .err()
        .unwrap();

    assert!(matches!(
        err,
        SlotReadError::Read(RdmaReadError::RangeInvalid {
            len: 4,
            offset: 0,
            requested: 8
        })
    ));
    assert_eq!(pool.allocated, 0);
}

#[test]
fn direct_slot_range_invalid_precedes_buffer_exhaustion() {
    let (disk, fid) = make_store_with_needle(b"abcd", 0x89b26a98);
    let mut handle = disk.source().open(&fid, words).unwrap();
    let mut pool = Pool {
        slots: 4 / 4,
        slot_size: 4,
        allocated: 0,
    };

    let err = read_handle_to_slots(&mut pool, &disk, &mut handle, 0, 8)
        .err()
        .unwrap();

    assert!(matches!(
        err,
        SlotReadError::Read(RdmaReadError::RangeInvalid {
            len: 4,
            offset: 0,
            requested: 8
        })
    ));
    assert_eq!(pool.allocated, 0);
}

#[test]
fn direct_slot_read_accepts_longer_same_cookie_rewrite() {
    let (mut disk, fid) = make_store_with_needle(b"abcd", 0x89b26a98);
    let mut handle = disk.source().open(&fid, words).unwrap();
    let mut pool = Pool {
        slots: 16 / 4,
        slot_size: 4,
        allocated: 0,
    };

    disk.write(1, 0x89b26a98, b"abcdefgh");

    let batch = read_handle_to_slots(&mut pool, &disk, &mut handle, 0, 8)
        .ok()
        .unwrap();

    let mut payload = Vec::new();
    for (_, bytes) in &batch {
        payload.extend_from_slice(bytes);
    }
    assert_eq!(payload, b"abcdefgh");
    assert_eq!(pool.deallocate(batch), 2);
    assert_eq!(pool.allocated, 0);
}

#[test]
fn a_pool_that_is_exhausted_is_found_after_the_range_is_good() {
    let (disk, fid) = make_store_with_needle(b"abcdefgh", 0x89b26a98);
    let mut handle = disk.source().open(&fid, words).unwrap();
    let mut pool = Pool {
        slots: 1,
        slot_size: 4,
        allocated: 0,
    };
    assert!(matches!(
        read_handle_to_slots(&mut pool, &disk, &mut handle, 0, 8),
        Err(SlotReadError::Exhausted)
    ));
}

#[test]
fn read_handle_rejects_out_of_range_read() {
    let (disk, fid) = make_store_with_needle(b"hello rdma", 0x89b26a98);

    let mut handle = disk.source().open(&fid, words).unwrap();
    let err = handle.read_exact_at(&disk.access(), 8, 4).unwrap_err();

    assert!(matches!(
        err,
        RdmaReadError::RangeInvalid {
            len: 10,
            offset: 8,
            requested: 4
        }
    ));
}

#[test]
fn needles_written_after_an_open_can_be_opened() {
    let (mut disk, fid) = make_store_with_needle(b"hello rdma", 0x89b26a98);
    let first = disk.source().open(&fid, words).unwrap();
    disk.write(2, 0x01020304, b"second");
    assert_eq!(disk.source().open("3,0201020304", words).unwrap().len(), 6);
    assert_eq!(first.len(), 10);
}

#[test]
fn read_at_resolves_length_zero_after_same_cookie_rewrite() {
    let (mut disk, fid) = make_store_with_needle(b"short", 0x89b26a98);
    let mut handle = disk.source().open(&fid, words).unwrap();

    disk.write(1, 0x89b26a98, b"longer payload");

    let plan = handle.read_at(&disk.access(), 0, 0, 1024).unwrap();
    let payload = disk.read(plan).unwrap();

    assert_eq!(payload, b"longer payload");
}

#[test]
fn read_at_refuses_more_than_max_len() {
    let (disk, fid) = make_store_with_needle(b"hello rdma", 0x89b26a98);
    let mut handle = disk.source().open(&fid, words).unwrap();
    match handle.read_at(&disk.access(), 0, 0, 9).unwrap_err() {
        RdmaReadError::Other(message) => {
            assert_eq!(message, "requested read exceeds max_len: 10")
        }
        other => panic!("{:?}", other),
    }
    assert!(handle.read_at(&disk.access(), 0, 0, 10).is_ok());
    assert!(matches!(
        handle.read_at(&disk.access(), 10, 0, 10),
        Err(RdmaReadError::RangeInvalid {
            len: 10,
            offset: 10,
            requested: 0
        })
    ));
}

#[test]
fn another_cookie_bars_reading_and_changes_nothing() {
    let (mut disk, fid) = make_store_with_needle(b"hello rdma", 0x89b26a98);
    let mut handle = disk.source().open(&fid, words).unwrap();
    let before = handle;
    disk.write(1, 0xcafebabe, b"other");
    assert!(matches!(
        handle.read_exact_at(&disk.access(), 0, 1),
        Err(RdmaReadError::CookieMismatch {
            expected: 0x89b26a98,
            actual: 0xcafebabe
        })
    ));
    assert_eq!(handle, before);
}

#[test]
fn a_poisoned_lock_is_reported() {
    let (disk, fid) = make_store_with_needle(b"hello rdma", 0x89b26a98);
    let mut handle = disk.source().open(&fid, words).unwrap();
    match handle.validate_read_range(&StoreAccess::Poisoned, 0, 1) {
        Err(RdmaReadError::Other(message)) => assert_eq!(message, "store read lock poisoned"),
        other => panic!("{:?}", other),
    }
    match StoreNeedleSource::new(StoreAccess::Poisoned).open(&fid, words) {
        Err(RdmaOpenError::Other(message)) => assert_eq!(message, "store read lock poisoned"),
        other => panic!("{:?}", other),
    }
    assert!(matches!(
        StoreNeedleSource::new(StoreAccess::Poisoned).open("no fid", words),
        Err(RdmaOpenError::NotFound)
    ));
}

#[test]
fn the_oldest_format_is_not_opened() {
    let (mut disk, fid) = make_store_with_needle(b"hello rdma", 0x89b26a98);
    let mut handle = disk.source().open(&fid, words).unwrap();
    disk.version = VERSION_1;
    match disk.source().open(&fid, words) {
        Err(RdmaOpenError::Unsupported(message)) => assert_eq!(
            message,
            "VERSION_1 volumes are not supported by RDMA read handle"
        ),
        other => panic!("{:?}", other),
    }
    assert!(matches!(
        handle.refresh_from_store(&disk.store()),
        Err(RdmaReadError::Unsupported(_))
    ));
    assert!(matches!(
        handle.refresh_for_read(&disk.store(), 0x89b26a98),
        Err(RdmaReadError::Unsupported(_))
    ));
}

#[test]
fn a_needle_or_volume_that_is_gone_is_not_found() {
    let (mut disk, fid) = make_store_with_needle(b"hello rdma", 0x89b26a98);
    let mut handle = disk.source().open(&fid, words).unwrap();
    disk.needles.clear();
    assert!(matches!(
        handle.read_exact_at(&disk.access(), 0, 1),
        Err(RdmaReadError::NotFound)
    ));
    let empty = StoreAccess::Readable(Store {
        volumes: Vec::new(),
    });
    assert!(matches!(
        handle.read_exact_at(&empty, 0, 1),
        Err(RdmaReadError::NotFound)
    ));
    assert!(matches!(
        StoreNeedleSource::new(empty).open(&fid, words),
        Err(RdmaOpenError::NotFound)
    ));
}

#[test]
fn ranges_are_settled_at_their_edges() {
    assert_eq!(resolve_read_len(10, 0, 0).unwrap(), 10);
    assert_eq!(resolve_read_len(10, 9, 0).unwrap(), 1);
    assert_eq!(resolve_read_len(10, 3, 7).unwrap(), 7);
    assert!(resolve_read_len(10, 3, 8).is_err());
    assert!(resolve_read_len(10, 10, 0).is_err());
    assert!(resolve_read_len(0, 0, 0).is_err());
    assert!(matches!(
        resolve_read_len(10, 1, u64::MAX),
        Err(RdmaReadError::RangeInvalid {
            len: 10,
            offset: 1,
            requested: u64::MAX
        })
    ));
    assert!(validate_range(10, 9, 1).is_ok());
    assert!(validate_range(10, 9, 2).is_err());
}

fn handle_at(data_file_offset: u64) -> (RustVolumeReadHandle, StoreAccess) {
    let needle = StreamedNeedle {
        info: NeedleStreamInfo {
            source: SOURCE,
            volume_id: VolumeId(3),
            needle_id: NeedleId(1),
            data_file_offset,
            data_size: 100,
            compaction_revision: 0,
        },
        cookie: Cookie(5),
    };
    let store = Store {
        volumes: vec![Volume {
            id: VolumeId(3),
            version: 3,
            dat_path: "3.dat".to_string(),
            needles: vec![NeedleEntry {
                id: NeedleId(1),
                answer: Ok(needle),
            }],
        }],
    };
    let handle = RustVolumeReadHandle::open_from_store(&store, VolumeId(3), NeedleId(1), words).unwrap();
    (handle, StoreAccess::Readable(store))
}

#[test]
fn offsets_that_overflow_are_refused() {
    let (mut handle, access) = handle_at(u64::MAX - 10);
    match handle.read_exact_at(&access, 11, 1) {
        Err(RdmaReadError::Other(message)) => assert_eq!(message, "physical offset overflow"),
        other => panic!("{:?}", other),
    }
    let unread = RustVolumeReadHandle {
        source: None,
        ..handle
    };
    match unread.read_with_current_source(0, 1) {
        Err(RdmaReadError::Other(message)) => {
            assert_eq!(message, "read handle has no stream source")
        }
        other => panic!("{:?}", other),
    }
}

#[test]
fn segments_are_planned_up_to_the_first_that_cannot_be_addressed() {
    let (mut handle, access) = handle_at(50);
    let segments = [
        ReadSegment {
            request_offset: 0,
            length: 4,
        },
        ReadSegment {
            request_offset: u64::MAX,
            length: 4,
        },
        ReadSegment {
            request_offset: 8,
            length: 4,
        },
    ];
    let plan = handle
        .read_exact_at_segments(&access, 2, &segments)
        .unwrap();
    assert_eq!(
        plan.reads,
        vec![PhysicalRead {
            source: SOURCE,
            offset: 52,
            length: 4
        }]
    );
    match plan.conclude(None) {
        Err(RdmaReadError::Other(message)) => assert_eq!(message, "segment offset overflow"),
        other => panic!("{:?}", other),
    }
    let huge = [
        ReadSegment {
            request_offset: 0,
            length: usize::MAX,
        },
        ReadSegment {
            request_offset: 0,
            length: 1,
        },
    ];
    match handle.read_exact_at_segments(&StoreAccess::Poisoned, 0, &huge) {
        Err(RdmaReadError::Other(message)) => assert_eq!(message, "segment length overflow"),
        other => panic!("{:?}", other),
    }
    assert!(matches!(
        handle.read_exact_at_segments(&access, 99, &segments),
        Err(RdmaReadError::RangeInvalid {
            len: 100,
            offset: 99,
            requested: 12
        })
    ));
}

fn io_error(message: &str) -> IoError {
    IoError::new(IoErrorKind::Other, message)
}

#[test]
fn a_failed_read_is_an_io_error() {
    match conclude_read::<()>(Err(io_error("disk on fire"))) {
        Err(RdmaReadError::Io(e)) => assert_eq!(e.message, "disk on fire"),
        other => panic!("{:?}", other),
    }
    assert_eq!(conclude_read(Ok(7)).unwrap(), 7);
    let plan = SegmentReads {
        reads: Vec::new(),
        stopped: None,
    };
    assert!(matches!(
        plan.conclude(Some(io_error("disk on fire"))),
        Err(RdmaReadError::Io(_))
    ));
    let plan = SegmentReads {
        reads: Vec::new(),
        stopped: None,
    };
    assert!(plan.conclude(None).is_ok());
}

#[test]
fn volume_errors_become_read_errors() {
    assert!(matches!(
        read_error_from_volume(VolumeError::NotFound),
        RdmaReadError::NotFound
    ));
    assert!(matches!(
        read_error_from_volume(VolumeError::Deleted),
        RdmaReadError::NotFound
    ));
    match read_error_from_volume(VolumeError::UnsupportedVersion(12)) {
        RdmaReadError::Unsupported(message) => assert_eq!(message, "unsupported volume version 12"),
        other => panic!("{:?}", other),
    }
    match read_error_from_volume(VolumeError::StreamingUnsupported) {
        RdmaReadError::Unsupported(message) => {
            assert_eq!(message, "volume cannot provide a streaming source")
        }
        other => panic!("{:?}", other),
    }
    assert!(matches!(
        read_error_from_volume(VolumeError::CookieMismatch(9)),
        RdmaReadError::CookieMismatch {
            expected: 0,
            actual: 9
        }
    ));
    assert!(matches!(
        read_error_from_volume(VolumeError::Io(io_error("x"))),
        RdmaReadError::Io(_)
    ));
    match read_error_from_volume(VolumeError::Other("volume is read only".to_string())) {
        RdmaReadError::Other(message) => assert_eq!(message, "volume is read only"),
        other => panic!("{:?}", other),
    }
}

#[test]
fn read_errors_become_open_errors() {
    assert!(matches!(
        read_to_open_error(RdmaReadError::NotFound, words),
        RdmaOpenError::NotFound
    ));
    assert!(matches!(
        read_to_open_error(RdmaReadError::Unsupported("no".to_string()), words),
        RdmaOpenError::Unsupported(_)
    ));
    match read_to_open_error(RdmaReadError::Io(io_error("disk on fire")), words) {
        RdmaOpenError::Other(message) => assert_eq!(message, "disk on fire"),
        other => panic!("{:?}", other),
    }
    for (e, expected) in [
        (
            RdmaReadError::CookieMismatch {
                expected: 0,
                actual: 1,
            },
            "CookieMismatch { expected: 0, actual: 1 }",
        ),
        (
            RdmaReadError::RangeInvalid {
                len: 1,
                offset: 2,
                requested: 3,
            },
            "RangeInvalid { len: 1, offset: 2, requested: 3 }",
        ),
        (RdmaReadError::Other("why".to_string()), "Other(\"why\")"),
    ] {
        match read_to_open_error(e, words) {
            RdmaOpenError::Other(message) => assert_eq!(message, expected),
            other => panic!("{:?}", other),
        }
    }
    let mut disk = Disk::new(3);
    disk.write(1, 5, b"x");
    let mut store = disk.store();
    store.volumes[0].needles[0].answer = Err(VolumeError::CookieMismatch(8));
    match StoreNeedleSource::new(StoreAccess::Readable(store)).open("3,0100000005", words) {
        Err(RdmaOpenError::Other(message)) => {
            assert_eq!(message, "CookieMismatch { expected: 0, actual: 8 }")
        }
        other => panic!("{:?}", other),
    }
}

#[test]
fn a_validated_range_can_be_read() {
    let (disk, fid) = make_store_with_needle(b"hello rdma", 0x89b26a98);
    let mut handle = disk.source().open(&fid, words).unwrap();
    handle.validate_read_range(&disk.access(), 6, 4).unwrap();
    let validated = handle;
    let plan = handle.read_exact_at(&disk.access(), 6, 4).unwrap();
    assert_eq!(handle, validated);
    assert_eq!(disk.read(plan).unwrap(), b"rdma");
}

#[test]
fn locating_and_opening_agree() {
    let (disk, fid) = make_store_with_needle(b"hello rdma", 0x89b26a98);
    let location = disk.source().locate(&fid).unwrap();
    let handle = disk.source().open(&fid, words).unwrap();
    assert_eq!(location.offset, handle.data_file_offset);
    assert_eq!(location.length, handle.data_size);
    for missing in ["", "4,0189b26a98", "3,0289b26a98"] {
        assert!(disk.source().locate(missing).is_none());
        assert!(disk.source().open(missing, words).is_err());
    }
}
