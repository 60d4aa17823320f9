//! What one look at the store tells of its volumes and needles.
//!
//! A [`Store`] holds the answers that the volume server's store gives under one read guard. The
//! data files themselves stay on disk: a needle is known by where its payload lies.

use vstd::prelude::*;

use crate::storage::file_id::{Cookie, NeedleId, VolumeId};
use crate::storage::io_error::IoError;

verus! {

/// The format version of a volume.
pub type Version = u8;

/// The oldest volume format, whose needles carry no data size of their own.
pub const VERSION_1: Version = 1;

/// Why the store could not say where a needle lies.
#[derive(Debug)]
pub enum VolumeError {
    /// There is no such needle.
    NotFound,
    /// The needle was deleted.
    Deleted,
    /// The volume has a format that the store does not read.
    UnsupportedVersion(Version),
    /// The volume keeps its data where it cannot be streamed from.
    StreamingUnsupported,
    /// The needle has this cookie, not the one asked for.
    CookieMismatch(u32),
    /// Reading failed.
    Io(IoError),
    /// Anything else, in the store's own words.
    Other(String),
}

impl Clone for VolumeError {
    fn clone(&self) -> (copy: VolumeError)
        ensures
            copy == *self,
    {
        match self {
            VolumeError::NotFound => VolumeError::NotFound,
            VolumeError::Deleted => VolumeError::Deleted,
            VolumeError::UnsupportedVersion(version) => VolumeError::UnsupportedVersion(*version),
            VolumeError::StreamingUnsupported => VolumeError::StreamingUnsupported,
            VolumeError::CookieMismatch(actual) => VolumeError::CookieMismatch(*actual),
            VolumeError::Io(e) => VolumeError::Io(e.clone()),
            VolumeError::Other(message) => VolumeError::Other(message.clone()),
        }
    }
}

/// An open data file, by the number under which its keeper finds it again.
#[derive(Clone, Copy, Debug, PartialEq, Eq, Structural)]
pub struct NeedleStreamSource(pub u64);

/// Where the payload of a needle lies.
#[derive(Clone, Copy, Debug, PartialEq, Eq, Structural)]
pub struct NeedleStreamInfo {
    pub source: NeedleStreamSource,
    pub volume_id: VolumeId,
    pub needle_id: NeedleId,
    pub data_file_offset: u64,
    pub data_size: u32,
    pub compaction_revision: u16,
}

/// A needle that can be streamed, with the cookie that its record bears.
#[derive(Clone, Copy, Debug, PartialEq, Eq, Structural)]
pub struct StreamedNeedle {
    pub info: NeedleStreamInfo,
    pub cookie: Cookie,
}

/// The store's answer for one needle.
#[derive(Debug)]
pub struct NeedleEntry {
    pub id: NeedleId,
    pub answer: Result<StreamedNeedle, VolumeError>,
}

/// One volume.
#[derive(Debug)]
pub struct Volume {
    pub id: VolumeId,
    pub version: Version,
    /// The path of the volume's `.dat` file.
    pub dat_path: String,
    pub needles: Vec<NeedleEntry>,
}

/// The first volume called `id`.
pub open spec fn first_volume(volumes: Seq<Volume>, id: VolumeId) -> Option<Volume>
    decreases volumes.len(),
{
    if volumes.len() == 0 {
        None
    } else if volumes[0].id == id {
        Some(volumes[0])
    } else {
        first_volume(volumes.drop_first(), id)
    }
}

/// The first answer for the needle `id`, and that there is none where it is not listed.
pub open spec fn first_answer(
    needles: Seq<NeedleEntry>,
    id: NeedleId,
) -> Result<StreamedNeedle, VolumeError>
    decreases needles.len(),
{
    if needles.len() == 0 {
        Err(VolumeError::NotFound)
    } else if needles[0].id == id {
        needles[0].answer
    } else {
        first_answer(needles.drop_first(), id)
    }
}

/// What the store says under one read guard.
#[derive(Debug)]
pub struct Store {
    pub volumes: Vec<Volume>,
}

impl Store {
    /// The volume called `id`.
    pub open spec fn volume(self, id: VolumeId) -> Option<Volume> {
        first_volume(self.volumes@, id)
    }

    /// The answer for a needle of a volume.
    pub open spec fn answer(
        self,
        volume_id: VolumeId,
        needle_id: NeedleId,
    ) -> Result<StreamedNeedle, VolumeError> {
        match self.volume(volume_id) {
            None => Err(VolumeError::NotFound),
            Some(volume) => first_answer(volume.needles@, needle_id),
        }
    }

    /// Finds the volume called `id`.
    pub fn find_volume(&self, id: VolumeId) -> (found: Option<&Volume>)
        ensures
            match found {
                Some(volume) => self.volume(id) == Some(*volume),
                None => self.volume(id) is None,
            },
    {
        let mut i: usize = 0;
        assert(self.volumes@.skip(0) =~= self.volumes@);
        while i < self.volumes.len()
            invariant
                i <= self.volumes@.len(),
                self.volume(id) == first_volume(self.volumes@.skip(i as int), id),
            decreases self.volumes@.len() - i,
        {
            assert(self.volumes@.skip(i as int).drop_first() =~= self.volumes@.skip(i + 1));
            if self.volumes[i].id == id {
                return Some(&self.volumes[i]);
            }
            i = i + 1;
        }
        None
    }

    /// Where the payload of a needle lies, and the cookie in its record.
    pub fn read_volume_needle_stream_info(
        &self,
        volume_id: VolumeId,
        needle_id: NeedleId,
    ) -> (answer: Result<StreamedNeedle, VolumeError>)
        ensures
            answer == self.answer(volume_id, needle_id),
    {
        match self.find_volume(volume_id) {
            None => Err(VolumeError::NotFound),
            Some(volume) => {
                let mut i: usize = 0;
                assert(volume.needles@.skip(0) =~= volume.needles@);
                while i < volume.needles.len()
                    invariant
                        i <= volume.needles@.len(),
                        first_answer(volume.needles@, needle_id) == first_answer(
                            volume.needles@.skip(i as int),
                            needle_id,
                        ),
                        self.volume(volume_id) == Some(*volume),
                    decreases volume.needles@.len() - i,
                {
                    assert(volume.needles@.skip(i as int).drop_first() =~= volume.needles@.skip(
                        i + 1,
                    ));
                    let entry: &NeedleEntry = &volume.needles[i];
                    if entry.id == needle_id {
                        return match &entry.answer {
                            Ok(needle) => Ok(*needle),
                            Err(e) => Err(e.clone()),
                        };
                    }
                    i = i + 1;
                }
                Err(VolumeError::NotFound)
            },
        }
    }
}

} // verus!
