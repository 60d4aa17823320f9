//! Volumes and needles of a store.

use vstd::prelude::*;

use crate::storage::file_id::{NeedleId, VolumeId};
use crate::storage::io_error::{IoError, IoErrorKind};
use crate::storage::volume;
use crate::storage::volume::{NeedleEntry, Store, StreamedNeedle, Volume, VolumeError};

verus! {

/// The volume `id` is the one at `v`: the first of that name.
pub open spec fn volume_at(store: Store, id: u32, v: int) -> bool {
    &&& 0 <= v < store.volumes@.len()
    &&& store.volumes@[v].id.0 == id
    &&& forall|j: int| 0 <= j < v ==> (#[trigger] store.volumes@[j]).id.0 != id
}

/// There is no volume `id`.
pub open spec fn no_volume(store: Store, id: u32) -> bool {
    forall|j: int| 0 <= j < store.volumes@.len() ==> (#[trigger] store.volumes@[j]).id.0 != id
}

/// The needle `id` of a volume is the one at `n`: the first of that name.
pub open spec fn needle_at(volume: Volume, id: u64, n: int) -> bool {
    &&& 0 <= n < volume.needles@.len()
    &&& volume.needles@[n].id.0 == id
    &&& forall|j: int| 0 <= j < n ==> (#[trigger] volume.needles@[j]).id.0 != id
}

/// A volume has no needle `id`.
pub open spec fn no_needle(volume: Volume, id: u64) -> bool {
    forall|j: int| 0 <= j < volume.needles@.len() ==> (#[trigger] volume.needles@[j]).id.0 != id
}

proof fn lemma_first_volume(volumes: Seq<Volume>, id: VolumeId)
    ensures
        match volume::first_volume(volumes, id) {
            Some(found) => exists|v: int|
                0 <= v < volumes.len() && #[trigger] volumes[v] == found && volumes[v].id.0 == id.0
                    && forall|j: int| 0 <= j < v ==> (#[trigger] volumes[j]).id.0 != id.0,
            None => forall|j: int| 0 <= j < volumes.len() ==> (#[trigger] volumes[j]).id.0 != id.0,
        },
    decreases volumes.len(),
{
    if volumes.len() > 0 {
        let rest = volumes.drop_first();
        if volumes[0].id == id {
            assert(volumes[0].id.0 == id.0);
        } else {
            assert(volumes[0].id.0 != id.0);
            lemma_first_volume(rest, id);
            match volume::first_volume(rest, id) {
                Some(found) => {
                    let w = choose|w: int|
                        0 <= w < rest.len() && #[trigger] rest[w] == found && rest[w].id.0 == id.0
                            && forall|j: int| 0 <= j < w ==> (#[trigger] rest[j]).id.0 != id.0;
                    assert(volumes[w + 1] == found);
                    assert forall|j: int| 0 <= j < w + 1 implies (#[trigger] volumes[j]).id.0
                        != id.0 by {
                        if j > 0 {
                            assert(volumes[j] == rest[j - 1]);
                        }
                    }
                },
                None => {
                    assert forall|j: int| 0 <= j < volumes.len() implies (
                    #[trigger] volumes[j]).id.0 != id.0 by {
                        if j > 0 {
                            assert(volumes[j] == rest[j - 1]);
                        }
                    }
                },
            }
        }
    }
}

pub(crate) proof fn lemma_volume_at(store: Store, id: u32, v: int)
    requires
        volume_at(store, id, v),
    ensures
        store.volume(VolumeId(id)) == Some(store.volumes@[v]),
{
    lemma_first_volume(store.volumes@, VolumeId(id));
    let volumes = store.volumes@;
    match volume::first_volume(volumes, VolumeId(id)) {
        Some(found) => {
            let w = choose|w: int|
                0 <= w < volumes.len() && #[trigger] volumes[w] == found && volumes[w].id.0 == id
                    && forall|j: int| 0 <= j < w ==> (#[trigger] volumes[j]).id.0 != id;
            assert(w == v);
        },
        None => {
            assert(volumes[v].id.0 != id);
        },
    }
}

pub(crate) proof fn lemma_no_volume(store: Store, id: u32)
    requires
        no_volume(store, id),
    ensures
        store.volume(VolumeId(id)) is None,
{
    lemma_first_volume(store.volumes@, VolumeId(id));
}

pub(crate) proof fn lemma_needle_at(needles: Seq<NeedleEntry>, id: u64, n: int)
    requires
        0 <= n < needles.len(),
        needles[n].id.0 == id,
        forall|j: int| 0 <= j < n ==> (#[trigger] needles[j]).id.0 != id,
    ensures
        volume::first_answer(needles, NeedleId(id)) == needles[n].answer,
    decreases needles.len(),
{
    if n > 0 {
        let rest = needles.drop_first();
        assert(needles[0].id.0 != id);
        assert(needles[0].id != NeedleId(id));
        assert forall|j: int| 0 <= j < n - 1 implies (#[trigger] rest[j]).id.0 != id by {
            assert(rest[j] == needles[j + 1]);
        }
        lemma_needle_at(rest, id, n - 1);
    } else {
        assert(needles[0].id == NeedleId(id));
    }
}

pub(crate) proof fn lemma_no_needle(needles: Seq<NeedleEntry>, id: u64)
    requires
        forall|j: int| 0 <= j < needles.len() ==> (#[trigger] needles[j]).id.0 != id,
    ensures
        volume::first_answer(needles, NeedleId(id)) == Err::<StreamedNeedle, _>(
            VolumeError::NotFound,
        ),
    decreases needles.len(),
{
    if needles.len() > 0 {
        let rest = needles.drop_first();
        assert(needles[0].id.0 != id);
        assert(needles[0].id != NeedleId(id));
        assert forall|j: int| 0 <= j < rest.len() implies (#[trigger] rest[j]).id.0 != id by {
            assert(rest[j] == needles[j + 1]);
        }
        lemma_no_needle(rest, id);
    }
}

/// A volume is found if there is one of that name, and it is the first.
pub proof fn law_volume_is_found(store: &Store, id: VolumeId, v: int, found: Option<&Volume>)
    requires
        call_ensures(Store::find_volume, (store, id), found),
    ensures
        volume_at(*store, id.0, v) ==> (found matches Some(volume) && *volume
            == store.volumes@[v]),
        no_volume(*store, id.0) ==> found is None,
{
    if volume_at(*store, id.0, v) {
        lemma_volume_at(*store, id.0, v);
    }
    if no_volume(*store, id.0) {
        lemma_no_volume(*store, id.0);
    }
}

/// The store answers for a needle as it is listed: with the first entry of that name in the first
/// volume of that name, and that there is none where either is missing.
pub proof fn law_store_answers_as_listed(
    store: &Store,
    volume_id: VolumeId,
    needle_id: NeedleId,
    v: int,
    n: int,
    answer: Result<StreamedNeedle, VolumeError>,
)
    requires
        call_ensures(
            Store::read_volume_needle_stream_info,
            (store, volume_id, needle_id),
            answer,
        ),
    ensures
        volume_at(*store, volume_id.0, v) && needle_at(store.volumes@[v], needle_id.0, n) ==> answer
            == store.volumes@[v].needles@[n].answer,
        volume_at(*store, volume_id.0, v) && no_needle(store.volumes@[v], needle_id.0) ==> answer
            == Err::<StreamedNeedle, _>(VolumeError::NotFound),
        no_volume(*store, volume_id.0) ==> answer == Err::<StreamedNeedle, _>(
            VolumeError::NotFound,
        ),
{
    if no_volume(*store, volume_id.0) {
        lemma_no_volume(*store, volume_id.0);
    }
    if volume_at(*store, volume_id.0, v) {
        lemma_volume_at(*store, volume_id.0, v);
        let volume = store.volumes@[v];
        if needle_at(volume, needle_id.0, n) {
            lemma_needle_at(volume.needles@, needle_id.0, n);
        }
        if no_needle(volume, needle_id.0) {
            lemma_no_needle(volume.needles@, needle_id.0);
        }
    }
}

/// A failure has the kind and the words that it was made with.
pub proof fn law_io_errors_keep_their_words(kind: IoErrorKind, message: &str, error: IoError)
    requires
        call_ensures(IoError::new, (kind, message), error),
    ensures
        error.kind == kind,
        error.message@ == message@,
{
}

} // verus!
