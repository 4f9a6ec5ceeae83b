//! Tracks of a stream and the choice of the one to play.

use vstd::prelude::*;

verus! {

/// What the controller reads of one track of the stream.
#[derive(Clone, Copy, Debug, PartialEq, Eq, Structural)]
pub struct Track {
    /// Identifier, unique within the stream.
    pub id: u32,
    /// Whether the track's codec is a known one. A track without a known
    /// codec cannot be decoded.
    pub codec_known: bool,
}

/// The track being played and the timestamp below which decoded blocks are
/// dropped.
#[derive(Clone, Copy, Debug, PartialEq, Eq, Structural)]
pub struct PlaybackSelection {
    pub track_id: u32,
    pub seek_floor: u64,
}

/// Index of the first track at or after `from` whose codec is known.
pub open spec fn first_supported_from(tracks: Seq<Track>, from: int) -> Option<int>
    decreases tracks.len() - from,
{
    if from < 0 || from >= tracks.len() {
        None
    } else if tracks[from].codec_known {
        Some(from)
    } else {
        first_supported_from(tracks, from + 1)
    }
}

/// The first track whose codec is known.
pub open spec fn first_supported(tracks: Seq<Track>) -> Option<Track> {
    match first_supported_from(tracks, 0) {
        Some(i) => Some(tracks[i]),
        None => None,
    }
}

/// Index of the first track at or after `from` with identifier `id`.
pub open spec fn position_from(tracks: Seq<Track>, id: u32, from: int) -> Option<int>
    decreases tracks.len() - from,
{
    if from < 0 || from >= tracks.len() {
        None
    } else if tracks[from].id == id {
        Some(from)
    } else {
        position_from(tracks, id, from + 1)
    }
}

/// The first track with identifier `id`.
pub open spec fn find(tracks: Seq<Track>, id: u32) -> Option<Track> {
    match position_from(tracks, id, 0) {
        Some(i) => Some(tracks[i]),
        None => None,
    }
}

/// The track to play: the one at the index the user gave, whatever its
/// codec, when that index exists; otherwise the first track with a known
/// codec.
pub open spec fn selected(tracks: Seq<Track>, track_num: Option<usize>) -> Option<Track> {
    match track_num {
        Some(n) if n < tracks.len() => Some(tracks[n as int]),
        _ => first_supported(tracks),
    }
}

/// `first_supported_from` finds the least index at or after `from` that
/// holds a track with a known codec, and finds none only where there is none.
pub proof fn lemma_first_supported_from(tracks: Seq<Track>, from: int)
    requires
        0 <= from,
    ensures
        match first_supported_from(tracks, from) {
            Some(i) => from <= i < tracks.len() && tracks[i].codec_known && forall|j: int|
                from <= j < i ==> !tracks[j].codec_known,
            None => forall|j: int| from <= j < tracks.len() ==> !tracks[j].codec_known,
        },
    decreases tracks.len() - from,
{
    if from < tracks.len() && !tracks[from].codec_known {
        lemma_first_supported_from(tracks, from + 1);
    }
}

/// `position_from` finds the least index at or after `from` that holds a
/// track with the identifier, and finds none only where there is none.
pub proof fn lemma_position_from(tracks: Seq<Track>, id: u32, from: int)
    requires
        0 <= from,
    ensures
        match position_from(tracks, id, from) {
            Some(i) => from <= i < tracks.len() && tracks[i].id == id && forall|j: int|
                from <= j < i ==> tracks[j].id != id,
            None => forall|j: int| from <= j < tracks.len() ==> tracks[j].id != id,
        },
    decreases tracks.len() - from,
{
    if from < tracks.len() && tracks[from].id != id {
        lemma_position_from(tracks, id, from + 1);
    }
}

/// Returns the first track whose codec is known, or `None` where no track
/// has one.
pub fn first_supported_track(tracks: &[Track]) -> (found: Option<&Track>)
    ensures
        match found {
            Some(t) => first_supported(tracks@) == Some(*t),
            None => first_supported(tracks@) is None,
        },
{
    let mut i: usize = 0;
    while i < tracks.len()
        invariant
            i <= tracks.len(),
            first_supported_from(tracks@, 0) == first_supported_from(tracks@, i as int),
        decreases tracks.len() - i,
    {
        if tracks[i].codec_known {
            return Some(&tracks[i]);
        }
        i += 1;
    }
    None
}

/// Returns the first track with identifier `id`, or `None` where the stream
/// has no such track.
pub fn find_track(tracks: &[Track], id: u32) -> (found: Option<&Track>)
    ensures
        match found {
            Some(t) => find(tracks@, id) == Some(*t),
            None => find(tracks@, id) is None,
        },
{
    let mut i: usize = 0;
    while i < tracks.len()
        invariant
            i <= tracks.len(),
            position_from(tracks@, id, 0) == position_from(tracks@, id, i as int),
        decreases tracks.len() - i,
    {
        if tracks[i].id == id {
            return Some(&tracks[i]);
        }
        i += 1;
    }
    None
}

/// Chooses the track to play. An index that names an existing track selects
/// it regardless of its codec; otherwise the first track with a known codec
/// is selected. `None` means that there is nothing to play.
pub fn select_track(tracks: &[Track], track_num: Option<usize>) -> (chosen: Option<&Track>)
    ensures
        match chosen {
            Some(t) => selected(tracks@, track_num) == Some(*t),
            None => selected(tracks@, track_num) is None,
        },
{
    match track_num {
        Some(n) => {
            if n < tracks.len() {
                return Some(&tracks[n]);
            }
        },
        None => {},
    }
    first_supported_track(tracks)
}

/// A selected track is a track of the list, so looking its identifier up in
/// the same list finds a track, and one with that identifier.
pub proof fn lemma_selected_is_found(tracks: Seq<Track>, track_num: Option<usize>)
    requires
        selected(tracks, track_num) is Some,
    ensures
        exists|i: int| 0 <= i < tracks.len() && tracks[i] == selected(tracks, track_num)->0,
        find(tracks, selected(tracks, track_num)->0.id) is Some,
        find(tracks, selected(tracks, track_num)->0.id)->0.id == selected(tracks, track_num)->0.id,
{
    let t = selected(tracks, track_num)->0;
    lemma_first_supported_from(tracks, 0);
    lemma_position_from(tracks, t.id, 0);
    match track_num {
        Some(n) if n < tracks.len() => {
            assert(tracks[n as int] == t);
        },
        _ => {
            assert(tracks[first_supported_from(tracks, 0)->0] == t);
        },
    }
}

/// Without a usable index, a track is selected exactly when some track has
/// a known codec, and then it is the earliest such track.
pub proof fn lemma_default_selection(tracks: Seq<Track>, track_num: Option<usize>)
    requires
        track_num is None || track_num->0 >= tracks.len(),
    ensures
        selected(tracks, track_num) is Some <==> exists|i: int|
            0 <= i < tracks.len() && tracks[i].codec_known,
        selected(tracks, track_num) is Some ==> selected(tracks, track_num)->0.codec_known,
        forall|i: int|
            0 <= i < tracks.len() && tracks[i].codec_known ==> exists|k: int|
                0 <= k <= i && tracks[k] == selected(tracks, track_num)->0 && forall|j: int|
                    0 <= j < k ==> !tracks[j].codec_known,
{
    lemma_first_supported_from(tracks, 0);
    match first_supported_from(tracks, 0) {
        Some(k) => {
            assert(0 <= k < tracks.len() && tracks[k].codec_known);
        },
        None => {},
    }
}

} // verus!
