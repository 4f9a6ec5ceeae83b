//! The seek resolver: from the outcome of a seek to the selection to play.

use vstd::prelude::*;
use crate::error::{ErrorKind, StreamError};
use crate::track::{first_supported, first_supported_track, PlaybackSelection, Track};

verus! {

/// How an attempt to seek ended, or that the stream asked for a reset.
#[derive(Clone, Copy, Debug, PartialEq, Eq, Structural)]
pub enum SeekOutcome {
    /// The reader seeked; decoding must start at this timestamp.
    Seeked(u64),
    /// The tracks of the stream changed.
    ResetRequired,
    /// The seek failed for another reason.
    Failed,
}

/// The outcome that a failed seek stands for.
pub open spec fn outcome_of(err: StreamError) -> SeekOutcome {
    if err.kind == ErrorKind::ResetRequired {
        SeekOutcome::ResetRequired
    } else {
        SeekOutcome::Failed
    }
}

/// The selection after a seek on track `track_id`. Without a seek, and after
/// one that failed, the track plays from its start. After a seek that
/// succeeded it plays from the timestamp the reader asked for. After a reset
/// the first track with a known codec plays from its start, if there is one.
pub open spec fn resolved(track_id: u32, outcome: Option<SeekOutcome>, tracks: Seq<Track>) -> Option<
    PlaybackSelection,
> {
    match outcome {
        Some(SeekOutcome::Seeked(required_ts)) => Some(
            PlaybackSelection { track_id, seek_floor: required_ts },
        ),
        Some(SeekOutcome::ResetRequired) => match first_supported(tracks) {
            Some(t) => Some(PlaybackSelection { track_id: t.id, seek_floor: 0 }),
            None => None,
        },
        Some(SeekOutcome::Failed) | None => Some(PlaybackSelection { track_id, seek_floor: 0 }),
    }
}

/// Reads a failed seek: a reset asks for a new selection, any other failure
/// only loses the seek.
pub fn classify_failure(err: &StreamError) -> (outcome: SeekOutcome)
    ensures
        outcome == outcome_of(*err),
{
    match err.kind {
        ErrorKind::ResetRequired => SeekOutcome::ResetRequired,
        _ => SeekOutcome::Failed,
    }
}

/// Decides what to play after a seek. `outcome` is `None` where no seek was
/// asked for; `tracks` are the stream's tracks as they are after the seek.
/// `None` is returned only after a reset that left no track with a known
/// codec: there is nothing to play then.
pub fn resolve_seek(track_id: u32, outcome: Option<SeekOutcome>, tracks: &[Track]) -> (selection:
    Option<PlaybackSelection>)
    ensures
        selection == resolved(track_id, outcome, tracks@),
{
    match outcome {
        Some(SeekOutcome::Seeked(required_ts)) => Some(
            PlaybackSelection { track_id, seek_floor: required_ts },
        ),
        Some(SeekOutcome::ResetRequired) => match first_supported_track(tracks) {
            Some(t) => Some(PlaybackSelection { track_id: t.id, seek_floor: 0 }),
            None => None,
        },
        Some(SeekOutcome::Failed) => Some(PlaybackSelection { track_id, seek_floor: 0 }),
        None => Some(PlaybackSelection { track_id, seek_floor: 0 }),
    }
}

} // verus!
