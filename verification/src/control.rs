//! The playback control loop as a state machine.
//!
//! The controller decides; its caller does the work. Each call of
//! [`Controller::step`] takes what the last command brought and returns the
//! next command: read the tracks, seek, make a decoder, read a packet,
//! decode it, open a sink, hand it a block, flush it, finalize the decoder,
//! or leave.
//!
//! Policy on sinks: a sink that cannot be opened, or that refuses a block, is
//! fatal to the session, whichever sink it is. The sinks that are open are
//! flushed all the same before the session stops.

use vstd::prelude::*;
use crate::error::{
    do_verification, end_of_stream, is_end_of_stream, verification_status, ErrorKind, StreamError,
};
use crate::seek::{classify_failure, outcome_of, resolve_seek, resolved, SeekOutcome};
use crate::track::{
    find, find_track, first_supported, lemma_first_supported_from, lemma_position_from, select_track,
    selected, PlaybackSelection, Track,
};

verus! {

/// The rate and the number of channels of decoded audio.
#[derive(Clone, Copy, Debug, PartialEq, Eq, Structural)]
pub struct SignalSpec {
    /// Samples per second and channel.
    pub rate: u32,
    /// Number of channels.
    pub channels: u32,
}

/// What a sink is opened for: the signal's shape and the largest number of
/// frames a decoded block can hold.
#[derive(Clone, Copy, Debug, PartialEq, Eq, Structural)]
pub struct Geometry {
    pub spec: SignalSpec,
    pub capacity: u64,
}

/// Where the controller stands, named by what it waits for.
#[derive(Clone, Copy, Debug, PartialEq, Eq, Structural)]
pub enum Phase {
    /// The track list, for the first selection.
    SelectingTrack,
    /// The outcome of the seek.
    Seeking,
    /// The track list, to settle the selection after a seek that ended in
    /// `outcome`, or after a reset of the stream.
    Resolving { outcome: SeekOutcome },
    /// The decoder for the selected track.
    OpeningDecoder,
    /// The next packet.
    Reading,
    /// The decoded block of the packet with timestamp `ts`.
    Decoding { ts: u64 },
    /// The opening of sink number `opened`, for the block with timestamp `ts`.
    OpeningSink { ts: u64, geometry: Geometry },
    /// The delivery of the block with timestamp `ts` to sink `sink`.
    Writing { sink: usize, ts: u64 },
    /// The decoder's verification outcome.
    Finalizing,
    /// The flush of sink number `flushed`.
    Flushing,
    /// Nothing: the session is over.
    Stopped,
}

/// What the caller is asked to do next.
#[derive(Clone, Copy, Debug, PartialEq, Eq, Structural)]
pub enum Command {
    /// Read the stream's tracks and report them.
    ListTracks,
    /// Seek the reader to the requested time on the given track.
    Seek { track_id: u32 },
    /// Make a decoder for the given track, in place of any earlier one.
    OpenDecoder { track_id: u32 },
    /// Read the next packet.
    NextPacket,
    /// Decode the packet last read.
    Decode,
    /// Open sink `sink` for the given geometry, in place of any earlier
    /// sink of that number.
    OpenSink { sink: usize, geometry: Geometry },
    /// Hand the block last decoded, whose packet has timestamp `ts`, to
    /// sink `sink`.
    Write { sink: usize, ts: u64 },
    /// Flush sink `sink`.
    Flush { sink: usize },
    /// Finalize the decoder and report its verification outcome.
    Finalize,
    /// Leave: the session's result is settled.
    Exit,
}

/// What the last command brought.
#[derive(Clone, Debug, PartialEq, Eq)]
pub enum Event {
    /// The stream's tracks, in order.
    Tracks(Vec<Track>),
    /// The seek succeeded; decoding must start at this timestamp.
    Seeked(u64),
    /// The decoder is made.
    DecoderReady,
    /// A packet was read.
    Packet { track_id: u32, ts: u64 },
    /// The packet was decoded into a block of this geometry.
    Decoded { geometry: Geometry },
    /// The sink did what was asked.
    Done,
    /// The decoder is finalized, with this verification outcome.
    Finalized(Option<bool>),
    /// The command failed.
    Failed(StreamError),
}

/// The controller's state.
#[derive(Clone, Debug, PartialEq, Eq)]
pub struct Controller {
    /// The index of the track the user asked for, if any.
    pub track_num: Option<usize>,
    /// Whether the user asked for a seek.
    pub seek: bool,
    /// The number of sinks; they are numbered from 0, the audio output first.
    pub n_sinks: usize,
    pub phase: Phase,
    /// The track being played and its seek floor.
    pub selection: PlaybackSelection,
    /// Sinks `0 .. opened` are open.
    pub opened: usize,
    /// Sinks `0 .. flushed` have been flushed.
    pub flushed: usize,
    /// The geometry the open sinks were opened for.
    pub geometry: Option<Geometry>,
    /// Whether the stream was reset since the sinks' geometry was last
    /// compared with a decoded block.
    pub reset_pending: bool,
    /// The session's result, once it is settled.
    pub outcome: Option<Result<i32, StreamError>>,
}

impl Controller {
    /// The state before the first command.
    pub open spec fn initial(track_num: Option<usize>, seek: bool, n_sinks: usize) -> Controller {
        Controller {
            track_num,
            seek,
            n_sinks,
            phase: Phase::SelectingTrack,
            selection: PlaybackSelection { track_id: 0, seek_floor: 0 },
            opened: 0,
            flushed: 0,
            geometry: None,
            reset_pending: false,
            outcome: None,
        }
    }

    /// The command that the controller waits on.
    pub open spec fn pending(self) -> Command {
        match self.phase {
            Phase::SelectingTrack | Phase::Resolving { .. } => Command::ListTracks,
            Phase::Seeking => Command::Seek { track_id: self.selection.track_id },
            Phase::OpeningDecoder => Command::OpenDecoder { track_id: self.selection.track_id },
            Phase::Reading => Command::NextPacket,
            Phase::Decoding { .. } => Command::Decode,
            Phase::OpeningSink { geometry, .. } => Command::OpenSink {
                sink: self.opened,
                geometry,
            },
            Phase::Writing { sink, ts } => Command::Write { sink, ts },
            Phase::Finalizing => Command::Finalize,
            Phase::Flushing => Command::Flush { sink: self.flushed },
            Phase::Stopped => Command::Exit,
        }
    }

    /// The state once the result is settled: the open sinks are flushed in
    /// order, then the session stops.
    pub open spec fn finished(self, result: Result<i32, StreamError>) -> Controller {
        Controller {
            outcome: Some(result),
            phase: if self.flushed < self.opened {
                Phase::Flushing
            } else {
                Phase::Stopped
            },
            ..self
        }
    }

    /// The state after an attempt to play the selected track failed with
    /// `err`: a reset leads to a new selection, anything else ends the
    /// session with `err`.
    pub open spec fn attempt_failed(self, err: StreamError) -> Controller {
        if err.kind == ErrorKind::ResetRequired {
            Controller {
                phase: Phase::Resolving { outcome: SeekOutcome::ResetRequired },
                reset_pending: true,
                ..self
            }
        } else {
            self.finished(Err(err))
        }
    }

    /// The state after the decode loop ended with `err`: the end of the
    /// stream leads to finalization, anything else is a failed attempt.
    pub open spec fn loop_ended(self, err: StreamError) -> Controller {
        if is_end_of_stream(err) {
            Controller { phase: Phase::Finalizing, ..self }
        } else {
            self.attempt_failed(err)
        }
    }

    /// The state once every sink is open for the block with timestamp `ts`:
    /// the block goes to each sink in order if it is not below the seek
    /// floor, else the next packet is read.
    pub open spec fn delivering(self, ts: u64) -> Controller {
        Controller {
            phase: if self.n_sinks > 0 && ts >= self.selection.seek_floor {
                Phase::Writing { sink: 0, ts }
            } else {
                Phase::Reading
            },
            ..self
        }
    }

    /// The state after a block of the given geometry was decoded from the
    /// packet with timestamp `ts`. Open sinks are kept, unless the stream
    /// was reset since and the geometry is another: then they are given up,
    /// unflushed, and every sink is opened anew.
    pub open spec fn decoded(self, ts: u64, geometry: Geometry) -> Controller {
        let discard = self.reset_pending && self.geometry is Some && self.geometry != Some(
            geometry,
        );
        let kept = Controller {
            opened: if discard {
                0
            } else {
                self.opened
            },
            reset_pending: false,
            ..self
        };
        if kept.opened < kept.n_sinks {
            Controller {
                phase: Phase::OpeningSink { ts, geometry },
                geometry: Some(geometry),
                ..kept
            }
        } else {
            kept.delivering(ts)
        }
    }

    /// The state after a new track was selected, or none was found.
    pub open spec fn selecting(self, track: Option<Track>, then: Phase) -> Controller {
        match track {
            Some(t) => Controller {
                selection: PlaybackSelection { track_id: t.id, seek_floor: 0 },
                phase: then,
                ..self
            },
            None => self.finished(Ok(0)),
        }
    }

    /// The state once the selection after a seek or a reset is settled: the
    /// selected track is decoded if the stream has it, else there is nothing
    /// to play.
    pub open spec fn resolving(
        self,
        selection: Option<PlaybackSelection>,
        tracks: Seq<Track>,
    ) -> Controller {
        match selection {
            Some(sel) if find(tracks, sel.track_id) is Some => Controller {
                selection: sel,
                phase: Phase::OpeningDecoder,
                ..self
            },
            _ => self.finished(Ok(0)),
        }
    }

    /// Whether `event` answers the command that the controller waits on.
    pub open spec fn expects(self, event: Event) -> bool {
        match self.phase {
            Phase::SelectingTrack | Phase::Resolving { .. } => event is Tracks,
            Phase::Seeking => event is Seeked || event is Failed,
            Phase::OpeningDecoder => event is DecoderReady || event is Failed,
            Phase::Reading => event is Packet || event is Failed,
            Phase::Decoding { .. } => event is Decoded || event is Failed,
            Phase::OpeningSink { .. } | Phase::Writing { .. } => event is Done || event is Failed,
            Phase::Finalizing => event is Finalized,
            Phase::Flushing => event is Done,
            Phase::Stopped => false,
        }
    }

    /// The state after `event`. An event that does not answer the pending
    /// command changes nothing.
    pub open spec fn next(self, event: Event) -> Controller {
        match (self.phase, event) {
            (Phase::SelectingTrack, Event::Tracks(tracks)) => self.selecting(
                selected(tracks@, self.track_num),
                if self.seek {
                    Phase::Seeking
                } else {
                    Phase::OpeningDecoder
                },
            ),
            (Phase::Seeking, Event::Seeked(required_ts)) => Controller {
                phase: Phase::Resolving { outcome: SeekOutcome::Seeked(required_ts) },
                ..self
            },
            (Phase::Seeking, Event::Failed(err)) => Controller {
                phase: Phase::Resolving { outcome: outcome_of(err) },
                reset_pending: self.reset_pending || err.kind == ErrorKind::ResetRequired,
                ..self
            },
            (Phase::Resolving { outcome }, Event::Tracks(tracks)) => self.resolving(
                resolved(self.selection.track_id, Some(outcome), tracks@),
                tracks@,
            ),
            (Phase::OpeningDecoder, Event::DecoderReady) => Controller {
                phase: Phase::Reading,
                ..self
            },
            (Phase::OpeningDecoder, Event::Failed(err)) => self.attempt_failed(err),
            (Phase::Reading, Event::Packet { track_id, ts }) => if track_id
                == self.selection.track_id {
                Controller { phase: Phase::Decoding { ts }, ..self }
            } else {
                self
            },
            (Phase::Reading, Event::Failed(err)) => self.loop_ended(err),
            (Phase::Decoding { ts }, Event::Decoded { geometry }) => self.decoded(ts, geometry),
            (Phase::Decoding { .. }, Event::Failed(err)) => if err.kind == ErrorKind::Decode {
                Controller { phase: Phase::Reading, ..self }
            } else {
                self.loop_ended(err)
            },
            (Phase::OpeningSink { ts, .. }, Event::Done) => {
                let more = Controller {
                    opened: if self.opened < self.n_sinks {
                        (self.opened + 1) as usize
                    } else {
                        self.opened
                    },
                    ..self
                };
                if more.opened < more.n_sinks {
                    more
                } else {
                    more.delivering(ts)
                }
            },
            (Phase::OpeningSink { .. }, Event::Failed(err)) => self.finished(Err(err)),
            (Phase::Writing { sink, ts }, Event::Done) => if sink + 1 < self.n_sinks {
                Controller { phase: Phase::Writing { sink: (sink + 1) as usize, ts }, ..self }
            } else {
                Controller { phase: Phase::Reading, ..self }
            },
            (Phase::Writing { .. }, Event::Failed(err)) => self.finished(Err(err)),
            (Phase::Finalizing, Event::Finalized(verify_ok)) => self.finished(
                Ok(verification_status(verify_ok)),
            ),
            (Phase::Flushing, Event::Done) => {
                let more = Controller {
                    flushed: if self.flushed < self.opened {
                        (self.flushed + 1) as usize
                    } else {
                        self.flushed
                    },
                    ..self
                };
                if more.flushed < more.opened {
                    more
                } else {
                    Controller { phase: Phase::Stopped, ..more }
                }
            },
            _ => self,
        }
    }

    /// The state after the events of `events`, in order.
    pub open spec fn run(self, events: Seq<Event>) -> Controller
        decreases events.len(),
    {
        if events.len() == 0 {
            self
        } else {
            self.run(events.drop_last()).next(events.last())
        }
    }

    /// What holds of every state that the controller reaches.
    pub open spec fn wf(self) -> bool {
        &&& self.opened <= self.n_sinks
        &&& self.geometry is None ==> self.opened == 0
        &&& self.outcome is Some <==> (self.phase is Flushing || self.phase is Stopped)
        &&& self.outcome is None ==> self.flushed == 0
        &&& match self.phase {
            Phase::OpeningSink { geometry, .. } => self.opened < self.n_sinks && self.geometry
                == Some(geometry),
            Phase::Writing { sink, ts } => sink < self.n_sinks && self.opened == self.n_sinks
                && ts >= self.selection.seek_floor,
            Phase::Flushing => self.flushed < self.opened,
            Phase::Stopped => self.flushed == self.opened,
            Phase::SelectingTrack | Phase::Seeking => self.opened == 0,
            _ => true,
        }
    }

    /// A controller for a session with `n_sinks` sinks. `track_num` is the
    /// index of the track the user asked for, `seek` says whether a seek was
    /// asked for.
    pub fn new(track_num: Option<usize>, seek: bool, n_sinks: usize) -> (ctl: Controller)
        ensures
            ctl == Controller::initial(track_num, seek, n_sinks),
            ctl.wf(),
    {
        Controller {
            track_num,
            seek,
            n_sinks,
            phase: Phase::SelectingTrack,
            selection: PlaybackSelection { track_id: 0, seek_floor: 0 },
            opened: 0,
            flushed: 0,
            geometry: None,
            reset_pending: false,
            outcome: None,
        }
    }

    /// The command that the controller waits on: the first command of a new
    /// controller, and after that the one that the last `step` returned.
    pub fn command(&self) -> (cmd: Command)
        ensures
            cmd == self.pending(),
    {
        match self.phase {
            Phase::SelectingTrack | Phase::Resolving { .. } => Command::ListTracks,
            Phase::Seeking => Command::Seek { track_id: self.selection.track_id },
            Phase::OpeningDecoder => Command::OpenDecoder { track_id: self.selection.track_id },
            Phase::Reading => Command::NextPacket,
            Phase::Decoding { .. } => Command::Decode,
            Phase::OpeningSink { geometry, .. } => Command::OpenSink {
                sink: self.opened,
                geometry,
            },
            Phase::Writing { sink, ts } => Command::Write { sink, ts },
            Phase::Finalizing => Command::Finalize,
            Phase::Flushing => Command::Flush { sink: self.flushed },
            Phase::Stopped => Command::Exit,
        }
    }

    /// The session's result: `None` until it is settled, which it is from
    /// the first flush on.
    pub fn result(&self) -> (out: &Option<Result<i32, StreamError>>)
        ensures
            *out == self.outcome,
    {
        &self.outcome
    }

    fn finish(&mut self, result: Result<i32, StreamError>)
        ensures
            *final(self) == old(self).finished(result),
    {
        self.outcome = Some(result);
        self.phase = if self.flushed < self.opened {
            Phase::Flushing
        } else {
            Phase::Stopped
        };
    }

    fn fail_attempt(&mut self, err: StreamError)
        ensures
            *final(self) == old(self).attempt_failed(err),
    {
        match err.kind {
            ErrorKind::ResetRequired => {
                self.phase = Phase::Resolving { outcome: SeekOutcome::ResetRequired };
                self.reset_pending = true;
            },
            _ => {
                self.finish(Err(err));
            },
        }
    }

    fn end_loop(&mut self, err: StreamError)
        ensures
            *final(self) == old(self).loop_ended(err),
    {
        if end_of_stream(&err) {
            self.phase = Phase::Finalizing;
        } else {
            self.fail_attempt(err);
        }
    }

    fn deliver(&mut self, ts: u64)
        ensures
            *final(self) == old(self).delivering(ts),
    {
        self.phase = if self.n_sinks > 0 && ts >= self.selection.seek_floor {
            Phase::Writing { sink: 0, ts }
        } else {
            Phase::Reading
        };
    }

    fn accept_block(&mut self, ts: u64, geometry: Geometry)
        ensures
            *final(self) == old(self).decoded(ts, geometry),
    {
        let discard = self.reset_pending && match self.geometry {
            Some(g) => g != geometry,
            None => false,
        };
        if discard {
            self.opened = 0;
        }
        self.reset_pending = false;
        if self.opened < self.n_sinks {
            self.phase = Phase::OpeningSink { ts, geometry };
            self.geometry = Some(geometry);
        } else {
            self.deliver(ts);
        }
    }

    fn select(&mut self, track: Option<&Track>, then: Phase)
        ensures
            *final(self) == old(self).selecting(
                match track {
                    Some(t) => Some(*t),
                    None => None,
                },
                then,
            ),
    {
        match track {
            Some(t) => {
                self.selection = PlaybackSelection { track_id: t.id, seek_floor: 0 };
                self.phase = then;
            },
            None => {
                self.finish(Ok(0));
            },
        }
    }

    fn resolve(&mut self, selection: Option<PlaybackSelection>, tracks: &[Track])
        ensures
            *final(self) == old(self).resolving(selection, tracks@),
    {
        match selection {
            Some(sel) => {
                if find_track(tracks, sel.track_id).is_some() {
                    self.selection = sel;
                    self.phase = Phase::OpeningDecoder;
                } else {
                    self.finish(Ok(0));
                }
            },
            None => {
                self.finish(Ok(0));
            },
        }
    }

    /// Takes what the pending command brought and returns the next command.
    /// An event that does not answer the pending command is ignored: the
    /// state stays and the same command is returned again.
    pub fn step(&mut self, event: Event) -> (cmd: Command)
        ensures
            *final(self) == old(self).next(event),
            cmd == final(self).pending(),
            old(self).wf() ==> final(self).wf(),
    {
        let phase = self.phase;
        match event {
            Event::Tracks(tracks) => {
                match phase {
                    Phase::SelectingTrack => {
                        let then = if self.seek {
                            Phase::Seeking
                        } else {
                            Phase::OpeningDecoder
                        };
                        let chosen = select_track(tracks.as_slice(), self.track_num);
                        self.select(chosen, then);
                    },
                    Phase::Resolving { outcome } => {
                        let selection = resolve_seek(
                            self.selection.track_id,
                            Some(outcome),
                            tracks.as_slice(),
                        );
                        self.resolve(selection, tracks.as_slice());
                    },
                    _ => {},
                }
            },
            Event::Seeked(required_ts) => {
                match phase {
                    Phase::Seeking => {
                        self.phase = Phase::Resolving {
                            outcome: SeekOutcome::Seeked(required_ts),
                        };
                    },
                    _ => {},
                }
            },
            Event::DecoderReady => {
                match phase {
                    Phase::OpeningDecoder => {
                        self.phase = Phase::Reading;
                    },
                    _ => {},
                }
            },
            Event::Packet { track_id, ts } => {
                match phase {
                    Phase::Reading => {
                        if track_id == self.selection.track_id {
                            self.phase = Phase::Decoding { ts };
                        }
                    },
                    _ => {},
                }
            },
            Event::Decoded { geometry } => {
                match phase {
                    Phase::Decoding { ts } => {
                        self.accept_block(ts, geometry);
                    },
                    _ => {},
                }
            },
            Event::Done => {
                match phase {
                    Phase::OpeningSink { ts, .. } => {
                        if self.opened < self.n_sinks {
                            self.opened = self.opened + 1;
                        }
                        if self.opened >= self.n_sinks {
                            self.deliver(ts);
                        }
                    },
                    Phase::Writing { sink, ts } => {
                        if sink < self.n_sinks && sink + 1 < self.n_sinks {
                            self.phase = Phase::Writing { sink: sink + 1, ts };
                        } else {
                            self.phase = Phase::Reading;
                        }
                    },
                    Phase::Flushing => {
                        if self.flushed < self.opened {
                            self.flushed = self.flushed + 1;
                        }
                        if self.flushed >= self.opened {
                            self.phase = Phase::Stopped;
                        }
                    },
                    _ => {},
                }
            },
            Event::Finalized(verify_ok) => {
                match phase {
                    Phase::Finalizing => {
                        self.finish(Ok(do_verification(verify_ok)));
                    },
                    _ => {},
                }
            },
            Event::Failed(err) => {
                match phase {
                    Phase::Seeking => {
                        let outcome = classify_failure(&err);
                        match outcome {
                            SeekOutcome::ResetRequired => {
                                self.reset_pending = true;
                            },
                            _ => {},
                        }
                        self.phase = Phase::Resolving { outcome };
                    },
                    Phase::OpeningDecoder => {
                        self.fail_attempt(err);
                    },
                    Phase::Reading => {
                        self.end_loop(err);
                    },
                    Phase::Decoding { .. } => {
                        match err.kind {
                            ErrorKind::Decode => {
                                self.phase = Phase::Reading;
                            },
                            _ => {
                                self.end_loop(err);
                            },
                        }
                    },
                    Phase::OpeningSink { .. } | Phase::Writing { .. } => {
                        self.finish(Err(err));
                    },
                    _ => {},
                }
            },
        }
        self.command()
    }
}

/// Every step keeps the invariant.
pub proof fn lemma_next_wf(c: Controller, event: Event)
    requires
        c.wf(),
    ensures
        c.next(event).wf(),
{
}

/// The invariant holds after any sequence of events.
pub proof fn lemma_run_wf(c: Controller, events: Seq<Event>)
    requires
        c.wf(),
    ensures
        c.run(events).wf(),
    decreases events.len(),
{
    if events.len() > 0 {
        lemma_run_wf(c, events.drop_last());
        lemma_next_wf(c.run(events.drop_last()), events.last());
    }
}

/// An event that does not answer the pending command is ignored.
pub proof fn lemma_unexpected_is_ignored(c: Controller, event: Event)
    requires
        !c.expects(event),
    ensures
        c.next(event) == c,
{
}

/// Whatever the events of a session, a block is handed to a sink only if
/// its timestamp is not below the seek floor of the selection in force, and
/// only once every sink is open.
pub proof fn lemma_no_write_below_floor(
    track_num: Option<usize>,
    seek: bool,
    n_sinks: usize,
    events: Seq<Event>,
)
    ensures
        ({
            let c = Controller::initial(track_num, seek, n_sinks).run(events);
            c.pending() matches Command::Write { sink, ts } ==> ts >= c.selection.seek_floor
                && sink < n_sinks && c.opened == n_sinks
        }),
{
    let start = Controller::initial(track_num, seek, n_sinks);
    lemma_run_wf(start, events);
    lemma_run_fixed(start, events);
}

/// What the user asked for and the number of sinks never change.
pub proof fn lemma_run_fixed(c: Controller, events: Seq<Event>)
    ensures
        c.run(events).n_sinks == c.n_sinks,
        c.run(events).track_num == c.track_num,
        c.run(events).seek == c.seek,
    decreases events.len(),
{
    if events.len() > 0 {
        lemma_run_fixed(c, events.drop_last());
    }
}

/// Whatever the events of a session, it stops only when every sink that
/// was opened has been flushed, and sinks are flushed only once the result
/// is settled.
pub proof fn lemma_stops_flushed(
    track_num: Option<usize>,
    seek: bool,
    n_sinks: usize,
    events: Seq<Event>,
)
    ensures
        ({
            let c = Controller::initial(track_num, seek, n_sinks).run(events);
            &&& c.pending() is Exit ==> c.flushed == c.opened && c.outcome is Some
            &&& c.pending() matches Command::Flush { sink } ==> sink == c.flushed && sink
                < c.opened && c.outcome is Some
            &&& c.outcome is None ==> c.flushed == 0
        }),
{
    lemma_run_wf(Controller::initial(track_num, seek, n_sinks), events);
}

/// The start of a session: the tracks are read first. Where none can be
/// played, the session ends at once with status 0 and no sink is touched.
/// Else the selected track is seeked on, if a seek was asked for, or decoded
/// from its start; and once its decoder is made, packets are read.
pub proof fn lemma_start(track_num: Option<usize>, seek: bool, n_sinks: usize, tracks: Vec<Track>)
    ensures
        ({
            let start = Controller::initial(track_num, seek, n_sinks);
            let chosen = start.next(Event::Tracks(tracks));
            &&& start.wf() && start.pending() == Command::ListTracks
            &&& match selected(tracks@, track_num) {
                None => chosen.pending() == Command::Exit && chosen.outcome == Some(
                    Ok::<i32, StreamError>(0),
                ),
                Some(t) => {
                    &&& chosen.selection == PlaybackSelection { track_id: t.id, seek_floor: 0 }
                    &&& chosen.outcome is None
                    &&& chosen.pending() == if seek {
                        Command::Seek { track_id: t.id }
                    } else {
                        Command::OpenDecoder { track_id: t.id }
                    }
                    &&& !seek ==> chosen.next(Event::DecoderReady).phase is Reading
                        && chosen.next(Event::DecoderReady).selection == chosen.selection
                },
            }
        }),
{
}

/// A reset in the middle of the stream, from the reader or from the decoder,
/// is no failure: the tracks are read again, and the first track with a
/// known codec is played from its start. The sinks that are open stay open,
/// and nothing is settled yet. Where no track has a known codec, the session
/// ends with status 0 once the open sinks are flushed.
pub proof fn lemma_reset_reselects(c: Controller, err: StreamError, tracks: Vec<Track>)
    requires
        c.wf(),
        c.phase is OpeningDecoder || c.phase is Reading || c.phase is Decoding,
        err.kind == ErrorKind::ResetRequired,
    ensures
        ({
            let asked = c.next(Event::Failed(err));
            let after = asked.next(Event::Tracks(tracks));
            &&& asked.pending() == Command::ListTracks
            &&& asked.opened == c.opened && asked.outcome is None
            &&& after.opened == c.opened && after.flushed == 0
            &&& match first_supported(tracks@) {
                Some(t) => {
                    &&& after.selection == PlaybackSelection { track_id: t.id, seek_floor: 0 }
                    &&& after.pending() == Command::OpenDecoder { track_id: t.id }
                    &&& after.outcome is None
                },
                None => {
                    &&& after.outcome == Some(Ok::<i32, StreamError>(0))
                    &&& after.pending() == if c.opened > 0 {
                        Command::Flush { sink: 0 }
                    } else {
                        Command::Exit
                    }
                },
            }
        }),
{
    let asked = c.next(Event::Failed(err));
    assert(asked.phase == Phase::Resolving { outcome: SeekOutcome::ResetRequired });
    match first_supported(tracks@) {
        Some(t) => {
            lemma_first_supported_from(tracks@, 0);
            lemma_position_from(tracks@, t.id, 0);
        },
        None => {},
    }
}

/// The seek resolver in the controller: once a seek was asked for on the
/// selected track, its outcome and the tracks read after it settle the
/// selection as `resolved` says. The track is then decoded if the stream
/// has it; else the session ends with status 0.
pub proof fn lemma_seek_resolves(c: Controller, answer: Event, tracks: Vec<Track>)
    requires
        c.wf(),
        c.phase is Seeking,
        answer is Seeked || answer is Failed,
    ensures
        ({
            let outcome = match answer {
                Event::Seeked(required_ts) => SeekOutcome::Seeked(required_ts),
                Event::Failed(err) => outcome_of(err),
                _ => SeekOutcome::Failed,
            };
            let after = c.next(answer).next(Event::Tracks(tracks));
            let selection = resolved(c.selection.track_id, Some(outcome), tracks@);
            &&& c.next(answer).pending() == Command::ListTracks
            &&& if selection is Some && find(tracks@, selection->0.track_id) is Some {
                after.selection == selection->0 && after.pending() == Command::OpenDecoder {
                    track_id: selection->0.track_id,
                }
            } else {
                after.outcome == Some(Ok::<i32, StreamError>(0)) && after.pending()
                    == Command::Exit
            }
        }),
{
}

} // verus!
