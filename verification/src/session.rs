//! What a whole session does: the controller run against a source that
//! serves its packets in order and sinks that never fail.

use vstd::prelude::*;
use crate::control::{
    lemma_next_wf, lemma_reset_reselects, Command, Controller, Event, Geometry, Phase,
};
use crate::error::{is_end_of_stream, verification_status, ErrorKind, StreamError};
use crate::track::{first_supported, PlaybackSelection, Track};

verus! {

/// One packet of the stream, and what the decoder makes of it.
pub struct Packet {
    pub track_id: u32,
    pub ts: u64,
    /// Whether the decoder decodes the packet; if not, it reports a decode
    /// error for it and goes on.
    pub decodable: bool,
    /// The geometry of the decoded block.
    pub geometry: Geometry,
}

/// A stream that serves `packets` in order and then signals `end`, a decoder
/// that reports `bad` for a packet it cannot decode and `verify_ok` when it
/// is finalized.
pub struct Source {
    pub packets: Seq<Packet>,
    pub end: StreamError,
    pub bad: StreamError,
    pub verify_ok: Option<bool>,
}

impl Source {
    /// The end signal is the end of the stream, and the error for a packet
    /// that cannot be decoded is a decode error.
    pub open spec fn wf(self) -> bool {
        is_end_of_stream(self.end) && self.bad.kind == ErrorKind::Decode
    }

    /// What `cmd` brings when `cursor` packets have been read. `None` for a
    /// command that ends the run: `Exit`, or one that this source does not
    /// serve.
    pub open spec fn answer(self, cmd: Command, cursor: int) -> Option<Event> {
        match cmd {
            Command::NextPacket => Some(
                if 0 <= cursor < self.packets.len() {
                    Event::Packet {
                        track_id: self.packets[cursor].track_id,
                        ts: self.packets[cursor].ts,
                    }
                } else {
                    Event::Failed(self.end)
                },
            ),
            Command::Decode => if 0 < cursor <= self.packets.len() {
                Some(
                    if self.packets[cursor - 1].decodable {
                        Event::Decoded { geometry: self.packets[cursor - 1].geometry }
                    } else {
                        Event::Failed(self.bad)
                    },
                )
            } else {
                None
            },
            Command::OpenSink { .. } | Command::Write { .. } | Command::Flush { .. } => Some(
                Event::Done,
            ),
            Command::Finalize => Some(Event::Finalized(self.verify_ok)),
            _ => None,
        }
    }

    /// The number of packets read after `cmd`.
    pub open spec fn advance(self, cmd: Command, cursor: int) -> int {
        if cmd is NextPacket && 0 <= cursor < self.packets.len() {
            cursor + 1
        } else {
            cursor
        }
    }
}

/// A bound on the number of commands that a controller issues before it
/// needs another packet or stops.
pub open spec fn rank(c: Controller) -> nat {
    match c.phase {
        Phase::Flushing => (1 + c.opened - c.flushed) as nat,
        Phase::Finalizing => (c.n_sinks + 2) as nat,
        Phase::Reading => (c.n_sinks + 3) as nat,
        Phase::Writing { sink, .. } => (2 * c.n_sinks + 4 - sink) as nat,
        Phase::OpeningSink { .. } => (3 * c.n_sinks + 5 - c.opened) as nat,
        Phase::Decoding { .. } => (3 * c.n_sinks + 6) as nat,
        _ => 0,
    }
}

/// The commands that the controller issues from state `c` on, when `cursor`
/// packets of `src` have been read: the pending one, then those that follow
/// from what each command brings, up to `Exit` or a command that `src` does
/// not serve.
pub open spec fn session(c: Controller, src: Source, cursor: int) -> Seq<Command>
    decreases src.packets.len() - cursor, rank(c),
    when c.wf() && 0 <= cursor <= src.packets.len()
    via session_decreases
{
    match src.answer(c.pending(), cursor) {
        Some(event) => seq![c.pending()] + session(
            c.next(event),
            src,
            src.advance(c.pending(), cursor),
        ),
        None => seq![c.pending()],
    }
}

#[via_fn]
proof fn session_decreases(c: Controller, src: Source, cursor: int) {
}

/// The state in which the run of `session` ends.
pub open spec fn session_end(c: Controller, src: Source, cursor: int) -> Controller
    decreases src.packets.len() - cursor, rank(c),
    when c.wf() && 0 <= cursor <= src.packets.len()
    via session_end_decreases
{
    match src.answer(c.pending(), cursor) {
        Some(event) => session_end(c.next(event), src, src.advance(c.pending(), cursor)),
        None => c,
    }
}

#[via_fn]
proof fn session_end_decreases(c: Controller, src: Source, cursor: int) {
}

/// The timestamps of the blocks that `cmds` hands to sink `sink`, in order.
pub open spec fn deliveries(cmds: Seq<Command>, sink: usize) -> Seq<u64>
    decreases cmds.len(),
{
    if cmds.len() == 0 {
        Seq::empty()
    } else {
        match cmds[0] {
            Command::Write { sink: s, ts } if s == sink => seq![ts] + deliveries(
                cmds.drop_first(),
                sink,
            ),
            _ => deliveries(cmds.drop_first(), sink),
        }
    }
}

/// How often `cmds` opens sink `sink`.
pub open spec fn opens(cmds: Seq<Command>, sink: usize) -> nat
    decreases cmds.len(),
{
    if cmds.len() == 0 {
        0
    } else {
        match cmds[0] {
            Command::OpenSink { sink: s, .. } if s == sink => 1 + opens(cmds.drop_first(), sink),
            _ => opens(cmds.drop_first(), sink),
        }
    }
}

/// How often `cmds` flushes sink `sink`.
pub open spec fn flushes(cmds: Seq<Command>, sink: usize) -> nat
    decreases cmds.len(),
{
    if cmds.len() == 0 {
        0
    } else {
        match cmds[0] {
            Command::Flush { sink: s } if s == sink => 1 + flushes(cmds.drop_first(), sink),
            _ => flushes(cmds.drop_first(), sink),
        }
    }
}

/// Whether the packet belongs to the selected track and is decoded.
pub open spec fn plays(p: Packet, sel: PlaybackSelection) -> bool {
    p.track_id == sel.track_id && p.decodable
}

/// The timestamps of the packets from number `cursor` on that belong to the
/// selected track, are decoded and are not below the seek floor, in order.
pub open spec fn expected(packets: Seq<Packet>, cursor: int, sel: PlaybackSelection) -> Seq<u64>
    decreases packets.len() - cursor,
{
    if cursor < 0 || cursor >= packets.len() {
        Seq::empty()
    } else if plays(packets[cursor], sel) && packets[cursor].ts >= sel.seek_floor {
        seq![packets[cursor].ts] + expected(packets, cursor + 1, sel)
    } else {
        expected(packets, cursor + 1, sel)
    }
}

/// Whether some packet from number `cursor` on belongs to the selected track
/// and is decoded.
pub open spec fn any_plays(packets: Seq<Packet>, cursor: int, sel: PlaybackSelection) -> bool
    decreases packets.len() - cursor,
{
    0 <= cursor < packets.len() && (plays(packets[cursor], sel) || any_plays(
        packets,
        cursor + 1,
        sel,
    ))
}

proof fn lemma_unfold(c: Controller, src: Source, cursor: int)
    requires
        c.wf(),
        0 <= cursor <= src.packets.len(),
    ensures
        session(c, src, cursor).len() > 0,
        session(c, src, cursor)[0] == c.pending(),
        session(c, src, cursor).drop_first() == match src.answer(c.pending(), cursor) {
            Some(event) => session(c.next(event), src, src.advance(c.pending(), cursor)),
            None => Seq::<Command>::empty(),
        },
{
    match src.answer(c.pending(), cursor) {
        Some(event) => {
            let rest = session(c.next(event), src, src.advance(c.pending(), cursor));
            assert((seq![c.pending()] + rest).drop_first() =~= rest);
        },
        None => {
            assert(seq![c.pending()].drop_first() =~= Seq::<Command>::empty());
        },
    }
}

/// What is still due to sink `sink` in state `c`: the block in hand, where
/// it is yet to reach the sink, then what the packets to come bring.
pub open spec fn due(c: Controller, src: Source, cursor: int, sink: usize) -> Seq<u64> {
    let rest = expected(src.packets, cursor, c.selection);
    match c.phase {
        Phase::Reading => rest,
        Phase::Decoding { ts } => if src.packets[cursor - 1].decodable && ts
            >= c.selection.seek_floor {
            seq![ts] + rest
        } else {
            rest
        },
        Phase::OpeningSink { ts, .. } => if ts >= c.selection.seek_floor {
            seq![ts] + rest
        } else {
            rest
        },
        Phase::Writing { sink: s, ts } => if s <= sink {
            seq![ts] + rest
        } else {
            rest
        },
        _ => Seq::empty(),
    }
}

/// From any state of the decode loop on, each sink is handed exactly what is
/// due to it.
pub proof fn lemma_deliveries(c: Controller, src: Source, cursor: int, sink: usize)
    requires
        c.wf(),
        src.wf(),
        0 <= cursor <= src.packets.len(),
        c.phase is Decoding ==> cursor > 0,
        sink < c.n_sinks,
    ensures
        deliveries(session(c, src, cursor), sink) == due(c, src, cursor, sink),
    decreases src.packets.len() - cursor, rank(c),
{
    lemma_unfold(c, src, cursor);
    lemma_next_wf_of(c, src, cursor);
    match src.answer(c.pending(), cursor) {
        Some(event) => {
            let next = c.next(event);
            let at = src.advance(c.pending(), cursor);
            if c.phase is Reading || c.phase is Decoding || c.phase is OpeningSink
                || c.phase is Writing || c.phase is Finalizing || c.phase is Flushing {
                lemma_deliveries(next, src, at, sink);
            }
        },
        None => {
            assert(deliveries(Seq::<Command>::empty(), sink) =~= Seq::<u64>::empty());
        },
    }
}

proof fn lemma_next_wf_of(c: Controller, src: Source, cursor: int)
    requires
        c.wf(),
    ensures
        src.answer(c.pending(), cursor) matches Some(event) ==> c.next(event).wf(),
{
}

/// In a session without failures of the source, the decoder or the sinks,
/// and without a reset, every sink is handed the same blocks: those of the
/// selected track that were decoded and are not below the seek floor, each
/// once and in the order of their packets.
pub proof fn lemma_session_delivers(c: Controller, src: Source, sink: usize)
    requires
        c.wf(),
        src.wf(),
        c.phase is Reading,
        sink < c.n_sinks,
    ensures
        deliveries(session(c, src, 0), sink) == expected(src.packets, 0, c.selection),
{
    lemma_deliveries(c, src, 0, sink);
}

/// How often sink `sink` is still to be opened in state `c`.
pub open spec fn opens_due(c: Controller, src: Source, cursor: int, sink: usize) -> nat {
    if sink < c.opened {
        0
    } else {
        match c.phase {
            Phase::Reading => if any_plays(src.packets, cursor, c.selection) {
                1
            } else {
                0
            },
            Phase::Decoding { .. } => if src.packets[cursor - 1].decodable || any_plays(
                src.packets,
                cursor,
                c.selection,
            ) {
                1
            } else {
                0
            },
            Phase::OpeningSink { .. } => 1,
            _ => 0,
        }
    }
}

/// From any state of the decode loop on, without a reset, a sink that is
/// open is not opened again, and one that is not is opened once, when the
/// first block is decoded.
pub proof fn lemma_opens(c: Controller, src: Source, cursor: int, sink: usize)
    requires
        c.wf(),
        src.wf(),
        0 <= cursor <= src.packets.len(),
        c.phase is Decoding ==> cursor > 0,
        sink < c.n_sinks,
        !c.reset_pending,
    ensures
        opens(session(c, src, cursor), sink) == opens_due(c, src, cursor, sink),
    decreases src.packets.len() - cursor, rank(c),
{
    lemma_unfold(c, src, cursor);
    lemma_next_wf_of(c, src, cursor);
    match src.answer(c.pending(), cursor) {
        Some(event) => {
            let next = c.next(event);
            let at = src.advance(c.pending(), cursor);
            if c.phase is Reading || c.phase is Decoding || c.phase is OpeningSink
                || c.phase is Writing || c.phase is Finalizing || c.phase is Flushing {
                lemma_opens(next, src, at, sink);
            }
        },
        None => {},
    }
}

/// Sink construction happens once: in a session without failures and
/// without a reset, each sink is opened exactly once if some packet of the
/// selected track is decoded, however many are, and never otherwise.
pub proof fn lemma_session_opens_once(c: Controller, src: Source, sink: usize)
    requires
        c.wf(),
        src.wf(),
        c.phase is Reading,
        c.opened == 0,
        !c.reset_pending,
        sink < c.n_sinks,
    ensures
        opens(session(c, src, 0), sink) == if any_plays(src.packets, 0, c.selection) {
            1nat
        } else {
            0nat
        },
{
    lemma_opens(c, src, 0, sink);
}

/// The commands that close a session with `opened` open sinks of which
/// `flushed` are flushed already: a flush for each of the others, in order,
/// then `Exit`.
pub open spec fn closing(flushed: usize, opened: usize) -> Seq<Command> {
    Seq::new((opened - flushed) as nat, |i: int| Command::Flush { sink: (flushed + i) as usize })
        + seq![Command::Exit]
}

/// Once the result is settled, whatever it is, the sinks that are open are
/// flushed, each once and in order, and then the session stops with that
/// result.
pub proof fn lemma_closing(c: Controller, src: Source, cursor: int)
    requires
        c.wf(),
        0 <= cursor <= src.packets.len(),
        c.phase is Flushing || c.phase is Stopped,
    ensures
        session(c, src, cursor) == closing(c.flushed, c.opened),
        session_end(c, src, cursor) == (Controller {
            flushed: c.opened,
            phase: Phase::Stopped,
            ..c
        }),
    decreases c.opened - c.flushed,
{
    if c.phase is Flushing {
        let next = c.next(Event::Done);
        lemma_closing(next, src, cursor);
        assert(session(c, src, cursor) =~= closing(c.flushed, c.opened));
    } else {
        assert(session(c, src, cursor) =~= closing(c.flushed, c.opened));
    }
}

/// A fatal failure ends the session with that failure as its result, after
/// the open sinks are flushed: a failure of a sink, and a failure of the
/// reader or the decoder that is neither the end of the stream, nor a reset,
/// nor a decode error of one packet.
pub proof fn lemma_fatal_propagates(c: Controller, src: Source, cursor: int, err: StreamError)
    requires
        c.wf(),
        0 <= cursor <= src.packets.len(),
        err.kind != ErrorKind::ResetRequired,
        c.phase is OpeningDecoder || c.phase is OpeningSink || c.phase is Writing || ((
        c.phase is Reading || c.phase is Decoding) && !is_end_of_stream(err)),
        c.phase is Decoding ==> err.kind != ErrorKind::Decode,
    ensures
        c.next(Event::Failed(err)) == c.finished(Err(err)),
        session(c.next(Event::Failed(err)), src, cursor) == closing(0, c.opened),
        session_end(c.next(Event::Failed(err)), src, cursor).outcome == Some(
            Err::<i32, StreamError>(err),
        ),
{
    lemma_closing(c.next(Event::Failed(err)), src, cursor);
}

/// The number of sinks that are open when the session that goes on from
/// state `c` ends.
pub open spec fn opened_at_end(c: Controller, src: Source, cursor: int) -> usize {
    match c.phase {
        Phase::Reading => if any_plays(src.packets, cursor, c.selection) {
            c.n_sinks
        } else {
            c.opened
        },
        Phase::Decoding { .. } => if src.packets[cursor - 1].decodable || any_plays(
            src.packets,
            cursor,
            c.selection,
        ) {
            c.n_sinks
        } else {
            c.opened
        },
        Phase::OpeningSink { .. } | Phase::Writing { .. } => c.n_sinks,
        _ => c.opened,
    }
}

/// Whether the last commands of `cmds` are those of `tail`.
pub open spec fn ends_with(cmds: Seq<Command>, tail: Seq<Command>) -> bool {
    cmds.len() >= tail.len() && cmds.subrange(cmds.len() - tail.len(), cmds.len() as int) == tail
}

/// From any state of the decode loop on, a session without failures runs to
/// its end: the decoder is finalized, every open sink is flushed once, in
/// order and after everything else, and the session stops with the status
/// of the verification outcome.
pub proof fn lemma_completes(c: Controller, src: Source, cursor: int, sink: usize)
    requires
        c.wf(),
        src.wf(),
        0 <= cursor <= src.packets.len(),
        c.phase is Decoding ==> cursor > 0,
        c.phase is Reading || c.phase is Decoding || c.phase is OpeningSink || c.phase is Writing
            || c.phase is Finalizing,
    ensures
        ({
            let end = session_end(c, src, cursor);
            &&& end.phase is Stopped
            &&& end.outcome == Some(Ok::<i32, StreamError>(verification_status(src.verify_ok)))
            &&& end.opened == opened_at_end(c, src, cursor)
            &&& end.flushed == end.opened
            &&& end.selection == c.selection
        }),
        ends_with(
            session(c, src, cursor),
            seq![Command::Finalize] + closing(0, opened_at_end(c, src, cursor)),
        ),
        flushes(session(c, src, cursor), sink) == if sink < opened_at_end(c, src, cursor) {
            1nat
        } else {
            0nat
        },
    decreases src.packets.len() - cursor, rank(c),
{
    lemma_unfold(c, src, cursor);
    lemma_next_wf_of(c, src, cursor);
    let event = src.answer(c.pending(), cursor)->0;
    let next = c.next(event);
    let at = src.advance(c.pending(), cursor);
    let rest = session(next, src, at);
    let all = session(c, src, cursor);
    assert(all =~= seq![c.pending()] + rest);
    if c.phase is Finalizing {
        lemma_closing(next, src, at);
        lemma_flushes_closing(0, c.opened, sink);
        assert(all.subrange(0, all.len() as int) =~= all);
    } else {
        lemma_completes(next, src, at, sink);
        let tail = seq![Command::Finalize] + closing(0, opened_at_end(c, src, cursor));
        assert(all.subrange(all.len() - tail.len(), all.len() as int) =~= rest.subrange(
            rest.len() - tail.len(),
            rest.len() as int,
        ));
    }
}

/// The closing commands flush each sink that is still to be flushed once.
pub proof fn lemma_flushes_closing(flushed: usize, opened: usize, sink: usize)
    requires
        flushed <= opened,
    ensures
        flushes(closing(flushed, opened), sink) == if flushed <= sink < opened {
            1nat
        } else {
            0nat
        },
    decreases opened - flushed,
{
    let all = closing(flushed, opened);
    if flushed < opened {
        lemma_flushes_closing((flushed + 1) as usize, opened, sink);
        assert(all[0] == Command::Flush { sink: flushed });
        assert(all.drop_first() =~= closing((flushed + 1) as usize, opened));
    } else {
        assert(all[0] == Command::Exit);
        assert(all.drop_first() =~= Seq::<Command>::empty());
        assert(flushes(Seq::<Command>::empty(), sink) == 0);
    }
}

/// A session without failures of the source, the decoder or the sinks ends
/// when the source signals the end of the stream: with status 1 if the
/// decoder's verification failed, else 0, and with every sink that was
/// opened flushed exactly once, after the last block was delivered.
pub proof fn lemma_session_completes(c: Controller, src: Source, sink: usize)
    requires
        c.wf(),
        src.wf(),
        c.phase is Reading,
    ensures
        session_end(c, src, 0).phase is Stopped,
        session_end(c, src, 0).outcome == Some(
            Ok::<i32, StreamError>(verification_status(src.verify_ok)),
        ),
        ends_with(
            session(c, src, 0),
            seq![Command::Finalize] + closing(0, opened_at_end(c, src, 0)),
        ),
        flushes(session(c, src, 0), sink) == if sink < opened_at_end(c, src, 0) {
            1nat
        } else {
            0nat
        },
{
    lemma_completes(c, src, 0, sink);
}

/// A session with a reset in it. When the reader or the decoder asks for a
/// reset and the tracks read after it hold one with a known codec, decoding
/// goes on with the first such track, from its start, and with the sinks
/// that were open. What follows is a session like any other: every sink is
/// handed the decoded blocks of the new track, all of them and in order, and
/// at the end every sink that was open at the reset, or was opened since, is
/// flushed exactly once before the session stops with the status of the
/// verification outcome.
pub proof fn lemma_session_after_reset(
    c: Controller,
    err: StreamError,
    tracks: Vec<Track>,
    src: Source,
    sink: usize,
)
    requires
        c.wf(),
        c.phase is OpeningDecoder || c.phase is Reading || c.phase is Decoding,
        err.kind == ErrorKind::ResetRequired,
        first_supported(tracks@) is Some,
        src.wf(),
    ensures
        ({
            let resumed = c.next(Event::Failed(err)).next(Event::Tracks(tracks)).next(
                Event::DecoderReady,
            );
            let run = session(resumed, src, 0);
            let end = session_end(resumed, src, 0);
            &&& resumed.phase is Reading
            &&& resumed.selection == PlaybackSelection {
                track_id: first_supported(tracks@)->0.id,
                seek_floor: 0,
            }
            &&& resumed.opened == c.opened
            &&& sink < c.n_sinks ==> deliveries(run, sink) == expected(
                src.packets,
                0,
                resumed.selection,
            )
            &&& end.phase is Stopped && end.flushed == end.opened && end.opened >= c.opened
            &&& end.outcome == Some(Ok::<i32, StreamError>(verification_status(src.verify_ok)))
            &&& flushes(run, sink) == if sink < end.opened {
                1nat
            } else {
                0nat
            }
        }),
{
    let asked = c.next(Event::Failed(err));
    let chosen = asked.next(Event::Tracks(tracks));
    let resumed = chosen.next(Event::DecoderReady);
    lemma_reset_reselects(c, err, tracks);
    lemma_next_wf(c, Event::Failed(err));
    lemma_next_wf(asked, Event::Tracks(tracks));
    lemma_next_wf(chosen, Event::DecoderReady);
    if sink < c.n_sinks {
        lemma_deliveries(resumed, src, 0, sink);
    }
    lemma_completes(resumed, src, 0, sink);
}

} // verus!
